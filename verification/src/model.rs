//! Plain application-model helpers around the core: the user-editable
//! configuration options, the display rows built from the account
//! listing, and the wrap-around table selection arithmetic.
use vstd::prelude::*;

use crate::directory::AccountInfo;
use crate::text::str_eq;

verus! {

/// One display row of the account table.
#[derive(Clone, Debug, PartialEq, Eq)]
pub struct AccountRow {
    pub account_name: String,
    pub account_id: String,
    pub roles: Vec<String>,
}

/// One user-editable configuration option.
#[derive(Clone, Debug, PartialEq, Eq)]
pub struct ConfigOption {
    pub name: String,
    pub value: String,
}

/// The user-editable configuration: a list of named options.
#[derive(Clone, Debug, PartialEq, Eq)]
pub struct ConfigOptions {
    pub options: Vec<ConfigOption>,
}

/// The value of the first option named `name`, if any.
pub open spec fn spec_get_option(options: Seq<ConfigOption>, name: Seq<char>) -> Option<Seq<char>>
    decreases options.len(),
{
    if options.len() == 0 {
        None
    } else if options[0].name@ == name {
        Some(options[0].value@)
    } else {
        spec_get_option(options.drop_first(), name)
    }
}

impl ConfigOptions {
    /// The value of the first option named `name`, if any.
    pub fn get(&self, name: &str) -> (r: Option<String>)
        ensures
            match r {
                Some(v) => spec_get_option(self.options@, name@) == Some(v@),
                None => spec_get_option(self.options@, name@) is None,
            },
    {
        let mut i: usize = 0;
        proof {
            assert(self.options@.skip(0) =~= self.options@);
        }
        loop
            invariant
                i <= self.options@.len(),
                spec_get_option(self.options@, name@) == spec_get_option(
                    self.options@.skip(i as int),
                    name@,
                ),
            decreases self.options@.len() - i,
        {
            if i == self.options.len() {
                proof {
                    assert(self.options@.skip(i as int) =~= Seq::<ConfigOption>::empty());
                }
                return None;
            }
            proof {
                assert(self.options@.skip(i as int)[0] == self.options@[i as int]);
                assert(self.options@.skip(i as int).drop_first() =~= self.options@.skip(i + 1));
            }
            if str_eq(self.options[i].name.as_str(), name) {
                return Some(self.options[i].value.clone());
            }
            i += 1;
        }
    }

    /// The configuration with every option's value replaced by the
    /// like-named option of `loaded`, where one exists; options that
    /// `loaded` does not name keep their value.
    pub fn merged(&self, loaded: &ConfigOptions) -> (r: ConfigOptions)
        ensures
            r.options@.len() == self.options@.len(),
            forall|k: int|
                0 <= k < self.options@.len() ==> (#[trigger] r.options@[k]).name@
                    == self.options@[k].name@ && r.options@[k].value@ == (match spec_get_option(
                    loaded.options@,
                    self.options@[k].name@,
                ) {
                    Some(v) => v,
                    None => self.options@[k].value@,
                }),
    {
        let mut out: Vec<ConfigOption> = Vec::new();
        let mut i: usize = 0;
        while i < self.options.len()
            invariant
                i <= self.options@.len(),
                out@.len() == i,
                forall|k: int|
                    0 <= k < i ==> (#[trigger] out@[k]).name@ == self.options@[k].name@
                        && out@[k].value@ == (match spec_get_option(
                        loaded.options@,
                        self.options@[k].name@,
                    ) {
                        Some(v) => v,
                        None => self.options@[k].value@,
                    }),
            decreases self.options@.len() - i,
        {
            let name = self.options[i].name.clone();
            let value = match loaded.get(name.as_str()) {
                Some(v) => v,
                None => self.options[i].value.clone(),
            };
            out.push(ConfigOption { name, value });
            i += 1;
        }
        ConfigOptions { options: out }
    }
}

/// The configuration a fresh run starts from: an empty start URL, the
/// given credentials-file directory, and the default region.
pub fn default_config_options(aws_config_path: &str) -> (r: ConfigOptions)
    ensures
        r.options@.len() == 3,
        r.options@[0].name@ == "start_url"@ && r.options@[0].value@ == ""@,
        r.options@[1].name@ == "aws_config_path"@ && r.options@[1].value@ == aws_config_path@,
        r.options@[2].name@ == "region"@ && r.options@[2].value@ == "us-east-1"@,
{
    let mut options: Vec<ConfigOption> = Vec::new();
    options.push(
        ConfigOption { name: String::from_str("start_url"), value: String::from_str("") },
    );
    options.push(
        ConfigOption {
            name: String::from_str("aws_config_path"),
            value: aws_config_path.to_owned(),
        },
    );
    options.push(
        ConfigOption { name: String::from_str("region"), value: String::from_str("us-east-1") },
    );
    ConfigOptions { options }
}

/// The display rows of the account listing, in the same order.
pub fn account_rows(accounts: &Vec<AccountInfo>) -> (r: Vec<AccountRow>)
    ensures
        r@.len() == accounts@.len(),
        forall|k: int|
            0 <= k < accounts@.len() ==> (#[trigger] r@[k]).account_name@
                == accounts@[k].account_name@ && r@[k].account_id@ == accounts@[k].account_id@
                && r@[k].roles@ == accounts@[k].roles@,
{
    let mut out: Vec<AccountRow> = Vec::new();
    let mut i: usize = 0;
    while i < accounts.len()
        invariant
            i <= accounts@.len(),
            out@.len() == i,
            forall|k: int|
                0 <= k < i ==> (#[trigger] out@[k]).account_name@ == accounts@[k].account_name@
                    && out@[k].account_id@ == accounts@[k].account_id@ && out@[k].roles@
                    == accounts@[k].roles@,
        decreases accounts@.len() - i,
    {
        out.push(
            AccountRow {
                account_name: accounts[i].account_name.clone(),
                account_id: accounts[i].account_id.clone(),
                roles: accounts[i].roles.clone(),
            },
        );
        proof {
            assert(out@[i as int].roles@ == accounts@[i as int].roles@);
        }
        i += 1;
    }
    out
}

/// The row selected after a move down: the next row, wrapping from
/// the last row to the first; the first row when nothing is selected.
pub fn next_index(selected: Option<usize>, len: usize) -> (r: usize)
    requires
        len > 0,
    ensures
        r < len,
        r == (match selected {
            Some(i) => if i >= len - 1 {
                0int
            } else {
                i + 1
            },
            None => 0int,
        }),
{
    match selected {
        Some(i) => if i >= len - 1 {
            0
        } else {
            i + 1
        },
        None => 0,
    }
}

/// The row selected after a move up: the previous row, wrapping from
/// the first row to the last; the first row when nothing is selected.
pub fn previous_index(selected: Option<usize>, len: usize) -> (r: usize)
    requires
        len > 0,
        selected matches Some(i) ==> i < len,
    ensures
        r < len,
        r == (match selected {
            Some(i) => if i == 0 {
                len - 1
            } else {
                i - 1
            },
            None => 0int,
        }),
{
    match selected {
        Some(i) => if i == 0 {
            len - 1
        } else {
            i - 1
        },
        None => 0,
    }
}

} // verus!
