//! The account directory: accounts and roles reachable under an
//! access token.  The surrounding application fetches the provider's
//! rows; every decision about them is made here: malformed rows are
//! rejected, authorization failures become `TokenExpired`, and the
//! account list is sorted by `(account_name, account_id)` — a
//! contract, not an implementation detail, since display code depends
//! on a stable order across refreshes.
use vstd::prelude::*;

use crate::errors::DirectoryError;
use crate::text::chars_of;
use crate::text::lemma_lex_le_antisymmetric;
use crate::text::lemma_lex_le_total;
use crate::text::lemma_lex_le_transitive;
use crate::text::lex_le;
use crate::text::lex_le_str;
use crate::text::string_of;

verus! {

/// An account reachable under an access token.  `roles` stays empty
/// until the roles of this account are listed: listing accounts does
/// not list roles.
#[derive(Clone, Debug, PartialEq, Eq)]
pub struct AccountInfo {
    pub account_name: String,
    pub account_id: String,
    pub roles: Vec<String>,
}

/// What the account directory orders and compares: the name and id.
pub open spec fn account_view(a: AccountInfo) -> (Seq<char>, Seq<char>) {
    (a.account_name@, a.account_id@)
}

/// The names and ids of a sequence of accounts, in order.
pub open spec fn account_views(s: Seq<AccountInfo>) -> Seq<(Seq<char>, Seq<char>)> {
    s.map_values(|a: AccountInfo| account_view(a))
}

/// The display order of accounts: by name, then by id.
pub open spec fn account_le(a: AccountInfo, b: AccountInfo) -> bool {
    if a.account_name@ != b.account_name@ {
        lex_le(a.account_name@, b.account_name@)
    } else {
        lex_le(a.account_id@, b.account_id@)
    }
}

/// The account order is total.
pub proof fn lemma_account_le_total(a: AccountInfo, b: AccountInfo)
    ensures
        account_le(a, b) || account_le(b, a),
{
    lemma_lex_le_total(a.account_name@, b.account_name@);
    lemma_lex_le_total(a.account_id@, b.account_id@);
}

/// The account order is transitive.
pub proof fn lemma_account_le_transitive(a: AccountInfo, b: AccountInfo, c: AccountInfo)
    requires
        account_le(a, b),
        account_le(b, c),
    ensures
        account_le(a, c),
{
    let na = a.account_name@;
    let nb = b.account_name@;
    let nc = c.account_name@;
    if na == nb && nb == nc {
        lemma_lex_le_transitive(a.account_id@, b.account_id@, c.account_id@);
    } else if na == nb {
    } else if nb == nc {
    } else {
        lemma_lex_le_transitive(na, nb, nc);
        if na == nc {
            lemma_lex_le_antisymmetric(na, nb);
        }
    }
}

/// Decides the account order.
fn account_le_exec(a: &AccountInfo, b: &AccountInfo) -> (r: bool)
    ensures
        r == account_le(*a, *b),
{
    if a.account_name == b.account_name {
        lex_le_str(a.account_id.as_str(), b.account_id.as_str())
    } else {
        lex_le_str(a.account_name.as_str(), b.account_name.as_str())
    }
}

/// Whether `s` is sorted by `(account_name, account_id)`.
pub open spec fn accounts_sorted(s: Seq<AccountInfo>) -> bool {
    forall|i: int, j: int|
        0 <= i < j < s.len() ==> account_le(#[trigger] s[i], #[trigger] s[j])
}

/// Inserts `item` in front of the first entry it does not follow,
/// keeping the vector sorted.
fn insert_sorted(out: &mut Vec<AccountInfo>, item: AccountInfo)
    requires
        accounts_sorted(old(out)@),
    ensures
        accounts_sorted(final(out)@),
        account_views(final(out)@).to_multiset() == account_views(old(out)@).to_multiset().insert(
            account_view(item),
        ),
        final(out)@.to_multiset() == old(out)@.to_multiset().insert(item),
{
    let mut j: usize = 0;
    loop
        invariant
            j <= out@.len(),
            accounts_sorted(out@),
            forall|k: int| 0 <= k < j ==> account_le(#[trigger] out@[k], item),
        ensures
            j <= out@.len(),
            forall|k: int| 0 <= k < j ==> account_le(#[trigger] out@[k], item),
            j == out@.len() || account_le(item, out@[j as int]),
        decreases out@.len() - j,
    {
        if j == out.len() {
            break;
        }
        if !account_le_exec(&out[j], &item) {
            proof {
                lemma_account_le_total(out@[j as int], item);
            }
            break;
        }
        j += 1;
    }
    let ghost pre = out@;
    let ghost jj: int = j as int;
    out.insert(j, item);
    proof {
        assert forall|p: int, q: int|
            0 <= p < q < out@.len() implies account_le(#[trigger] out@[p], #[trigger] out@[q]) by {
            let x = if p < jj {
                pre[p]
            } else if p == jj {
                item
            } else {
                pre[p - 1]
            };
            let y = if q < jj {
                pre[q]
            } else if q == jj {
                item
            } else {
                pre[q - 1]
            };
            assert(out@[p] == x);
            assert(out@[q] == y);
            if p == jj && q > jj {
                if q - 1 > jj {
                    lemma_account_le_transitive(item, pre[jj], pre[q - 1]);
                }
            } else if p < jj && q > jj {
                if jj < pre.len() && q - 1 > jj {
                    lemma_account_le_transitive(pre[p], pre[jj], pre[q - 1]);
                }
            }
        }
        assert(account_views(out@) =~= account_views(pre).insert(jj, account_view(item)));
        vstd::seq_lib::to_multiset_insert(account_views(pre), jj, account_view(item));
        vstd::seq_lib::to_multiset_insert(pre, jj, item);
    }
}

/// Sorts accounts by `(account_name, account_id)`.  The result is a
/// permutation of the input: the same accounts come back, in display
/// order, whatever order the provider returned them in.
pub fn sort_accounts(input: Vec<AccountInfo>) -> (r: Vec<AccountInfo>)
    ensures
        accounts_sorted(r@),
        account_views(r@).to_multiset() == account_views(input@).to_multiset(),
        r@.to_multiset() == input@.to_multiset(),
{
    let mut rest = input;
    let mut out: Vec<AccountInfo> = Vec::new();
    proof {
        broadcast use vstd::multiset::group_multiset_axioms;

        vstd::seq_lib::lemma_multiset_commutative(account_views(out@), account_views(rest@));
        assert(account_views(out@) + account_views(rest@) =~= account_views(input@));
        vstd::seq_lib::lemma_multiset_commutative(out@, rest@);
        assert(out@ + rest@ =~= input@);
    }
    while rest.len() > 0
        invariant
            accounts_sorted(out@),
            account_views(out@).to_multiset().add(account_views(rest@).to_multiset())
                == account_views(input@).to_multiset(),
            out@.to_multiset().add(rest@.to_multiset()) == input@.to_multiset(),
        decreases rest@.len(),
    {
        let ghost rest0 = rest@;
        let item = match rest.pop() {
            Some(x) => x,
            None => {
                // The loop condition keeps the vector nonempty; this
                // branch is proved unreachable.
                proof {
                    assert(false);
                }
                return out;
            },
        };
        let ghost out0 = out@;
        insert_sorted(&mut out, item);
        proof {
            broadcast use vstd::seq_lib::group_to_multiset_ensures;
            broadcast use vstd::multiset::group_multiset_axioms;

            assert(account_views(rest0) =~= account_views(rest@).push(account_view(item)));
            assert(account_views(rest0).to_multiset() =~= account_views(
                rest@,
            ).to_multiset().insert(account_view(item)));
            assert(account_views(out@).to_multiset().add(account_views(rest@).to_multiset())
                =~= account_views(input@).to_multiset());
            assert(rest0 =~= rest@.push(item));
            assert(rest0.to_multiset() =~= rest@.to_multiset().insert(item));
            assert(out@.to_multiset().add(rest@.to_multiset()) =~= input@.to_multiset());
        }
    }
    proof {
        broadcast use vstd::seq_lib::group_to_multiset_ensures;
        broadcast use vstd::multiset::group_multiset_axioms;

        assert(account_views(rest@) =~= Seq::<(Seq<char>, Seq<char>)>::empty());
        assert(account_views(out@).to_multiset() =~= account_views(input@).to_multiset());
        assert(out@.to_multiset() =~= input@.to_multiset());
    }
    out
}

/// What a provider call came back with: its rows, a rejection of the
/// access token itself, or a transport failure.
pub enum ProviderResponse<T> {
    Success(T),
    Unauthorized,
    Unavailable,
}

/// One account row as the provider returned it, before any checking.
pub struct RawAccount {
    pub account_id: Option<String>,
    pub account_name: Option<String>,
}

/// The name and id a raw row stands for: a missing name reads as
/// `unknown`, a missing id makes the row malformed.
pub open spec fn spec_raw_view(raw: RawAccount) -> (Seq<char>, Seq<char>) {
    (
        match raw.account_name {
            Some(n) => n@,
            None => "unknown"@,
        },
        match raw.account_id {
            Some(i) => i@,
            None => Seq::empty(),
        },
    )
}

/// The names and ids a sequence of raw rows stands for, in order.
pub open spec fn raw_views(s: Seq<RawAccount>) -> Seq<(Seq<char>, Seq<char>)> {
    s.map_values(|raw: RawAccount| spec_raw_view(raw))
}

/// Turns the provider's account rows into the directory listing:
/// sorted by `(account_name, account_id)`, the same rows the provider
/// returned, each with an empty role list.  A row without an account
/// id is a malformed response; an authorization failure reads as an
/// expired token, to be cured by a forced re-authorization.
#[verifier::loop_isolation(false)]
pub fn list_accounts(response: ProviderResponse<Vec<RawAccount>>) -> (r: Result<
    Vec<AccountInfo>,
    DirectoryError,
>)
    ensures
        match r {
            Ok(accounts) => {
                &&& response matches ProviderResponse::Success(rows)
                &&& forall|k: int|
                    0 <= k < rows@.len() ==> (#[trigger] rows@[k]).account_id is Some
                &&& accounts_sorted(accounts@)
                &&& account_views(accounts@).to_multiset() == raw_views(rows@).to_multiset()
                &&& forall|k: int|
                    0 <= k < accounts@.len() ==> (#[trigger] accounts@[k]).roles@.len() == 0
            },
            Err(e) => match response {
                ProviderResponse::Success(rows) => e == DirectoryError::MalformedResponse
                    && exists|k: int|
                    0 <= k < rows@.len() && (#[trigger] rows@[k]).account_id is None,
                ProviderResponse::Unauthorized => e == DirectoryError::TokenExpired,
                ProviderResponse::Unavailable => e == DirectoryError::ProviderUnavailable,
            },
        },
{
    let rows = match response {
        ProviderResponse::Success(rows) => rows,
        ProviderResponse::Unauthorized => {
            return Err(DirectoryError::TokenExpired);
        },
        ProviderResponse::Unavailable => {
            return Err(DirectoryError::ProviderUnavailable);
        },
    };
    let mut built: Vec<AccountInfo> = Vec::new();
    let mut i: usize = 0;
    while i < rows.len()
        invariant
            i <= rows@.len(),
            built@.len() == i,
            forall|k: int|
                0 <= k < i ==> (#[trigger] rows@[k]).account_id is Some,
            forall|k: int|
                0 <= k < i ==> account_view(#[trigger] built@[k]) == spec_raw_view(rows@[k]),
            forall|k: int| 0 <= k < i ==> (#[trigger] built@[k]).roles@.len() == 0,
        decreases rows@.len() - i,
    {
        let id = match &rows[i].account_id {
            Some(id) => id.clone(),
            None => {
                proof {
                    assert(rows@[i as int].account_id is None);
                }
                return Err(DirectoryError::MalformedResponse);
            },
        };
        let name = match &rows[i].account_name {
            Some(n) => n.clone(),
            None => String::from_str("unknown"),
        };
        built.push(AccountInfo { account_name: name, account_id: id, roles: Vec::new() });
        i += 1;
    }
    proof {
        assert(account_views(built@) =~= raw_views(rows@));
    }
    let sorted = sort_accounts(built);
    proof {
        broadcast use vstd::seq_lib::group_to_multiset_ensures;

        assert forall|k: int|
            0 <= k < sorted@.len() implies (#[trigger] sorted@[k]).roles@.len() == 0 by {
            assert(sorted@.to_multiset().contains(sorted@[k])) by {
                assert(sorted@.contains(sorted@[k]));
            }
            assert(built@.contains(sorted@[k]));
            let idx = choose|t: int| 0 <= t < built@.len() && built@[t] == sorted@[k];
            assert(built@[idx].roles@.len() == 0);
        }
    }
    Ok(sorted)
}

/// Turns the provider's role rows into the role listing for one
/// account: the names in provider-returned order, not re-sorted; an
/// empty list is a valid answer and no error.  A row without a role
/// name is a malformed response.
#[verifier::loop_isolation(false)]
pub fn list_roles(response: ProviderResponse<Vec<Option<String>>>) -> (r: Result<
    Vec<String>,
    DirectoryError,
>)
    ensures
        match r {
            Ok(roles) => {
                &&& response matches ProviderResponse::Success(raw)
                &&& roles@.len() == raw@.len()
                &&& forall|k: int|
                    0 <= k < raw@.len() ==> ((#[trigger] raw@[k]) matches Some(n) && roles@[k]@
                        == n@)
            },
            Err(e) => match response {
                ProviderResponse::Success(raw) => e == DirectoryError::MalformedResponse
                    && exists|k: int| 0 <= k < raw@.len() && (#[trigger] raw@[k]) is None,
                ProviderResponse::Unauthorized => e == DirectoryError::TokenExpired,
                ProviderResponse::Unavailable => e == DirectoryError::ProviderUnavailable,
            },
        },
{
    let raw = match response {
        ProviderResponse::Success(raw) => raw,
        ProviderResponse::Unauthorized => {
            return Err(DirectoryError::TokenExpired);
        },
        ProviderResponse::Unavailable => {
            return Err(DirectoryError::ProviderUnavailable);
        },
    };
    let mut roles: Vec<String> = Vec::new();
    let mut i: usize = 0;
    while i < raw.len()
        invariant
            i <= raw@.len(),
            roles@.len() == i,
            forall|k: int|
                0 <= k < i ==> ((#[trigger] raw@[k]) matches Some(n) && roles@[k]@ == n@),
        decreases raw@.len() - i,
    {
        match &raw[i] {
            Some(n) => {
                roles.push(n.clone());
            },
            None => {
                proof {
                    assert(raw@[i as int] is None);
                }
                return Err(DirectoryError::MalformedResponse);
            },
        }
        i += 1;
    }
    Ok(roles)
}

impl AccountInfo {
    /// The display label of the account: its name and id.
    pub fn label(&self) -> (r: String)
        ensures
            r@ == self.account_name@ + " - "@ + self.account_id@,
    {
        let mut v = chars_of(self.account_name.as_str());
        let mut mid = chars_of(" - ");
        v.append(&mut mid);
        let mut idv = chars_of(self.account_id.as_str());
        v.append(&mut idv);
        string_of(&v)
    }
}

} // verus!
