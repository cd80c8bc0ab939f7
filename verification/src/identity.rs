//! Session identity: a stable, human-opaque session name derived from
//! an identity-provider start URL.  The canonical name is the cache
//! key and the exported profile label, so it holds only characters of
//! the URL's first DNS label behind a fixed prefix.
use vstd::prelude::*;

use crate::errors::AuthError;
use crate::text::chars_of;
use crate::text::string_of;

verus! {

/// The scheme prefix that derivation strips from a start URL.
pub open spec fn scheme_chars() -> Seq<char> {
    seq!['h', 't', 't', 'p', 's', ':', '/', '/']
}

/// Whether `s` starts with the stripped scheme prefix.
pub open spec fn has_scheme(s: Seq<char>) -> bool {
    s.len() >= 8 && s.subrange(0, 8) == scheme_chars()
}

/// `s` without its leading scheme prefix, if present.
pub open spec fn strip_scheme(s: Seq<char>) -> Seq<char> {
    if has_scheme(s) {
        s.skip(8)
    } else {
        s
    }
}

/// Whether `s` holds a `.` anywhere.
pub open spec fn has_dot(s: Seq<char>) -> bool {
    exists|i: int| 0 <= i < s.len() && s[i] == '.'
}

/// The characters of `s` before its first `.`.
pub open spec fn first_label(s: Seq<char>) -> Seq<char>
    decreases s.len(),
{
    if s.len() == 0 {
        Seq::empty()
    } else if s[0] == '.' {
        Seq::empty()
    } else {
        seq![s[0]] + first_label(s.drop_first())
    }
}

/// The fixed prefix of every canonical session name.
pub open spec fn name_prefix() -> Seq<char> {
    seq!['s', 's', 'o', '-']
}

/// The canonical session name of a start URL: the prefix followed by
/// the first DNS label of the URL without its scheme.
pub open spec fn spec_canonical_name(url: Seq<char>) -> Seq<char> {
    name_prefix() + first_label(strip_scheme(url))
}

/// `first_label` is the prefix of `s` that ends at the first `.`.
proof fn lemma_first_label_prefix(s: Seq<char>, k: int)
    requires
        0 <= k <= s.len(),
        forall|j: int| 0 <= j < k ==> s[j] != '.',
        k == s.len() || s[k] == '.',
    ensures
        first_label(s) == s.subrange(0, k),
    decreases k,
{
    if k == 0 {
        assert(first_label(s) =~= s.subrange(0, 0));
    } else {
        assert(s[0] != '.');
        lemma_first_label_prefix(s.drop_first(), k - 1);
        assert(first_label(s) =~= s.subrange(0, k));
    }
}

/// A derived session identity: the raw start URL it came from and its
/// canonical name.
#[derive(Clone, Debug)]
pub struct SessionIdentity {
    pub raw_start_url: String,
    pub canonical_name: String,
}

impl SessionIdentity {
    /// Well-formedness: the canonical name is exactly the one that
    /// derivation yields for the raw start URL.
    pub open spec fn wf(self) -> bool {
        &&& has_dot(strip_scheme(self.raw_start_url@))
        &&& self.canonical_name@ == spec_canonical_name(self.raw_start_url@)
    }

    /// Derives the identity of a start URL, or reports that the URL
    /// holds no `.`-delimited label after scheme stripping.
    pub fn derive(start_url: &str) -> (r: Result<SessionIdentity, AuthError>)
        ensures
            r is Ok <==> has_dot(strip_scheme(start_url@)),
            r matches Ok(id) ==> id.wf() && id.raw_start_url@ == start_url@
                && id.canonical_name@ == spec_canonical_name(start_url@),
            r matches Err(e) ==> e == AuthError::InvalidStartUrl,
    {
        let v = chars_of(start_url);
        let start = scheme_strip_index(&v);
        let mut i: usize = start;
        loop
            invariant
                start <= i <= v@.len(),
                start == 0 || start == 8,
                strip_scheme(v@) == v@.skip(start as int),
                v@ == start_url@,
                forall|j: int| start <= j < i ==> v@[j] != '.',
            ensures
                start <= i < v@.len(),
                v@[i as int] == '.',
                forall|j: int| start <= j < i ==> v@[j] != '.',
            decreases v@.len() - i,
        {
            if i == v.len() {
                proof {
                    assert forall|k: int| 0 <= k < strip_scheme(start_url@).len() implies strip_scheme(
                        start_url@,
                    )[k] != '.' by {
                        assert(strip_scheme(start_url@)[k] == v@[k + start]);
                    }
                }
                return Err(AuthError::InvalidStartUrl);
            }
            if v[i] == '.' {
                break;
            }
            i += 1;
        }
        let mut out: Vec<char> = Vec::new();
        out.push('s');
        out.push('s');
        out.push('o');
        out.push('-');
        proof {
            assert(out@ =~= name_prefix());
        }
        let mut j: usize = start;
        while j < i
            invariant
                start <= j <= i <= v@.len(),
                out@ == name_prefix() + v@.subrange(start as int, j as int),
            decreases i - j,
        {
            out.push(v[j]);
            proof {
                assert(name_prefix() + v@.subrange(start as int, j + 1 as int) =~= (name_prefix()
                    + v@.subrange(start as int, j as int)).push(v@[j as int]));
            }
            j += 1;
        }
        proof {
            let stripped = strip_scheme(v@);
            lemma_first_label_prefix(stripped, i - start);
            assert(stripped.subrange(0, i - start) =~= v@.subrange(start as int, i as int));
            assert(stripped[i - start] == '.');
        }
        let canonical = string_of(&out);
        Ok(SessionIdentity { raw_start_url: start_url.to_owned(), canonical_name: canonical })
    }
}

/// Derivation is deterministic: identities derived from the same
/// start URL carry the same canonical name.
pub proof fn lemma_derive_deterministic(a: SessionIdentity, b: SessionIdentity)
    requires
        a.wf(),
        b.wf(),
        a.raw_start_url@ == b.raw_start_url@,
    ensures
        a.canonical_name@ == b.canonical_name@,
{
}

/// The canonical session name of `start_url`, which must hold a
/// `.`-delimited label after scheme stripping.
pub fn session_name(start_url: &str) -> (r: String)
    requires
        has_dot(strip_scheme(start_url@)),
    ensures
        r@ == spec_canonical_name(start_url@),
{
    match SessionIdentity::derive(start_url) {
        Ok(id) => id.canonical_name,
        Err(_) => {
            // Derivation succeeds on every start URL the precondition
            // admits; this branch is proved unreachable.
            proof {
                assert(false);
            }
            String::new()
        },
    }
}

/// Number of characters in the scheme prefix that `v` matches: 8 when
/// the prefix is present, 0 otherwise.
fn scheme_strip_index(v: &Vec<char>) -> (k: usize)
    ensures
        k == 0 || k == 8,
        k <= v@.len(),
        strip_scheme(v@) == v@.skip(k as int),
{
    if v.len() < 8 {
        return 0;
    }
    let mut j: usize = 0;
    let mut sc: Vec<char> = Vec::new();
    sc.push('h');
    sc.push('t');
    sc.push('t');
    sc.push('p');
    sc.push('s');
    sc.push(':');
    sc.push('/');
    sc.push('/');
    proof {
        assert(sc@ =~= scheme_chars());
    }
    while j < 8
        invariant
            j <= 8,
            sc@ == scheme_chars(),
            v@.len() >= 8,
            forall|t: int| 0 <= t < j ==> v@[t] == scheme_chars()[t],
        decreases 8 - j,
    {
        if v[j] != sc[j] {
            proof {
                if has_scheme(v@) {
                    assert(v@.subrange(0, 8)[j as int] == v@[j as int]);
                }
            }
            return 0;
        }
        j += 1;
    }
    proof {
        assert(v@.subrange(0, 8) =~= scheme_chars());
    }
    8
}

} // verus!
