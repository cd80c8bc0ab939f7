//! A small JSON codec: string escaping with its exact inverse, and
//! the framing of the cached token record.  The library frames and
//! checks these bytes itself, so reading a record back is proved to
//! yield the record that was written.
use vstd::prelude::*;

use crate::text::all_digits;
use crate::text::char_code;
use crate::text::chars_of;
use crate::text::dec_digits;
use crate::text::dec_val;
use crate::text::dec_value_of;
use crate::text::digit_val;
use crate::text::hex_digit_lower;
use crate::text::hex_digit_lower_exec;
use crate::text::is_digit;
use crate::text::lemma_dec_digits_are_digits;
use crate::text::lemma_dec_digits_no_leading_zero;
use crate::text::lemma_dec_val_of_digits;
use crate::text::lemma_digit_char_val;
use crate::text::push_dec_digits;
use crate::text::string_of;
use crate::text::valid_char;
use crate::text::valid_chars;

verus! {

/// The escaped form of one character: quote and backslash get a
/// backslash, control characters become `\u00` and two lower-case hex
/// digits, anything else stands for itself.
pub open spec fn esc_char(c: char) -> Seq<char> {
    if c == '"' {
        seq!['\\', '"']
    } else if c == '\\' {
        seq!['\\', '\\']
    } else if (c as int) < 32 {
        seq![
            '\\',
            'u',
            '0',
            '0',
            hex_digit_lower(((c as int) / 16) as nat),
            hex_digit_lower(((c as int) % 16) as nat),
        ]
    } else {
        seq![c]
    }
}

/// The escaped form of a character sequence.
pub open spec fn esc(s: Seq<char>) -> Seq<char>
    decreases s.len(),
{
    if s.len() == 0 {
        Seq::empty()
    } else {
        esc_char(s[0]) + esc(s.drop_first())
    }
}

/// Escaping distributes over appending one character.
pub proof fn lemma_esc_push(s: Seq<char>, c: char)
    ensures
        esc(s.push(c)) == esc(s) + esc_char(c),
    decreases s.len(),
{
    if s.len() == 0 {
        assert(s.push(c).len() == 1);
        assert(s.push(c)[0] == c);
        assert(s.push(c).drop_first() =~= Seq::<char>::empty());
        assert(esc(s.push(c)) == esc_char(c) + esc(Seq::<char>::empty()));
        assert(esc(s.push(c)) =~= esc(s) + esc_char(c));
    } else {
        assert(s.push(c)[0] == s[0]);
        assert(s.push(c).drop_first() =~= s.drop_first().push(c));
        lemma_esc_push(s.drop_first(), c);
        assert(esc(s.push(c)) == esc_char(s[0]) + esc(s.drop_first().push(c)));
        assert(esc(s.push(c)) =~= esc(s) + esc_char(c));
    }
}

/// Appends the escaped form of `s` to `out`.
pub fn escape_append(out: &mut Vec<char>, s: &Vec<char>)
    ensures
        final(out)@ == old(out)@ + esc(s@),
{
    let mut i: usize = 0;
    proof {
        assert(old(out)@ + esc(s@.subrange(0, 0)) =~= old(out)@);
    }
    while i < s.len()
        invariant
            i <= s@.len(),
            out@ == old(out)@ + esc(s@.subrange(0, i as int)),
        decreases s@.len() - i,
    {
        let c = s[i];
        let code32 = char_code(c);
        if c == '"' {
            out.push('\\');
            out.push('"');
        } else if c == '\\' {
            out.push('\\');
            out.push('\\');
        } else if code32 < 32 {
            out.push('\\');
            out.push('u');
            out.push('0');
            out.push('0');
            let code = code32 as u8;
            proof {
                assert(code as int == c as int);
                assert((code / 16) as nat == ((c as int) / 16) as nat);
                assert((code % 16) as nat == ((c as int) % 16) as nat);
            }
            out.push(hex_digit_lower_exec(code / 16));
            out.push(hex_digit_lower_exec(code % 16));
        } else {
            out.push(c);
        }
        proof {
            assert(s@.subrange(0, i + 1 as int) =~= s@.subrange(0, i as int).push(s@[i as int]));
            lemma_esc_push(s@.subrange(0, i as int), s@[i as int]);
            assert(out@ =~= old(out)@ + esc(s@.subrange(0, i + 1 as int)));
        }
        i += 1;
    }
    proof {
        assert(s@.subrange(0, s@.len() as int) =~= s@);
    }
}

/// Whether `c` is a lower-case hexadecimal digit.
pub open spec fn is_hex_lower(c: char) -> bool {
    is_digit(c) || ('a' <= c && c <= 'f')
}

/// The value of a lower-case hexadecimal digit.
pub open spec fn hex_val_lower(c: char) -> nat
    recommends
        is_hex_lower(c),
{
    if is_digit(c) {
        digit_val(c)
    } else {
        ((c as int) - 87) as nat
    }
}

/// A lower-case hex digit character reads back as its value.
pub proof fn lemma_hex_digit_lower_val(d: nat)
    requires
        d < 16,
    ensures
        is_hex_lower(hex_digit_lower(d)),
        hex_val_lower(hex_digit_lower(d)) == d,
{
    if d < 10 {
        lemma_digit_char_val(d);
    } else {
        assert((87 + d) as char as int == 87 + d);
    }
}

/// Prepends one parsed character to a parse result.
pub open spec fn cons_parsed(c: char, rest: Option<(Seq<char>, int)>) -> Option<(Seq<char>, int)> {
    match rest {
        Some((t, j)) => Some((seq![c] + t, j)),
        None => None,
    }
}

/// Parses the body of a JSON string starting at `i` (just after the
/// opening quote): the unescaped text and the position just after the
/// closing quote.  Only the escapes the encoder emits are accepted.
pub open spec fn spec_parse_string(s: Seq<char>, i: int) -> Option<(Seq<char>, int)>
    decreases s.len() - i,
{
    if i < 0 || i >= s.len() {
        None
    } else if s[i] == '"' {
        Some((Seq::empty(), i + 1))
    } else if s[i] == '\\' {
        if i + 1 < s.len() && s[i + 1] == '"' {
            cons_parsed('"', spec_parse_string(s, i + 2))
        } else if i + 1 < s.len() && s[i + 1] == '\\' {
            cons_parsed('\\', spec_parse_string(s, i + 2))
        } else if i + 5 < s.len() && s[i + 1] == 'u' && s[i + 2] == '0' && s[i + 3] == '0'
            && is_hex_lower(s[i + 4]) && is_hex_lower(s[i + 5]) && 16 * hex_val_lower(s[i + 4])
            + hex_val_lower(s[i + 5]) < 32 {
            cons_parsed(
                ((16 * hex_val_lower(s[i + 4]) + hex_val_lower(s[i + 5])) as char),
                spec_parse_string(s, i + 6),
            )
        } else {
            None
        }
    } else if (s[i] as int) < 32 {
        None
    } else {
        cons_parsed(s[i], spec_parse_string(s, i + 1))
    }
}

/// Parsing reads back exactly what escaping wrote: at a position
/// where `esc(x)` and a closing quote lie, the parse yields `x` and
/// stops just past the quote.
pub proof fn lemma_parse_esc(x: Seq<char>, s: Seq<char>, i: int)
    requires
        valid_chars(x),
        0 <= i,
        i + esc(x).len() + 1 <= s.len(),
        s.subrange(i, i + esc(x).len() + 1) == esc(x) + seq!['"'],
    ensures
        spec_parse_string(s, i) == Some((x, i + esc(x).len() + 1)),
    decreases x.len(),
{
    let piece = esc(x) + seq!['"'];
    assert forall|k: int| 0 <= k < piece.len() implies s[i + k] == #[trigger] piece[k] by {
        assert(s.subrange(i, i + esc(x).len() + 1)[k] == s[i + k]);
    }
    if x.len() == 0 {
        assert(piece[0] == '"');
        assert(s[i] == piece[0]);
    } else {
        let c = x[0];
        let e = esc_char(c);
        let rest = x.drop_first();
        assert(valid_char(c));
        assert forall|k: int| 0 <= k < rest.len() implies valid_char(#[trigger] rest[k]) by {
            assert(rest[k] == x[k + 1]);
        }
        assert(esc(x) == e + esc(rest));
        let i2 = i + e.len();
        assert(s.subrange(i2, i2 + esc(rest).len() + 1) =~= esc(rest) + seq!['"']) by {
            assert forall|k: int| 0 <= k < esc(rest).len() + 1 implies s.subrange(
                i2,
                i2 + esc(rest).len() + 1,
            )[k] == (esc(rest) + seq!['"'])[k] by {
                assert(s.subrange(i2, i2 + esc(rest).len() + 1)[k] == s[i2 + k]);
                assert((esc(rest) + seq!['"'])[k] == piece[e.len() + k]);
                assert(s[i2 + k] == piece[e.len() + k]);
            }
        }
        lemma_parse_esc(rest, s, i2);
        assert forall|m: int| 0 <= m < e.len() implies s[i + m] == e[m] by {
            assert(piece[m] == (e + esc(rest))[m]);
            assert(s[i + m] == piece[m]);
        }
        if c == '"' {
            assert(e == seq!['\\', '"']);
            assert(s[i] == e[0] && s[i + 1] == e[1]);
            assert(seq![c] + rest =~= x);
        } else if c == '\\' {
            assert(e == seq!['\\', '\\']);
            assert(s[i] == e[0] && s[i + 1] == e[1]);
            assert(seq![c] + rest =~= x);
        } else if (c as int) < 32 {
            let code = c as int;
            assert(0 <= code < 32);
            vstd::arithmetic::div_mod::lemma_fundamental_div_mod(code, 16);
            vstd::arithmetic::div_mod::lemma_div_pos_is_pos(code, 16);
            vstd::arithmetic::div_mod::lemma_remainder(code, 16);
            assert(0 <= code / 16 < 16);
            assert(0 <= code % 16 < 16);
            lemma_hex_digit_lower_val((code / 16) as nat);
            lemma_hex_digit_lower_val((code % 16) as nat);
            assert(s[i] == e[0] && s[i + 1] == e[1] && s[i + 2] == e[2] && s[i + 3] == e[3] && s[i
                + 4] == e[4] && s[i + 5] == e[5]);
            assert(s[i + 4] == hex_digit_lower((code / 16) as nat));
            assert(s[i + 5] == hex_digit_lower((code % 16) as nat));
            assert(16 * ((code / 16) as nat) + ((code % 16) as nat) == code);
            assert(16 * hex_val_lower(s[i + 4]) + hex_val_lower(s[i + 5]) == code);
            assert((code as char) == c);
            assert(seq![c] + rest =~= x);
        } else {
            assert(e == seq![c]);
            assert(s[i] == e[0]);
            assert(s[i] == c);
            assert(s[i] != '"' && s[i] != '\\' && (s[i] as int) >= 32);
            assert(seq![c] + rest =~= x);
        }
    }
}

/// Parses the body of a JSON string in `v` starting at `i`, following
/// `spec_parse_string` exactly.
pub fn parse_string_at(v: &Vec<char>, i: usize) -> (r: Option<(Vec<char>, usize)>)
    ensures
        match r {
            Some((t, j)) => spec_parse_string(v@, i as int) == Some((t@, j as int)) && i < j
                <= v@.len(),
            None => spec_parse_string(v@, i as int) is None,
        },
    decreases v@.len() - i,
{
    if i >= v.len() {
        return None;
    }
    let c = v[i];
    let code32 = char_code(c);
    if c == '"' {
        return Some((Vec::new(), i + 1));
    }
    if c == '\\' {
        if i + 1 < v.len() && v[i + 1] == '"' {
            match parse_string_at(v, i + 2) {
                Some((mut t, j)) => {
                    let ghost t0 = t@;
                    t.insert(0, '"');
                    proof {
                        assert(t@ =~= seq!['"'] + t0);
                    }
                    return Some((t, j));
                },
                None => {
                    return None;
                },
            }
        } else if i + 1 < v.len() && v[i + 1] == '\\' {
            match parse_string_at(v, i + 2) {
                Some((mut t, j)) => {
                    let ghost t0 = t@;
                    t.insert(0, '\\');
                    proof {
                        assert(t@ =~= seq!['\\'] + t0);
                    }
                    return Some((t, j));
                },
                None => {
                    return None;
                },
            }
        } else if v.len() - i > 5 && v[i + 1] == 'u' && v[i + 2] == '0' && v[i + 3] == '0'
            && is_hex_lower_exec(v[i + 4]) && is_hex_lower_exec(v[i + 5]) {
            let code: u32 = 16 * hex_val_lower_exec(v[i + 4]) + hex_val_lower_exec(v[i + 5]);
            if code < 32 {
                match parse_string_at(v, i + 6) {
                    Some((mut t, j)) => {
                        let ch: char = (code as u8) as char;
                        let ghost t0 = t@;
                        t.insert(0, ch);
                        proof {
                            assert(ch as int == code as int);
                            assert(t@ =~= seq![ch] + t0);
                        }
                        return Some((t, j));
                    },
                    None => {
                        return None;
                    },
                }
            } else {
                return None;
            }
        } else {
            return None;
        }
    }
    if code32 < 32 {
        return None;
    }
    match parse_string_at(v, i + 1) {
        Some((mut t, j)) => {
            let ghost t0 = t@;
            t.insert(0, c);
            proof {
                assert(t@ =~= seq![c] + t0);
            }
            Some((t, j))
        },
        None => None,
    }
}

/// Decides whether `c` is a lower-case hexadecimal digit.
fn is_hex_lower_exec(c: char) -> (r: bool)
    ensures
        r == is_hex_lower(c),
{
    ('0' <= c && c <= '9') || ('a' <= c && c <= 'f')
}

/// The value of a lower-case hexadecimal digit.
fn hex_val_lower_exec(c: char) -> (r: u32)
    requires
        is_hex_lower(c),
    ensures
        r == hex_val_lower(c),
        r < 16,
{
    if '0' <= c && c <= '9' {
        (c as u32) - 48
    } else {
        (c as u32) - 87
    }
}

/// The opening of the record: its first key with its opening quote.
pub open spec fn lit_head() -> Seq<char> {
    "{\"accessToken\":\""@
}

/// The expiry key, from the comma after the token value.
pub open spec fn lit_expires() -> Seq<char> {
    ",\"expiresAt\":"@
}

/// The start-URL key with its opening quote.
pub open spec fn lit_url() -> Seq<char> {
    ",\"startUrl\":\""@
}

/// The serialized form of a cached token record: one JSON object with
/// the token value, the expiry instant and the issuing start URL.
pub open spec fn spec_encode_record(tv: Seq<char>, ea: u64, url: Seq<char>) -> Seq<char> {
    lit_head() + esc(tv) + seq!['"'] + lit_expires() + dec_digits(ea as nat) + lit_url() + esc(url)
        + seq!['"'] + seq!['}']
}

/// Whether `lit` lies in `s` at position `i`.
pub open spec fn starts_at(s: Seq<char>, i: int, lit: Seq<char>) -> bool {
    0 <= i && i + lit.len() <= s.len() && s.subrange(i, i + lit.len()) == lit
}

/// The first position at or after `i` that holds no decimal digit.
pub open spec fn digit_run_end(s: Seq<char>, i: int) -> int
    decreases s.len() - i,
{
    if i < 0 || i >= s.len() || !is_digit(s[i]) {
        i
    } else {
        digit_run_end(s, i + 1)
    }
}

/// A run of digits from `p` that stops at `q` ends exactly at `q`.
pub proof fn lemma_digit_run(s: Seq<char>, p: int, q: int)
    requires
        0 <= p <= q <= s.len(),
        forall|k: int| p <= k < q ==> is_digit(#[trigger] s[k]),
        q == s.len() || !is_digit(s[q]),
    ensures
        digit_run_end(s, p) == q,
    decreases q - p,
{
    if p < q {
        assert(is_digit(s[p]));
        lemma_digit_run(s, p + 1, q);
    }
}

/// The record of `(tv, ea, url)` read back from `s`, when `s` is a
/// record in the exact form the encoder writes.
pub open spec fn spec_decode_record(s: Seq<char>) -> Option<(Seq<char>, u64, Seq<char>)> {
    if !starts_at(s, 0, lit_head()) {
        None
    } else {
        match spec_parse_string(s, lit_head().len() as int) {
            None => None,
            Some((tv, j1)) => {
                if !starts_at(s, j1, lit_expires()) {
                    None
                } else {
                    let p = j1 + lit_expires().len();
                    let q = digit_run_end(s, p);
                    if q == p || (s[p] == '0' && q > p + 1) || dec_val(s.subrange(p, q))
                        > u64::MAX {
                        None
                    } else {
                        let ea = dec_val(s.subrange(p, q)) as u64;
                        if !starts_at(s, q, lit_url()) {
                            None
                        } else {
                            match spec_parse_string(s, q + lit_url().len()) {
                                None => None,
                                Some((url, j2)) => {
                                    if j2 + 1 == s.len() && s[j2] == '}' {
                                        Some((tv, ea, url))
                                    } else {
                                        None
                                    }
                                },
                            }
                        }
                    }
                }
            },
        }
    }
}

/// A subrange that lies within the left part of a concatenation.
proof fn lemma_prefix_subrange(x: Seq<char>, y: Seq<char>, m: int, n: int)
    requires
        0 <= m <= n <= x.len(),
    ensures
        (x + y).subrange(m, n) == x.subrange(m, n),
{
    assert((x + y).subrange(m, n) =~= x.subrange(m, n));
}

/// Reading a record back yields exactly the record that was written:
/// decoding inverts encoding on every token value, expiry and URL.
pub proof fn lemma_decode_encode(tv: Seq<char>, ea: u64, url: Seq<char>)
    requires
        valid_chars(tv),
        valid_chars(url),
    ensures
        spec_decode_record(spec_encode_record(tv, ea, url)) == Some((tv, ea, url)),
{
    reveal_strlit(",\"startUrl\":\"");
    let s = spec_encode_record(tv, ea, url);
    let a = lit_head();
    let b = esc(tv);
    let c = lit_expires();
    let d = dec_digits(ea as nat);
    let e = lit_url();
    let f = esc(url);
    let p2 = a + b;
    let p3 = p2 + seq!['"'];
    let p4 = p3 + c;
    let p5 = p4 + d;
    let p6 = p5 + e;
    let p7 = p6 + f;
    let p8 = p7 + seq!['"'];
    assert(s == p8 + seq!['}']);
    let o1 = a.len() as int;
    let j1 = o1 + b.len() + 1;
    let p = j1 + c.len() as int;
    let q = p + d.len();
    let o2 = q + e.len() as int;
    let j2 = o2 + f.len() + 1;
    assert(s.len() == j2 + 1);
    lemma_dec_digits_are_digits(ea as nat);
    // The record opens with the first key.
    assert(starts_at(s, 0, a)) by {
        assert(s.subrange(0, o1) =~= a);
    }
    // The token value parses back.
    assert(s.subrange(o1, j1) =~= b + seq!['"']) by {
        lemma_prefix_subrange(p8, seq!['}'], o1, j1);
        lemma_prefix_subrange(p7, seq!['"'], o1, j1);
        lemma_prefix_subrange(p6, f, o1, j1);
        lemma_prefix_subrange(p5, e, o1, j1);
        lemma_prefix_subrange(p4, d, o1, j1);
        lemma_prefix_subrange(p3, c, o1, j1);
        assert(p3.subrange(o1, j1) =~= b + seq!['"']);
    }
    lemma_parse_esc(tv, s, o1);
    assert(spec_parse_string(s, o1) == Some((tv, j1)));
    // The expiry key follows.
    assert(starts_at(s, j1, c)) by {
        lemma_prefix_subrange(p8, seq!['}'], j1, p);
        lemma_prefix_subrange(p7, seq!['"'], j1, p);
        lemma_prefix_subrange(p6, f, j1, p);
        lemma_prefix_subrange(p5, e, j1, p);
        lemma_prefix_subrange(p4, d, j1, p);
        assert(p4.subrange(j1, p) =~= c);
    }
    // The digit run is exactly the rendered expiry.
    assert(s.subrange(p, q) =~= d) by {
        lemma_prefix_subrange(p8, seq!['}'], p, q);
        lemma_prefix_subrange(p7, seq!['"'], p, q);
        lemma_prefix_subrange(p6, f, p, q);
        assert(p5.subrange(p, q) =~= d);
    }
    assert(s[q] == e[0]) by {
        assert(p6[q] == e[0]);
        assert(p7[q] == p6[q]);
        assert(p8[q] == p7[q]);
        assert(s[q] == p8[q]);
    }
    assert(e[0] == ',');
    assert(!is_digit(s[q]));
    assert(digit_run_end(s, p) == q) by {
        assert forall|k: int| p <= k < q implies is_digit(#[trigger] s[k]) by {
            assert(s[k] == s.subrange(p, q)[k - p]);
            assert(is_digit(d[k - p]));
        }
        lemma_digit_run(s, p, q);
    }
    assert(q != p);
    // No superfluous leading zero: a multi-digit run starts nonzero.
    if d.len() > 1 {
        assert(ea >= 10) by {
            if (ea as nat) < 10 {
                assert(d.len() == 1);
            }
        }
        lemma_dec_digits_no_leading_zero(ea as nat);
        assert(s[p] == s.subrange(p, q)[0]);
        assert(s[p] != '0');
    }
    assert(!(s[p] == '0' && q > p + 1));
    lemma_dec_val_of_digits(ea as nat);
    assert(dec_val(s.subrange(p, q)) == ea);
    // The URL key follows.
    assert(starts_at(s, q, e)) by {
        lemma_prefix_subrange(p8, seq!['}'], q, o2);
        lemma_prefix_subrange(p7, seq!['"'], q, o2);
        lemma_prefix_subrange(p6, f, q, o2);
        assert(p6.subrange(q, o2) =~= e);
    }
    // The URL parses back.
    assert(s.subrange(o2, j2) =~= f + seq!['"']) by {
        lemma_prefix_subrange(p8, seq!['}'], o2, j2);
        assert(p8.subrange(o2, j2) =~= f + seq!['"']);
    }
    lemma_parse_esc(url, s, o2);
    assert(spec_parse_string(s, o2) == Some((url, j2)));
    // The closing brace ends the record.
    assert(s[j2] == '}');
    assert(spec_decode_record(s) == Some((tv, ea, url)));
}

/// Whether `lit` lies in `v` at position `i`.
pub fn expect_at(v: &Vec<char>, i: usize, lit: &Vec<char>) -> (b: bool)
    ensures
        b == starts_at(v@, i as int, lit@),
{
    let n = v.len();
    if i > n || n - i < lit.len() {
        return false;
    }
    let mut k: usize = 0;
    while k < lit.len()
        invariant
            k <= lit@.len(),
            n == v@.len(),
            i + lit@.len() <= n,
            forall|t: int| 0 <= t < k ==> v@[i + t] == lit@[t],
        decreases lit@.len() - k,
    {
        if v[i + k] != lit[k] {
            proof {
                if starts_at(v@, i as int, lit@) {
                    assert(v@.subrange(i as int, i + lit@.len())[k as int] == v@[i + k]);
                }
            }
            return false;
        }
        k += 1;
    }
    proof {
        assert(v@.subrange(i as int, i + lit@.len()) =~= lit@);
    }
    true
}

/// Serializes a cached token record.
pub fn encode_record(access_token: &str, expires_at: u64, start_url: &str) -> (r: String)
    ensures
        r@ == spec_encode_record(access_token@, expires_at, start_url@),
        valid_chars(access_token@),
        valid_chars(start_url@),
{
    let mut out = chars_of("{\"accessToken\":\"");
    let tv = chars_of(access_token);
    escape_append(&mut out, &tv);
    out.push('"');
    let mut l1 = chars_of(",\"expiresAt\":");
    out.append(&mut l1);
    push_dec_digits(&mut out, expires_at);
    let mut l2 = chars_of(",\"startUrl\":\"");
    out.append(&mut l2);
    let uv = chars_of(start_url);
    escape_append(&mut out, &uv);
    out.push('"');
    out.push('}');
    proof {
        assert(out@ =~= spec_encode_record(access_token@, expires_at, start_url@));
    }
    string_of(&out)
}

/// Deserializes a cached token record, following `spec_decode_record`
/// exactly: any deviation from the encoder's output reads as nothing.
pub fn decode_record(s: &str) -> (r: Option<(String, u64, String)>)
    ensures
        match r {
            Some((tv, ea, url)) => spec_decode_record(s@) == Some((tv@, ea, url@)),
            None => spec_decode_record(s@) is None,
        },
{
    let v = chars_of(s);
    let head = chars_of("{\"accessToken\":\"");
    if !expect_at(&v, 0, &head) {
        return None;
    }
    let parsed_tv = parse_string_at(&v, head.len());
    let (tv, j1) = match parsed_tv {
        Some(p) => p,
        None => {
            return None;
        },
    };
    let l1 = chars_of(",\"expiresAt\":");
    if !expect_at(&v, j1, &l1) {
        return None;
    }
    let p = j1 + l1.len();
    let mut q: usize = p;
    loop
        invariant
            p <= q <= v@.len(),
            forall|k: int| p <= k < q ==> is_digit(#[trigger] v@[k]),
            digit_run_end(v@, p as int) == digit_run_end(v@, q as int),
        ensures
            p <= q <= v@.len(),
            q == digit_run_end(v@, p as int),
            forall|k: int| p <= k < q ==> is_digit(#[trigger] v@[k]),
        decreases v@.len() - q,
    {
        if q == v.len() {
            break;
        }
        let c = v[q];
        if !('0' <= c && c <= '9') {
            break;
        }
        q += 1;
    }
    if q == p {
        return None;
    }
    if v[p] == '0' && q > p + 1 {
        return None;
    }
    proof {
        assert(all_digits(v@.subrange(p as int, q as int)));
    }
    let ea = match dec_value_of(&v, p, q) {
        Some(n) => n,
        None => {
            return None;
        },
    };
    let l2 = chars_of(",\"startUrl\":\"");
    if !expect_at(&v, q, &l2) {
        return None;
    }
    let parsed_url = parse_string_at(&v, q + l2.len());
    let (url, j2) = match parsed_url {
        Some(p2) => p2,
        None => {
            return None;
        },
    };
    if j2 < v.len() && j2 + 1 == v.len() && v[j2] == '}' {
        Some((string_of(&tv), ea, string_of(&url)))
    } else {
        None
    }
}

} // verus!
