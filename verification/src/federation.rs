//! The console federation builder: temporary credentials in, a
//! federated console sign-in URL and a stable profile name out.
//!
//! The builder serializes the session blob the federation endpoint
//! expects, assembles the sign-in-token request URL, reads the
//! `SigninToken` field out of the endpoint's response, and assembles
//! the final login URL.  The one HTTP round trip in the middle is the
//! surrounding application's; every byte on either side of it is
//! framed and checked here, including the form and percent encodings.
use vstd::prelude::*;

use vstd::string::StrSliceExecFns;
use vstd::utf8::encode_utf8;

use crate::directory::AccountInfo;
use crate::errors::FederationError;
use crate::exchange::RoleCredentials;
use crate::json::esc;
use crate::json::escape_append;
use crate::json::parse_string_at;
use crate::json::spec_parse_string;
use crate::text::chars_of;
use crate::text::hex_digit_upper;
use crate::text::str_eq;
use crate::text::string_of;

verus! {

/// The bytes form encoding leaves as they stand: letters, digits,
/// and `* - . _`.
pub open spec fn form_unreserved(b: u8) -> bool {
    (48 <= b <= 57) || (65 <= b <= 90) || (97 <= b <= 122) || b == 42 || b == 45 || b == 46 || b
        == 95
}

/// One byte under `application/x-www-form-urlencoded`: space becomes
/// `+`, an unreserved byte stands for itself, anything else becomes
/// `%` and two upper-case hex digits.
pub open spec fn form_encode_byte(b: u8) -> Seq<char> {
    if b == 32 {
        seq!['+']
    } else if form_unreserved(b) {
        seq![b as char]
    } else {
        seq!['%', hex_digit_upper((b / 16) as nat), hex_digit_upper((b % 16) as nat)]
    }
}

/// The form encoding of a byte sequence.
pub open spec fn form_encode(bs: Seq<u8>) -> Seq<char>
    decreases bs.len(),
{
    if bs.len() == 0 {
        Seq::empty()
    } else {
        form_encode_byte(bs[0]) + form_encode(bs.drop_first())
    }
}

/// Form encoding distributes over appending one byte.
proof fn lemma_form_encode_push(bs: Seq<u8>, b: u8)
    ensures
        form_encode(bs.push(b)) == form_encode(bs) + form_encode_byte(b),
    decreases bs.len(),
{
    if bs.len() == 0 {
        assert(bs.push(b)[0] == b);
        assert(bs.push(b).drop_first() =~= Seq::<u8>::empty());
        assert(form_encode(bs.push(b)) == form_encode_byte(b) + form_encode(Seq::<u8>::empty()));
        assert(form_encode(bs.push(b)) =~= form_encode(bs) + form_encode_byte(b));
    } else {
        assert(bs.push(b)[0] == bs[0]);
        assert(bs.push(b).drop_first() =~= bs.drop_first().push(b));
        lemma_form_encode_push(bs.drop_first(), b);
        assert(form_encode(bs.push(b)) == form_encode_byte(bs[0]) + form_encode(
            bs.drop_first().push(b),
        ));
        assert(form_encode(bs.push(b)) =~= form_encode(bs) + form_encode_byte(b));
    }
}

/// The upper-case hexadecimal digit character of the nibble `d`.
fn hex_digit_upper_exec(d: u8) -> (c: char)
    requires
        d < 16,
    ensures
        c == hex_digit_upper(d as nat),
{
    if d < 10 {
        (48 + d) as char
    } else {
        (55 + d) as char
    }
}

/// Appends the form encoding of `bytes` to `out`.
fn form_encode_append(out: &mut Vec<char>, bytes: &Vec<u8>)
    ensures
        final(out)@ == old(out)@ + form_encode(bytes@),
{
    let mut i: usize = 0;
    proof {
        assert(old(out)@ + form_encode(bytes@.subrange(0, 0)) =~= old(out)@);
    }
    while i < bytes.len()
        invariant
            i <= bytes@.len(),
            out@ == old(out)@ + form_encode(bytes@.subrange(0, i as int)),
        decreases bytes@.len() - i,
    {
        let b = bytes[i];
        if b == 32 {
            out.push('+');
        } else if (48 <= b && b <= 57) || (65 <= b && b <= 90) || (97 <= b && b <= 122) || b == 42
            || b == 45 || b == 46 || b == 95 {
            out.push(b as char);
        } else {
            out.push('%');
            out.push(hex_digit_upper_exec(b / 16));
            out.push(hex_digit_upper_exec(b % 16));
        }
        proof {
            assert(bytes@.subrange(0, i + 1 as int) =~= bytes@.subrange(0, i as int).push(
                bytes@[i as int],
            ));
            lemma_form_encode_push(bytes@.subrange(0, i as int), bytes@[i as int]);
            assert(out@ =~= old(out)@ + form_encode(bytes@.subrange(0, i + 1 as int)));
        }
        i += 1;
    }
    proof {
        assert(bytes@.subrange(0, bytes@.len() as int) =~= bytes@);
    }
}

/// The bytes percent encoding leaves as they stand: letters, digits,
/// and `- _ . ~`.
pub open spec fn uri_unreserved(b: u8) -> bool {
    (48 <= b <= 57) || (65 <= b <= 90) || (97 <= b <= 122) || b == 45 || b == 95 || b == 46 || b
        == 126
}

/// One byte under percent encoding: an unreserved byte stands for
/// itself, anything else becomes `%` and two upper-case hex digits.
pub open spec fn uri_encode_byte(b: u8) -> Seq<char> {
    if uri_unreserved(b) {
        seq![b as char]
    } else {
        seq!['%', hex_digit_upper((b / 16) as nat), hex_digit_upper((b % 16) as nat)]
    }
}

/// The percent encoding of a byte sequence.
pub open spec fn uri_encode(bs: Seq<u8>) -> Seq<char>
    decreases bs.len(),
{
    if bs.len() == 0 {
        Seq::empty()
    } else {
        uri_encode_byte(bs[0]) + uri_encode(bs.drop_first())
    }
}

/// Percent encoding distributes over appending one byte.
proof fn lemma_uri_encode_push(bs: Seq<u8>, b: u8)
    ensures
        uri_encode(bs.push(b)) == uri_encode(bs) + uri_encode_byte(b),
    decreases bs.len(),
{
    if bs.len() == 0 {
        assert(bs.push(b)[0] == b);
        assert(bs.push(b).drop_first() =~= Seq::<u8>::empty());
        assert(uri_encode(bs.push(b)) == uri_encode_byte(b) + uri_encode(Seq::<u8>::empty()));
        assert(uri_encode(bs.push(b)) =~= uri_encode(bs) + uri_encode_byte(b));
    } else {
        assert(bs.push(b)[0] == bs[0]);
        assert(bs.push(b).drop_first() =~= bs.drop_first().push(b));
        lemma_uri_encode_push(bs.drop_first(), b);
        assert(uri_encode(bs.push(b)) == uri_encode_byte(bs[0]) + uri_encode(
            bs.drop_first().push(b),
        ));
        assert(uri_encode(bs.push(b)) =~= uri_encode(bs) + uri_encode_byte(b));
    }
}

/// Appends the percent encoding of `bytes` to `out`.
fn uri_encode_append(out: &mut Vec<char>, bytes: &Vec<u8>)
    ensures
        final(out)@ == old(out)@ + uri_encode(bytes@),
{
    let mut i: usize = 0;
    proof {
        assert(old(out)@ + uri_encode(bytes@.subrange(0, 0)) =~= old(out)@);
    }
    while i < bytes.len()
        invariant
            i <= bytes@.len(),
            out@ == old(out)@ + uri_encode(bytes@.subrange(0, i as int)),
        decreases bytes@.len() - i,
    {
        let b = bytes[i];
        if (48 <= b && b <= 57) || (65 <= b && b <= 90) || (97 <= b && b <= 122) || b == 45 || b
            == 95 || b == 46 || b == 126 {
            out.push(b as char);
        } else {
            out.push('%');
            out.push(hex_digit_upper_exec(b / 16));
            out.push(hex_digit_upper_exec(b % 16));
        }
        proof {
            assert(bytes@.subrange(0, i + 1 as int) =~= bytes@.subrange(0, i as int).push(
                bytes@[i as int],
            ));
            lemma_uri_encode_push(bytes@.subrange(0, i as int), bytes@[i as int]);
            assert(out@ =~= old(out)@ + uri_encode(bytes@.subrange(0, i + 1 as int)));
        }
        i += 1;
    }
    proof {
        assert(bytes@.subrange(0, bytes@.len() as int) =~= bytes@);
    }
}

/// The federation sign-in endpoint.
pub open spec fn federation_endpoint() -> Seq<char> {
    "https://signin.aws.amazon.com/federation"@
}

/// The session blob the federation endpoint expects: the access key
/// id as the session id, the secret key as the session key, and the
/// session token, as one JSON object.
pub open spec fn spec_session_blob(key_id: Seq<char>, secret: Seq<char>, token: Seq<char>) -> Seq<
    char,
> {
    "{\"sessionId\":\""@ + esc(key_id) + "\",\"sessionKey\":\""@ + esc(secret)
        + "\",\"sessionToken\":\""@ + esc(token) + "\"}"@
}

/// The URL that requests a sign-in token: `getSigninToken` with the
/// protocol-maximum session duration of 43200 seconds and the
/// form-encoded session blob.
pub open spec fn spec_signin_token_url(
    key_id: Seq<char>,
    secret: Seq<char>,
    token: Seq<char>,
) -> Seq<char> {
    federation_endpoint() + "?Action=getSigninToken&SessionDuration=43200&Session="@ + form_encode(
        encode_utf8(spec_session_blob(key_id, secret, token)),
    )
}

/// Serializes the session blob for `credentials`.
pub fn session_blob(credentials: &RoleCredentials) -> (r: String)
    ensures
        r@ == spec_session_blob(
            credentials.access_key_id@,
            credentials.secret_access_key@,
            credentials.session_token@,
        ),
{
    let mut out = chars_of("{\"sessionId\":\"");
    let kv = chars_of(credentials.access_key_id.as_str());
    escape_append(&mut out, &kv);
    let mut l1 = chars_of("\",\"sessionKey\":\"");
    out.append(&mut l1);
    let sv = chars_of(credentials.secret_access_key.as_str());
    escape_append(&mut out, &sv);
    let mut l2 = chars_of("\",\"sessionToken\":\"");
    out.append(&mut l2);
    let tv = chars_of(credentials.session_token.as_str());
    escape_append(&mut out, &tv);
    let mut l3 = chars_of("\"}");
    out.append(&mut l3);
    proof {
        assert(out@ =~= spec_session_blob(
            credentials.access_key_id@,
            credentials.secret_access_key@,
            credentials.session_token@,
        ));
    }
    string_of(&out)
}

/// Assembles the sign-in-token request URL for `credentials`.
pub fn signin_token_url(credentials: &RoleCredentials) -> (r: String)
    ensures
        r@ == spec_signin_token_url(
            credentials.access_key_id@,
            credentials.secret_access_key@,
            credentials.session_token@,
        ),
{
    let blob = session_blob(credentials);
    let blob_bytes = blob.as_str().as_bytes_vec();
    let mut out = chars_of("https://signin.aws.amazon.com/federation");
    let mut q = chars_of("?Action=getSigninToken&SessionDuration=43200&Session=");
    out.append(&mut q);
    form_encode_append(&mut out, &blob_bytes);
    proof {
        assert(out@ =~= spec_signin_token_url(
            credentials.access_key_id@,
            credentials.secret_access_key@,
            credentials.session_token@,
        ));
    }
    string_of(&out)
}

/// The string members of a flat JSON object, read from `i` (at the
/// opening quote of a key): key and value pairs up to the closing
/// brace, which must end the input.
pub open spec fn spec_members(s: Seq<char>, i: int, fuel: nat) -> Option<
    Seq<(Seq<char>, Seq<char>)>,
>
    decreases fuel,
{
    if fuel == 0 {
        None
    } else if i < 0 || i >= s.len() || s[i] != '"' {
        None
    } else {
        match spec_parse_string(s, i + 1) {
            None => None,
            Some((key, j)) => {
                if j < s.len() && s[j] == ':' && j + 1 < s.len() && s[j + 1] == '"' {
                    match spec_parse_string(s, j + 2) {
                        None => None,
                        Some((val, j2)) => {
                            if j2 < s.len() && s[j2] == '}' && j2 + 1 == s.len() {
                                Some(seq![(key, val)])
                            } else if j2 < s.len() && s[j2] == ',' {
                                match spec_members(s, j2 + 1, (fuel - 1) as nat) {
                                    None => None,
                                    Some(rest) => Some(seq![(key, val)] + rest),
                                }
                            } else {
                                None
                            }
                        },
                    }
                } else {
                    None
                }
            },
        }
    }
}

/// The members of a flat JSON object whose values are all strings:
/// `{}` reads as no members, anything else must be `{` followed by
/// members to the end.
pub open spec fn spec_parse_flat_object(s: Seq<char>) -> Option<Seq<(Seq<char>, Seq<char>)>> {
    if s.len() == 2 && s[0] == '{' && s[1] == '}' {
        Some(Seq::empty())
    } else if s.len() >= 1 && s[0] == '{' {
        spec_members(s, 1, s.len() as nat)
    } else {
        None
    }
}

/// The value of the first pair whose key is `key`.
pub open spec fn spec_assoc(pairs: Seq<(Seq<char>, Seq<char>)>, key: Seq<char>) -> Option<
    Seq<char>,
>
    decreases pairs.len(),
{
    if pairs.len() == 0 {
        None
    } else if pairs[0].0 == key {
        Some(pairs[0].1)
    } else {
        spec_assoc(pairs.drop_first(), key)
    }
}

/// The `SigninToken` field of a federation response body, if the
/// body is a flat JSON object that holds one.
pub open spec fn spec_signin_token_of(body: Seq<char>) -> Option<Seq<char>> {
    match spec_parse_flat_object(body) {
        Some(pairs) => spec_assoc(pairs, "SigninToken"@),
        None => None,
    }
}

/// The key and value texts of a sequence of string pairs.
pub open spec fn pair_views(s: Seq<(String, String)>) -> Seq<(Seq<char>, Seq<char>)> {
    s.map_values(|p: (String, String)| (p.0@, p.1@))
}

/// Reads the members of a flat JSON object from `i`, following
/// `spec_members` exactly.
fn members_at(v: &Vec<char>, i: usize, fuel: usize) -> (r: Option<Vec<(String, String)>>)
    ensures
        match r {
            Some(pairs) => spec_members(v@, i as int, fuel as nat) == Some(pair_views(pairs@)),
            None => spec_members(v@, i as int, fuel as nat) is None,
        },
    decreases fuel,
{
    if fuel == 0 {
        return None;
    }
    if i >= v.len() || v[i] != '"' {
        return None;
    }
    let parsed_key = parse_string_at(v, i + 1);
    let (key, j) = match parsed_key {
        Some(p) => p,
        None => {
            return None;
        },
    };
    if !(j < v.len() && v[j] == ':') {
        return None;
    }
    if !(j + 1 < v.len() && v[j + 1] == '"') {
        return None;
    }
    let parsed_val = parse_string_at(v, j + 2);
    let (val, j2) = match parsed_val {
        Some(p) => p,
        None => {
            return None;
        },
    };
    let key_s = string_of(&key);
    let val_s = string_of(&val);
    if j2 < v.len() && j2 + 1 == v.len() && v[j2] == '}' {
        let mut out: Vec<(String, String)> = Vec::new();
        out.push((key_s, val_s));
        proof {
            assert(pair_views(out@) =~= seq![(key@, val@)]);
        }
        return Some(out);
    }
    if j2 < v.len() && v[j2] == ',' {
        match members_at(v, j2 + 1, fuel - 1) {
            Some(mut rest) => {
                let ghost pre = rest@;
                rest.insert(0, (key_s, val_s));
                proof {
                    assert(pair_views(rest@) =~= seq![(key@, val@)] + pair_views(pre));
                }
                return Some(rest);
            },
            None => {
                return None;
            },
        }
    }
    None
}

/// Reads the `SigninToken` field out of the federation response.
/// A body without that field — or one that is no flat JSON object —
/// is a missing sign-in token, never a panic.
pub fn parse_signin_token(body: &str) -> (r: Result<String, FederationError>)
    ensures
        match r {
            Ok(tok) => spec_signin_token_of(body@) == Some(tok@),
            Err(e) => e == FederationError::MissingSigninToken && spec_signin_token_of(body@)
                is None,
        },
{
    let v = chars_of(body);
    let pairs_opt: Option<Vec<(String, String)>> = if v.len() == 2 && v[0] == '{' && v[1] == '}' {
        Some(Vec::new())
    } else if v.len() >= 1 && v[0] == '{' {
        members_at(&v, 1, v.len())
    } else {
        None
    };
    let pairs = match pairs_opt {
        Some(p) => p,
        None => {
            return Err(FederationError::MissingSigninToken);
        },
    };
    let mut i: usize = 0;
    proof {
        assert(pair_views(pairs@).skip(0) =~= pair_views(pairs@));
    }
    loop
        invariant
            i <= pairs@.len(),
            spec_assoc(pair_views(pairs@), "SigninToken"@) == spec_assoc(
                pair_views(pairs@).skip(i as int),
                "SigninToken"@,
            ),
            spec_signin_token_of(body@) == spec_assoc(pair_views(pairs@), "SigninToken"@),
        decreases pairs@.len() - i,
    {
        if i == pairs.len() {
            proof {
                assert(pair_views(pairs@).skip(i as int) =~= Seq::<(Seq<char>, Seq<char>)>::empty());
            }
            return Err(FederationError::MissingSigninToken);
        }
        proof {
            assert(pair_views(pairs@).skip(i as int)[0] == pair_views(pairs@)[i as int]);
            assert(pair_views(pairs@).skip(i as int).drop_first() =~= pair_views(pairs@).skip(
                i + 1,
            ));
        }
        if str_eq(pairs[i].0.as_str(), "SigninToken") {
            return Ok(pairs[i].1.clone());
        }
        i += 1;
    }
}

/// The final console login URL: `Action=login` with an empty issuer,
/// the console root as the destination, and the sign-in token.
pub open spec fn spec_login_url(signin_token: Seq<char>) -> Seq<char> {
    federation_endpoint() + "?Action=login&Issuer=&Destination="@ + form_encode(
        encode_utf8("https://console.aws.amazon.com/"@),
    ) + "&SigninToken="@ + form_encode(encode_utf8(signin_token))
}

/// Assembles the console login URL for a sign-in token.
pub fn build_login_url(signin_token: &str) -> (r: String)
    ensures
        r@ == spec_login_url(signin_token@),
{
    let mut out = chars_of("https://signin.aws.amazon.com/federation");
    let mut q = chars_of("?Action=login&Issuer=&Destination=");
    out.append(&mut q);
    let dest_bytes = "https://console.aws.amazon.com/".as_bytes_vec();
    form_encode_append(&mut out, &dest_bytes);
    let mut q2 = chars_of("&SigninToken=");
    out.append(&mut q2);
    let tok_bytes = signin_token.as_bytes_vec();
    form_encode_append(&mut out, &tok_bytes);
    proof {
        assert(out@ =~= spec_login_url(signin_token@));
    }
    string_of(&out)
}

/// The stable profile name of one account and role.
pub open spec fn spec_profile_name(account_id: Seq<char>, role: Seq<char>) -> Seq<char> {
    "aws-sso-"@ + account_id + "-"@ + role
}

/// Builds the profile name of one account and role.
pub fn profile_name(account_id: &str, role: &str) -> (r: String)
    ensures
        r@ == spec_profile_name(account_id@, role@),
{
    let mut out = chars_of("aws-sso-");
    let mut idv = chars_of(account_id);
    out.append(&mut idv);
    let mut dash = chars_of("-");
    out.append(&mut dash);
    let mut rv = chars_of(role);
    out.append(&mut rv);
    proof {
        assert(out@ =~= spec_profile_name(account_id@, role@));
    }
    string_of(&out)
}

/// A federated console link: the login URL and the profile name it
/// is exported under.
#[derive(Clone, Debug, PartialEq, Eq)]
pub struct FederatedConsoleLink {
    pub profile_name: String,
    pub url: String,
}

/// Builds the federated console link for one account and role from
/// the federation endpoint's response: the login URL around the
/// response's sign-in token, and the profile name.  A response
/// without a sign-in token is fatal for this call.
pub fn build_link(account: &AccountInfo, role: &str, signin_response_body: &str) -> (r: Result<
    FederatedConsoleLink,
    FederationError,
>)
    ensures
        match r {
            Ok(link) => match spec_signin_token_of(signin_response_body@) {
                Some(tok) => link.url@ == spec_login_url(tok) && link.profile_name@
                    == spec_profile_name(account.account_id@, role@),
                None => false,
            },
            Err(e) => e == FederationError::MissingSigninToken && spec_signin_token_of(
                signin_response_body@,
            ) is None,
        },
{
    let token = match parse_signin_token(signin_response_body) {
        Ok(tok) => tok,
        Err(e) => {
            return Err(e);
        },
    };
    let url = build_login_url(token.as_str());
    let name = profile_name(account.account_id.as_str(), role);
    Ok(FederatedConsoleLink { profile_name: name, url })
}

/// The browser target that opens the link in its own container: the
/// profile name as the container name and the percent-encoded login
/// URL.
pub open spec fn spec_container_url(profile: Seq<char>, login_url: Seq<char>) -> Seq<char> {
    "ext+granted-containers:name="@ + profile + "&url="@ + uri_encode(encode_utf8(login_url))
}

/// Builds the container browser target for a federated console link.
pub fn granted_container_url(link: &FederatedConsoleLink) -> (r: String)
    ensures
        r@ == spec_container_url(link.profile_name@, link.url@),
{
    let mut out = chars_of("ext+granted-containers:name=");
    let mut p = chars_of(link.profile_name.as_str());
    out.append(&mut p);
    let mut mid = chars_of("&url=");
    out.append(&mut mid);
    let url_bytes = link.url.as_str().as_bytes_vec();
    uri_encode_append(&mut out, &url_bytes);
    proof {
        assert(out@ =~= spec_container_url(link.profile_name@, link.url@));
    }
    string_of(&out)
}

} // verus!
