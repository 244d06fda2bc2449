//! Signed access: a file is handed out to an unauthenticated caller
//! only against a token `path:expiry:digest` whose digest was made with the
//! web credentials that are configured now.
//!
//! Tokens, paths and credentials are byte strings throughout.

use vstd::prelude::*;
use vstd::slice::*;
use crate::bytes::{
    append, equal, find_byte, first_index, index_from, lemma_first_index, lemma_first_index_found,
};
use crate::decimal::{
    decimal, format_u64, is_digit, lemma_decimal_digits, lemma_parse_format, parse_decimal,
    parse_u64,
};
use crate::digest::{hash, lemma_hex_alphabet, lower_hex, sha256_digest};

verus! {

pub const COLON: u8 = 58;

pub const AT: u8 = 64;

/// The three fields of a token.
#[derive(Debug, PartialEq, Eq)]
pub struct SignedToken {
    pub path: Vec<u8>,
    /// Seconds since the Unix epoch.
    pub expiry: u64,
    pub digest: Vec<u8>,
}

pub struct TokenView {
    pub path: Seq<u8>,
    pub expiry: u64,
    pub digest: Seq<u8>,
}

impl View for SignedToken {
    type V = TokenView;

    open spec fn view(&self) -> TokenView {
        TokenView { path: self.path@, expiry: self.expiry, digest: self.digest@ }
    }
}

/// Why access is refused. Each refusal is answered with status 403.
#[derive(Clone, Copy, Debug, PartialEq, Eq, Structural)]
pub enum Rejection {
    /// No token, a token with fewer than three fields, or an expiry that is
    /// no number.
    Forbidden,
    /// The digest is not the one that the credentials give.
    InvalidSignature,
    /// The expiry is no point in time at or after the epoch.
    Outdated,
}

impl Rejection {
    pub fn status(&self) -> (code: u16)
        ensures
            code == 403,
    {
        403
    }

    pub open spec fn text(self) -> Seq<char> {
        match self {
            Rejection::Forbidden => ""@,
            Rejection::InvalidSignature => "invalid signature"@,
            Rejection::Outdated => "signature is outdate"@,
        }
    }

    /// The plain-text body of the answer.
    pub fn reason(&self) -> (body: &'static str)
        ensures
            body@ == self.text(),
    {
        match self {
            Rejection::Forbidden => "",
            Rejection::InvalidSignature => "invalid signature",
            Rejection::Outdated => "signature is outdate",
        }
    }
}

/// How many times `b` occurs in `s`.
pub open spec fn occurrences(s: Seq<u8>, b: u8) -> nat
    decreases s.len(),
{
    if s.len() == 0 {
        0
    } else {
        (if s[0] == b { 1nat } else { 0nat }) + occurrences(s.drop_first(), b)
    }
}

/// The fields of a token's text. The path runs to the first colon and the
/// expiry to the second; the digest runs to the third colon or to the end,
/// and what follows a third colon is ignored. Text with fewer than two
/// colons, or with an expiry that is no number, is no token.
pub open spec fn parse(text: Seq<u8>) -> Option<TokenView> {
    let first = index_from(text, 0, COLON);
    let second = index_from(text, first + 1, COLON);
    let third = index_from(text, second + 1, COLON);
    if first >= text.len() || second >= text.len() {
        None
    } else {
        match parse_decimal(text.subrange(first + 1, second)) {
            None => None,
            Some(expiry) => Some(
                TokenView {
                    path: text.subrange(0, first),
                    expiry,
                    digest: text.subrange(second + 1, third),
                },
            ),
        }
    }
}

/// The text of a token with the given fields.
pub open spec fn token_text(path: Seq<u8>, expiry: u64, digest: Seq<u8>) -> Seq<u8> {
    path + seq![COLON] + decimal(expiry as nat) + seq![COLON] + digest
}

/// The message that is digested: `path:expiry@username:password`.
pub open spec fn message(path: Seq<u8>, expiry: u64, username: Seq<u8>, password: Seq<u8>) -> Seq<
    u8,
> {
    path + seq![COLON] + decimal(expiry as nat) + seq![AT] + username + seq![COLON] + password
}

/// The digest field that the credentials give for a path and an expiry.
pub open spec fn expected_digest(
    path: Seq<u8>,
    expiry: u64,
    username: Seq<u8>,
    password: Seq<u8>,
) -> Seq<u8> {
    lower_hex(sha256_digest(message(path, expiry, username, password)))
}

/// The token that grants access to `path` until `expiry`.
pub open spec fn signature(path: Seq<u8>, expiry: u64, username: Seq<u8>, password: Seq<u8>) -> Seq<
    u8,
> {
    token_text(path, expiry, expected_digest(path, expiry, username, password))
}

/// The verdict on a token that parsed. `expiry_is_time` says whether
/// the expiry denotes a point in time at or after the epoch.
pub open spec fn token_verdict(
    token: TokenView,
    username: Seq<u8>,
    password: Seq<u8>,
    expiry_is_time: bool,
) -> Result<Seq<u8>, Rejection> {
    if token.digest != expected_digest(token.path, token.expiry, username, password) {
        Err(Rejection::InvalidSignature)
    } else if !expiry_is_time {
        Err(Rejection::Outdated)
    } else {
        Ok(token.path)
    }
}

/// The verdict on a token's text.
pub open spec fn verdict(
    text: Seq<u8>,
    username: Seq<u8>,
    password: Seq<u8>,
    expiry_is_time: bool,
) -> Result<Seq<u8>, Rejection> {
    match parse(text) {
        None => Err(Rejection::Forbidden),
        Some(token) => token_verdict(token, username, password, expiry_is_time),
    }
}

/// The verdict on a request, with or without a token.
pub open spec fn request_verdict(
    sign: Option<Seq<u8>>,
    username: Seq<u8>,
    password: Seq<u8>,
    expiry_is_time: bool,
) -> Result<Seq<u8>, Rejection> {
    match sign {
        None => Err(Rejection::Forbidden),
        Some(text) => verdict(text, username, password, expiry_is_time),
    }
}

/// An answer, with the granted path as a sequence of bytes.
pub open spec fn answer(r: Result<Vec<u8>, Rejection>) -> Result<Seq<u8>, Rejection> {
    match r {
        Ok(path) => Ok(path@),
        Err(e) => Err(e),
    }
}

/// `std::time::SystemTime`, carried through as an opaque value.
#[verifier::external_type_specification]
#[verifier::external_body]
pub struct ExSystemTime(std::time::SystemTime);

/// `SystemTime::checked_add` of the standard library, applied to the Unix
/// epoch and a span of `seconds`: the point in time, or `None` where the
/// platform's clock cannot hold it. Which spans it can hold differs between
/// platforms, so nothing is claimed of the result. Trusted.
#[verifier::external_body]
fn epoch_plus(seconds: u64) -> (time: Option<std::time::SystemTime>) {
    std::time::SystemTime::UNIX_EPOCH.checked_add(std::time::Duration::from_secs(seconds))
}

/// Splits a token's text into its fields.
pub fn parse_signature(text: &[u8]) -> (token: Option<SignedToken>)
    ensures
        match parse(text@) {
            Some(t) => token is Some && token->0@ == t,
            None => token is None,
        },
{
    let first: usize = find_byte(text, 0, COLON);
    if first >= text.len() {
        return None;
    }
    let second: usize = find_byte(text, first + 1, COLON);
    if second >= text.len() {
        return None;
    }
    let expiry: u64 = match parse_u64(slice_subrange(text, first + 1, second)) {
        Some(expiry) => expiry,
        None => { return None; },
    };
    let third: usize = find_byte(text, second + 1, COLON);
    Some(
        SignedToken {
            path: slice_to_vec(slice_subrange(text, 0, first)),
            expiry,
            digest: slice_to_vec(slice_subrange(text, second + 1, third)),
        },
    )
}

/// Recomputes the digest field for a path and an expiry.
pub fn digest_for(path: &[u8], expiry: u64, username: &[u8], password: &[u8]) -> (digest: Vec<u8>)
    ensures
        digest@ == expected_digest(path@, expiry, username@, password@),
{
    let mut text: Vec<u8> = Vec::new();
    append(&mut text, path);
    text.push(COLON);
    let number = format_u64(expiry);
    append(&mut text, number.as_slice());
    text.push(AT);
    append(&mut text, username);
    text.push(COLON);
    append(&mut text, password);
    assert(text@ =~= message(path@, expiry, username@, password@));
    hash(text.as_slice())
}

/// Makes the token that grants access to `path` until `expiry`.
pub fn sign(path: &[u8], expiry: u64, username: &[u8], password: &[u8]) -> (token: Vec<u8>)
    ensures
        token@ == signature(path@, expiry, username@, password@),
{
    let digest = digest_for(path, expiry, username, password);
    let mut token: Vec<u8> = Vec::new();
    append(&mut token, path);
    token.push(COLON);
    let number = format_u64(expiry);
    append(&mut token, number.as_slice());
    token.push(COLON);
    append(&mut token, digest.as_slice());
    assert(token@ =~= signature(path@, expiry, username@, password@));
    token
}

/// Decides on a token that parsed: the digest is compared first, then the
/// expiry is looked at.
pub fn check_token(
    token: SignedToken,
    username: &[u8],
    password: &[u8],
    expiry_is_time: bool,
) -> (r: Result<Vec<u8>, Rejection>)
    ensures
        answer(r) == token_verdict(token@, username@, password@, expiry_is_time),
{
    let expected = digest_for(token.path.as_slice(), token.expiry, username, password);
    if !equal(expected.as_slice(), token.digest.as_slice()) {
        Err(Rejection::InvalidSignature)
    } else if !expiry_is_time {
        Err(Rejection::Outdated)
    } else {
        Ok(token.path)
    }
}

/// Checks a token against the configured credentials and returns the path
/// it grants. Whether a very large expiry is a point in time is the
/// platform's to say: the answer is the verdict for one of the two cases.
pub fn verify(text: &[u8], username: &[u8], password: &[u8]) -> (r: Result<Vec<u8>, Rejection>)
    ensures
        answer(r) == verdict(text@, username@, password@, true) || answer(r) == verdict(
            text@,
            username@,
            password@,
            false,
        ),
{
    match parse_signature(text) {
        None => Err(Rejection::Forbidden),
        Some(token) => {
            let expiry_is_time = epoch_plus(token.expiry).is_some();
            check_token(token, username, password, expiry_is_time)
        },
    }
}

/// The `sign` parameter of a request as a sequence of bytes.
pub open spec fn parameter(sign: Option<&[u8]>) -> Option<Seq<u8>> {
    match sign {
        Some(text) => Some(text@),
        None => None,
    }
}

/// Answers a request for a file: `sign` is the request's `sign` parameter.
/// The path that comes back is relative to the workspace.
pub fn api_extract_file(sign: Option<&[u8]>, username: &[u8], password: &[u8]) -> (r: Result<
    Vec<u8>,
    Rejection,
>)
    ensures
        answer(r) == request_verdict(parameter(sign), username@, password@, true) || answer(r)
            == request_verdict(parameter(sign), username@, password@, false),
{
    match sign {
        None => Err(Rejection::Forbidden),
        Some(text) => verify(text, username, password),
    }
}

/// Text made of a path without a colon, a number and a digest without a
/// colon parses into those three fields.
pub proof fn lemma_parse_token_text(path: Seq<u8>, expiry: u64, digest: Seq<u8>)
    requires
        !path.contains(COLON),
        !digest.contains(COLON),
    ensures
        parse(token_text(path, expiry, digest)) == Some(TokenView { path, expiry, digest }),
{
    let text = token_text(path, expiry, digest);
    let number = decimal(expiry as nat);
    let end = text.len() as int;
    let first = path.len() as int;
    let second = first + 1 + number.len();
    lemma_decimal_digits(expiry as nat);
    lemma_parse_format(expiry);

    assert(text.subrange(0, end) =~= text);
    assert forall|j: int| 0 <= j < first implies text[j] != COLON by {
        assert(text[j] == path[j]);
        if path[j] == COLON {
            assert(path.contains(COLON));
        }
    }
    assert(text[first] == COLON);
    lemma_first_index(text, COLON, first);
    assert(index_from(text, 0, COLON) == first);

    let after_path = text.subrange(first + 1, end);
    assert forall|j: int| 0 <= j < number.len() implies after_path[j] != COLON by {
        assert(after_path[j] == number[j]);
        assert(is_digit(number[j]));
    }
    assert(after_path[number.len() as int] == COLON);
    lemma_first_index(after_path, COLON, number.len() as int);
    assert(index_from(text, first + 1, COLON) == second);
    assert(text.subrange(first + 1, second) =~= number);

    let after_expiry = text.subrange(second + 1, end);
    assert(after_expiry =~= digest);
    assert forall|j: int| 0 <= j < digest.len() implies digest[j] != COLON by {
        if digest[j] == COLON {
            assert(digest.contains(COLON));
        }
    }
    lemma_first_index(digest, COLON, digest.len() as int);
    assert(index_from(text, second + 1, COLON) == end);
    assert(text.subrange(second + 1, end) =~= digest);
    assert(text.subrange(0, first) =~= path);
}

/// A digest field never holds a colon.
pub proof fn lemma_digest_has_no_colon(data: Seq<u8>)
    ensures
        !lower_hex(data).contains(COLON),
{
    let text = lower_hex(data);
    if text.contains(COLON) {
        let i = choose|i: int| 0 <= i < text.len() && text[i] == COLON;
        lemma_hex_alphabet(data, i);
    }
}

/// Round trip: a token made for a path that holds no colon grants access
/// to that path, when it is checked against the credentials it was made
/// with and its expiry is a point in time.
pub proof fn lemma_signature_round_trip(
    path: Seq<u8>,
    expiry: u64,
    username: Seq<u8>,
    password: Seq<u8>,
)
    requires
        !path.contains(COLON),
    ensures
        verdict(signature(path, expiry, username, password), username, password, true) == Ok::<
            Seq<u8>,
            Rejection,
        >(path),
{
    let digest = expected_digest(path, expiry, username, password);
    lemma_digest_has_no_colon(sha256_digest(message(path, expiry, username, password)));
    lemma_parse_token_text(path, expiry, digest);
}

/// Changed inputs: the digest of a token made from one path, expiry, user
/// name and password, presented under another path or expiry or checked
/// against another user name or password, is refused as an invalid
/// signature wherever the change changes the digest.
pub proof fn lemma_changed_input_rejected(
    path: Seq<u8>,
    expiry: u64,
    username: Seq<u8>,
    password: Seq<u8>,
    other_path: Seq<u8>,
    other_expiry: u64,
    other_username: Seq<u8>,
    other_password: Seq<u8>,
    expiry_is_time: bool,
)
    requires
        !other_path.contains(COLON),
        expected_digest(path, expiry, username, password) != expected_digest(
            other_path,
            other_expiry,
            other_username,
            other_password,
        ),
    ensures
        verdict(
            token_text(other_path, other_expiry, expected_digest(path, expiry, username, password)),
            other_username,
            other_password,
            expiry_is_time,
        ) == Err::<Seq<u8>, Rejection>(Rejection::InvalidSignature),
{
    lemma_digest_has_no_colon(sha256_digest(message(path, expiry, username, password)));
    lemma_parse_token_text(
        other_path,
        other_expiry,
        expected_digest(path, expiry, username, password),
    );
}

/// Where a `b` occurs at all, one occurrence is the first, and the others
/// stand behind it.
pub proof fn lemma_occurrences_after_first(s: Seq<u8>, b: u8)
    ensures
        first_index(s, b) >= s.len() ==> occurrences(s, b) == 0,
        first_index(s, b) < s.len() ==> occurrences(s, b) == 1 + occurrences(
            s.subrange(first_index(s, b) + 1, s.len() as int),
            b,
        ),
    decreases s.len(),
{
    if s.len() == 0 {
    } else if s[0] == b {
        assert(s.subrange(1, s.len() as int) =~= s.drop_first());
    } else {
        let rest = s.drop_first();
        lemma_occurrences_after_first(rest, b);
        lemma_first_index_found(rest, b);
        if first_index(rest, b) < rest.len() {
            assert(s.subrange(first_index(s, b) + 1, s.len() as int) =~= rest.subrange(
                first_index(rest, b) + 1,
                rest.len() as int,
            ));
        }
    }
}

/// Text with fewer than three colon-separated fields, that is with fewer
/// than two colons, is no token: it is answered with `Forbidden`
/// whatever the credentials.
pub proof fn lemma_truncated_rejected(
    text: Seq<u8>,
    username: Seq<u8>,
    password: Seq<u8>,
    expiry_is_time: bool,
)
    requires
        occurrences(text, COLON) < 2,
    ensures
        verdict(text, username, password, expiry_is_time) == Err::<Seq<u8>, Rejection>(
            Rejection::Forbidden,
        ),
{
    let end = text.len() as int;
    assert(text.subrange(0, end) =~= text);
    lemma_occurrences_after_first(text, COLON);
    lemma_first_index_found(text, COLON);
    let first = index_from(text, 0, COLON);
    if first < end {
        let rest = text.subrange(first + 1, end);
        lemma_occurrences_after_first(rest, COLON);
    }
}

} // verus!
