//! Who may ask: token authentication against one user's credentials.

use vstd::prelude::*;

use crate::subsonic::errors::{SubsonicError, SubsonicErrorCode};
use crate::subsonic::params::SubsonicParams;
use crate::text::{
    concat, hex, hex_digit, hex_of, hex_writes_each_byte, opt_text, same_bytes_same_text,
};
use vstd::utf8::encode_utf8;

verus! {

/// The one user and the secret.
#[derive(Debug)]
pub struct Credentials {
    pub username: String,
    pub password: String,
}

/// The MD5 digest of some bytes.
pub uninterp spec fn md5_digest(data: Seq<u8>) -> Seq<u8>;

/// `md5::compute`: the sixteen bytes of the digest.
#[verifier::external_body]
fn md5_of(data: &[u8]) -> (r: Vec<u8>)
    ensures
        r@ == md5_digest(data@),
        r@.len() == 16,
{
    md5::compute(data).0.to_vec()
}

/// `subtle::ConstantTimeEq::ct_eq` on bytes: whether they are equal.
#[verifier::external_body]
pub(crate) fn ct_equal(a: &[u8], b: &[u8]) -> (r: bool)
    ensures
        r == (a@ == b@),
{
    subtle::ConstantTimeEq::ct_eq(a, b).into()
}

/// Whether two texts are equal, in a time that does not depend on where they
/// differ.
pub fn same_secret(a: &str, b: &str) -> (r: bool)
    ensures
        r == (a@ == b@),
{
    proof {
        same_bytes_same_text(a@, b@);
    }
    ct_equal(a.as_bytes(), b.as_bytes())
}

/// The token that proves the knowledge of a secret, for a salt of the client's.
pub open spec fn token_for(password: Seq<char>, salt: Seq<char>) -> Seq<char> {
    hex(md5_digest(encode_utf8(password + salt)))
}

/// What a request's credentials amount to, given the token that its salt calls for.
/// Without a user, or without token and salt, the request is incomplete; a plain
/// password instead of a token is refused like a wrong one.
pub open spec fn verdict(
    user: Option<Seq<char>>,
    token: Option<Seq<char>>,
    salt: Option<Seq<char>>,
    has_password: bool,
    username: Seq<char>,
    expected: Seq<char>,
) -> Option<(SubsonicErrorCode, Seq<char>)> {
    if user is None {
        Some(
            (
                SubsonicErrorCode::MissingParameter,
                "Required parameter '"@ + "u"@ + "' is missing"@,
            ),
        )
    } else if token is None || salt is None {
        if has_password {
            Some((SubsonicErrorCode::WrongAuth, "Wrong username or password"@))
        } else {
            Some(
                (
                    SubsonicErrorCode::MissingParameter,
                    "Required parameter '"@ + "t and s"@ + "' is missing"@,
                ),
            )
        }
    } else if user == Some(username) && token == Some(expected) {
        None
    } else {
        Some((SubsonicErrorCode::WrongAuth, "Wrong username or password"@))
    }
}

/// Whether an outcome is what a verdict says.
pub open spec fn follows(
    outcome: Result<(), SubsonicError>,
    verdict: Option<(SubsonicErrorCode, Seq<char>)>,
) -> bool {
    match (outcome, verdict) {
        (Ok(_), None) => true,
        (Err(e), Some((code, message))) => e.says(code, message),
        _ => false,
    }
}

/// The verdict on a request with some parameters.
pub open spec fn verdict_on(
    params: SubsonicParams,
    username: Seq<char>,
    expected: Seq<char>,
) -> Option<(SubsonicErrorCode, Seq<char>)> {
    verdict(
        opt_text(params.u),
        opt_text(params.t),
        opt_text(params.s),
        params.p is Some,
        username,
        expected,
    )
}

/// The salt of a request, empty if it has none.
pub open spec fn salt_of(params: SubsonicParams) -> Seq<char> {
    match params.s {
        Some(s) => s@,
        None => Seq::empty(),
    }
}

/// Judges a request's credentials, given the token that its salt calls for.
pub fn validate_token(params: &SubsonicParams, username: &str, expected: &str) -> (r: Result<
    (),
    SubsonicError,
>)
    ensures
        follows(r, verdict_on(*params, username@, expected@)),
{
    match &params.u {
        None => Err(SubsonicError::missing_param("u")),
        Some(user) => {
            let user_ok = same_secret(user.as_str(), username);
            match (&params.t, &params.s) {
                (Some(token), Some(_)) => {
                    let token_ok = same_secret(token.as_str(), expected);
                    if user_ok && token_ok {
                        Ok(())
                    } else {
                        Err(SubsonicError::wrong_auth())
                    }
                },
                _ => if params.p.is_some() {
                    Err(SubsonicError::wrong_auth())
                } else {
                    Err(SubsonicError::missing_param("t and s"))
                },
            }
        },
    }
}

/// Judges a request's credentials against the configured ones.
pub fn validate_auth(params: &SubsonicParams, creds: &Credentials) -> (r: Result<(), SubsonicError>)
    ensures
        follows(
            r,
            verdict_on(
                *params,
                creds.username@,
                token_for(creds.password@, salt_of(*params)),
            ),
        ),
{
    let salt: String = match &params.s {
        Some(s) => s.clone(),
        None => String::new(),
    };
    let secret = concat(creds.password.as_str(), salt.as_str());
    let digest = md5_of(secret.as_str().as_bytes());
    let expected = hex_of(&digest);
    validate_token(params, creds.username.as_str(), expected.as_str())
}

/// A request is let in exactly if it names the user and carries a salt and the
/// token for it.
pub proof fn only_the_right_token_gets_in(
    params: SubsonicParams,
    username: Seq<char>,
    password: Seq<char>,
)
    ensures
        verdict_on(params, username, token_for(password, salt_of(params))) is None <==> (opt_text(
            params.u,
        ) == Some(username) && params.s is Some && opt_text(params.t) == Some(
            token_for(password, params.s->0@),
        )),
{
}

/// A plain password never gets in: without a token the request is refused, whatever
/// the password.
pub proof fn plain_passwords_are_refused(
    params: SubsonicParams,
    username: Seq<char>,
    expected: Seq<char>,
)
    requires
        params.t is None || params.s is None,
    ensures
        verdict_on(params, username, expected) is Some,
{
}

/// A request without a user, or without token and salt and password, lacks a parameter; every
/// other that is refused is told the same, whatever was wrong with it.
pub proof fn refusals_say_no_more_than_needed(
    params: SubsonicParams,
    username: Seq<char>,
    expected: Seq<char>,
)
    requires
        verdict_on(params, username, expected) is Some,
    ensures
        ({
            let (code, message) = verdict_on(params, username, expected)->0;
            let lacking = params.u is None || ((params.t is None || params.s is None) && params.p
                is None);
            &&& code is MissingParameter <==> lacking
            &&& code is WrongAuth <==> !lacking
            &&& !lacking ==> message == "Wrong username or password"@
        }),
{
}

/// A token hangs on the password and the salt together: it is the digest of one behind the
/// other, in lower-case hexadecimal.
pub proof fn tokens_digest_password_and_salt(password: Seq<char>, salt: Seq<char>, k: int)
    requires
        0 <= k < md5_digest(encode_utf8(password + salt)).len(),
    ensures
        ({
            let digest = md5_digest(encode_utf8(password + salt));
            let token = token_for(password, salt);
            &&& token.len() == 2 * digest.len()
            &&& token[2 * k] == hex_digit(digest[k] as int / 16)
            &&& token[2 * k + 1] == hex_digit(digest[k] as int % 16)
        }),
{
    hex_writes_each_byte(md5_digest(encode_utf8(password + salt)), k);
}

/// Who is let in is so without an error, and who is not gets the error of the verdict.
pub proof fn verdicts_are_followed(
    outcome: Result<(), SubsonicError>,
    verdict: Option<(SubsonicErrorCode, Seq<char>)>,
)
    requires
        follows(outcome, verdict),
    ensures
        outcome is Ok <==> verdict is None,
        verdict matches Some((code, message)) ==> outcome->Err_0.code == code
            && outcome->Err_0.message@ == message,
{
}

} // verus!
