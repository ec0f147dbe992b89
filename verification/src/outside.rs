use vstd::prelude::*;
use validator::ValidateEmail;

verus! {

/// The set of strings that the e-mail validity check accepts.  The check is
/// a pure function of the string alone, so its outcome only gets a name
/// here; `check_email` is the one way to evaluate it.
pub uninterp spec fn email_ok(s: Seq<char>) -> bool;

/// Relies on validator's `ValidateEmail::validate_email` for `&str`: a
/// deterministic check of the string against the HTML5 e-mail shape,
/// depending on nothing but the characters.
#[verifier::external_body]
pub fn check_email(s: &str) -> (r: bool)
    ensures
        r == email_ok(s@),
{
    s.validate_email()
}

/// The byte form of an ASCII string literal.
pub open spec fn lit_bytes(s: Seq<char>) -> Seq<u8> {
    s.map_values(|c: char| c as u8)
}

/// Relies on mime's `APPLICATION_JSON` constant: its string form is exactly
/// "application/json".
#[verifier::external_body]
pub fn application_json() -> (r: Vec<u8>)
    ensures
        r@ == lit_bytes("application/json"@),
{
    mime::APPLICATION_JSON.as_ref().as_bytes().to_vec()
}

} // verus!
