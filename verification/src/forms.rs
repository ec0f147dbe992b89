use vstd::prelude::*;
use vstd::string::StrSliceExecFns;
use crate::outside::{check_email, email_ok};

verus! {

/// The sign-up form: an address and a chosen password.
pub struct FmSignUp {
    pub email: String,
    pub password: String,
}

impl FmSignUp {
    /// A sign-up is acceptable when the address has the e-mail shape and
    /// the password has 6 to 32 characters.
    pub fn validate(&self) -> (r: bool)
        ensures
            r == (email_ok(self.email@) && 6 <= self.password@.len() <= 32),
    {
        let n = self.password.as_str().unicode_len();
        check_email(self.email.as_str()) && 6 <= n && n <= 32
    }
}

/// The sign-in form: an address and the password to check.
pub struct FmSignIn {
    pub email: String,
    pub password: String,
}

impl FmSignIn {
    /// A sign-in attempt is acceptable when the address has the e-mail
    /// shape and the password has at least 6 characters.
    pub fn validate(&self) -> (r: bool)
        ensures
            r == (email_ok(self.email@) && 6 <= self.password@.len()),
    {
        let n = self.password.as_str().unicode_len();
        check_email(self.email.as_str()) && 6 <= n
    }
}

/// A form carrying just an address: forgot-password, unlock and confirm
/// requests all take one.
pub struct FmEmail {
    pub email: String,
}

impl FmEmail {
    /// Acceptable when the address has the e-mail shape.
    pub fn validate(&self) -> (r: bool)
        ensures
            r == email_ok(self.email@),
    {
        check_email(self.email.as_str())
    }
}

/// The reset-password form: the new password and the token that authorizes
/// setting it.
pub struct FmResetPassword {
    pub password: String,
    pub token: String,
}

impl FmResetPassword {
    /// Acceptable when the new password has at least 6 characters and a
    /// token is present at all.
    pub fn validate(&self) -> (r: bool)
        ensures
            r == (6 <= self.password@.len() && 1 <= self.token@.len()),
    {
        let n = self.password.as_str().unicode_len();
        let t = self.token.as_str().unicode_len();
        6 <= n && 1 <= t
    }
}

} // verus!
