//! Input forms for the authentication endpoints: the credential a client
//! submits and the bearer token handed back to an authenticated client.

use vstd::prelude::*;

verus! {

/// Role a registered user holds; a credential without a role defaults to
/// `Buyer` at registration.
#[derive(Clone, Copy, Debug, PartialEq, Eq, Structural)]
pub enum UserRole {
    Buyer,
    Seller,
}

/// An issued bearer token, opaque to every caller but the token issuer.
#[derive(Debug)]
pub struct Token {
    token: String,
}

impl Token {
    /// The characters of the wrapped token string.
    pub closed spec fn spec_token(&self) -> Seq<char> {
        self.token@
    }

    pub fn get_token(&self) -> (r: String)
        ensures
            r@ == self.spec_token(),
    {
        self.token.clone()
    }

    pub fn new(value: String) -> (r: Token)
        ensures
            r.spec_token() == value@,
    {
        Token { token: value }
    }
}

/// Shortest password the boundary accepts, in characters.
pub const PASSWORD_MIN_LEN: usize = 10;

/// Longest password the boundary accepts, in characters.
pub const PASSWORD_MAX_LEN: usize = 14;

/// A submitted credential: a plaintext password and an optional role.
pub struct AuthUserForm {
    password: String,
    role: Option<UserRole>,
}

/// A form is well shaped when its password holds 10 to 14 characters.
pub open spec fn valid_form(password: Seq<char>) -> bool {
    PASSWORD_MIN_LEN <= password.len() <= PASSWORD_MAX_LEN
}

/// The custom rule on the role field: every role the closed enum can hold
/// is accepted.
fn validate_role(role: &UserRole) -> (r: bool)
    ensures
        r,
{
    match role {
        UserRole::Buyer | UserRole::Seller => true,
    }
}

impl AuthUserForm {
    /// The characters of the submitted plaintext password.
    pub closed spec fn spec_password(&self) -> Seq<char> {
        self.password@
    }

    /// The submitted role, if any.
    pub closed spec fn spec_role(&self) -> Option<UserRole> {
        self.role
    }

    pub fn create_buyer(password: String) -> (r: AuthUserForm)
        ensures
            r.spec_password() == password@,
            r.spec_role() == Some(UserRole::Buyer),
    {
        AuthUserForm { password, role: Some(UserRole::Buyer) }
    }

    pub fn new(password: String) -> (r: AuthUserForm)
        ensures
            r.spec_password() == password@,
            r.spec_role() is None,
    {
        AuthUserForm { password, role: None }
    }

    pub fn get_password(&self) -> (r: String)
        ensures
            r@ == self.spec_password(),
    {
        self.password.clone()
    }

    pub fn get_role(&self) -> (r: Option<UserRole>)
        ensures
            r == self.spec_role(),
    {
        self.role
    }

    /// Boundary validation: accepts the form exactly when the password
    /// holds 10 to 14 characters and the role, if given, passes the role
    /// rule (which every value of the closed enum does).
    pub fn validate(&self) -> (r: bool)
        ensures
            r == valid_form(self.spec_password()),
    {
        let role_ok = match &self.role {
            Some(role) => validate_role(role),
            None => true,
        };
        let n = self.password.as_str().unicode_len();
        role_ok && PASSWORD_MIN_LEN <= n && n <= PASSWORD_MAX_LEN
    }
}

} // verus!
