//! Users of the judge and their permissions.
use vstd::prelude::*;

verus! {

/// A registered user. The password is kept as its hash.
#[derive(Clone, Hash, PartialEq, Eq)]
pub struct User {
    id: i64,
    email: String,
    username: String,
    password: String,
}

/// What a user may do beyond taking part in contests.
#[derive(Debug, Clone, Copy, Hash, PartialEq, Eq, Structural)]
pub struct Permissions {
    admin: bool,
}

impl Permissions {
    /// Whether this is the administration permission.
    pub closed spec fn spec_admin(&self) -> bool {
        self.admin
    }

    /// The permission to run the judge's administration.
    pub fn admin() -> (r: Permissions)
        ensures
            r.spec_admin(),
    {
        Permissions { admin: true }
    }

    /// Whether this is the administration permission.
    pub fn is_admin(&self) -> (r: bool)
        ensures
            r == self.spec_admin(),
    {
        self.admin
    }
}

impl User {
    /// The user's id.
    pub closed spec fn spec_id(&self) -> i64 {
        self.id
    }

    /// The user's e-mail address.
    pub closed spec fn spec_email(&self) -> Seq<char> {
        self.email@
    }

    /// The user's name.
    pub closed spec fn spec_username(&self) -> Seq<char> {
        self.username@
    }

    /// The hash of the user's password.
    pub closed spec fn spec_password(&self) -> Seq<char> {
        self.password@
    }

    /// A user from its id, e-mail address, name and password hash.
    pub fn new(id: i64, email: &str, username: &str, password: &str) -> (r: User)
        ensures
            r.spec_id() == id,
            r.spec_email() == email@,
            r.spec_username() == username@,
            r.spec_password() == password@,
    {
        User {
            id,
            email: email.to_owned(),
            username: username.to_owned(),
            password: password.to_owned(),
        }
    }

    /// The user's id.
    pub fn id(&self) -> (r: i64)
        ensures
            r == self.spec_id(),
    {
        self.id
    }

    /// The user's name.
    pub fn username(&self) -> (r: &str)
        ensures
            r@ == self.spec_username(),
    {
        self.username.as_str()
    }

    /// The user's e-mail address.
    pub fn email(&self) -> (r: &str)
        ensures
            r@ == self.spec_email(),
    {
        self.email.as_str()
    }

    /// The hash of the user's password.
    pub fn password(&self) -> (r: &str)
        ensures
            r@ == self.spec_password(),
    {
        self.password.as_str()
    }
}

} // verus!
