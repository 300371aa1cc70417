//! Request context: the authenticated principal on whose behalf an operation
//! runs. Tokens are resolved upstream; the core only ever sees this struct.

use vstd::prelude::*;

verus! {

/// The principal behind a request: user id, username and admin flag.
#[derive(Debug, Clone)]
pub struct Ctx {
    user_id: i64,
    username: String,
    is_admin: bool,
}

/// An optionally present principal, for endpoints that accept anonymous
/// callers.
pub struct OptionCtx(pub Option<Ctx>);

impl Ctx {
    pub closed spec fn spec_user_id(&self) -> i64 {
        self.user_id
    }

    pub closed spec fn spec_username(&self) -> Seq<char> {
        self.username@
    }

    pub closed spec fn spec_is_admin(&self) -> bool {
        self.is_admin
    }

    /// A plain (non-admin) principal.
    pub fn new(user_id: i64, username: String) -> (c: Ctx)
        ensures
            c.spec_user_id() == user_id,
            c.spec_username() == username@,
            !c.spec_is_admin(),
    {
        Ctx { user_id, username, is_admin: false }
    }

    /// A principal with an explicit admin flag.
    pub fn new_with_admin(user_id: i64, username: String, is_admin: bool) -> (c: Ctx)
        ensures
            c.spec_user_id() == user_id,
            c.spec_username() == username@,
            c.spec_is_admin() == is_admin,
    {
        Ctx { user_id, username, is_admin }
    }

    /// The system principal used by background tasks; it bypasses per-user
    /// authorization.
    pub fn root_ctx() -> (c: Ctx)
        ensures
            c.spec_user_id() == 0,
            c.spec_username() == "system"@,
            c.spec_is_admin(),
    {
        Ctx { user_id: 0, username: String::from_str("system"), is_admin: true }
    }

    #[verifier::when_used_as_spec(spec_user_id)]
    pub fn user_id(&self) -> (r: i64)
        ensures
            r == self.spec_user_id(),
    {
        self.user_id
    }

    pub fn username(&self) -> (r: &str)
        ensures
            r@ == self.spec_username(),
    {
        self.username.as_str()
    }

    #[verifier::when_used_as_spec(spec_is_admin)]
    pub fn is_admin(&self) -> (r: bool)
        ensures
            r == self.spec_is_admin(),
    {
        self.is_admin
    }
}

} // verus!
