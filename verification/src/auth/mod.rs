//! Who may use the server: roles, tokens, and the routes that give tokens out.
//!
//! With authentication switched off every request counts as an administrator's.

pub mod middleware;
pub mod routes;

use vstd::prelude::*;

use crate::text::{begins_with, concat, concat3, ends_with, same};

verus! {

/// What a user may do.
#[derive(Clone, Copy, Debug, PartialEq, Eq, Structural)]
pub enum Role {
    Admin,
    User,
    Readonly,
}

impl Role {
    /// How much a role may do.
    pub open spec fn level(self) -> int {
        match self {
            Role::Admin => 2,
            Role::User => 1,
            Role::Readonly => 0,
        }
    }

    /// The word for a role.
    pub open spec fn word(self) -> Seq<char> {
        match self {
            Role::Admin => "admin"@,
            Role::User => "user"@,
            Role::Readonly => "readonly"@,
        }
    }

    /// The word for a role.
    pub fn as_str(self) -> (r: &'static str)
        ensures
            r@ == self.word(),
    {
        match self {
            Role::Admin => "admin",
            Role::User => "user",
            Role::Readonly => "readonly",
        }
    }

    /// Whether a role may do what another may.
    pub fn has_permission(self, required: Role) -> (r: bool)
        ensures
            r == (self.level() >= required.level()),
    {
        match (self, required) {
            (Role::Admin, _) => true,
            (Role::User, Role::Admin) => false,
            (Role::User, _) => true,
            (Role::Readonly, Role::Readonly) => true,
            (Role::Readonly, _) => false,
        }
    }
}

/// The role that a word stands for; an unknown word stands for the least.
pub open spec fn role_named(word: Seq<char>) -> Role {
    if word == "admin"@ {
        Role::Admin
    } else if word == "user"@ {
        Role::User
    } else {
        Role::Readonly
    }
}

/// The role that a word stands for; an unknown word stands for the least.
pub fn role_or_readonly(word: &str) -> (r: Role)
    ensures
        r == role_named(word@),
{
    if same(word, "admin") {
        Role::Admin
    } else if same(word, "user") {
        Role::User
    } else {
        Role::Readonly
    }
}

/// The word for a role stands for that role.
pub proof fn roles_read_back(role: Role)
    ensures
        role_named(role.word()) == role,
{
    reveal_strlit("admin");
    reveal_strlit("user");
    reveal_strlit("readonly");
    assert("admin"@.len() == 5 && "user"@.len() == 4 && "readonly"@.len() == 8);
}

/// An authenticated user.
#[derive(Debug)]
pub struct AuthUser {
    pub user_id: i64,
    pub username: String,
    pub role: Role,
}

impl AuthUser {
    /// Whether this is a user with these properties.
    pub open spec fn is(self, user_id: i64, username: Seq<char>, role: Role) -> bool {
        self.user_id == user_id && self.username@ == username && self.role == role
    }

    /// The administrator that everyone is while authentication is off.
    pub fn anonymous_admin() -> (r: Self)
        ensures
            r.is(0, "anonymous"@, Role::Admin),
    {
        AuthUser { user_id: 0, username: "anonymous".to_owned(), role: Role::Admin }
    }

    /// The anonymous user with a given role, for a caller within the process.
    pub fn anonymous(role: Role) -> (r: Self)
        ensures
            r.is(0, "anonymous"@, role),
    {
        AuthUser { user_id: 0, username: "anonymous".to_owned(), role }
    }
}

/// What is said to a user whose role does not suffice.
pub open spec fn forbidden_text(required: Role, has: Role) -> Seq<char> {
    "forbidden: requires "@ + required.word() + " role, you have "@ + has.word()
}

/// Lets a user pass who has at least the required role; without a user, the anonymous
/// administrator asks.
pub fn require_role(user: Option<&AuthUser>, required: Role) -> (r: Result<(), String>)
    ensures
        ({
            let has = match user {
                Some(u) => u.role,
                None => Role::Admin,
            };
            match r {
                Ok(_) => has.level() >= required.level(),
                Err(m) => has.level() < required.level() && m@ == forbidden_text(required, has),
            }
        }),
{
    let has = match user {
        Some(u) => u.role,
        None => Role::Admin,
    };
    if has.has_permission(required) {
        Ok(())
    } else {
        let head = concat3("forbidden: requires ", required.as_str(), " role, you have ");
        Err(concat(head.as_str(), has.as_str()))
    }
}

/// An administrator may do everything, a user what users and readers may, a reader only what
/// readers may.
pub proof fn roles_contain_each_other(role: Role)
    ensures
        Role::Admin.level() >= role.level(),
        role.level() >= Role::Readonly.level(),
        Role::User.level() >= role.level() <==> !(role is Admin),
        Role::Readonly.level() >= role.level() <==> role is Readonly,
        role.word() == "admin"@ <==> role is Admin,
        role.word() == "user"@ <==> role is User,
        role.word() == "readonly"@ <==> role is Readonly,
{
    roles_read_back(role);
    roles_read_back(Role::Admin);
    roles_read_back(Role::User);
    roles_read_back(Role::Readonly);
}

/// A word that names no role gives the least.
pub proof fn unknown_roles_may_only_read(word: Seq<char>)
    requires
        word != "admin"@,
        word != "user"@,
    ensures
        role_named(word) is Readonly,
{
}

/// Who may not do something is told which role it takes and which they have.
pub proof fn refusals_name_both_roles(required: Role, has: Role)
    ensures
        begins_with(forbidden_text(required, has), "forbidden: requires "@ + required.word()),
        ends_with(forbidden_text(required, has), "you have "@ + has.word()),
{
    reveal_strlit(" role, you have ");
    reveal_strlit("you have ");
    let s = forbidden_text(required, has);
    let lead = "forbidden: requires "@ + required.word();
    assert(s.take(lead.len() as int) =~= lead);
    let tail = "you have "@ + has.word();
    assert(" role, you have "@ =~= " role, you have "@.take(7) + "you have "@);
    assert(s.skip(s.len() - tail.len()) =~= tail);
}

/// A user is who they are said to be.
pub proof fn users_are_who_they_are(user: AuthUser, user_id: i64, username: Seq<char>, role: Role)
    requires
        user.is(user_id, username, role),
    ensures
        user.user_id == user_id,
        user.username@ == username,
        user.role == role,
{
}

} // verus!
