//! Accounts, roles, and whether the install requires a login at all.

use crate::util::text::str_equal;
use vstd::prelude::*;

verus! {

/// What an account is allowed to do.
///
/// Two roles rather than a permission matrix, because there are exactly two kinds of people using a
/// recorder: whoever runs it, and whoever listens to it.
#[derive(Debug, Clone, Copy, PartialEq, Eq, Structural)]
pub enum Role {
    /// Controls capture, settings, bookmarks and accounts.
    Admin,
    /// Listens live, scrubs history and exports. Changes nothing.
    Listener,
}

pub open spec fn role_name(role: Role) -> Seq<char> {
    match role {
        Role::Admin => "admin"@,
        Role::Listener => "listener"@,
    }
}

impl Role {
    pub fn as_str(self) -> (name: &'static str)
        ensures
            name@ == role_name(self),
    {
        match self {
            Role::Admin => "admin",
            Role::Listener => "listener",
        }
    }

    pub fn parse(raw: &str) -> (role: Option<Self>)
        ensures
            role == (if raw@ == "admin"@ {
                Some(Role::Admin)
            } else if raw@ == "listener"@ {
                Some(Role::Listener)
            } else {
                None
            }),
    {
        if str_equal(raw, "admin") {
            Some(Role::Admin)
        } else if str_equal(raw, "listener") {
            Some(Role::Listener)
        } else {
            None
        }
    }
}

/// Whether the install asks for a login.
///
/// Chosen once, by whoever first opens the page. `Undecided` behaves exactly like `Open`, so an upgrade
/// never locks anybody out; it only means the question has not been answered yet.
#[derive(Debug, Clone, Copy, PartialEq, Eq, Structural)]
pub enum AuthMode {
    Undecided,
    Open,
    Accounts,
}

pub open spec fn mode_name(mode: AuthMode) -> Seq<char> {
    match mode {
        AuthMode::Undecided => "undecided"@,
        AuthMode::Open => "open"@,
        AuthMode::Accounts => "accounts"@,
    }
}

impl AuthMode {
    pub fn as_str(self) -> (name: &'static str)
        ensures
            name@ == mode_name(self),
    {
        match self {
            AuthMode::Undecided => "undecided",
            AuthMode::Open => "open",
            AuthMode::Accounts => "accounts",
        }
    }

    pub fn parse(raw: &str) -> (mode: Option<Self>)
        ensures
            mode == (if raw@ == "undecided"@ {
                Some(AuthMode::Undecided)
            } else if raw@ == "open"@ {
                Some(AuthMode::Open)
            } else if raw@ == "accounts"@ {
                Some(AuthMode::Accounts)
            } else {
                None
            }),
    {
        if str_equal(raw, "undecided") {
            Some(AuthMode::Undecided)
        } else if str_equal(raw, "open") {
            Some(AuthMode::Open)
        } else if str_equal(raw, "accounts") {
            Some(AuthMode::Accounts)
        } else {
            None
        }
    }

    pub fn requires_login(self) -> (login: bool)
        ensures
            login == (self == AuthMode::Accounts),
    {
        match self {
            AuthMode::Accounts => true,
            _ => false,
        }
    }
}

/// Stored names read back as the role or mode they name, and nothing else reads as one.
pub proof fn lemma_stored_names_round_trip(role: Role, mode: AuthMode)
    ensures
        (if role_name(role) == "admin"@ {
            Some(Role::Admin)
        } else if role_name(role) == "listener"@ {
            Some(Role::Listener)
        } else {
            None
        }) == Some(role),
        (if mode_name(mode) == "undecided"@ {
            Some(AuthMode::Undecided)
        } else if mode_name(mode) == "open"@ {
            Some(AuthMode::Open)
        } else if mode_name(mode) == "accounts"@ {
            Some(AuthMode::Accounts)
        } else {
            None
        }) == Some(mode),
{
    reveal_strlit("admin");
    reveal_strlit("listener");
    reveal_strlit("undecided");
    reveal_strlit("open");
    reveal_strlit("accounts");
    assert("admin"@.len() != "listener"@.len());
    assert("undecided"@.len() != "open"@.len());
    assert("undecided"@.len() != "accounts"@.len());
    assert("open"@.len() != "accounts"@.len());
}

/// An account as the rest of the application sees it. The password hash never leaves the repository.
#[derive(Debug, Clone, PartialEq, Eq)]
pub struct User {
    pub id: i64,
    pub email: String,
    pub role: Role,
    pub created_at_ms: i64,
}

/// What a route needs from whoever is calling it.
#[derive(Debug, Clone, Copy, PartialEq, Eq, Structural)]
pub enum Access {
    /// Listening, scrubbing, exporting and reading state.
    Listen,
    /// Anything that changes the recorder, its settings, its bookmarks or its accounts.
    Administer,
}

/// Why a request was turned away.
#[derive(Debug, Clone, Copy, PartialEq, Eq, Structural)]
pub enum Denied {
    /// Nobody is signed in. The client should show the login page.
    SignInRequired,
    /// Somebody is signed in, but their role does not allow this.
    NotAllowed,
}

/// The single access rule: without accounts everybody may do everything; with accounts, nobody signed
/// in must sign in, a listener may listen, and an admin may do anything.
pub open spec fn authorize_spec(mode: AuthMode, role: Option<Role>, needed: Access) -> Result<(), Denied> {
    if mode != AuthMode::Accounts {
        Ok(())
    } else {
        match role {
            None => Err(Denied::SignInRequired),
            Some(role) => if needed == Access::Listen || role == Role::Admin {
                Ok(())
            } else {
                Err(Denied::NotAllowed)
            },
        }
    }
}

pub open spec fn role_of(user: Option<&User>) -> Option<Role> {
    match user {
        Some(user) => Some(user.role),
        None => None,
    }
}

/// The single access rule, kept free of HTTP so it can be proved exhaustively.
pub fn authorize(mode: AuthMode, user: Option<&User>, needed: Access) -> (outcome: Result<(), Denied>)
    ensures
        outcome == authorize_spec(mode, role_of(user), needed),
{
    if !mode.requires_login() {
        return Ok(());
    }
    let user = match user {
        Some(user) => user,
        None => return Err(Denied::SignInRequired),
    };
    match (needed, user.role) {
        (Access::Listen, _) => Ok(()),
        (Access::Administer, Role::Admin) => Ok(()),
        (Access::Administer, Role::Listener) => Err(Denied::NotAllowed),
    }
}

/// Access only ever narrows: whatever may administer may also listen, an admin is never turned away
/// once signed in, and nobody is turned away without accounts.
pub proof fn lemma_access_rules(mode: AuthMode, role: Option<Role>)
    ensures
        authorize_spec(mode, role, Access::Administer) is Ok ==> authorize_spec(mode, role, Access::Listen) is Ok,
        role == Some(Role::Admin) ==> authorize_spec(mode, role, Access::Administer) is Ok,
        mode != AuthMode::Accounts ==> authorize_spec(mode, role, Access::Administer) is Ok,
        mode == AuthMode::Accounts && role is None ==> authorize_spec(mode, role, Access::Listen)
            == Err::<(), Denied>(Denied::SignInRequired),
{
}

} // verus!
