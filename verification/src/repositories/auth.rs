//! The rules that guard the login mode and the accounts.
//!
//! Two rules must never be broken: setup happens once, and there is always an admin. The store checks
//! them inside the same transaction as the write they guard, with the decisions made here.

use crate::error::{AppError, AppResult};
use crate::models::user::{AuthMode, Role, User};
use crate::util::text::{trim, trim_spec};
use vstd::prelude::*;

verus! {

/// An account together with what is needed to check its password. Only the auth service sees this.
pub struct Credentials {
    pub user: User,
    pub password_hash: String,
}

/// A live login session, resolved to its account.
pub struct SessionRecord {
    pub user: User,
    pub last_seen_at_ms: i64,
}

/// An account's authenticator state. Only the auth service sees this.
#[derive(Debug)]
pub struct TotpRecord {
    /// The confirmed secret, present once two factor sign in is on.
    pub secret: Option<Vec<u8>>,
    /// A secret shown as a QR code but not yet confirmed with a code.
    pub pending_secret: Option<Vec<u8>>,
    /// The newest time step a code was accepted for, so it cannot be used again.
    pub last_step: Option<i64>,
}

impl Default for TotpRecord {
    /// Two factor sign in off, nothing pending.
    fn default() -> (record: Self)
        ensures
            record.secret is None,
            record.pending_secret is None,
            record.last_step is None,
    {
        TotpRecord { secret: None, pending_secret: None, last_step: None }
    }
}

pub const ALREADY_DECIDED: &'static str = "the login choice has already been made";

pub const ALREADY_SET_UP: &'static str = "accounts are already set up";

pub const LAST_ADMIN_DEMOTION: &'static str =
    "this is the only admin, so it cannot become a listener; make another admin first";

pub const LAST_ADMIN_REMOVAL: &'static str =
    "this is the only admin, so it cannot be removed; make another admin first";

pub const DUPLICATE_EMAIL: &'static str = "an account with that email already exists";

/// The mode a stored value stands for. The column has a CHECK constraint, so anything else means the
/// file was edited by hand; asking the question again is the safe reading, since it can never leave an
/// install open that meant to be closed without the owner seeing the prompt.
pub open spec fn stored_mode_spec(raw: Seq<char>) -> AuthMode {
    if raw == "open"@ {
        AuthMode::Open
    } else if raw == "accounts"@ {
        AuthMode::Accounts
    } else {
        AuthMode::Undecided
    }
}

pub fn stored_mode(raw: &str) -> (mode: AuthMode)
    ensures
        mode == stored_mode_spec(raw@),
{
    proof {
        reveal_strlit("undecided");
        reveal_strlit("open");
        reveal_strlit("accounts");
        assert("undecided"@.len() != "open"@.len());
        assert("undecided"@.len() != "accounts"@.len());
    }
    match AuthMode::parse(raw) {
        Some(mode) => mode,
        None => AuthMode::Undecided,
    }
}

/// The role a stored value stands for. A role the code does not know gets the least privilege rather
/// than failing the whole query.
pub open spec fn stored_role_spec(raw: Seq<char>) -> Role {
    if raw == "admin"@ {
        Role::Admin
    } else {
        Role::Listener
    }
}

pub fn stored_role(raw: &str) -> (role: Role)
    ensures
        role == stored_role_spec(raw@),
{
    match Role::parse(raw) {
        Some(role) => role,
        None => Role::Listener,
    }
}

/// The email an account is stored under: as typed, without surrounding whitespace.
pub fn account_email(email: &str) -> (stored: String)
    ensures
        stored@ == trim_spec(email@),
{
    trim(email)
}

/// Staying open can be chosen only while the question is unanswered, so a stale popup in a second
/// browser cannot switch accounts off again.
pub fn check_choose_open(mode: AuthMode) -> (outcome: AppResult<()>)
    ensures
        mode == AuthMode::Undecided ==> outcome is Ok,
        mode != AuthMode::Undecided ==> (outcome matches Err(AppError::Conflict(m)) && m@
            == ALREADY_DECIDED@),
{
    match mode {
        AuthMode::Undecided => Ok(()),
        _ => Err(AppError::conflict(ALREADY_DECIDED)),
    }
}

/// The first admin can be created while accounts are off, whether or not the question was answered;
/// once accounts are on it is refused, which is what stops a second visitor creating another admin.
pub fn check_first_admin_setup(mode: AuthMode) -> (outcome: AppResult<()>)
    ensures
        mode != AuthMode::Accounts ==> outcome is Ok,
        mode == AuthMode::Accounts ==> (outcome matches Err(AppError::Conflict(m)) && m@
            == ALREADY_SET_UP@),
{
    match mode {
        AuthMode::Accounts => Err(AppError::conflict(ALREADY_SET_UP)),
        _ => Ok(()),
    }
}

/// Whether an account holding `current` may be given `requested` while `admin_count` admins exist.
pub open spec fn role_change_allowed(current: Role, requested: Role, admin_count: int) -> bool {
    !(current == Role::Admin && requested != Role::Admin && admin_count <= 1)
}

/// Changing a role never demotes the last admin.
pub fn check_role_change(current: Role, requested: Role, admin_count: i64) -> (outcome: AppResult<()>)
    ensures
        role_change_allowed(current, requested, admin_count as int) ==> outcome is Ok,
        !role_change_allowed(current, requested, admin_count as int) ==> (outcome matches Err(
            AppError::Conflict(m),
        ) && m@ == LAST_ADMIN_DEMOTION@),
{
    let demotes_an_admin = match (current, requested) {
        (Role::Admin, Role::Listener) => true,
        _ => false,
    };
    if demotes_an_admin && admin_count <= 1 {
        Err(AppError::conflict(LAST_ADMIN_DEMOTION))
    } else {
        Ok(())
    }
}

/// Whether an account holding `current` may be removed while `admin_count` admins exist.
pub open spec fn removal_allowed(current: Role, admin_count: int) -> bool {
    !(current == Role::Admin && admin_count <= 1)
}

/// Removing an account never removes the last admin.
pub fn check_removal(current: Role, admin_count: i64) -> (outcome: AppResult<()>)
    ensures
        removal_allowed(current, admin_count as int) ==> outcome is Ok,
        !removal_allowed(current, admin_count as int) ==> (outcome matches Err(
            AppError::Conflict(m),
        ) && m@ == LAST_ADMIN_REMOVAL@),
{
    match current {
        Role::Admin => if admin_count <= 1 {
            Err(AppError::conflict(LAST_ADMIN_REMOVAL))
        } else {
            Ok(())
        },
        Role::Listener => Ok(()),
    }
}

/// How many of the accounts are admins.
pub open spec fn admin_count(roles: Seq<Role>) -> nat
    decreases roles.len(),
{
    if roles.len() == 0 {
        0
    } else {
        admin_count(roles.drop_last()) + if roles.last() == Role::Admin {
            1nat
        } else {
            0nat
        }
    }
}

proof fn lemma_admin_count_split(roles: Seq<Role>, i: int)
    requires
        0 <= i < roles.len(),
    ensures
        admin_count(roles) == admin_count(roles.take(i)) + (if roles[i] == Role::Admin {
            1nat
        } else {
            0nat
        }) + admin_count(roles.skip(i + 1)),
    decreases roles.len(),
{
    if i == roles.len() - 1 {
        assert(roles.take(i) =~= roles.drop_last());
        assert(roles.skip(i + 1) =~= Seq::<Role>::empty());
    } else {
        lemma_admin_count_split(roles.drop_last(), i);
        assert(roles.drop_last().take(i) =~= roles.take(i));
        let tail = roles.skip(i + 1);
        assert(tail.drop_last() =~= roles.drop_last().skip(i + 1));
        assert(tail.last() == roles.last());
    }
}

proof fn lemma_admin_count_concat(left: Seq<Role>, right: Seq<Role>)
    ensures
        admin_count(left + right) == admin_count(left) + admin_count(right),
    decreases right.len(),
{
    if right.len() == 0 {
        assert(left + right =~= left);
    } else {
        lemma_admin_count_concat(left, right.drop_last());
        assert((left + right).drop_last() =~= left + right.drop_last());
    }
}

/// There is always an admin: a role change or a removal that the rules allow never leaves accounts
/// that had an admin without one.
pub proof fn lemma_an_admin_always_remains(roles: Seq<Role>, i: int, requested: Role)
    requires
        0 <= i < roles.len(),
        admin_count(roles) >= 1,
    ensures
        role_change_allowed(roles[i], requested, admin_count(roles) as int) ==> admin_count(
            roles.update(i, requested),
        ) >= 1,
        removal_allowed(roles[i], admin_count(roles) as int) ==> admin_count(roles.remove(i)) >= 1,
{
    lemma_admin_count_split(roles, i);
    let changed = roles.update(i, requested);
    lemma_admin_count_split(changed, i);
    assert(changed.take(i) =~= roles.take(i));
    assert(changed.skip(i + 1) =~= roles.skip(i + 1));
    assert(roles.remove(i) =~= roles.take(i) + roles.skip(i + 1));
    lemma_admin_count_concat(roles.take(i), roles.skip(i + 1));
}

} // verus!
