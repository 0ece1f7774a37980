use vstd::prelude::*;
use crate::access::{Action, Policy};
use crate::hash::{is_hash_of, padded_hash, MAX_PASSWORD_LEN};
use crate::store::{admin_name, is_admin, Store, User, UserDTO};

verus! {

/// Why an account was not created.
#[derive(Clone, Copy, Debug, PartialEq, Eq, Structural)]
pub enum AccountError {
    /// The actor may not create this kind of account.
    NotAllowed,
    /// The email is the reserved super-user name.
    ReservedEmail,
    /// The password is longer than `MAX_PASSWORD_LEN` bytes.
    PasswordTooLong,
}

/// Relies on `uuid::Uuid::new_v4` and its `Display` impl: a random id in
/// hyphenated form, which is 36 characters long.
#[verifier::external_body]
fn fresh_id() -> (r: String)
    ensures
        r@.len() == 36,
{
    uuid::Uuid::new_v4().to_string()
}

/// The role that teacher accounts are grouped into.
pub open spec fn teacher_role() -> Seq<char> {
    "teacher"@
}

/// The permission needed to create this kind of account.
pub open spec fn creation_action(is_teacher_account: bool) -> Action {
    if is_teacher_account {
        Action::CreateTeacherAccount
    } else {
        Action::CreateStudentAccount
    }
}

/// Creates an account with a fresh id and no grades, and returns that id.
/// The actor needs the permission for the kind of account; the reserved
/// super-user name is refused as an email. A teacher account's id is grouped
/// into the teacher role.
pub fn create_account(
    store: &mut Store,
    policy: &mut Policy,
    actor: &UserDTO,
    is_teacher_account: bool,
    email: String,
    name: String,
    password: &[u8],
) -> (r: Result<String, AccountError>)
    requires
        old(store).wf(),
    ensures
        final(store).wf(),
        !old(policy).permits(actor.id@, creation_action(is_teacher_account)) ==> r == Err::<String, AccountError>(AccountError::NotAllowed),
        old(policy).permits(actor.id@, creation_action(is_teacher_account)) && is_admin(email@) ==> r == Err::<String, AccountError>(AccountError::ReservedEmail),
        old(policy).permits(actor.id@, creation_action(is_teacher_account)) && !is_admin(email@) ==> {
            &&& password@.len() > MAX_PASSWORD_LEN ==> r == Err::<String, AccountError>(AccountError::PasswordTooLong)
            &&& password@.len() <= MAX_PASSWORD_LEN ==> r is Ok
        },
        r is Err ==> final(store).users@ == old(store).users@ && final(policy).allows@ == old(policy).allows@ && final(policy).groups@ == old(policy).groups@,
        r matches Ok(id) ==> {
            &&& id@.len() == 36
            &&& final(store).users@.len() == old(store).users@.len() + 1
            &&& final(store).users@.drop_last() == old(store).users@
            &&& final(store).users@.last().id@ == id@
            &&& final(store).users@.last().email == email
            &&& final(store).users@.last().name == name
            &&& is_hash_of(final(store).users@.last().pw_hash@, password@)
            &&& final(store).users@.last().grades@.len() == 0
            &&& final(policy).allows@ == old(policy).allows@
            &&& (is_teacher_account ==> {
                &&& final(policy).groups@.len() == old(policy).groups@.len() + 1
                &&& final(policy).groups@.drop_last() == old(policy).groups@
                &&& final(policy).groups@.last().subject@ == id@
                &&& final(policy).groups@.last().role@ == teacher_role()
            })
            &&& (!is_teacher_account ==> final(policy).groups@ == old(policy).groups@)
        },
{
    let action = if is_teacher_account { Action::CreateTeacherAccount } else { Action::CreateStudentAccount };
    if !policy.authorize(&actor.id, action) {
        return Err(AccountError::NotAllowed);
    }
    if email == admin_name() {
        return Err(AccountError::ReservedEmail);
    }
    let blob = match padded_hash(password) {
        Some(b) => b,
        None => return Err(AccountError::PasswordTooLong),
    };
    let id = fresh_id();
    proof {
        reveal_strlit("admin");
    }
    let ghost before = store.users@;
    store.append(User { id: id.clone(), email, name, pw_hash: blob, grades: Vec::new() });
    assert(store.users@.drop_last() =~= before);
    if is_teacher_account {
        let ghost groups_before = policy.groups@;
        policy.add_grouping(id.clone(), "teacher".to_owned());
        assert(policy.groups@.drop_last() =~= groups_before);
    }
    Ok(id)
}

} // verus!
