use rand::Rng;
use vstd::prelude::*;
use crate::hash::{is_hash_of, lemma_generated_hash_verifies, padded_hash, MAX_PASSWORD_LEN};
use crate::store::{admin_name, first_with_email, has_email, is_admin, login_match, user_valid, Store, UserDTO};

verus! {

/// Lowest one-time code.
pub const CODE_MIN: u32 = 100000;

/// One past the highest one-time code.
pub const CODE_END: u32 = 1000000;

/// Why a password reset did not go through.
#[derive(Clone, Copy, Debug, PartialEq, Eq, Structural)]
pub enum ResetError {
    /// The super-user's password cannot be reset.
    SuperUser,
    /// The entered code is not the one that was sent.
    WrongCode,
    /// The new password is longer than `MAX_PASSWORD_LEN` bytes.
    PasswordTooLong,
}

/// A one-time code issued for the account with `email`.
pub struct ResetChallenge {
    pub email: String,
    pub code: u32,
}

/// Relies on `rand::Rng::gen_range` over the thread-local generator: a
/// random value of the half-open range `CODE_MIN..CODE_END`.
#[verifier::external_body]
fn draw_code() -> (r: u32)
    ensures
        CODE_MIN <= r < CODE_END,
{
    rand::thread_rng().gen_range(CODE_MIN..CODE_END)
}

/// Issues a six-digit one-time code for the actor's account, to be sent to
/// its email. The super-user is refused.
pub fn issue_reset_code(actor: &UserDTO) -> (r: Result<ResetChallenge, ResetError>)
    ensures
        is_admin(actor.id@) <==> r is Err,
        r is Err ==> r == Err::<ResetChallenge, ResetError>(ResetError::SuperUser),
        r matches Ok(c) ==> c.email@ == actor.email@ && CODE_MIN <= c.code < CODE_END,
{
    if actor.id == admin_name() {
        return Err(ResetError::SuperUser);
    }
    let code = draw_code();
    Ok(ResetChallenge { email: actor.email.clone(), code })
}

/// After a reset has installed a hash of `password` on the first record with
/// `email`, logging in with that email and password succeeds.
pub proof fn lemma_new_password_logs_in(store: Store, email: Seq<char>, password: Seq<u8>, i: int)
    requires
        store.wf(),
        first_with_email(store.users@, email, i),
        is_hash_of(store.users@[i].pw_hash@, password),
    ensures
        !is_admin(email),
        exists|j: int| 0 <= j < store.users@.len() && login_match(store.users@[j], email, password),
{
    assert(user_valid(store.users@[i]));
    lemma_generated_hash_verifies(store.users@[i].pw_hash@, password);
    assert(login_match(store.users@[i], email, password));
}

/// Completes a reset: when `entered` is the issued code, installs a hash of
/// `password` on the first record with the challenge's email. `Ok(false)`
/// means no record had that email. On any error nothing changes.
pub fn reset_password(store: &mut Store, challenge: &ResetChallenge, entered: u32, password: &[u8]) -> (r: Result<bool, ResetError>)
    requires
        old(store).wf(),
    ensures
        final(store).wf(),
        entered != challenge.code ==> r == Err::<bool, ResetError>(ResetError::WrongCode),
        r is Err ==> r != Err::<bool, ResetError>(ResetError::SuperUser),
        entered == challenge.code && password@.len() > MAX_PASSWORD_LEN ==> r == Err::<bool, ResetError>(ResetError::PasswordTooLong),
        entered == challenge.code && password@.len() <= MAX_PASSWORD_LEN ==> r is Ok,
        r matches Ok(found) ==> entered == challenge.code && found == has_email(old(store).users@, challenge.email@),
        r != Ok::<bool, ResetError>(true) ==> final(store).users@ == old(store).users@,
        r == Ok::<bool, ResetError>(true) ==> exists|i: int| {
            &&& first_with_email(old(store).users@, challenge.email@, i)
            &&& final(store).users@.len() == old(store).users@.len()
            &&& final(store).users@[i].id == old(store).users@[i].id
            &&& final(store).users@[i].email == old(store).users@[i].email
            &&& final(store).users@[i].name == old(store).users@[i].name
            &&& final(store).users@[i].grades == old(store).users@[i].grades
            &&& is_hash_of(final(store).users@[i].pw_hash@, password@)
            &&& forall|j: int| 0 <= j < old(store).users@.len() && j != i ==> final(store).users@[j] == old(store).users@[j]
        },
{
    if entered != challenge.code {
        return Err(ResetError::WrongCode);
    }
    let blob = match padded_hash(password) {
        Some(b) => b,
        None => return Err(ResetError::PasswordTooLong),
    };
    Ok(store.update_password_hash(&challenge.email, blob))
}

} // verus!
