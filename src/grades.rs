use vstd::prelude::*;
use crate::access::{Action, Policy};
use crate::store::{first_with_email, grades_valid, has_email, user_valid, Store, User, UserDTO, MAX_GRADE};

verus! {

/// Why a grade was not entered.
#[derive(Clone, Copy, Debug, PartialEq, Eq, Structural)]
pub enum GradeError {
    /// The actor may not enter grades.
    NotAllowed,
    /// The grade lies outside `0..=MAX_GRADE`.
    InvalidGrade,
}

/// `after` is `before` with one more grade `g` and every other field kept.
pub open spec fn with_grade(before: User, after: User, g: u32) -> bool {
    &&& after.id == before.id
    &&& after.email == before.email
    &&& after.name == before.name
    &&& after.pw_hash == before.pw_hash
    &&& after.grades@ == before.grades@.push(g)
}

/// Appends `grade` to the first record with `email`, if there is one.
/// The actor needs the enter-grade permission; the grade is checked before
/// the store is touched. `Ok(false)` means no record matched and nothing
/// changed.
pub fn enter_grade(store: &mut Store, policy: &Policy, actor: &UserDTO, email: &String, grade: i64) -> (r: Result<bool, GradeError>)
    requires
        old(store).wf(),
    ensures
        final(store).wf(),
        !policy.permits(actor.id@, Action::EnterGrade) ==> r == Err::<bool, GradeError>(GradeError::NotAllowed),
        policy.permits(actor.id@, Action::EnterGrade) && !(0 <= grade <= MAX_GRADE) ==> r == Err::<bool, GradeError>(GradeError::InvalidGrade),
        policy.permits(actor.id@, Action::EnterGrade) && 0 <= grade <= MAX_GRADE ==> r == Ok::<bool, GradeError>(has_email(old(store).users@, email@)),
        r != Ok::<bool, GradeError>(true) ==> final(store).users@ == old(store).users@,
        r == Ok::<bool, GradeError>(true) ==> exists|i: int| {
            &&& first_with_email(old(store).users@, email@, i)
            &&& final(store).users@.len() == old(store).users@.len()
            &&& with_grade(old(store).users@[i], final(store).users@[i], grade as u32)
            &&& forall|j: int| 0 <= j < old(store).users@.len() && j != i ==> final(store).users@[j] == old(store).users@[j]
        },
{
    if !policy.authorize(&actor.id, Action::EnterGrade) {
        return Err(GradeError::NotAllowed);
    }
    if grade < 0 || grade > MAX_GRADE as i64 {
        return Err(GradeError::InvalidGrade);
    }
    Ok(store.append_grade(email, grade as u32))
}

/// One line of the grade report: a user's grades and their mean, in
/// hundredths, rounded down.
pub struct GradeLine {
    pub id: String,
    pub email: String,
    pub grades: Vec<u32>,
    pub mean: u32,
}

/// Sum of a grade list.
pub open spec fn grade_sum(g: Seq<u32>) -> int
    decreases g.len(),
{
    if g.len() == 0 {
        0
    } else {
        grade_sum(g.drop_last()) + g.last()
    }
}

/// Mean of a non-empty grade list, rounded down.
pub open spec fn grade_mean(g: Seq<u32>) -> int {
    grade_sum(g) / (g.len() as int)
}

/// Whether a record appears in the report for this actor: it has grades,
/// and the actor sees everyone or it is the actor's own record.
pub open spec fn shown(u: User, actor_id: Seq<char>, see_all: bool) -> bool {
    u.grades@.len() > 0 && (see_all || u.id@ == actor_id)
}

/// The records that appear in the report, in store order.
pub open spec fn shown_users(users: Seq<User>, actor_id: Seq<char>, see_all: bool) -> Seq<User>
    decreases users.len(),
{
    if users.len() == 0 {
        Seq::empty()
    } else {
        let rest = shown_users(users.drop_last(), actor_id, see_all);
        if shown(users.last(), actor_id, see_all) {
            rest.push(users.last())
        } else {
            rest
        }
    }
}

/// `line` reports the record `u`.
pub open spec fn reports(line: GradeLine, u: User) -> bool {
    &&& line.id@ == u.id@
    &&& line.email@ == u.email@
    &&& line.grades@ == u.grades@
    &&& line.mean == grade_mean(u.grades@)
}

proof fn lemma_sum_bound(g: Seq<u32>)
    requires
        grades_valid(g),
    ensures
        0 <= grade_sum(g) <= MAX_GRADE * g.len(),
    decreases g.len(),
{
    if g.len() > 0 {
        lemma_sum_bound(g.drop_last());
    }
}

proof fn lemma_shown_only(users: Seq<User>, actor_id: Seq<char>, see_all: bool)
    ensures
        forall|k: int| 0 <= k < shown_users(users, actor_id, see_all).len() ==>
            shown(#[trigger] shown_users(users, actor_id, see_all)[k], actor_id, see_all),
    decreases users.len(),
{
    if users.len() > 0 {
        let rest = shown_users(users.drop_last(), actor_id, see_all);
        lemma_shown_only(users.drop_last(), actor_id, see_all);
        let all = shown_users(users, actor_id, see_all);
        assert forall|k: int| 0 <= k < all.len() implies shown(#[trigger] all[k], actor_id, see_all) by {
            if k < rest.len() {
                assert(all[k] == rest[k]);
            }
        }
    }
}

/// The mean of a non-empty list of valid grades, rounded down.
pub fn mean(grades: &Vec<u32>) -> (r: u32)
    requires
        grades@.len() > 0,
        grades_valid(grades@),
    ensures
        r == grade_mean(grades@),
{
    let mut sum: u128 = 0;
    let mut i: usize = 0;
    while i < grades.len()
        invariant
            i <= grades@.len(),
            grades_valid(grades@),
            sum == grade_sum(grades@.subrange(0, i as int)),
            sum <= MAX_GRADE * i,
        decreases grades@.len() - i,
    {
        proof {
            assert(grades@.subrange(0, i + 1).drop_last() =~= grades@.subrange(0, i as int));
            assert(grades@[i as int] <= MAX_GRADE);
        }
        sum = sum + grades[i] as u128;
        i = i + 1;
    }
    assert(grades@.subrange(0, i as int) =~= grades@);
    let m = sum / (grades.len() as u128);
    proof {
        lemma_sum_bound(grades@);
        assert(grade_sum(grades@) / (grades@.len() as int) <= MAX_GRADE) by (nonlinear_arith)
            requires
                0 <= grade_sum(grades@) <= MAX_GRADE * grades@.len(),
                grades@.len() > 0,
        ;
    }
    m as u32
}

/// The grade report for `actor`: every record with grades when the actor
/// holds the show-grades permission, otherwise only the actor's own record.
pub fn show_grades(store: &Store, policy: &Policy, actor: &UserDTO) -> (r: Vec<GradeLine>)
    requires
        store.wf(),
    ensures
        ({
            let expected = shown_users(store.users@, actor.id@, policy.permits(actor.id@, Action::ShowGrades));
            &&& r@.len() == expected.len()
            &&& forall|k: int| 0 <= k < r@.len() ==> reports(#[trigger] r@[k], expected[k])
        }),
        !policy.permits(actor.id@, Action::ShowGrades) ==>
            forall|k: int| 0 <= k < r@.len() ==> (#[trigger] r@[k]).id@ == actor.id@,
{
    let see_all = policy.authorize(&actor.id, Action::ShowGrades);
    let ghost users = store.users@;
    let mut lines: Vec<GradeLine> = Vec::new();
    let mut i: usize = 0;
    while i < store.users.len()
        invariant
            store.wf(),
            users == store.users@,
            i <= users.len(),
            lines@.len() == shown_users(users.subrange(0, i as int), actor.id@, see_all).len(),
            forall|k: int| 0 <= k < lines@.len() ==>
                reports(#[trigger] lines@[k], shown_users(users.subrange(0, i as int), actor.id@, see_all)[k]),
        decreases users.len() - i,
    {
        let u = &store.users[i];
        assert(users.subrange(0, i + 1).drop_last() =~= users.subrange(0, i as int));
        assert(users.subrange(0, i + 1).last() == users[i as int]);
        if !u.grades.is_empty() && (see_all || u.id == actor.id) {
            assert(user_valid(users[i as int]));
            let m = mean(&u.grades);
            lines.push(GradeLine { id: u.id.clone(), email: u.email.clone(), grades: u.grades.clone(), mean: m });
        }
        i = i + 1;
    }
    assert(users.subrange(0, i as int) =~= users);
    proof {
        lemma_shown_only(users, actor.id@, see_all);
    }
    lines
}

} // verus!
