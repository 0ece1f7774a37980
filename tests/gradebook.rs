use gradebook::access::{Action, Policy};
use gradebook::accounts::{create_account, AccountError};
use gradebook::grades::{enter_grade, mean, show_grades, GradeError};
use gradebook::hash::{admin_hash, padded_hash, strip_padding, verify, HASH_WIDTH};
use gradebook::reset::{issue_reset_code, reset_password, ResetChallenge, ResetError, CODE_END, CODE_MIN};
use gradebook::store::{login, Store, User, UserDTO};

fn dto(id: &str, email: &str) -> UserDTO {
    UserDTO { id: id.to_string(), email: email.to_string() }
}

fn admin() -> UserDTO {
    dto("admin", "admin")
}

fn admin_policy() -> Policy {
    let mut p = Policy::new();
    p.add_allow("admin".to_string(), Action::CreateTeacherAccount);
    p.add_allow("admin".to_string(), Action::CreateStudentAccount);
    p.add_allow("admin".to_string(), Action::EnterGrade);
    p.add_allow("admin".to_string(), Action::ShowGrades);
    p.add_allow("teacher".to_string(), Action::CreateStudentAccount);
    p.add_allow("teacher".to_string(), Action::EnterGrade);
    p.add_allow("teacher".to_string(), Action::ShowGrades);
    p
}

fn user_with(id: &str, email: &str, grades: Vec<u32>) -> User {
    User {
        id: id.to_string(),
        email: email.to_string(),
        name: "N".to_string(),
        pw_hash: vec![0u8; HASH_WIDTH],
        grades,
    }
}

#[test]
fn generated_hash_verifies_its_password() {
    let blob = padded_hash(b"hunter2").unwrap();
    assert_eq!(blob.len(), HASH_WIDTH);
    assert!(verify(&blob, b"hunter2"));
    assert!(!verify(&blob, b"hunter3"));
}

#[test]
fn altered_hash_byte_fails_verification() {
    let blob = padded_hash(b"pw").unwrap();
    let used = strip_padding(&blob).len();
    for i in [0usize, 10, used - 1] {
        let mut altered = blob.clone();
        altered[i] ^= 0x01;
        assert!(!verify(&altered, b"pw"));
    }
}

#[test]
fn two_hashes_of_one_password_differ() {
    let a = padded_hash(b"same").unwrap();
    let b = padded_hash(b"same").unwrap();
    assert_ne!(a, b);
}

#[test]
fn strip_padding_removes_trailing_zeros_only() {
    assert_eq!(strip_padding(&[1, 0, 2, 0, 0]), vec![1, 0, 2]);
    assert_eq!(strip_padding(&[0, 0]), Vec::<u8>::new());
    assert_eq!(strip_padding(&[]), Vec::<u8>::new());
}

#[test]
fn malformed_hash_never_verifies() {
    assert!(!verify(&[0u8; 128], b""));
    assert!(!verify(&[0xffu8; 128], b"x"));
}

#[test]
fn admin_hash_is_argon2_encoding() {
    let h = admin_hash();
    assert_eq!(h.len(), 97);
    assert!(h.starts_with(b"$argon2id$"));
}

#[test]
fn admin_login_with_wrong_password_fails() {
    let store = Store::new();
    assert!(login(&store, &"admin".to_string(), b"definitely wrong").is_none());
}

#[test]
fn empty_policy_denies() {
    let p = Policy::new();
    assert!(!p.authorize(&"admin".to_string(), Action::ShowGrades));
}

#[test]
fn policy_grants_directly_and_through_role() {
    let mut p = Policy::new();
    p.add_allow("teacher".to_string(), Action::EnterGrade);
    p.add_grouping("u1".to_string(), "teacher".to_string());
    assert!(p.authorize(&"u1".to_string(), Action::EnterGrade));
    assert!(!p.authorize(&"u1".to_string(), Action::ShowGrades));
    assert!(!p.authorize(&"u2".to_string(), Action::EnterGrade));
    p.add_allow("u2".to_string(), Action::EnterGrade);
    assert!(p.authorize(&"u2".to_string(), Action::EnterGrade));
}

#[test]
fn policy_rules_from_file_lines() {
    let mut p = Policy::new();
    assert!(p.add_rule(&"p".to_string(), "teacher".to_string(), "enter_grade".to_string()));
    assert!(p.add_rule(&"g".to_string(), "u9".to_string(), "teacher".to_string()));
    assert!(!p.add_rule(&"p".to_string(), "teacher".to_string(), "fly".to_string()));
    assert!(!p.add_rule(&"x".to_string(), "a".to_string(), "b".to_string()));
    assert_eq!(p.allows.len(), 1);
    assert_eq!(p.groups.len(), 1);
    assert!(p.authorize(&"u9".to_string(), Action::EnterGrade));
}

#[test]
fn action_names_round_trip() {
    for a in [Action::CreateStudentAccount, Action::CreateTeacherAccount, Action::EnterGrade, Action::ShowGrades] {
        assert_eq!(Action::from_name(&a.name()), Some(a));
    }
    assert_eq!(Action::from_name(&"teacher_acc".to_string()), Some(Action::CreateTeacherAccount));
    assert_eq!(Action::from_name(&"nope".to_string()), None);
}

#[test]
fn create_account_then_missing_student_grade_is_noop() {
    let mut store = Store::new();
    let mut policy = admin_policy();
    let id = create_account(&mut store, &mut policy, &admin(), true, "t@x.com".to_string(), "T".to_string(), b"pw")
        .unwrap();
    assert_eq!(id.len(), 36);
    assert_eq!(store.users().len(), 1);
    let u = &store.users()[0];
    assert_eq!(u.id, id);
    assert_eq!(u.email, "t@x.com");
    assert!(u.grades.is_empty());
    assert_eq!(policy.groups.len(), 1);
    assert_eq!(policy.groups[0].subject, id);
    assert_eq!(policy.groups[0].role, "teacher");

    let teacher = login(&store, &"t@x.com".to_string(), b"pw").unwrap();
    assert_eq!(teacher.id, id);
    let hash_before = store.users()[0].pw_hash.clone();
    let r = enter_grade(&mut store, &policy, &teacher, &"s@x.com".to_string(), 450);
    assert_eq!(r, Ok(false));
    assert_eq!(store.users().len(), 1);
    assert!(store.users()[0].grades.is_empty());
    assert_eq!(store.users()[0].pw_hash, hash_before);
}

#[test]
fn create_account_denied_without_permission() {
    let mut store = Store::new();
    let mut policy = Policy::new();
    let r = create_account(&mut store, &mut policy, &dto("u1", "a@x.com"), false, "b@x.com".to_string(), "B".to_string(), b"pw");
    assert_eq!(r, Err(AccountError::NotAllowed));
    assert!(store.users().is_empty());
}

#[test]
fn create_account_refuses_reserved_email() {
    let mut store = Store::new();
    let mut policy = admin_policy();
    let r = create_account(&mut store, &mut policy, &admin(), false, "admin".to_string(), "A".to_string(), b"pw");
    assert_eq!(r, Err(AccountError::ReservedEmail));
    assert!(store.users().is_empty());
    assert!(policy.groups.is_empty());
}

#[test]
fn student_account_adds_no_grouping() {
    let mut store = Store::new();
    let mut policy = admin_policy();
    let r = create_account(&mut store, &mut policy, &admin(), false, "s@x.com".to_string(), "S".to_string(), b"pw");
    assert!(r.is_ok());
    assert!(policy.groups.is_empty());
    assert!(login(&store, &"s@x.com".to_string(), b"pw").is_some());
    assert!(login(&store, &"s@x.com".to_string(), b"px").is_none());
    assert!(login(&store, &"t@x.com".to_string(), b"pw").is_none());
}

#[test]
fn enter_grade_bounds() {
    let mut store = Store::from_users(vec![user_with("u1", "s@x.com", vec![])]).unwrap();
    let policy = admin_policy();
    assert_eq!(enter_grade(&mut store, &policy, &admin(), &"s@x.com".to_string(), -1), Err(GradeError::InvalidGrade));
    assert_eq!(enter_grade(&mut store, &policy, &admin(), &"s@x.com".to_string(), 601), Err(GradeError::InvalidGrade));
    assert!(store.users()[0].grades.is_empty());
    assert_eq!(enter_grade(&mut store, &policy, &admin(), &"s@x.com".to_string(), 0), Ok(true));
    assert_eq!(enter_grade(&mut store, &policy, &admin(), &"s@x.com".to_string(), 600), Ok(true));
    assert_eq!(store.users()[0].grades, vec![0, 600]);
}

#[test]
fn enter_grade_denied_without_permission() {
    let mut store = Store::from_users(vec![user_with("u1", "s@x.com", vec![])]).unwrap();
    let policy = Policy::new();
    let r = enter_grade(&mut store, &policy, &dto("u1", "s@x.com"), &"s@x.com".to_string(), 300);
    assert_eq!(r, Err(GradeError::NotAllowed));
    assert!(store.users()[0].grades.is_empty());
}

#[test]
fn enter_grade_goes_to_first_matching_record() {
    let mut store = Store::from_users(vec![
        user_with("u1", "s@x.com", vec![]),
        user_with("u2", "s@x.com", vec![]),
    ])
    .unwrap();
    let policy = admin_policy();
    assert_eq!(enter_grade(&mut store, &policy, &admin(), &"s@x.com".to_string(), 450), Ok(true));
    assert_eq!(store.users()[0].grades, vec![450]);
    assert!(store.users()[1].grades.is_empty());
}

#[test]
fn mean_is_rounded_down() {
    assert_eq!(mean(&vec![450, 500]), 475);
    assert_eq!(mean(&vec![100, 200, 250]), 183);
    assert_eq!(mean(&vec![600]), 600);
}

#[test]
fn show_grades_all_for_permitted_actor() {
    let store = Store::from_users(vec![
        user_with("u1", "a@x.com", vec![400, 500]),
        user_with("u2", "b@x.com", vec![]),
        user_with("u3", "c@x.com", vec![600]),
    ])
    .unwrap();
    let lines = show_grades(&store, &admin_policy(), &admin());
    assert_eq!(lines.len(), 2);
    assert_eq!(lines[0].email, "a@x.com");
    assert_eq!(lines[0].grades, vec![400, 500]);
    assert_eq!(lines[0].mean, 450);
    assert_eq!(lines[1].email, "c@x.com");
    assert_eq!(lines[1].mean, 600);
}

#[test]
fn show_grades_only_own_without_permission() {
    let store = Store::from_users(vec![
        user_with("u1", "a@x.com", vec![400, 500]),
        user_with("u3", "c@x.com", vec![600]),
    ])
    .unwrap();
    let lines = show_grades(&store, &Policy::new(), &dto("u3", "c@x.com"));
    assert_eq!(lines.len(), 1);
    assert_eq!(lines[0].id, "u3");
    assert_eq!(lines[0].grades, vec![600]);
    let none = show_grades(&store, &Policy::new(), &dto("u9", "z@x.com"));
    assert!(none.is_empty());
}

#[test]
fn store_refuses_invalid_records() {
    assert!(Store::from_users(vec![user_with("admin", "a@x.com", vec![])]).is_none());
    assert!(Store::from_users(vec![user_with("u1", "admin", vec![])]).is_none());
    assert!(Store::from_users(vec![user_with("u1", "a@x.com", vec![601])]).is_none());
    let mut short = user_with("u1", "a@x.com", vec![]);
    short.pw_hash = vec![1u8; 10];
    assert!(Store::from_users(vec![short]).is_none());
    assert!(Store::from_users(vec![user_with("u1", "a@x.com", vec![600])]).is_some());
}

#[test]
fn find_by_email_gives_first_index() {
    let store = Store::from_users(vec![
        user_with("u1", "a@x.com", vec![]),
        user_with("u2", "b@x.com", vec![]),
        user_with("u3", "b@x.com", vec![]),
    ])
    .unwrap();
    assert_eq!(store.find_by_email(&"b@x.com".to_string()), Some(1));
    assert_eq!(store.find_by_email(&"c@x.com".to_string()), None);
}

#[test]
fn reset_refused_for_super_user() {
    assert_eq!(issue_reset_code(&admin()).err(), Some(ResetError::SuperUser));
}

#[test]
fn reset_code_has_six_digits() {
    let c = issue_reset_code(&dto("u1", "a@x.com")).unwrap();
    assert!(CODE_MIN <= c.code && c.code < CODE_END);
    assert_eq!(c.email, "a@x.com");
}

#[test]
fn reset_with_right_and_wrong_code() {
    let mut store = Store::new();
    let mut policy = admin_policy();
    create_account(&mut store, &mut policy, &admin(), false, "s@x.com".to_string(), "S".to_string(), b"old").unwrap();
    let challenge = ResetChallenge { email: "s@x.com".to_string(), code: 482913 };

    let before = store.users()[0].pw_hash.clone();
    assert_eq!(reset_password(&mut store, &challenge, 482914, b"new"), Err(ResetError::WrongCode));
    assert_eq!(store.users()[0].pw_hash, before);
    assert!(login(&store, &"s@x.com".to_string(), b"old").is_some());

    assert_eq!(reset_password(&mut store, &challenge, 482913, b"new"), Ok(true));
    assert!(login(&store, &"s@x.com".to_string(), b"old").is_none());
    assert!(login(&store, &"s@x.com".to_string(), b"new").is_some());
}

#[test]
fn reset_for_unknown_email_changes_nothing() {
    let mut store = Store::from_users(vec![user_with("u1", "a@x.com", vec![])]).unwrap();
    let challenge = ResetChallenge { email: "z@x.com".to_string(), code: 123456 };
    assert_eq!(reset_password(&mut store, &challenge, 123456, b"new"), Ok(false));
    assert_eq!(store.users()[0].pw_hash, vec![0u8; HASH_WIDTH]);
}

#[test]
fn reset_codes_span_all_six_digit_values() {
    assert_eq!(CODE_MIN, 100000);
    assert_eq!(CODE_END - 1, 999999);
    let c = issue_reset_code(&dto("u1", "a@x.com")).unwrap();
    assert_eq!(c.code.to_string().len(), 6);
}
