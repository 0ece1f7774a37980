use vstd::prelude::*;
use crate::hash::{admin_hash, admin_phc, argon2_accepts, hash_matches, verify, HASH_WIDTH};

verus! {

/// Highest grade, in hundredths of a grade point.
pub const MAX_GRADE: u32 = 600;

/// A persisted user record. Grades are in hundredths of a grade point.
pub struct User {
    pub id: String,
    pub email: String,
    pub name: String,
    pub pw_hash: Vec<u8>,
    pub grades: Vec<u32>,
}

/// The identity of an authenticated user: id and email only.
pub struct UserDTO {
    pub id: String,
    pub email: String,
}

/// The reserved super-user name, used as its id and its email.
pub open spec fn is_admin(s: Seq<char>) -> bool {
    s == "admin"@
}

/// The reserved super-user name.
pub fn admin_name() -> (r: String)
    ensures
        is_admin(r@),
{
    "admin".to_owned()
}

/// Every grade lies within `0..=MAX_GRADE`.
pub open spec fn grades_valid(g: Seq<u32>) -> bool {
    forall|k: int| 0 <= k < g.len() ==> g[k] <= MAX_GRADE
}

/// A record that may stand in the store.
pub open spec fn user_valid(u: User) -> bool {
    &&& !is_admin(u.id@)
    &&& !is_admin(u.email@)
    &&& u.pw_hash@.len() == HASH_WIDTH
    &&& grades_valid(u.grades@)
}

/// `users[i]` is the first record with this email.
pub open spec fn first_with_email(users: Seq<User>, email: Seq<char>, i: int) -> bool {
    &&& 0 <= i < users.len()
    &&& users[i].email@ == email
    &&& forall|j: int| 0 <= j < i ==> users[j].email@ != email
}

/// Some record has this email.
pub open spec fn has_email(users: Seq<User>, email: Seq<char>) -> bool {
    exists|i: int| 0 <= i < users.len() && users[i].email@ == email
}

/// Record `u` accepts this email and password.
pub open spec fn login_match(u: User, email: Seq<char>, password: Seq<u8>) -> bool {
    u.email@ == email && hash_matches(u.pw_hash@, password)
}

/// The in-memory collection of user records.
pub struct Store {
    pub users: Vec<User>,
}

impl Store {
    pub open spec fn wf(&self) -> bool {
        forall|i: int| 0 <= i < self.users@.len() ==> user_valid(#[trigger] self.users@[i])
    }

    /// An empty store.
    pub fn new() -> (r: Store)
        ensures
            r.wf(),
            r.users@.len() == 0,
    {
        Store { users: Vec::new() }
    }

    /// A store holding `users`, when every record is valid; `None` otherwise.
    pub fn from_users(users: Vec<User>) -> (r: Option<Store>)
        ensures
            r is Some <==> (forall|i: int| 0 <= i < users@.len() ==> user_valid(#[trigger] users@[i])),
            r matches Some(s) ==> s.wf() && s.users@ == users@,
    {
        let mut i: usize = 0;
        while i < users.len()
            invariant
                i <= users@.len(),
                forall|k: int| 0 <= k < i ==> user_valid(#[trigger] users@[k]),
            decreases users@.len() - i,
        {
            let u = &users[i];
            let admin = admin_name();
            if u.id == admin || u.email == admin || u.pw_hash.len() != HASH_WIDTH {
                return None;
            }
            let mut k: usize = 0;
            while k < u.grades.len()
                invariant
                    i < users@.len(),
                    *u == users@[i as int],
                    k <= u.grades@.len(),
                    forall|m: int| 0 <= m < k ==> u.grades@[m] <= MAX_GRADE,
                decreases u.grades@.len() - k,
            {
                if u.grades[k] > MAX_GRADE {
                    assert(!user_valid(users@[i as int]));
                    return None;
                }
                k = k + 1;
            }
            i = i + 1;
        }
        Some(Store { users })
    }

    /// The records, in order.
    pub fn users(&self) -> (r: &Vec<User>)
        ensures
            r@ == self.users@,
    {
        &self.users
    }

    /// The index of the first record with this email, if any.
    pub fn find_by_email(&self, email: &String) -> (r: Option<usize>)
        ensures
            r matches Some(i) ==> first_with_email(self.users@, email@, i as int),
            r is None ==> !has_email(self.users@, email@),
    {
        let mut i: usize = 0;
        while i < self.users.len()
            invariant
                i <= self.users@.len(),
                forall|j: int| 0 <= j < i ==> self.users@[j].email@ != email@,
            decreases self.users@.len() - i,
        {
            if self.users[i].email == *email {
                return Some(i);
            }
            i = i + 1;
        }
        None
    }

    /// Adds a record at the end. Email uniqueness is not checked.
    pub fn append(&mut self, user: User)
        requires
            old(self).wf(),
            user_valid(user),
        ensures
            final(self).wf(),
            final(self).users@ == old(self).users@.push(user),
    {
        let ghost before = self.users@;
        self.users.push(user);
        assert forall|j: int| 0 <= j < self.users@.len() implies user_valid(#[trigger] self.users@[j]) by {
            if j < before.len() {
                assert(self.users@[j] == before[j]);
            }
        }
    }

    /// Appends `grade` to the first record with `email`. `false`, with
    /// nothing changed, when no record has it.
    pub fn append_grade(&mut self, email: &String, grade: u32) -> (r: bool)
        requires
            old(self).wf(),
            grade <= MAX_GRADE,
        ensures
            final(self).wf(),
            r == has_email(old(self).users@, email@),
            !r ==> final(self).users@ == old(self).users@,
            r ==> exists|i: int| {
                &&& first_with_email(old(self).users@, email@, i)
                &&& final(self).users@.len() == old(self).users@.len()
                &&& final(self).users@[i].id == old(self).users@[i].id
                &&& final(self).users@[i].email == old(self).users@[i].email
                &&& final(self).users@[i].name == old(self).users@[i].name
                &&& final(self).users@[i].pw_hash == old(self).users@[i].pw_hash
                &&& final(self).users@[i].grades@ == old(self).users@[i].grades@.push(grade)
                &&& forall|j: int| 0 <= j < old(self).users@.len() && j != i ==> final(self).users@[j] == old(self).users@[j]
            },
    {
        match self.find_by_email(email) {
            None => false,
            Some(i) => {
                let ghost before = self.users@;
                let mut u = self.users.remove(i);
                assert(u == before[i as int]);
                assert(user_valid(u));
                u.grades.push(grade);
                assert(grades_valid(u.grades@)) by {
                    assert(forall|k: int| 0 <= k < u.grades@.len() - 1 ==> u.grades@[k] == before[i as int].grades@[k]);
                }
                self.users.insert(i, u);
                assert forall|j: int| 0 <= j < self.users@.len() implies user_valid(#[trigger] self.users@[j]) by {
                    if j != i {
                        assert(self.users@[j] == before[j]);
                        assert(user_valid(before[j]));
                    }
                }
                true
            }
        }
    }

    /// Installs `blob` as the password hash of the first record with
    /// `email`. `false`, with nothing changed, when no record has it.
    pub fn update_password_hash(&mut self, email: &String, blob: Vec<u8>) -> (r: bool)
        requires
            old(self).wf(),
            blob@.len() == HASH_WIDTH,
        ensures
            final(self).wf(),
            r == has_email(old(self).users@, email@),
            !r ==> final(self).users@ == old(self).users@,
            r ==> exists|i: int| {
                &&& first_with_email(old(self).users@, email@, i)
                &&& final(self).users@.len() == old(self).users@.len()
                &&& final(self).users@[i].id == old(self).users@[i].id
                &&& final(self).users@[i].email == old(self).users@[i].email
                &&& final(self).users@[i].name == old(self).users@[i].name
                &&& final(self).users@[i].grades == old(self).users@[i].grades
                &&& final(self).users@[i].pw_hash@ == blob@
                &&& forall|j: int| 0 <= j < old(self).users@.len() && j != i ==> final(self).users@[j] == old(self).users@[j]
            },
    {
        match self.find_by_email(email) {
            None => false,
            Some(i) => {
                let ghost before = self.users@;
                let mut u = self.users.remove(i);
                assert(u == before[i as int]);
                assert(user_valid(u));
                u.pw_hash = blob;
                self.users.insert(i, u);
                assert forall|j: int| 0 <= j < self.users@.len() implies user_valid(#[trigger] self.users@[j]) by {
                    if j != i {
                        assert(self.users@[j] == before[j]);
                        assert(user_valid(before[j]));
                    }
                }
                true
            }
        }
    }
}

/// Checks an email and password. The super-user is checked against its own
/// constant hash and never against the store; anyone else gets the identity
/// of the first record whose email and password both match.
pub fn login(store: &Store, email: &String, password: &[u8]) -> (r: Option<UserDTO>)
    ensures
        is_admin(email@) ==> {
            &&& r is Some <==> argon2_accepts(admin_phc(), password@)
            &&& r matches Some(d) ==> is_admin(d.id@) && is_admin(d.email@)
        },
        !is_admin(email@) ==> {
            &&& r is Some <==> exists|i: int| 0 <= i < store.users@.len() && login_match(store.users@[i], email@, password@)
            &&& r matches Some(d) ==> exists|i: int| {
                &&& 0 <= i < store.users@.len()
                &&& login_match(store.users@[i], email@, password@)
                &&& forall|j: int| 0 <= j < i ==> !login_match(store.users@[j], email@, password@)
                &&& d.id@ == store.users@[i].id@
                &&& d.email@ == store.users@[i].email@
            }
        },
{
    let admin = admin_name();
    if *email == admin {
        let h = admin_hash();
        if verify(h.as_slice(), password) {
            return Some(UserDTO { id: admin_name(), email: admin_name() });
        }
        return None;
    }
    let mut i: usize = 0;
    while i < store.users.len()
        invariant
            i <= store.users@.len(),
            !is_admin(email@),
            forall|j: int| 0 <= j < i ==> !login_match(store.users@[j], email@, password@),
        decreases store.users@.len() - i,
    {
        let u = &store.users[i];
        if u.email == *email && verify(u.pw_hash.as_slice(), password) {
            return Some(UserDTO { id: u.id.clone(), email: u.email.clone() });
        }
        i = i + 1;
    }
    None
}

/// No record of a well-formed store carries the reserved super-user name,
/// as id or as email.
pub proof fn lemma_no_super_user(store: Store)
    requires
        store.wf(),
    ensures
        forall|i: int| 0 <= i < store.users@.len() ==>
            !is_admin(#[trigger] store.users@[i].id@) && !is_admin(store.users@[i].email@),
{
    assert forall|i: int| 0 <= i < store.users@.len() implies
        !is_admin(#[trigger] store.users@[i].id@) && !is_admin(store.users@[i].email@) by {
        assert(user_valid(store.users@[i]));
    }
}

} // verus!
