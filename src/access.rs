use vstd::prelude::*;

verus! {

/// The privileged operations that the policy rules speak of.
#[derive(Clone, Copy, Debug, PartialEq, Eq, Structural)]
pub enum Action {
    CreateStudentAccount,
    CreateTeacherAccount,
    EnterGrade,
    ShowGrades,
}

/// The rule-file name of each action.
pub open spec fn action_name(a: Action) -> Seq<char> {
    match a {
        Action::CreateStudentAccount => "student_acc"@,
        Action::CreateTeacherAccount => "teacher_acc"@,
        Action::EnterGrade => "enter_grade"@,
        Action::ShowGrades => "show_grades"@,
    }
}

impl Action {
    /// The action with this rule-file name, if any.
    pub open spec fn spec_from_name(name: Seq<char>) -> Option<Action> {
        if exists|a: Action| action_name(a) == name {
            Some(choose|a: Action| action_name(a) == name)
        } else {
            None
        }
    }

    /// The action whose rule-file name is `name`, if any.
    pub fn from_name(name: &String) -> (r: Option<Action>)
        ensures
            r == Action::spec_from_name(name@),
    {
        let all = [
            Action::CreateStudentAccount,
            Action::CreateTeacherAccount,
            Action::EnterGrade,
            Action::ShowGrades,
        ];
        let mut i: usize = 0;
        while i < 4
            invariant
                i <= 4,
                all@ == seq![
                    Action::CreateStudentAccount,
                    Action::CreateTeacherAccount,
                    Action::EnterGrade,
                    Action::ShowGrades,
                ],
                forall|k: int| 0 <= k < i ==> action_name(all@[k]) != name@,
            decreases 4 - i,
        {
            let a = all[i];
            if *name == a.name() {
                proof {
                    lemma_action_names_distinct();
                }
                return Some(a);
            }
            i = i + 1;
        }
        assert forall|a: Action| action_name(a) != name@ by {
            match a {
                Action::CreateStudentAccount => assert(action_name(all@[0]) != name@),
                Action::CreateTeacherAccount => assert(action_name(all@[1]) != name@),
                Action::EnterGrade => assert(action_name(all@[2]) != name@),
                Action::ShowGrades => assert(action_name(all@[3]) != name@),
            }
        }
        None
    }

    /// The rule-file name of this action.
    pub fn name(&self) -> (r: String)
        ensures
            r@ == action_name(*self),
    {
        match self {
            Action::CreateStudentAccount => "student_acc".to_owned(),
            Action::CreateTeacherAccount => "teacher_acc".to_owned(),
            Action::EnterGrade => "enter_grade".to_owned(),
            Action::ShowGrades => "show_grades".to_owned(),
        }
    }
}

/// Distinct actions have distinct rule-file names.
pub proof fn lemma_action_names_distinct()
    ensures
        forall|a: Action, b: Action| action_name(a) == action_name(b) ==> a == b,
{
    reveal_strlit("student_acc");
    reveal_strlit("teacher_acc");
    reveal_strlit("enter_grade");
    reveal_strlit("show_grades");
    assert forall|a: Action, b: Action| action_name(a) == action_name(b) implies a == b by {
        if a != b {
            match a {
                Action::CreateStudentAccount => assert(action_name(a)[0] != action_name(b)[0] || action_name(a)[8] != action_name(b)[8]),
                Action::CreateTeacherAccount => assert(action_name(a)[0] != action_name(b)[0] || action_name(a)[6] != action_name(b)[6]),
                Action::EnterGrade => assert(action_name(a)[0] != action_name(b)[0] || action_name(a)[1] != action_name(b)[1]),
                Action::ShowGrades => assert(action_name(a)[0] != action_name(b)[0] || action_name(a)[1] != action_name(b)[1]),
            }
        }
    }
}

/// A subject grouped into a role may perform every action that the role is
/// explicitly allowed.
pub proof fn lemma_role_grants(policy: Policy, subject: Seq<char>, role: Seq<char>, action: Action)
    requires
        in_role(policy.groups@, subject, role),
        exists|i: int| 0 <= i < policy.allows@.len() && policy.allows@[i].subject@ == role && policy.allows@[i].action == action,
    ensures
        policy.permits(subject, action),
{
    let i = choose|i: int| 0 <= i < policy.allows@.len() && policy.allows@[i].subject@ == role && policy.allows@[i].action == action;
    assert(rule_grants(policy.groups@, policy.allows@[i], subject, action));
}

/// An explicit allow rule: `subject` (a user id or a role) may perform `action`.
pub struct AllowRule {
    pub subject: String,
    pub action: Action,
}

/// A grouping fact: `subject` belongs to `role`.
pub struct Grouping {
    pub subject: String,
    pub role: String,
}

/// A default-deny rule set.
pub struct Policy {
    pub allows: Vec<AllowRule>,
    pub groups: Vec<Grouping>,
}

/// `subject` is grouped into `role`.
pub open spec fn in_role(groups: Seq<Grouping>, subject: Seq<char>, role: Seq<char>) -> bool {
    exists|j: int| 0 <= j < groups.len() && groups[j].subject@ == subject && groups[j].role@ == role
}

/// An allow rule matches `subject` directly or through one of its roles.
pub open spec fn rule_grants(groups: Seq<Grouping>, rule: AllowRule, subject: Seq<char>, action: Action) -> bool {
    rule.action == action && (rule.subject@ == subject || in_role(groups, subject, rule.subject@))
}

/// The policy's answer: some allow rule grants the action; otherwise deny.
pub open spec fn permits(allows: Seq<AllowRule>, groups: Seq<Grouping>, subject: Seq<char>, action: Action) -> bool {
    exists|i: int| 0 <= i < allows.len() && rule_grants(groups, allows[i], subject, action)
}

impl Policy {
    pub open spec fn permits(&self, subject: Seq<char>, action: Action) -> bool {
        permits(self.allows@, self.groups@, subject, action)
    }

    /// An empty rule set, which denies everything.
    pub fn new() -> (r: Policy)
        ensures
            r.allows@.len() == 0,
            r.groups@.len() == 0,
            forall|s: Seq<char>, a: Action| !r.permits(s, a),
    {
        Policy { allows: Vec::new(), groups: Vec::new() }
    }

    /// Adds an allow rule.
    pub fn add_allow(&mut self, subject: String, action: Action)
        ensures
            final(self).allows@ == old(self).allows@.push(AllowRule { subject, action }),
            final(self).groups@ == old(self).groups@,
    {
        self.allows.push(AllowRule { subject, action });
    }

    /// Adds a grouping fact.
    pub fn add_grouping(&mut self, subject: String, role: String)
        ensures
            final(self).groups@ == old(self).groups@.push(Grouping { subject, role }),
            final(self).allows@ == old(self).allows@,
    {
        self.groups.push(Grouping { subject, role });
    }

    /// Adds one rule of the rule file: kind `p` allows subject `first` the
    /// action named `second`; kind `g` groups subject `first` into role
    /// `second`. Any other line is ignored and `false` returned.
    pub fn add_rule(&mut self, kind: &String, first: String, second: String) -> (r: bool)
        ensures
            kind@ == "p"@ ==> match Action::spec_from_name(second@) {
                Some(a) => r && final(self).allows@ == old(self).allows@.push(AllowRule { subject: first, action: a })
                    && final(self).groups@ == old(self).groups@,
                None => !r && final(self).allows@ == old(self).allows@ && final(self).groups@ == old(self).groups@,
            },
            kind@ == "g"@ ==> r && final(self).groups@ == old(self).groups@.push(Grouping { subject: first, role: second })
                && final(self).allows@ == old(self).allows@,
            kind@ != "p"@ && kind@ != "g"@ ==> !r && final(self).allows@ == old(self).allows@ && final(self).groups@ == old(self).groups@,
    {
        proof {
            reveal_strlit("p");
            reveal_strlit("g");
            assert("p"@[0] != "g"@[0]);
        }
        if *kind == "p".to_owned() {
            match Action::from_name(&second) {
                Some(a) => {
                    self.add_allow(first, a);
                    true
                },
                None => false,
            }
        } else if *kind == "g".to_owned() {
            self.add_grouping(first, second);
            true
        } else {
            false
        }
    }

    /// Whether `subject` is grouped into `role`.
    fn has_role(&self, subject: &String, role: &String) -> (r: bool)
        ensures
            r == in_role(self.groups@, subject@, role@),
    {
        let mut j: usize = 0;
        while j < self.groups.len()
            invariant
                j <= self.groups@.len(),
                forall|k: int| 0 <= k < j ==> !(self.groups@[k].subject@ == subject@ && self.groups@[k].role@ == role@),
            decreases self.groups@.len() - j,
        {
            let g = &self.groups[j];
            if g.subject == *subject && g.role == *role {
                return true;
            }
            j = j + 1;
        }
        false
    }

    /// Whether `subject` may perform `action`: only an explicit allow rule for
    /// the subject or for one of its roles grants it.
    pub fn authorize(&self, subject: &String, action: Action) -> (r: bool)
        ensures
            r == self.permits(subject@, action),
    {
        let mut i: usize = 0;
        while i < self.allows.len()
            invariant
                i <= self.allows@.len(),
                forall|k: int| 0 <= k < i ==> !rule_grants(self.groups@, #[trigger] self.allows@[k], subject@, action),
            decreases self.allows@.len() - i,
        {
            let rule = &self.allows[i];
            if rule.action == action && (rule.subject == *subject || self.has_role(subject, &rule.subject)) {
                return true;
            }
            i = i + 1;
        }
        false
    }
}

} // verus!
