use vstd::prelude::*;

verus! {

/// One submission record of the judge.
#[derive(Clone, Debug, PartialEq, Eq)]
pub struct Submission {
    pub id: i64,
    pub epoch_second: i64,
    pub problem_id: String,
    pub contest_id: String,
    pub user_id: String,
    pub language: String,
    /// The score, in hundredths of a point.
    pub point_hundredths: i64,
    pub length: i64,
    pub result: String,
    pub execution_time: Option<i64>,
}

/// The pair (contest, problem) under which at most one submission is archived.
#[derive(Clone, Debug, PartialEq, Eq)]
pub struct ArchiveKey {
    pub contest_id: String,
    pub problem_id: String,
}

impl View for ArchiveKey {
    type V = (Seq<char>, Seq<char>);

    open spec fn view(&self) -> (Seq<char>, Seq<char>) {
        (self.contest_id@, self.problem_id@)
    }
}

/// The archive key of a submission.
pub open spec fn key_of(s: Submission) -> (Seq<char>, Seq<char>) {
    (s.contest_id@, s.problem_id@)
}

/// Whether a submission was judged fully correct.
pub open spec fn accepted(s: Submission) -> bool {
    s.result@ == "AC"@
}

/// Whether `k` is one of the keys in `keys`.
pub open spec fn holds_key(keys: Seq<ArchiveKey>, k: (Seq<char>, Seq<char>)) -> bool {
    exists|j: int| 0 <= j < keys.len() && #[trigger] keys[j]@ == k
}

impl Submission {
    /// The archive key of this submission.
    pub fn archive_key(&self) -> (r: ArchiveKey)
        ensures
            r@ == key_of(*self),
    {
        ArchiveKey { contest_id: self.contest_id.clone(), problem_id: self.problem_id.clone() }
    }

    /// Whether this submission was judged fully correct.
    pub fn is_accepted(&self) -> (r: bool)
        ensures
            r == accepted(*self),
    {
        self.result == String::from_str("AC")
    }

    /// Whether two submissions share an archive key.
    pub fn same_key(&self, other: &Submission) -> (r: bool)
        ensures
            r == (key_of(*self) == key_of(*other)),
    {
        self.contest_id == other.contest_id && self.problem_id == other.problem_id
    }
}

/// Whether the key of `s` is among `keys`.
pub fn key_is_held(keys: &Vec<ArchiveKey>, s: &Submission) -> (r: bool)
    ensures
        r == holds_key(keys@, key_of(*s)),
{
    let mut j: usize = 0;
    while j < keys.len()
        invariant
            j <= keys@.len(),
            forall|t: int| 0 <= t < j ==> keys@[t]@ != key_of(*s),
        decreases keys@.len() - j,
    {
        if keys[j].contest_id == s.contest_id && keys[j].problem_id == s.problem_id {
            assert(keys@[j as int]@ == key_of(*s));
            return true;
        }
        j = j + 1;
    }
    false
}

} // verus!
