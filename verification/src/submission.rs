//! What the keyboard hands to the text input of the focused application.
use vstd::prelude::*;
use crate::deserialized::Modifier;

verus! {

/// Possible kinds of submission.
#[derive(Debug, PartialEq, Clone)]
pub enum Submission {
    /// Submit a string.
    Text(String),
    /// Emulate a physical key that is pressed and released.
    Keycode(u32),
    /// Emulate a physical key that is toggled: pressed if it was released,
    /// released if it was pressed.
    ToggleKeycode(u32),
    /// Toggle a modifier (e.g. Shift).
    Modifier(Modifier),
    /// Erase the given number of characters before the cursor.
    Erase(u32),
}

/// A submission, its string taken by its characters.
pub enum SubmissionView {
    Text(Seq<char>),
    Keycode(u32),
    ToggleKeycode(u32),
    Modifier(Modifier),
    Erase(u32),
}

impl View for Submission {
    type V = SubmissionView;

    open spec fn view(&self) -> SubmissionView {
        match self {
            Submission::Text(s) => SubmissionView::Text(s@),
            Submission::Keycode(k) => SubmissionView::Keycode(*k),
            Submission::ToggleKeycode(k) => SubmissionView::ToggleKeycode(*k),
            Submission::Modifier(m) => SubmissionView::Modifier(*m),
            Submission::Erase(n) => SubmissionView::Erase(*n),
        }
    }
}

/// The views of a sequence of submissions.
pub open spec fn submissions_view(v: Seq<Submission>) -> Seq<SubmissionView> {
    v.map_values(|s: Submission| s@)
}

impl Submission {
    /// A copy of the submission.
    pub fn duplicate(&self) -> (r: Submission)
        ensures
            r@ == self@,
    {
        match self {
            Submission::Text(s) => Submission::Text(s.clone()),
            Submission::Keycode(k) => Submission::Keycode(*k),
            Submission::ToggleKeycode(k) => Submission::ToggleKeycode(*k),
            Submission::Modifier(m) => Submission::Modifier(*m),
            Submission::Erase(n) => Submission::Erase(*n),
        }
    }

    /// Whether two submissions are the same.
    pub fn same_as(&self, other: &Submission) -> (r: bool)
        ensures
            r == (self@ == other@),
    {
        match (self, other) {
            (Submission::Text(a), Submission::Text(b)) => *a == *b,
            (Submission::Keycode(a), Submission::Keycode(b)) => *a == *b,
            (Submission::ToggleKeycode(a), Submission::ToggleKeycode(b)) => *a == *b,
            (Submission::Modifier(a), Submission::Modifier(b)) => *a == *b,
            (Submission::Erase(a), Submission::Erase(b)) => *a == *b,
            _ => false,
        }
    }
}

/// A copy of a sequence of submissions.
pub fn duplicate_submissions(v: &Vec<Submission>) -> (r: Vec<Submission>)
    ensures
        submissions_view(r@) == submissions_view(v@),
{
    let mut r: Vec<Submission> = Vec::new();
    let mut i: usize = 0;
    while i < v.len()
        invariant
            i <= v.len(),
            r.len() == i,
            forall|k: int| 0 <= k < i ==> (#[trigger] r@[k])@ == v@[k]@,
        decreases v.len() - i,
    {
        r.push(v[i].duplicate());
        i = i + 1;
    }
    assert(submissions_view(r@) =~= submissions_view(v@));
    r
}

} // verus!
