//! Interprets each submission a key would make, considering the previous
//! submissions: a space right after a submitted space ends a sentence.
use vstd::prelude::*;
use crate::decoder::decoded;
use crate::submission::{duplicate_submissions, submissions_view, Submission, SubmissionView};

verus! {

/// What the submission becomes after the previous submissions `prev`: text
/// is decoded (see `decoded`), every other submission is left as it is.
pub open spec fn interpreted(prev: Seq<SubmissionView>, s: SubmissionView) -> Seq<SubmissionView> {
    match s {
        SubmissionView::Text(t) => decoded(prev, t),
        _ => seq![s],
    }
}

/// The text around the cursor, as last reported, and the submissions of the
/// last interpretation.
pub struct Interpreter {
    text_left_of_cursor: String,
    text_right_of_cursor: String,
    prev_submissions: Vec<Submission>,
}

/// The state of an interpreter.
pub struct InterpreterView {
    pub text_left_of_cursor: Seq<char>,
    pub text_right_of_cursor: Seq<char>,
    pub prev_submissions: Seq<SubmissionView>,
}

impl View for Interpreter {
    type V = InterpreterView;

    closed spec fn view(&self) -> InterpreterView {
        InterpreterView {
            text_left_of_cursor: self.text_left_of_cursor@,
            text_right_of_cursor: self.text_right_of_cursor@,
            prev_submissions: submissions_view(self.prev_submissions@),
        }
    }
}

impl Interpreter {
    /// An interpreter that knows no surrounding text and no previous
    /// submission.
    pub fn new() -> (r: Interpreter)
        ensures
            r@ == (InterpreterView {
                text_left_of_cursor: Seq::empty(),
                text_right_of_cursor: Seq::empty(),
                prev_submissions: Seq::empty(),
            }),
    {
        let r = Interpreter {
            text_left_of_cursor: String::new(),
            text_right_of_cursor: String::new(),
            prev_submissions: Vec::new(),
        };
        assert(r@.prev_submissions =~= Seq::<SubmissionView>::empty());
        r
    }

    /// Interprets the submission a key would make and returns the
    /// submissions the user is assumed to have intended. They become the
    /// previous submissions.
    pub fn interpret(&mut self, submission: Submission) -> (r: Vec<Submission>)
        ensures
            submissions_view(r@) == interpreted(old(self)@.prev_submissions, submission@),
            final(self)@ == (InterpreterView { prev_submissions: submissions_view(r@), ..old(self)@ }),
    {
        let mut new_submissions: Vec<Submission> = Vec::new();
        match submission {
            Submission::Text(current_submission) => {
                let n = self.prev_submissions.len();
                let mut after_space = false;
                let space = " ".to_string();
                if n > 0 {
                    if let Submission::Text(prev) = &self.prev_submissions[n - 1] {
                        after_space = *prev == space;
                    }
                }
                if current_submission == space && after_space {
                    new_submissions.push(Submission::Erase(1));
                    new_submissions.push(Submission::Text(". ".to_string()));
                    proof {
                        reveal_strlit(". ");
                    }
                } else {
                    new_submissions.push(Submission::Text(current_submission));
                }
            },
            other => {
                new_submissions.push(other);
            },
        }
        assert(submissions_view(new_submissions@) =~= interpreted(
            old(self)@.prev_submissions,
            submission@,
        ));
        self.prev_submissions = duplicate_submissions(&new_submissions);
        new_submissions
    }

    /// Takes in the latest report of the text around the cursor, if there is
    /// one: the text left and right of the cursor.
    pub fn update_surrounding_text(&mut self, latest: Option<(String, String)>)
        ensures
            match latest {
                Some((left, right)) => final(self)@ == (InterpreterView {
                    text_left_of_cursor: left@,
                    text_right_of_cursor: right@,
                    ..old(self)@
                }),
                None => final(self)@ == old(self)@,
            },
    {
        if let Some((left_string, right_string)) = latest {
            self.text_left_of_cursor = left_string;
            self.text_right_of_cursor = right_string;
        }
    }
}

} // verus!
