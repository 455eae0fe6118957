//! Guesses the submission the user had in mind from what the keys would
//! submit. A space entered twice in a row ends a sentence: the first space
//! is replaced with a full stop.
use vstd::prelude::*;
use crate::submission::{duplicate_submissions, submissions_view, Submission, SubmissionView};

verus! {

/// What `text` becomes after the previous submissions `prev`: a space right
/// after a submitted space erases that space and enters ". "; any other text
/// is entered unchanged.
pub open spec fn decoded(prev: Seq<SubmissionView>, text: Seq<char>) -> Seq<SubmissionView> {
    if text == " "@ && prev.len() > 0 && prev.last() == SubmissionView::Text(" "@) {
        seq![SubmissionView::Erase(1), SubmissionView::Text(". "@)]
    } else {
        seq![SubmissionView::Text(text)]
    }
}

/// The previous submissions a decoder can hold: none, the text of one
/// decoding, or the erasure and ". " that end a sentence.
pub open spec fn reachable_submissions(prev: Seq<SubmissionView>) -> bool {
    ||| prev.len() == 0
    ||| (prev.len() == 1 && prev[0] is Text)
    ||| prev == seq![SubmissionView::Erase(1), SubmissionView::Text(". "@)]
}

/// The text around the cursor, as the focused application last reported it,
/// and the submissions of the last decoding.
pub struct Decoder {
    text_left_of_cursor: String,
    text_right_of_cursor: String,
    prev_submissions: Vec<Submission>,
}

/// The state of a decoder.
pub struct DecoderView {
    pub text_left_of_cursor: Seq<char>,
    pub text_right_of_cursor: Seq<char>,
    pub prev_submissions: Seq<SubmissionView>,
}

impl View for Decoder {
    type V = DecoderView;

    closed spec fn view(&self) -> DecoderView {
        DecoderView {
            text_left_of_cursor: self.text_left_of_cursor@,
            text_right_of_cursor: self.text_right_of_cursor@,
            prev_submissions: submissions_view(self.prev_submissions@),
        }
    }
}

/// Whether `s` is the single-space string.
fn is_single_space(s: &String) -> (r: bool)
    ensures
        r == (s@ == " "@),
{
    let space = " ".to_string();
    *s == space
}

/// A decoder that knows no surrounding text and no previous submission.
pub open spec fn fresh_decoder() -> DecoderView {
    DecoderView {
        text_left_of_cursor: Seq::empty(),
        text_right_of_cursor: Seq::empty(),
        prev_submissions: Seq::empty(),
    }
}

impl Decoder {
    /// The previous submissions are one of the shapes a decoding leaves.
    #[verifier::type_invariant]
    closed spec fn holds_decoded(self) -> bool {
        reachable_submissions(submissions_view(self.prev_submissions@))
    }

    /// A decoder that knows no surrounding text and no previous submission.
    pub fn new() -> (r: Decoder)
        ensures
            r@ == fresh_decoder(),
    {
        let r = Decoder {
            text_left_of_cursor: String::new(),
            text_right_of_cursor: String::new(),
            prev_submissions: Vec::new(),
        };
        assert(r@.prev_submissions =~= Seq::<SubmissionView>::empty());
        assert(r@ == fresh_decoder());
        r
    }

    /// Decodes the text the key would submit, considering the previous
    /// submissions, and returns the submissions the user is assumed to have
    /// intended. They become the previous submissions.
    pub fn decode_text(&mut self, text_to_decode: String) -> (r: Vec<Submission>)
        ensures
            submissions_view(r@) == decoded(old(self)@.prev_submissions, text_to_decode@),
            final(self)@ == (DecoderView {
                prev_submissions: submissions_view(r@),
                ..old(self)@
            }),
            reachable_submissions(old(self)@.prev_submissions),
            reachable_submissions(final(self)@.prev_submissions),
            submissions_view(r@) == (if text_to_decode@ == " "@ && old(self)@.prev_submissions
                == seq![SubmissionView::Text(" "@)] {
                seq![SubmissionView::Erase(1), SubmissionView::Text(". "@)]
            } else {
                seq![SubmissionView::Text(text_to_decode@)]
            }),
    {
        proof {
            use_type_invariant(&*self);
            reveal_strlit(". ");
            reveal_strlit(" ");
            let prev = old(self)@.prev_submissions;
            assert(". "@.len() == 2 && " "@.len() == 1);
            if prev == seq![SubmissionView::Erase(1), SubmissionView::Text(". "@)] {
                assert(prev.last() == SubmissionView::Text(". "@));
                assert(prev.last() != SubmissionView::Text(" "@));
            }
            if prev.len() > 0 && prev.last() == SubmissionView::Text(" "@) {
                assert(prev.len() == 1);
                assert(prev =~= seq![SubmissionView::Text(" "@)]);
            }
        }
        let mut new_submissions: Vec<Submission> = Vec::new();
        let n = self.prev_submissions.len();
        let mut after_space = false;
        if n > 0 {
            if let Submission::Text(prev) = &self.prev_submissions[n - 1] {
                after_space = is_single_space(prev);
            }
        }
        if is_single_space(&text_to_decode) && after_space {
            new_submissions.push(Submission::Erase(1));
            new_submissions.push(Submission::Text(". ".to_string()));
            proof {
                reveal_strlit(". ");
            }
        } else {
            new_submissions.push(Submission::Text(text_to_decode));
        }
        assert(submissions_view(new_submissions@) =~= decoded(
            old(self)@.prev_submissions,
            text_to_decode@,
        ));
        self.prev_submissions = duplicate_submissions(&new_submissions);
        new_submissions
    }

    /// Takes note of an update to a gesture. Gesture recognition is not
    /// available: nothing changes.
    pub fn decode_gesture(&mut self)
        ensures
            final(self)@ == old(self)@,
    {
    }

    /// The word the finished gesture most likely stands for. Gesture
    /// recognition is not available, so it is the empty string.
    pub fn get_gesture_result(&mut self) -> (r: String)
        ensures
            r@ == Seq::<char>::empty(),
            final(self)@ == old(self)@,
    {
        String::new()
    }

    /// Takes in the latest report of the text around the cursor, if there is
    /// one: the text left and right of the cursor.
    pub fn update_surrounding_text(&mut self, latest: Option<(String, String)>)
        ensures
            match latest {
                Some((left, right)) => final(self)@ == (DecoderView {
                    text_left_of_cursor: left@,
                    text_right_of_cursor: right@,
                    ..old(self)@
                }),
                None => final(self)@ == old(self)@,
            },
    {
        proof {
            use_type_invariant(&*self);
        }
        if let Some((left_string, right_string)) = latest {
            self.text_left_of_cursor = left_string;
            self.text_right_of_cursor = right_string;
        }
    }

    /// The text left of the cursor, as last reported.
    pub fn text_left_of_cursor(&self) -> (r: &String)
        ensures
            r@ == self@.text_left_of_cursor,
    {
        &self.text_left_of_cursor
    }

    /// The text right of the cursor, as last reported.
    pub fn text_right_of_cursor(&self) -> (r: &String)
        ensures
            r@ == self@.text_right_of_cursor,
    {
        &self.text_right_of_cursor
    }
}

} // verus!

verus! {

/// Entering a space twice in a row ends a sentence: unless the previous
/// submission was a space, the first space is entered as it is, and the
/// second erases it and enters ". ".
pub proof fn lemma_double_space_ends_sentence(prev: Seq<SubmissionView>)
    requires
        !(prev.len() > 0 && prev.last() == SubmissionView::Text(" "@)),
    ensures
        decoded(prev, " "@) == seq![SubmissionView::Text(" "@)],
        decoded(decoded(prev, " "@), " "@) == seq![
            SubmissionView::Erase(1),
            SubmissionView::Text(". "@),
        ],
{
}

} // verus!
