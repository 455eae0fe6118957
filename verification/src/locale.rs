//! The name of the user's language, taken from the name of the locale.
use vstd::prelude::*;
use crate::text::chars_of;
use crate::text::string_from_chars;

verus! {

/// The part of `s` after its last hyphen; all of `s` when it has none.
pub open spec fn last_segment(s: Seq<char>) -> Seq<char>
    decreases s.len(),
{
    if s.len() == 0 {
        s
    } else if s.last() == '-' {
        Seq::empty()
    } else {
        last_segment(s.drop_last()).push(s.last())
    }
}

/// The lower case of a string by Unicode's rules, as `str::to_lowercase`
/// computes it.
pub uninterp spec fn lowercase(s: Seq<char>) -> Seq<char>;

/// Maps the string to lower case with std's `str::to_lowercase`, which
/// applies Unicode's case mapping, character by character, with the special
/// rule for a final Greek sigma. The result depends on the string alone;
/// the mapping itself is left unsaid here.
#[verifier::external_body]
fn to_lowercase(s: &str) -> (r: String)
    ensures
        r@ == lowercase(s@),
{
    s.to_lowercase()
}

/// The part of the locale name after its last hyphen, in lower case: the
/// name of the layout that suits the user's language.
pub fn language_from_locale(locale: &str) -> (r: String)
    ensures
        r@ == lowercase(last_segment(locale@)),
{
    let chars = chars_of(locale);
    let n = chars.len();
    let mut start = n;
    proof {
        assert(chars@.take(n as int) =~= chars@);
        assert(chars@.subrange(n as int, n as int) =~= Seq::<char>::empty());
        assert(last_segment(chars@) + Seq::<char>::empty() =~= last_segment(chars@));
    }
    while start > 0 && chars[start - 1] != '-'
        invariant
            start <= n == chars@.len(),
            chars@ == locale@,
            last_segment(chars@) == last_segment(chars@.take(start as int)) + chars@.subrange(
                start as int,
                n as int,
            ),
        decreases start,
    {
        proof {
            let t = chars@.take(start as int);
            assert(t.drop_last() =~= chars@.take(start - 1));
            assert(chars@.subrange(start - 1, n as int) =~= seq![t.last()] + chars@.subrange(
                start as int,
                n as int,
            ));
            assert(last_segment(t) =~= last_segment(t.drop_last()).push(t.last()));
        }
        start = start - 1;
    }
    proof {
        let t = chars@.take(start as int);
        if start == 0 {
            assert(t.len() == 0);
        } else {
            assert(t.last() == '-');
        }
        assert(last_segment(t) =~= Seq::<char>::empty());
        assert(chars@.take(n as int) =~= chars@);
    }
    let segment = string_from_chars(&chars, start, n);
    proof {
        assert(last_segment(locale@) =~= segment@);
    }
    to_lowercase(segment.as_str())
}

} // verus!
