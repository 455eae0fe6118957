//! Character-level helpers on strings: whitespace splitting, ASCII case
//! mapping, suffix tests and concatenation.
use vstd::prelude::*;
use vstd::string::StringExecFns;

verus! {

/// Appends one character to a string (std's `String::push`).
#[verifier::external_body]
pub(crate) fn push_char(s: &mut String, c: char)
    ensures
        final(s)@ == old(s)@.push(c),
{
    s.push(c);
}

/// The upper case of a string by Unicode's rules, as `str::to_uppercase`
/// computes it.
pub uninterp spec fn uppercase(s: Seq<char>) -> Seq<char>;

/// Maps the string to upper case with std's `str::to_uppercase`, which
/// applies Unicode's case mapping character by character (a character may
/// become several, as `ß` becomes `SS`; one without case stays). The result
/// depends on the string alone; the mapping itself is left unsaid here.
#[verifier::external_body]
pub(crate) fn to_uppercase(s: &str) -> (r: String)
    ensures
        r@ == uppercase(s@),
{
    s.to_uppercase()
}

/// The characters of a string, in order.
pub fn chars_of(s: &str) -> (r: Vec<char>)
    ensures
        r@ == s@,
{
    let mut r: Vec<char> = Vec::new();
    for c in it: s.chars()
        invariant
            r@ == it.seq().take(it.index() as int),
    {
        r.push(c);
    }
    r
}

/// Builds a string from the characters `chars[from..to]`.
pub fn string_from_chars(chars: &Vec<char>, from: usize, to: usize) -> (r: String)
    requires
        from <= to <= chars.len(),
    ensures
        r@ == chars@.subrange(from as int, to as int),
{
    let mut r = String::new();
    let mut i = from;
    while i < to
        invariant
            from <= i <= to <= chars.len(),
            r@ == chars@.subrange(from as int, i as int),
        decreases to - i,
    {
        push_char(&mut r, chars[i]);
        i = i + 1;
        assert(r@ =~= chars@.subrange(from as int, i as int));
    }
    r
}

/// Unicode's `White_Space` property, which is what `char::is_whitespace` tests.
pub open spec fn spec_is_whitespace(c: char) -> bool {
    let u = c as u32;
    ||| 0x09 <= u <= 0x0d
    ||| u == 0x20
    ||| u == 0x85
    ||| u == 0xa0
    ||| u == 0x1680
    ||| 0x2000 <= u <= 0x200a
    ||| u == 0x2028
    ||| u == 0x2029
    ||| u == 0x202f
    ||| u == 0x205f
    ||| u == 0x3000
}

/// Whether the character is white space.
pub fn is_whitespace(c: char) -> (r: bool)
    ensures
        r == spec_is_whitespace(c),
{
    let u = c as u32;
    (0x09 <= u && u <= 0x0d) || u == 0x20 || u == 0x85 || u == 0xa0 || u == 0x1680 || (0x2000
        <= u && u <= 0x200a) || u == 0x2028 || u == 0x2029 || u == 0x202f || u == 0x205f || u
        == 0x3000
}

/// The longest prefix of `s` that holds no white space.
pub open spec fn leading_word(s: Seq<char>) -> Seq<char>
    decreases s.len(),
{
    if s.len() == 0 || spec_is_whitespace(s[0]) {
        Seq::empty()
    } else {
        seq![s[0]] + leading_word(s.drop_first())
    }
}

/// The words of `s`: its maximal runs of characters that are not white
/// space, in order (what `str::split_whitespace` yields).
pub open spec fn words(s: Seq<char>) -> Seq<Seq<char>>
    decreases s.len(),
{
    if s.len() == 0 {
        Seq::empty()
    } else if spec_is_whitespace(s[0]) {
        words(s.drop_first())
    } else {
        let w = leading_word(s);
        if 0 < w.len() <= s.len() {
            seq![w] + words(s.skip(w.len() as int))
        } else {
            Seq::empty()
        }
    }
}

/// The characters of a sequence of strings.
pub open spec fn string_views(v: Seq<String>) -> Seq<Seq<char>> {
    v.map_values(|w: String| w@)
}

proof fn lemma_leading_word(s: Seq<char>, i: int, j: int)
    requires
        0 <= i <= j <= s.len(),
        forall|k: int| i <= k < j ==> !spec_is_whitespace(#[trigger] s[k]),
        j == s.len() || spec_is_whitespace(s[j]),
    ensures
        leading_word(s.skip(i)) == s.subrange(i, j),
    decreases j - i,
{
    if i == j {
        assert(leading_word(s.skip(i)) =~= Seq::<char>::empty());
    } else {
        lemma_leading_word(s, i + 1, j);
        assert(s.skip(i).drop_first() =~= s.skip(i + 1));
        assert(s.subrange(i, j) =~= seq![s[i]] + s.subrange(i + 1, j));
    }
}

/// Splits a string at white space, as `str::split_whitespace` does.
pub fn split_whitespace(s: &str) -> (r: Vec<String>)
    ensures
        string_views(r@) == words(s@),
{
    let chars = chars_of(s);
    let n = chars.len();
    let mut r: Vec<String> = Vec::new();
    let mut i: usize = 0;
    assert(chars@.skip(0) =~= chars@);
    while i < n
        invariant
            n == chars.len(),
            chars@ == s@,
            i <= n,
            words(s@) == string_views(r@) + words(chars@.skip(i as int)),
        decreases n - i,
    {
        if is_whitespace(chars[i]) {
            assert(chars@.skip(i as int).drop_first() =~= chars@.skip(i + 1));
            i = i + 1;
        } else {
            let mut j = i;
            while j < n && !is_whitespace(chars[j])
                invariant
                    n == chars.len(),
                    i <= j <= n,
                    forall|k: int| i <= k < j ==> !spec_is_whitespace(#[trigger] chars@[k]),
                decreases n - j,
            {
                j = j + 1;
            }
            proof {
                lemma_leading_word(chars@, i as int, j as int);
                assert(chars@.skip(i as int).skip((j - i) as int) =~= chars@.skip(j as int));
            }
            let w = string_from_chars(&chars, i, j);
            let ghost old_r = r@;
            r.push(w);
            assert(string_views(r@) =~= string_views(old_r) + seq![w@]);
            i = j;
        }
    }
    assert(chars@.skip(n as int) =~= Seq::<char>::empty());
    r
}

/// ASCII upper case of one character: `a`..=`z` become `A`..=`Z`, every
/// other character stays.
pub open spec fn spec_ascii_upper_char(c: char) -> char {
    if 'a' <= c <= 'z' {
        ((c as u32) - 32) as char
    } else {
        c
    }
}

/// ASCII upper case of a character sequence.
pub open spec fn spec_ascii_upper(s: Seq<char>) -> Seq<char> {
    s.map_values(|c: char| spec_ascii_upper_char(c))
}

/// ASCII upper case of one character.
pub fn ascii_upper_char(c: char) -> (r: char)
    ensures
        r == spec_ascii_upper_char(c),
{
    if 'a' <= c && c <= 'z' {
        let u = (c as u8) - 32;
        u as char
    } else {
        c
    }
}

/// A copy of the string in which every ASCII lower-case letter is replaced
/// by its upper-case counterpart (what `str::to_ascii_uppercase` returns).
pub fn to_ascii_uppercase(s: &str) -> (r: String)
    ensures
        r@ == spec_ascii_upper(s@),
{
    let chars = chars_of(s);
    let mut r = String::new();
    let mut i: usize = 0;
    while i < chars.len()
        invariant
            chars@ == s@,
            i <= chars.len(),
            r@ == spec_ascii_upper(s@.take(i as int)),
        decreases chars.len() - i,
    {
        let c = ascii_upper_char(chars[i]);
        push_char(&mut r, c);
        i = i + 1;
        assert(r@ =~= spec_ascii_upper(s@.take(i as int)));
    }
    assert(s@.take(i as int) =~= s@);
    r
}

/// Whether `s` ends with `suffix`.
pub fn ends_with(s: &str, suffix: &str) -> (r: bool)
    ensures
        r == (suffix@.len() <= s@.len() && s@.subrange(s@.len() - suffix@.len(), s@.len() as int)
            == suffix@),
{
    let a = chars_of(s);
    let b = chars_of(suffix);
    if b.len() > a.len() {
        return false;
    }
    let off = a.len() - b.len();
    let mut i: usize = 0;
    while i < b.len()
        invariant
            a@ == s@,
            b@ == suffix@,
            off == a.len() - b.len(),
            i <= b.len(),
            forall|k: int| 0 <= k < i ==> a@[off + k] == b@[k],
        decreases b.len() - i,
    {
        if a[off + i] != b[i] {
            assert(s@.subrange(off as int, s@.len() as int)[i as int] != suffix@[i as int]);
            return false;
        }
        i = i + 1;
    }
    assert(s@.subrange(off as int, s@.len() as int) =~= suffix@);
    true
}

/// `s` without `suffix` at its end, if it ends with it (what
/// `str::strip_suffix` returns).
pub fn strip_suffix(s: &str, suffix: &str) -> (r: Option<String>)
    ensures
        match r {
            Some(p) => p@ + suffix@ == s@,
            None => !(suffix@.len() <= s@.len() && s@.subrange(
                s@.len() - suffix@.len(),
                s@.len() as int,
            ) == suffix@),
        },
{
    if ends_with(s, suffix) {
        let a = chars_of(s);
        let b = chars_of(suffix);
        let p = string_from_chars(&a, 0, a.len() - b.len());
        assert(p@ + suffix@ =~= s@);
        Some(p)
    } else {
        None
    }
}

/// Concatenation of two strings.
pub fn joined(a: &str, b: &str) -> (r: String)
    ensures
        r@ == a@ + b@,
{
    let mut r = a.to_string();
    r.append(b);
    r
}

} // verus!
