//! Characters and runs of characters: the classes the scanner tells apart,
//! the maximal run of a class in a text, and the conversions between `str`,
//! `String` and sequences of characters.

use vstd::prelude::*;

verus! {

/// `String::push` appends one character to the end of the string.
pub assume_specification[ String::push ](s: &mut String, ch: char)
    ensures
        final(s)@ == old(s)@.push(ch),
;

/// The classes of characters that the scanner reads in runs.
#[derive(Debug, Clone, Copy, PartialEq, Eq, Structural)]
pub enum CharClass {
    /// Space, tab, line feed and carriage return.
    Space,
    /// The decimal digits `0` to `9`.
    Digit,
    /// The letters `a` to `z` and `A` to `Z`.
    Letter,
}

impl CharClass {
    /// Whether `c` belongs to the class.
    pub open spec fn spec_contains(self, c: char) -> bool {
        match self {
            CharClass::Space => c == ' ' || c == '\t' || c == '\n' || c == '\r',
            CharClass::Digit => '0' <= c && c <= '9',
            CharClass::Letter => ('a' <= c && c <= 'z') || ('A' <= c && c <= 'Z'),
        }
    }

    /// Whether `c` belongs to the class.
    #[verifier::when_used_as_spec(spec_contains)]
    pub fn contains(self, c: char) -> (found: bool)
        ensures
            found == self.spec_contains(c),
    {
        match self {
            CharClass::Space => c == ' ' || c == '\t' || c == '\n' || c == '\r',
            CharClass::Digit => '0' <= c && c <= '9',
            CharClass::Letter => ('a' <= c && c <= 'z') || ('A' <= c && c <= 'Z'),
        }
    }
}

/// The character of `s` at index `i`, and NUL where `s` has none there.
pub open spec fn char_at(s: Seq<char>, i: int) -> char {
    if 0 <= i < s.len() {
        s[i]
    } else {
        '\0'
    }
}

/// The end of the maximal run of characters of `class` that starts at index
/// `i` of `s`: the first index from `i` on that holds no character of the
/// class.
pub open spec fn run_end(s: Seq<char>, i: int, class: CharClass) -> int
    decreases s.len() - i,
{
    if 0 <= i < s.len() && class.contains(s[i]) {
        run_end(s, i + 1, class)
    } else {
        i
    }
}

/// A run ends at or after its start and within the text.
pub proof fn lemma_run_end_bounds(s: Seq<char>, i: int, class: CharClass)
    ensures
        i <= run_end(s, i, class),
        i <= s.len() ==> run_end(s, i, class) <= s.len(),
    decreases s.len() - i,
{
    if 0 <= i < s.len() && class.contains(s[i]) {
        lemma_run_end_bounds(s, i + 1, class);
    }
}

/// A run is maximal: every character in it is of the class, and the
/// character after it, if there is one, is not.
pub proof fn lemma_run_end_maximal(s: Seq<char>, i: int, class: CharClass)
    requires
        0 <= i,
    ensures
        forall|j: int| i <= j < run_end(s, i, class) ==> class.contains(#[trigger] s[j]),
        !class.contains(char_at(s, run_end(s, i, class))),
    decreases s.len() - i,
{
    if 0 <= i < s.len() && class.contains(s[i]) {
        lemma_run_end_maximal(s, i + 1, class);
    }
}

/// A stretch of characters of the class, followed by the end of the text or
/// by a character outside the class, is the run that starts there.
pub proof fn lemma_run_end_unique(s: Seq<char>, i: int, end: int, class: CharClass)
    requires
        0 <= i <= end <= s.len(),
        forall|j: int| i <= j < end ==> class.contains(#[trigger] s[j]),
        !class.contains(char_at(s, end)),
    ensures
        run_end(s, i, class) == end,
    decreases end - i,
{
    if i < end {
        lemma_run_end_unique(s, i + 1, end, class);
    }
}

/// The characters of a text, in order.
pub fn to_chars(s: &str) -> (chars: Vec<char>)
    ensures
        chars@ == s@,
{
    let mut chars: Vec<char> = Vec::new();
    for c in it: s.chars()
        invariant
            chars@ == it.seq().take(it.index()),
            it.seq() == s@,
    {
        chars.push(c);
    }
    chars
}

/// The text made of the characters of `chars` from index `from` up to, not
/// including, index `to`.
pub fn to_text(chars: &Vec<char>, from: usize, to: usize) -> (text: String)
    requires
        from <= to <= chars.len(),
    ensures
        text@ == chars@.subrange(from as int, to as int),
{
    let mut text = String::new();
    let mut i: usize = from;
    while i < to
        invariant
            from <= i <= to <= chars.len(),
            text@ == chars@.subrange(from as int, i as int),
        decreases to - i,
    {
        text.push(chars[i]);
        i += 1;
        assert(text@ =~= chars@.subrange(from as int, i as int));
    }
    text
}

} // verus!
