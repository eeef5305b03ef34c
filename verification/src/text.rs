//! Character classes, runs of characters, and conversions between strings and
//! vectors of characters. Everything else in the crate reads and writes text
//! through the functions of this module.

use vstd::prelude::*;

verus! {

/// The value of `char::is_whitespace` for a character beyond ASCII: whether
/// it has the Unicode property `White_Space`.
pub uninterp spec fn unicode_white_space(c: char) -> bool;

/// The value of `char::is_alphabetic` for a character beyond ASCII: whether
/// it has the Unicode property `Alphabetic`.
pub uninterp spec fn unicode_alphabetic(c: char) -> bool;

/// The value of `char::is_alphanumeric` for a character beyond ASCII:
/// whether it is alphabetic or numeric in the sense of Unicode.
pub uninterp spec fn unicode_alphanumeric(c: char) -> bool;

/// Whether `c` is one of the 128 characters of ASCII.
pub open spec fn is_ascii(c: char) -> bool {
    c <= '\u{7f}'
}

/// Whether `c` is white space: in ASCII the space and the five characters
/// from the tabulator to the carriage return, beyond it what Unicode says.
pub open spec fn white_space(c: char) -> bool {
    if is_ascii(c) {
        c == ' ' || ('\t' <= c && c <= '\r')
    } else {
        unicode_white_space(c)
    }
}

/// Whether `c` is a letter: in ASCII the 26 letters in their two cases,
/// beyond it what Unicode says.
pub open spec fn alphabetic(c: char) -> bool {
    if is_ascii(c) {
        ('a' <= c && c <= 'z') || ('A' <= c && c <= 'Z')
    } else {
        unicode_alphabetic(c)
    }
}

/// Whether `c` is a letter or a digit: every letter is one; of the other
/// characters, in ASCII the ten digits, beyond it what Unicode says.
pub open spec fn alphanumeric(c: char) -> bool {
    alphabetic(c) || if is_ascii(c) {
        is_digit(c)
    } else {
        unicode_alphanumeric(c)
    }
}

/// Trusted: `char::is_whitespace` of std is a function of the character
/// alone. In ASCII it holds of the space and of the characters from U+0009
/// to U+000D; its table beyond ASCII is not written out here and is called
/// [`unicode_white_space`].
pub assume_specification[ char::is_whitespace ](c: char) -> (b: bool)
    ensures
        b == white_space(c),
        !is_ascii(c) ==> b == unicode_white_space(c),
;

/// Trusted: `char::is_alphabetic` of std is a function of the character
/// alone. In ASCII it holds of the letters `a` to `z` and `A` to `Z`; its
/// table beyond ASCII is not written out here and is called
/// [`unicode_alphabetic`].
pub assume_specification[ char::is_alphabetic ](c: char) -> (b: bool)
    ensures
        b == alphabetic(c),
        !is_ascii(c) ==> b == unicode_alphabetic(c),
;

/// Trusted: `char::is_alphanumeric` of std is a function of the character
/// alone. It holds of every character of which `char::is_alphabetic` holds,
/// and in ASCII besides of the digits `0` to `9`; its table beyond ASCII is
/// not written out here and is called [`unicode_alphanumeric`].
pub assume_specification[ char::is_alphanumeric ](c: char) -> (b: bool)
    ensures
        b == alphanumeric(c),
        !is_ascii(c) ==> b == (alphabetic(c) || unicode_alphanumeric(c)),
;

/// Trusted: `String::push` of std appends the character to the end of the
/// string and changes nothing else.
pub assume_specification[ String::push ](s: &mut String, ch: char)
    ensures
        final(s)@ == old(s)@.push(ch),
;

/// Whether `c` is one of the ten ASCII decimal digits.
pub open spec fn is_digit(c: char) -> bool {
    '0' <= c && c <= '9'
}

/// A set of characters that a scan can run over.
#[derive(Clone, Copy, Debug)]
pub enum CharClass {
    /// Unicode white space.
    Space,
    /// An ASCII digit or a dot.
    NumberPart,
    /// A letter or digit of any script, an underscore or a dot.
    IdentPart,
    /// The one given character.
    Only(char),
    /// Every character but the given one.
    Except(char),
    /// The two given characters.
    Either(char, char),
}

impl CharClass {
    /// Whether `c` belongs to the class.
    pub open spec fn holds(self, c: char) -> bool {
        match self {
            CharClass::Space => white_space(c),
            CharClass::NumberPart => is_digit(c) || c == '.',
            CharClass::IdentPart => alphanumeric(c) || c == '_' || c == '.',
            CharClass::Only(x) => c == x,
            CharClass::Except(x) => c != x,
            CharClass::Either(x, y) => c == x || c == y,
        }
    }

    /// Tests whether `c` belongs to the class.
    pub fn test(self, c: char) -> (b: bool)
        ensures
            b == self.holds(c),
    {
        match self {
            CharClass::Space => c.is_whitespace(),
            CharClass::NumberPart => ('0' <= c && c <= '9') || c == '.',
            CharClass::IdentPart => c.is_alphanumeric() || c == '_' || c == '.',
            CharClass::Only(x) => c == x,
            CharClass::Except(x) => c != x,
            CharClass::Either(x, y) => c == x || c == y,
        }
    }
}

/// The end of the longest run of characters of `class` that starts at `from`:
/// the first index at or after `from` whose character is outside the class,
/// or the length of `s` if there is none. Outside `0..s.len()` it is `from`.
pub open spec fn run_end(s: Seq<char>, from: int, class: CharClass) -> int
    decreases s.len() - from,
{
    if 0 <= from < s.len() && class.holds(s[from]) {
        run_end(s, from + 1, class)
    } else {
        from
    }
}

/// The start of the longest run of characters of `class` that ends just
/// before `to`. Outside `1..=s.len()` it is `to`.
pub open spec fn run_start(s: Seq<char>, to: int, class: CharClass) -> int
    decreases to,
{
    if 0 < to <= s.len() && class.holds(s[to - 1]) {
        run_start(s, to - 1, class)
    } else {
        to
    }
}

/// `s` without the characters of `class` at its two ends.
pub open spec fn stripped(s: Seq<char>, class: CharClass) -> Seq<char> {
    let a = run_end(s, 0, class);
    let b = run_start(s, s.len() as int, class);
    if a < b {
        s.subrange(a, b)
    } else {
        Seq::empty()
    }
}

/// How often `c` occurs in `s`.
pub open spec fn occurrences(s: Seq<char>, c: char) -> nat
    decreases s.len(),
{
    if s.len() == 0 {
        0
    } else {
        occurrences(s.drop_last(), c) + if s.last() == c {
            1nat
        } else {
            0nat
        }
    }
}

/// A character occurs in a text as often as in its two parts together.
pub proof fn lemma_occurrences_concat(a: Seq<char>, b: Seq<char>, c: char)
    ensures
        occurrences(a + b, c) == occurrences(a, c) + occurrences(b, c),
    decreases b.len(),
{
    if b.len() > 0 {
        assert((a + b).drop_last() =~= a + b.drop_last());
        lemma_occurrences_concat(a, b.drop_last(), c);
    }
}

/// A character that differs from every element of `s` does not occur in it.
pub proof fn lemma_absent(s: Seq<char>, c: char)
    requires
        forall|i: int| 0 <= i < s.len() ==> s[i] != c,
    ensures
        occurrences(s, c) == 0,
    decreases s.len(),
{
    if s.len() > 0 {
        assert(s.last() != c);
        assert forall|i: int| 0 <= i < s.drop_last().len() implies s.drop_last()[i] != c by {
            assert(s.drop_last()[i] == s[i]);
        }
        lemma_absent(s.drop_last(), c);
    }
}

/// A character that does not occur in `s` differs from every element of it.
pub proof fn lemma_present_nowhere(s: Seq<char>, c: char)
    requires
        occurrences(s, c) == 0,
    ensures
        forall|i: int| 0 <= i < s.len() ==> s[i] != c,
    decreases s.len(),
{
    if s.len() > 0 {
        lemma_present_nowhere(s.drop_last(), c);
        assert forall|i: int| 0 <= i < s.len() implies s[i] != c by {
            if i < s.len() - 1 {
                assert(s.drop_last()[i] == s[i]);
            }
        }
    }
}

/// [`run_end`] stays inside the text, everything before it from `from` on is
/// in the class, and the character at it, if there is one, is not.
pub proof fn lemma_run_end(s: Seq<char>, from: int, class: CharClass)
    requires
        0 <= from <= s.len(),
    ensures
        from <= run_end(s, from, class) <= s.len(),
        forall|i: int| from <= i < run_end(s, from, class) ==> class.holds(#[trigger] s[i]),
        run_end(s, from, class) < s.len() ==> !class.holds(s[run_end(s, from, class)]),
    decreases s.len() - from,
{
    if from < s.len() && class.holds(s[from]) {
        lemma_run_end(s, from + 1, class);
    }
}

/// An index with the three properties of [`lemma_run_end`] is [`run_end`].
pub proof fn lemma_run_end_unique(s: Seq<char>, from: int, class: CharClass, end: int)
    requires
        0 <= from <= end <= s.len(),
        forall|i: int| from <= i < end ==> class.holds(#[trigger] s[i]),
        end < s.len() ==> !class.holds(s[end]),
    ensures
        run_end(s, from, class) == end,
    decreases end - from,
{
    if from < end {
        lemma_run_end_unique(s, from + 1, class, end);
    }
}

/// A text in which `c` occurs holds `c` at the end of the run of other
/// characters that it starts with.
pub proof fn lemma_first_occurrence(s: Seq<char>, c: char)
    requires
        occurrences(s, c) > 0,
    ensures
        0 <= run_end(s, 0, CharClass::Except(c)) < s.len(),
        s[run_end(s, 0, CharClass::Except(c))] == c,
{
    lemma_run_end(s, 0, CharClass::Except(c));
    if run_end(s, 0, CharClass::Except(c)) == s.len() {
        lemma_absent(s, c);
    }
}

/// [`run_start`] stays inside the text, everything from it up to `to` is in
/// the class, and the character before it, if there is one, is not.
pub proof fn lemma_run_start(s: Seq<char>, to: int, class: CharClass)
    requires
        0 <= to <= s.len(),
    ensures
        0 <= run_start(s, to, class) <= to,
        forall|i: int| run_start(s, to, class) <= i < to ==> class.holds(#[trigger] s[i]),
        0 < run_start(s, to, class) ==> !class.holds(s[run_start(s, to, class) - 1]),
    decreases to,
{
    if 0 < to && class.holds(s[to - 1]) {
        lemma_run_start(s, to - 1, class);
    }
}

/// An index with the three properties of [`lemma_run_start`] is
/// [`run_start`].
pub proof fn lemma_run_start_unique(s: Seq<char>, to: int, class: CharClass, start: int)
    requires
        0 <= start <= to <= s.len(),
        forall|i: int| start <= i < to ==> class.holds(#[trigger] s[i]),
        0 < start ==> !class.holds(s[start - 1]),
    ensures
        run_start(s, to, class) == start,
    decreases to - start,
{
    if start < to {
        lemma_run_start_unique(s, to - 1, class, start);
    }
}

/// Whether everything in `s` before index `a` and from index `b` on is of
/// `class`.
pub open spec fn framed_by(s: Seq<char>, class: CharClass, a: int, b: int) -> bool {
    &&& 0 <= a <= b <= s.len()
    &&& forall|i: int| 0 <= i < a ==> class.holds(#[trigger] s[i])
    &&& forall|i: int| b <= i < s.len() ==> class.holds(#[trigger] s[i])
}

/// What [`stripped`] keeps is a piece of the text that neither starts nor
/// ends with a character of the class, and what stands before and behind it
/// is of the class.
pub proof fn lemma_stripped_ends(s: Seq<char>, class: CharClass)
    ensures
        stripped(s, class).len() > 0 ==> !class.holds(stripped(s, class).first()) && !class.holds(
            stripped(s, class).last(),
        ),
        exists|a: int, b: int| #[trigger]
            framed_by(s, class, a, b) && stripped(s, class) == s.subrange(a, b),
{
    let a = run_end(s, 0, class);
    let b = run_start(s, s.len() as int, class);
    lemma_run_end(s, 0, class);
    lemma_run_start(s, s.len() as int, class);
    if a < b {
        assert(framed_by(s, class, a, b));
    } else {
        // Every character is of the class: nothing is kept.
        let n = s.len() as int;
        assert(framed_by(s, class, n, n) && stripped(s, class) == s.subrange(n, n));
    }
}

/// The characters of `s`, one element each.
pub fn chars_of(s: &str) -> (v: Vec<char>)
    ensures
        v@ == s@,
{
    let mut v: Vec<char> = Vec::new();
    for c in it: s.chars()
        invariant
            v@ == it.seq().take(it.index()),
            it.seq() == s@,
    {
        v.push(c);
    }
    v
}

/// Appends the characters `text[from..to]` to `out`.
pub fn push_range(out: &mut String, text: &Vec<char>, from: usize, to: usize)
    requires
        from <= to <= text.len(),
    ensures
        final(out)@ == old(out)@ + text@.subrange(from as int, to as int),
{
    let mut i: usize = from;
    while i < to
        invariant
            from <= i <= to <= text.len(),
            out@ == old(out)@ + text@.subrange(from as int, i as int),
        decreases to - i,
    {
        out.push(text[i]);
        i += 1;
    }
}

/// The characters `text[from..to]` as a string.
pub fn string_of(text: &Vec<char>, from: usize, to: usize) -> (s: String)
    requires
        from <= to <= text.len(),
    ensures
        s@ == text@.subrange(from as int, to as int),
{
    let mut s = String::new();
    push_range(&mut s, text, from, to);
    s
}

/// Tests whether `text[from..to]` spells `word`.
pub fn range_is(text: &Vec<char>, from: usize, to: usize, word: &str) -> (b: bool)
    requires
        from <= to <= text.len(),
    ensures
        b == (text@.subrange(from as int, to as int) == word@),
{
    let letters = chars_of(word);
    if letters.len() != to - from {
        return false;
    }
    let ghost piece = text@.subrange(from as int, to as int);
    let mut i: usize = 0;
    while i < letters.len()
        invariant
            from <= to <= text.len(),
            letters.len() == to - from,
            letters@ == word@,
            piece == text@.subrange(from as int, to as int),
            i <= letters.len(),
            forall|j: int| 0 <= j < i ==> piece[j] == letters@[j],
        decreases letters.len() - i,
    {
        if text[from + i] != letters[i] {
            return false;
        }
        i += 1;
    }
    assert(piece =~= letters@);
    true
}

/// Tests whether two strings hold the same characters.
pub fn same_text(a: &str, b: &str) -> (same: bool)
    ensures
        same == (a@ == b@),
{
    let left = chars_of(a);
    assert(left@.subrange(0, left.len() as int) == left@);
    range_is(&left, 0, left.len(), b)
}

/// The end of the run of `class` that starts at `from`.
pub fn scan_forward(text: &Vec<char>, from: usize, class: CharClass) -> (end: usize)
    ensures
        end == run_end(text@, from as int, class),
        from <= text.len() ==> from <= end <= text.len(),
{
    if from >= text.len() {
        return from;
    }
    let mut i: usize = from;
    while i < text.len() && class.test(text[i])
        invariant
            from <= i <= text.len(),
            forall|j: int| from <= j < i ==> class.holds(#[trigger] text@[j]),
        decreases text.len() - i,
    {
        i += 1;
    }
    proof {
        lemma_run_end_unique(text@, from as int, class, i as int);
    }
    i
}

/// The start of the run of `class` that ends just before `to`.
pub fn scan_backward(text: &Vec<char>, to: usize, class: CharClass) -> (start: usize)
    ensures
        start == run_start(text@, to as int, class),
        start <= to,
{
    if to > text.len() {
        return to;
    }
    let mut i: usize = to;
    while i > 0 && class.test(text[i - 1])
        invariant
            0 <= i <= to <= text.len(),
            forall|j: int| i <= j < to ==> class.holds(#[trigger] text@[j]),
        decreases i,
    {
        i -= 1;
    }
    proof {
        lemma_run_start_unique(text@, to as int, class, i as int);
    }
    i
}

/// The bounds of `text` without the characters of `class` at its two ends:
/// `stripped(text@, class)` is `text[a..b]`.
pub fn strip_bounds(text: &Vec<char>, class: CharClass) -> (bounds: (usize, usize))
    ensures
        bounds.0 <= bounds.1 <= text.len(),
        text@.subrange(bounds.0 as int, bounds.1 as int) == stripped(text@, class),
{
    let a = scan_forward(text, 0, class);
    let b = scan_backward(text, text.len(), class);
    if a < b {
        (a, b)
    } else {
        (0, 0)
    }
}

/// Counts how often `c` occurs in `text`.
pub fn count_char(text: &Vec<char>, c: char) -> (n: usize)
    ensures
        n == occurrences(text@, c),
{
    let mut n: usize = 0;
    let mut i: usize = 0;
    while i < text.len()
        invariant
            i <= text.len(),
            n <= i,
            n == occurrences(text@.take(i as int), c),
        decreases text.len() - i,
    {
        assert(text@.take(i + 1).drop_last() == text@.take(i as int));
        if text[i] == c {
            n += 1;
        }
        i += 1;
    }
    assert(text@.take(text.len() as int) == text@);
    n
}

/// The pieces of `s` between its commas from index `start` on: one more
/// than there are commas, empty ones included.
pub open spec fn pieces_from(s: Seq<char>, start: int) -> Seq<Seq<char>>
    decreases s.len() - start,
{
    if start < 0 || start > s.len() {
        Seq::empty()
    } else {
        proof {
            lemma_run_end(s, start, CharClass::Except(','));
        }
        let end = run_end(s, start, CharClass::Except(','));
        if end >= s.len() {
            seq![s.subrange(start, s.len() as int)]
        } else {
            seq![s.subrange(start, end)] + pieces_from(s, end + 1)
        }
    }
}

/// The pieces of `s` between its commas.
pub open spec fn pieces(s: Seq<char>) -> Seq<Seq<char>> {
    pieces_from(s, 0)
}

/// The elements of `parts` in a row, with `sep` between each two.
pub open spec fn joined(parts: Seq<Seq<char>>, sep: Seq<char>) -> Seq<char>
    decreases parts.len(),
{
    if parts.len() == 0 {
        Seq::empty()
    } else if parts.len() == 1 {
        parts[0]
    } else {
        joined(parts.drop_last(), sep) + sep + parts.last()
    }
}

/// `text` without the white space at its two ends.
pub fn trim(text: &str) -> (s: String)
    ensures
        s@ == stripped(text@, CharClass::Space),
{
    let chars = chars_of(text);
    let (a, b) = strip_bounds(&chars, CharClass::Space);
    string_of(&chars, a, b)
}

/// Cuts `text` at its commas.
pub fn split_commas(text: &str) -> (parts: Vec<String>)
    ensures
        parts.deep_view() == pieces(text@),
{
    let chars = chars_of(text);
    let mut parts: Vec<String> = Vec::new();
    let mut start: usize = 0;
    loop
        invariant_except_break
            start <= chars.len(),
            parts.deep_view() + pieces_from(chars@, start as int) == pieces(chars@),
        invariant
            chars@ == text@,
        ensures
            parts.deep_view() == pieces(text@),
        decreases chars.len() - start,
    {
        let end = scan_forward(&chars, start, CharClass::Except(','));
        if end >= chars.len() {
            parts.push(string_of(&chars, start, chars.len()));
            break ;
        }
        parts.push(string_of(&chars, start, end));
        start = end + 1;
    }
    parts
}

/// Puts `parts` in a row, with `sep` between each two.
pub fn join(parts: &Vec<String>, sep: &str) -> (s: String)
    ensures
        s@ == joined(parts.deep_view(), sep@),
{
    let mut s = String::new();
    let mut i: usize = 0;
    while i < parts.len()
        invariant
            i <= parts.len(),
            s@ == joined(parts.deep_view().take(i as int), sep@),
        decreases parts.len() - i,
    {
        proof {
            let next = parts.deep_view().take(i + 1);
            assert(next.drop_last() =~= parts.deep_view().take(i as int));
        }
        if i > 0 {
            s.append(sep);
        }
        s.append(parts[i].as_str());
        i += 1;
    }
    proof {
        assert(parts.deep_view().take(parts.len() as int) =~= parts.deep_view());
    }
    s
}

/// The decimal digit for `d`.
pub open spec fn digit(d: nat) -> char {
    if d == 0 {
        '0'
    } else if d == 1 {
        '1'
    } else if d == 2 {
        '2'
    } else if d == 3 {
        '3'
    } else if d == 4 {
        '4'
    } else if d == 5 {
        '5'
    } else if d == 6 {
        '6'
    } else if d == 7 {
        '7'
    } else if d == 8 {
        '8'
    } else {
        '9'
    }
}

/// `n` in decimal digits, without leading zeros.
pub open spec fn decimal(n: nat) -> Seq<char>
    decreases n,
{
    if n < 10 {
        seq![digit(n)]
    } else {
        decimal(n / 10).push(digit(n % 10))
    }
}

/// `n` in decimal digits, with a minus sign before a negative number.
pub open spec fn signed_decimal(n: int) -> Seq<char> {
    if n < 0 {
        seq!['-'] + decimal((-n) as nat)
    } else {
        decimal(n as nat)
    }
}

/// The decimal digit for `d`.
fn digit_char(d: u64) -> (c: char)
    requires
        d < 10,
    ensures
        c == digit(d as nat),
{
    if d == 0 {
        '0'
    } else if d == 1 {
        '1'
    } else if d == 2 {
        '2'
    } else if d == 3 {
        '3'
    } else if d == 4 {
        '4'
    } else if d == 5 {
        '5'
    } else if d == 6 {
        '6'
    } else if d == 7 {
        '7'
    } else if d == 8 {
        '8'
    } else {
        '9'
    }
}

/// Writes `n` in decimal digits.
pub fn decimal_text(n: u64) -> (s: String)
    ensures
        s@ == decimal(n as nat),
    decreases n,
{
    if n < 10 {
        let mut s = String::new();
        s.push(digit_char(n));
        s
    } else {
        let mut s = decimal_text(n / 10);
        s.push(digit_char(n % 10));
        s
    }
}

/// Writes `n` in decimal digits, with a minus sign before a negative number.
pub fn signed_decimal_text(n: i64) -> (s: String)
    ensures
        s@ == signed_decimal(n as int),
{
    if n < 0 {
        let magnitude: u64 = ((-(n + 1)) as u64) + 1;
        let mut s = "-".to_owned();
        s.append(decimal_text(magnitude).as_str());
        proof {
            reveal_strlit("-");
        }
        s
    } else {
        decimal_text(n as u64)
    }
}

} // verus!
