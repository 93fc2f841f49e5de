use vstd::prelude::*;

verus! {

/// Whether a character beyond ASCII has the Unicode property `Alphabetic`.
pub uninterp spec fn alphabetic_beyond_ascii(c: char) -> bool;

/// `char::is_alphabetic` of the standard library: whether the character has the
/// Unicode property `Alphabetic`, which depends on the character alone. Of the
/// ASCII characters the letters have it and no other.
pub assume_specification[ char::is_alphabetic ](c: char) -> (b: bool)
    ensures
        b == (if c <= '\x7f' {
            is_ascii_letter(c)
        } else {
            alphabetic_beyond_ascii(c)
        }),
;

/// The letters `a` to `z` and `A` to `Z`.
pub open spec fn is_ascii_letter(c: char) -> bool {
    ('a' <= c && c <= 'z') || ('A' <= c && c <= 'Z')
}

/// Whether a character has the Unicode property `Alphabetic`.
pub open spec fn is_alphabetic(c: char) -> bool {
    if c <= '\x7f' {
        is_ascii_letter(c)
    } else {
        alphabetic_beyond_ascii(c)
    }
}

/// `String::push` of the standard library: the character is appended to the
/// string and nothing else changes.
pub assume_specification[ std::string::String::push ](s: &mut std::string::String, c: char)
    ensures
        final(s)@ == old(s)@.push(c),
;

/// The classes of characters that the lexical rules take runs of.
#[derive(Clone, Copy, Debug, PartialEq, Eq)]
pub enum CharClass {
    /// Space, tab, carriage return and line feed.
    Space,
    /// The decimal digits `0` to `9`.
    Digit,
    /// Alphabetic characters and the underscore.
    Name,
    /// Everything but the single quote.
    Quoted,
}

/// Space, tab, carriage return and line feed.
pub open spec fn is_space(c: char) -> bool {
    c == ' ' || c == '\t' || c == '\r' || c == '\n'
}

/// The decimal digits `0` to `9`.
pub open spec fn is_digit(c: char) -> bool {
    '0' <= c && c <= '9'
}

/// What a name is made of: alphabetic characters and the underscore.
pub open spec fn is_name_char(c: char) -> bool {
    is_alphabetic(c) || c == '_'
}

/// Whether a character is of a class.
pub open spec fn in_class(class: CharClass, c: char) -> bool {
    match class {
        CharClass::Space => is_space(c),
        CharClass::Digit => is_digit(c),
        CharClass::Name => is_name_char(c),
        CharClass::Quoted => c != '\'',
    }
}

/// The character with an upper-case ASCII letter replaced by its lower-case
/// form, as a code point.
pub open spec fn fold_case(c: char) -> int {
    if 'A' <= c && c <= 'Z' {
        c as int + 32
    } else {
        c as int
    }
}

/// Whether two characters are equal but for the case of an ASCII letter.
pub open spec fn same_letter(a: char, b: char) -> bool {
    fold_case(a) == fold_case(b)
}

/// The end of the longest run of characters of `class` that starts at `pos`.
pub open spec fn run_end(s: Seq<char>, pos: int, class: CharClass) -> int
    decreases s.len() - pos,
{
    if 0 <= pos < s.len() && in_class(class, s[pos]) {
        run_end(s, pos + 1, class)
    } else {
        pos
    }
}

/// The number that a decimal digit stands for.
pub open spec fn digit_value(c: char) -> int {
    c as int - '0' as int
}

/// The number that a sequence of decimal digits spells, most significant
/// digit first.
pub open spec fn decimal(digits: Seq<char>) -> int
    decreases digits.len(),
{
    if digits.len() == 0 {
        0
    } else {
        decimal(digits.drop_last()) * 10 + digit_value(digits.last())
    }
}

/// A floating-point literal: an optional `-`, one or more digits, a `.`, and
/// one or more digits.
pub open spec fn is_float_text(text: Seq<char>) -> bool {
    let start = if text.len() > 0 && text[0] == '-' { 1int } else { 0int };
    let dot = run_end(text, start, CharClass::Digit);
    &&& start < dot < text.len()
    &&& text[dot] == '.'
    &&& dot + 1 < text.len()
    &&& run_end(text, dot + 1, CharClass::Digit) == text.len()
}

/// A name: one or more alphabetic characters or underscores.
pub open spec fn is_name(text: Seq<char>) -> bool {
    &&& text.len() > 0
    &&& forall|i: int| 0 <= i < text.len() ==> is_name_char(#[trigger] text[i])
}

/// A run ends between its start and the end of the text.
pub proof fn lemma_run_bounds(s: Seq<char>, pos: int, class: CharClass)
    requires
        0 <= pos <= s.len(),
    ensures
        pos <= run_end(s, pos, class) <= s.len(),
    decreases s.len() - pos,
{
    if pos < s.len() && in_class(class, s[pos]) {
        lemma_run_bounds(s, pos + 1, class);
    }
}

/// Every character of a run is of its class, and the character after it, if
/// there is one, is not.
pub proof fn lemma_run_content(s: Seq<char>, pos: int, class: CharClass)
    requires
        0 <= pos <= s.len(),
    ensures
        forall|i: int| pos <= i < run_end(s, pos, class) ==> in_class(class, #[trigger] s[i]),
        run_end(s, pos, class) < s.len() ==> !in_class(class, s[run_end(s, pos, class)]),
    decreases s.len() - pos,
{
    if pos < s.len() && in_class(class, s[pos]) {
        lemma_run_content(s, pos + 1, class);
    }
}

/// A position is the end of the run from `pos` when every character between
/// the two is of the class and the character at the position is not.
pub proof fn lemma_run_found(s: Seq<char>, pos: int, end: int, class: CharClass)
    requires
        0 <= pos <= end <= s.len(),
        forall|i: int| pos <= i < end ==> in_class(class, #[trigger] s[i]),
        end < s.len() ==> !in_class(class, s[end]),
    ensures
        run_end(s, pos, class) == end,
    decreases end - pos,
{
    if pos < end {
        lemma_run_found(s, pos + 1, end, class);
    }
}

/// The number that digits spell grows with every digit that is appended.
pub proof fn lemma_decimal_grows(digits: Seq<char>, n: int)
    requires
        0 <= n <= digits.len(),
        forall|i: int| 0 <= i < digits.len() ==> is_digit(#[trigger] digits[i]),
    ensures
        0 <= decimal(digits.take(n)) <= decimal(digits),
    decreases digits.len() - n,
{
    lemma_decimal_nonnegative(digits.take(n));
    if n < digits.len() {
        lemma_decimal_grows(digits, n + 1);
        assert(digits.take(n + 1).drop_last() =~= digits.take(n));
    } else {
        assert(digits.take(n) =~= digits);
    }
}

/// Digits spell a number that is not negative.
pub proof fn lemma_decimal_nonnegative(digits: Seq<char>)
    requires
        forall|i: int| 0 <= i < digits.len() ==> is_digit(#[trigger] digits[i]),
    ensures
        0 <= decimal(digits),
    decreases digits.len(),
{
    if digits.len() > 0 {
        lemma_decimal_nonnegative(digits.drop_last());
    }
}

/// Whether a character is of a class.
pub fn char_in(class: CharClass, c: char) -> (b: bool)
    ensures
        b == in_class(class, c),
{
    match class {
        CharClass::Space => c == ' ' || c == '\t' || c == '\r' || c == '\n',
        CharClass::Digit => '0' <= c && c <= '9',
        CharClass::Name => c.is_alphabetic() || c == '_',
        CharClass::Quoted => c != '\'',
    }
}

/// Compares two characters without regard to the case of ASCII letters.
pub fn letters_match(a: char, b: char) -> (r: bool)
    ensures
        r == same_letter(a, b),
{
    let x: u32 = if 'A' <= a && a <= 'Z' { a as u32 + 32 } else { a as u32 };
    let y: u32 = if 'A' <= b && b <= 'Z' { b as u32 + 32 } else { b as u32 };
    x == y
}

/// Finds the end of the run of characters of `class` that starts at `pos`.
pub fn scan(input: &[char], pos: usize, class: CharClass) -> (end: usize)
    requires
        pos <= input@.len(),
    ensures
        end as int == run_end(input@, pos as int, class),
        pos <= end <= input@.len(),
{
    let mut end: usize = pos;
    while end < input.len() && char_in(class, input[end])
        invariant
            pos <= end <= input@.len(),
            run_end(input@, pos as int, class) == run_end(input@, end as int, class),
        decreases input@.len() - end,
    {
        end = end + 1;
    }
    end
}

/// The characters of a string slice.
pub fn to_chars(s: &str) -> (v: Vec<char>)
    ensures
        v@ == s@,
{
    let mut v: Vec<char> = Vec::new();
    for c in it: s.chars()
        invariant
            v@ == it.seq().take(it.index()),
            it.seq() == s@,
    {
        v.push(c);
    }
    v
}

/// The string made of the characters from `from` up to `to`.
pub fn collect(input: &[char], from: usize, to: usize) -> (r: String)
    requires
        from <= to <= input@.len(),
    ensures
        r@ == input@.subrange(from as int, to as int),
{
    let mut r = String::new();
    let mut i: usize = from;
    while i < to
        invariant
            from <= i <= to <= input@.len(),
            r@ == input@.subrange(from as int, i as int),
        decreases to - i,
    {
        r.push(input[i]);
        i = i + 1;
        assert(r@ =~= input@.subrange(from as int, i as int));
    }
    r
}

/// A run goes at least as far as the characters of its class go.
pub proof fn lemma_run_covers(s: Seq<char>, pos: int, upto: int, class: CharClass)
    requires
        0 <= pos <= upto <= s.len(),
        forall|i: int| pos <= i < upto ==> in_class(class, #[trigger] s[i]),
    ensures
        run_end(s, pos, class) >= upto,
    decreases upto - pos,
{
    if pos < upto {
        assert(in_class(class, s[pos]));
        lemma_run_covers(s, pos + 1, upto, class);
    } else {
        lemma_run_bounds(s, pos, class);
    }
}

} // verus!
