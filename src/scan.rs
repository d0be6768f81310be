use vstd::prelude::*;

verus! {

pub const DIGIT_ZERO: u8 = 48;
pub const DIGIT_NINE: u8 = 57;
pub const UPPER_A: u8 = 65;
pub const LOWER_Z: u8 = 122;
pub const SPACE: u8 = 32;
pub const DOT: u8 = 46;
pub const SLASH: u8 = 47;
pub const LOWER_C: u8 = 99;
pub const LOWER_X: u8 = 120;
pub const COLON: u8 = 58;
pub const QUOTE: u8 = 34;
pub const OPEN_BRACE: u8 = 123;
pub const TILDE: u8 = 126;
pub const HASH: u8 = 35;
pub const ASTERISK: u8 = 42;
pub const GREATER: u8 = 62;

/// The byte classes of the scanned texts.
#[derive(Clone, Copy, Debug, PartialEq, Eq, Structural)]
pub enum ByteClass {
    /// `A` through `z` in ASCII order, and the decimal digits.
    NameByte,
    /// A decimal digit.
    Digit,
    /// A decimal digit or a dot.
    NumberByte,
    /// What may stand between a template tag's opening braces and its kind:
    /// space, tab, line feed, carriage return, `~`, `#`, `{`.
    TagFiller,
}

pub open spec fn is_digit(b: u8) -> bool {
    DIGIT_ZERO <= b <= DIGIT_NINE
}

/// ASCII whitespace: space, tab, line feed, vertical tab, form feed, carriage return.
pub open spec fn is_space(b: u8) -> bool {
    b == SPACE || (9 <= b <= 13)
}

/// The length of the whitespace character that starts at `i`, in UTF-8 bytes,
/// or zero: ASCII whitespace, and the other characters of Unicode's White_Space
/// property (U+0085, U+00A0, U+1680, U+2000 to U+200A, U+2028, U+2029, U+202F,
/// U+205F, U+3000).
pub open spec fn space_len(t: Seq<u8>, i: int) -> int {
    if 0 <= i < t.len() && is_space(t[i]) {
        1
    } else if byte_at(t, i, 0xC2) && (byte_at(t, i + 1, 0x85) || byte_at(t, i + 1, 0xA0)) {
        2
    } else if byte_at(t, i, 0xE1) && byte_at(t, i + 1, 0x9A) && byte_at(t, i + 2, 0x80) {
        3
    } else if byte_at(t, i, 0xE2) && byte_at(t, i + 1, 0x80) && 0 <= i + 2 < t.len() && ((0x80
        <= t[i + 2] <= 0x8A) || t[i + 2] == 0xA8 || t[i + 2] == 0xA9 || t[i + 2] == 0xAF) {
        3
    } else if byte_at(t, i, 0xE2) && byte_at(t, i + 1, 0x81) && byte_at(t, i + 2, 0x9F) {
        3
    } else if byte_at(t, i, 0xE3) && byte_at(t, i + 1, 0x80) && byte_at(t, i + 2, 0x80) {
        3
    } else {
        0
    }
}

pub fn space_len_exec(t: &[u8], i: usize) -> (r: usize)
    requires
        i <= t@.len(),
    ensures
        r as int == space_len(t@, i as int),
        i + r <= t@.len(),
{
    let n: usize = t.len();
    if i >= n {
        return 0;
    }
    let b = t[i];
    if b == SPACE || (9 <= b && b <= 13) {
        return 1;
    }
    if n - i < 2 {
        return 0;
    }
    let b1 = t[i + 1];
    if b == 0xC2 {
        return if b1 == 0x85 || b1 == 0xA0 { 2 } else { 0 };
    }
    if n - i < 3 {
        return 0;
    }
    let b2 = t[i + 2];
    if (b == 0xE1 && b1 == 0x9A && b2 == 0x80) || (b == 0xE2 && b1 == 0x80 && ((0x80 <= b2 && b2
        <= 0x8A) || b2 == 0xA8 || b2 == 0xA9 || b2 == 0xAF)) || (b == 0xE2 && b1 == 0x81 && b2
        == 0x9F) || (b == 0xE3 && b1 == 0x80 && b2 == 0x80) {
        3
    } else {
        0
    }
}

pub open spec fn in_class(c: ByteClass, b: u8) -> bool {
    match c {
        ByteClass::NameByte => (UPPER_A <= b <= LOWER_Z) || is_digit(b),
        ByteClass::Digit => is_digit(b),
        ByteClass::NumberByte => is_digit(b) || b == DOT,
        ByteClass::TagFiller => b == SPACE || b == 9 || b == 10 || b == 13 || b == TILDE || b == HASH
            || b == OPEN_BRACE,
    }
}

pub fn in_class_exec(c: ByteClass, b: u8) -> (r: bool)
    ensures
        r == in_class(c, b),
{
    match c {
        ByteClass::NameByte => (UPPER_A <= b && b <= LOWER_Z) || (DIGIT_ZERO <= b && b <= DIGIT_NINE),
        ByteClass::Digit => DIGIT_ZERO <= b && b <= DIGIT_NINE,
        ByteClass::NumberByte => (DIGIT_ZERO <= b && b <= DIGIT_NINE) || b == DOT,
        ByteClass::TagFiller => b == SPACE || b == 9 || b == 10 || b == 13 || b == TILDE || b == HASH
            || b == OPEN_BRACE,
    }
}

/// The end of the longest run of bytes of class `c` that starts at `i`.
pub open spec fn run_end(t: Seq<u8>, i: int, c: ByteClass) -> int
    decreases t.len() - i,
{
    if 0 <= i < t.len() && in_class(c, t[i]) {
        run_end(t, i + 1, c)
    } else {
        i
    }
}

pub fn run_end_exec(t: &[u8], i: usize, c: ByteClass) -> (r: usize)
    requires
        i <= t@.len(),
    ensures
        r as int == run_end(t@, i as int, c),
        i <= r <= t@.len(),
{
    let mut k: usize = i;
    while k < t.len() && in_class_exec(c, t[k])
        invariant
            i <= k <= t@.len(),
            run_end(t@, k as int, c) == run_end(t@, i as int, c),
        decreases t@.len() - k,
    {
        k = k + 1;
    }
    k
}

/// Whether byte `b` stands at position `i` of `t`.
pub open spec fn byte_at(t: Seq<u8>, i: int, b: u8) -> bool {
    0 <= i < t.len() && t[i] == b
}

pub fn byte_at_exec(t: &[u8], i: usize, b: u8) -> (r: bool)
    ensures
        r == byte_at(t@, i as int, b),
{
    i < t.len() && t[i] == b
}

/// A run of class `c` ends at the first byte outside the class.
pub proof fn lemma_run_end_stops(t: Seq<u8>, i: int, e: int, c: ByteClass)
    requires
        0 <= i <= e < t.len(),
        !in_class(c, t[e]),
    ensures
        run_end(t, i, c) <= e,
    decreases e - i,
{
    if i < e && in_class(c, t[i]) {
        lemma_run_end_stops(t, i + 1, e, c);
    }
}

/// Every byte before the end of a run belongs to its class.
pub proof fn lemma_run_members(t: Seq<u8>, i: int, j: int, c: ByteClass)
    requires
        0 <= i <= j < run_end(t, i, c),
    ensures
        in_class(c, t[j]),
    decreases j - i,
{
    if i < j {
        lemma_run_members(t, i + 1, j, c);
    }
}

} // verus!
