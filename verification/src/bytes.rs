//! Classes of bytes, runs of one class at the start of an input, and the
//! scanners of the `nom` crate that find such runs.

use vstd::prelude::*;

verus! {

/// The classes of bytes that the grammar scans for.
#[derive(Clone, Copy, Debug, PartialEq, Eq)]
pub enum ByteClass {
    /// ASCII decimal digits.
    Digit,
    /// ASCII letters and decimal digits.
    Alphanumeric,
    /// The space and the horizontal tab.
    Space,
}

pub open spec fn is_digit(b: u8) -> bool {
    0x30 <= b <= 0x39
}

pub open spec fn is_alphabetic(b: u8) -> bool {
    (0x41 <= b <= 0x5A) || (0x61 <= b <= 0x7A)
}

pub open spec fn is_alphanumeric(b: u8) -> bool {
    is_alphabetic(b) || is_digit(b)
}

pub open spec fn is_blank(b: u8) -> bool {
    b == 0x20 || b == 0x09
}

impl ByteClass {
    /// Whether `b` belongs to the class.
    pub open spec fn contains(self, b: u8) -> bool {
        match self {
            ByteClass::Digit => is_digit(b),
            ByteClass::Alphanumeric => is_alphanumeric(b),
            ByteClass::Space => is_blank(b),
        }
    }
}

/// The number of bytes at the start of `s` that belong to `class`.
pub open spec fn run_len(s: Seq<u8>, class: ByteClass) -> nat
    decreases s.len(),
{
    if s.len() > 0 && class.contains(s[0]) {
        1 + run_len(s.skip(1), class)
    } else {
        0
    }
}

/// `n` bytes of `class` start `s`, and the byte after them, if there is
/// one, is of another kind.
pub open spec fn is_run(s: Seq<u8>, class: ByteClass, n: nat) -> bool {
    &&& n <= s.len()
    &&& forall|i: int| 0 <= i < n ==> class.contains(#[trigger] s[i])
    &&& n < s.len() ==> !class.contains(s[n as int])
}

/// `run_len` is the one length that `is_run` holds of.
pub proof fn lemma_run_len(s: Seq<u8>, class: ByteClass)
    ensures
        is_run(s, class, run_len(s, class)),
        forall|n: nat| is_run(s, class, n) ==> n == run_len(s, class),
    decreases s.len(),
{
    if s.len() > 0 && class.contains(s[0]) {
        let t = s.skip(1);
        lemma_run_len(t, class);
        let m = run_len(t, class);
        assert forall|i: int| 0 <= i < m + 1 implies class.contains(#[trigger] s[i]) by {
            if i > 0 {
                assert(s[i] == t[i - 1]);
            }
        }
        if m + 1 < s.len() {
            assert(s[m as int + 1] == t[m as int]);
        }
        assert forall|n: nat| is_run(s, class, n) implies n == m + 1 by {
            assert(n > 0);
            let k = (n - 1) as nat;
            assert forall|i: int| 0 <= i < k implies class.contains(#[trigger] t[i]) by {
                assert(t[i] == s[i + 1]);
            }
            if k < t.len() {
                assert(t[k as int] == s[n as int]);
            }
            assert(is_run(t, class, k));
        }
    } else {
        assert forall|n: nat| is_run(s, class, n) implies n == 0 by {
            if n > 0 {
                assert(class.contains(s[0]));
            }
        }
    }
}

/// What a scanner reports: the longest run of a class at the start of the
/// input, if there is one. A scanner asks for more where the input is
/// empty; the grammar reads complete lines and takes that for a failure.
pub enum Scan<'a> {
    /// The input starts with `run`, and `rest` follows it.
    Done { rest: &'a [u8], run: &'a [u8] },
    /// The first byte is not of the class.
    Error,
    /// The input is empty.
    Incomplete,
}

/// What a scanner for `class` reports on `input`.
pub open spec fn scans(input: Seq<u8>, class: ByteClass, r: Scan) -> bool {
    if input.len() == 0 {
        r is Incomplete
    } else if !class.contains(input[0]) {
        r is Error
    } else {
        &&& r matches Scan::Done { rest, run }
        &&& run@ == input.take(run_len(input, class) as int)
        &&& rest@ == input.skip(run_len(input, class) as int)
    }
}

/// `nom::digit` on a slice of bytes: it asks for more on an empty input,
/// fails where the first byte is no decimal digit, and otherwise splits the
/// input behind its leading decimal digits.
#[verifier::external_body]
pub(crate) fn digit<'a>(input: &'a [u8]) -> (r: Scan<'a>)
    ensures
        scans(input@, ByteClass::Digit, r),
{
    match nom::digit(input) {
        nom::IResult::Done(rest, run) => Scan::Done { rest, run },
        nom::IResult::Error(_) => Scan::Error,
        nom::IResult::Incomplete(_) => Scan::Incomplete,
    }
}

/// `nom::alphanumeric` on a slice of bytes: it asks for more on an empty
/// input, fails where the first byte is no ASCII letter or digit, and
/// otherwise splits the input behind its leading letters and digits.
#[verifier::external_body]
pub(crate) fn alphanumeric<'a>(input: &'a [u8]) -> (r: Scan<'a>)
    ensures
        scans(input@, ByteClass::Alphanumeric, r),
{
    match nom::alphanumeric(input) {
        nom::IResult::Done(rest, run) => Scan::Done { rest, run },
        nom::IResult::Error(_) => Scan::Error,
        nom::IResult::Incomplete(_) => Scan::Incomplete,
    }
}

/// `nom::space` on a slice of bytes: it asks for more on an empty input,
/// fails where the first byte is neither a space nor a tab, and otherwise
/// splits the input behind its leading spaces and tabs.
#[verifier::external_body]
pub(crate) fn space<'a>(input: &'a [u8]) -> (r: Scan<'a>)
    ensures
        scans(input@, ByteClass::Space, r),
{
    match nom::space(input) {
        nom::IResult::Done(rest, run) => Scan::Done { rest, run },
        nom::IResult::Error(_) => Scan::Error,
        nom::IResult::Incomplete(_) => Scan::Incomplete,
    }
}

/// `nom::is_space`: true of the space and of the horizontal tab only.
pub assume_specification[ nom::is_space ](chr: u8) -> (r: bool)
    ensures
        r == (chr == 0x20 || chr == 0x09),
;

/// The input behind its first `n` bytes.
pub fn skip<'a>(input: &'a [u8], n: usize) -> (rest: &'a [u8])
    requires
        n <= input@.len(),
    ensures
        rest@ == input@.skip(n as int),
{
    &input[n..input.len()]
}

/// The bytes of `s` read as characters, one for one.
pub open spec fn ascii_chars(s: Seq<u8>) -> Seq<char> {
    Seq::new(s.len(), |i: int| s[i] as char)
}

} // verus!
