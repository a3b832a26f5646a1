//! Records of the system's user database: the name that a record starts
//! with.

use vstd::prelude::*;

verus! {

/// Whether `c` is white space: a character that Unicode classes as
/// `White_Space`.
pub open spec fn is_whitespace(c: char) -> bool {
    let v = c as u32;
    ||| 0x09 <= v <= 0x0d
    ||| v == 0x20
    ||| v == 0x85
    ||| v == 0xa0
    ||| v == 0x1680
    ||| 0x2000 <= v <= 0x200a
    ||| v == 0x2028
    ||| v == 0x2029
    ||| v == 0x202f
    ||| v == 0x205f
    ||| v == 0x3000
}

/// Whether `c` is white space.
pub fn char_is_whitespace(c: char) -> (r: bool)
    ensures
        r == is_whitespace(c),
{
    let v: u32 = c as u32;
    (0x09 <= v && v <= 0x0d) || v == 0x20 || v == 0x85 || v == 0xa0 || v == 0x1680 || (0x2000 <= v
        && v <= 0x200a) || v == 0x2028 || v == 0x2029 || v == 0x202f || v == 0x205f || v == 0x3000
}

/// The number of characters of `line` before its first `:`, or all of them
/// where it holds none.
pub open spec fn first_field_len(line: Seq<char>) -> nat
    decreases line.len(),
{
    if line.len() > 0 && line[0] != ':' {
        1 + first_field_len(line.skip(1))
    } else {
        0
    }
}

/// `s` without the white space that it starts with.
pub open spec fn trim_start(s: Seq<char>) -> Seq<char>
    decreases s.len(),
{
    if s.len() > 0 && is_whitespace(s[0]) {
        trim_start(s.skip(1))
    } else {
        s
    }
}

/// `s` without the white space that it ends with.
pub open spec fn trim_end(s: Seq<char>) -> Seq<char>
    decreases s.len(),
{
    if s.len() > 0 && is_whitespace(s.last()) {
        trim_end(s.drop_last())
    } else {
        s
    }
}

/// The name of the user that a record of the user database is about: what
/// stands before the first `:`, without the white space around it.
pub open spec fn spec_username_of_record(line: Seq<char>) -> Seq<char> {
    trim_end(trim_start(line.take(first_field_len(line) as int)))
}

proof fn lemma_first_field_len(line: Seq<char>, n: int)
    requires
        0 <= n <= line.len(),
        forall|i: int| 0 <= i < n ==> line[i] != ':',
        n < line.len() ==> line[n] == ':',
    ensures
        first_field_len(line) == n,
    decreases n,
{
    if n > 0 {
        let tail = line.skip(1);
        assert forall|i: int| 0 <= i < n - 1 implies tail[i] != ':' by {
            assert(tail[i] == line[i + 1]);
        }
        lemma_first_field_len(tail, n - 1);
    }
}

/// The name of the user that the record `line` is about.
pub fn username_of_record(line: &str) -> (name: String)
    ensures
        name@ == spec_username_of_record(line@),
{
    let len: usize = line.unicode_len();
    let mut end: usize = 0;
    while end < len && line.get_char(end) != ':'
        invariant
            end <= len,
            len == line@.len(),
            forall|i: int| 0 <= i < end ==> line@[i] != ':',
        decreases len - end,
    {
        end += 1;
    }
    proof {
        lemma_first_field_len(line@, end as int);
    }
    let ghost field = line@.take(end as int);
    let mut start: usize = 0;
    assert(field.skip(0) =~= field);
    while start < end && char_is_whitespace(line.get_char(start))
        invariant
            start <= end <= len,
            len == line@.len(),
            field == line@.take(end as int),
            trim_start(field) == trim_start(field.skip(start as int)),
        decreases end - start,
    {
        proof {
            assert(field.skip(start as int)[0] == line@[start as int]);
            assert(field.skip(start as int).skip(1) =~= field.skip(start + 1));
        }
        start += 1;
    }
    proof {
        if start < end {
            assert(field.skip(start as int)[0] == line@[start as int]);
        }
        assert(trim_start(field) == field.skip(start as int));
        assert(field.skip(start as int) =~= line@.subrange(start as int, end as int));
    }
    let mut stop: usize = end;
    while stop > start && char_is_whitespace(line.get_char(stop - 1))
        invariant
            start <= stop <= end <= len,
            len == line@.len(),
            trim_end(trim_start(field)) == trim_end(line@.subrange(start as int, stop as int)),
        decreases stop - start,
    {
        proof {
            let s = line@.subrange(start as int, stop as int);
            assert(s.last() == line@[stop - 1]);
            assert(s.drop_last() =~= line@.subrange(start as int, stop - 1));
        }
        stop -= 1;
    }
    proof {
        let s = line@.subrange(start as int, stop as int);
        if stop > start {
            assert(s.last() == line@[stop - 1]);
        }
    }
    String::from_str(line.substring_char(start, stop))
}

} // verus!
