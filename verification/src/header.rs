//! Header lines: a name, a colon, a value.

use vstd::prelude::*;
use vstd::string::*;
use vstd::utf8::{
    encode_utf8_valid_utf8, is_char_boundary, is_char_boundary_iff_not_is_continuation_byte,
    is_char_boundary_start_end_of_seq, valid_utf8, valid_utf8_split,
};

verus! {

/// The colon that parts a header's name from its value.
pub const COLON: u8 = 0x3a;

/// The length of the name of a header line: the number of bytes before
/// its first colon, or all of them if it has none.
pub open spec fn name_len(line: Seq<u8>) -> int
    decreases line.len(),
{
    if line.len() == 0 || line[0] == COLON {
        0
    } else {
        1 + name_len(line.skip(1))
    }
}

/// The name and the value of a header line: what stands before its first
/// colon and what stands after it. A line without a colon has neither.
pub open spec fn parts(line: Seq<u8>) -> Option<(Seq<u8>, Seq<u8>)> {
    let at = name_len(line);
    if at < line.len() {
        Some((line.take(at), line.skip(at + 1)))
    } else {
        None
    }
}

/// The name of a line ends at `at` if no colon comes before `at` and one
/// stands there, or the line ends there.
pub proof fn lemma_name_len(line: Seq<u8>, at: int)
    requires
        0 <= at <= line.len(),
        forall|j: int| 0 <= j < at ==> line[j] != COLON,
        at < line.len() ==> line[at] == COLON,
    ensures
        name_len(line) == at,
    decreases at,
{
    if at > 0 {
        let rest = line.skip(1);
        assert forall|j: int| 0 <= j < at - 1 implies rest[j] != COLON by {
            assert(rest[j] == line[j + 1]);
        }
        lemma_name_len(rest, at - 1);
    }
}

/// Finds the first colon of a line.
pub fn find_colon(line: &[u8]) -> (at: Option<usize>)
    ensures
        match at {
            Some(i) => i == name_len(line@) && i < line@.len() && line@[i as int] == COLON,
            None => name_len(line@) == line@.len(),
        },
{
    let mut i: usize = 0;
    while i < line.len()
        invariant
            i <= line@.len(),
            forall|j: int| 0 <= j < i ==> line@[j] != COLON,
        decreases line.len() - i,
    {
        if line[i] == COLON {
            proof {
                lemma_name_len(line@, i as int);
            }
            return Some(i);
        }
        i = i + 1;
    }
    proof {
        lemma_name_len(line@, i as int);
    }
    None
}

/// Parts a header line into its name and its value at the first colon.
/// Neither is trimmed. A line without a colon is no header.
pub fn split_header(line: &str) -> (header: Option<(&str, &str)>)
    ensures
        match header {
            Some((name, value)) => parts(line.spec_bytes()) == Some(
                (name.spec_bytes(), value.spec_bytes()),
            ),
            None => parts(line.spec_bytes()) is None,
        },
{
    broadcast use encode_utf8_valid_utf8, valid_utf8_split, is_char_boundary_start_end_of_seq;

    let ghost bytes = line.spec_bytes();
    match find_colon(line.as_bytes()) {
        None => None,
        Some(at) => {
            assert(valid_utf8(bytes));
            assert(is_char_boundary(bytes, at as int)) by {
                is_char_boundary_iff_not_is_continuation_byte(bytes, at as int);
            }
            let (name, rest) = line.split_at(at);
            let ghost tail = rest.spec_bytes();
            assert(valid_utf8(tail));
            assert(tail[0] == COLON);
            assert(is_char_boundary(tail, 1)) by {
                reveal_with_fuel(is_char_boundary, 2);
            }
            let (_colon, value) = rest.split_at(1);
            assert(value.spec_bytes() == bytes.skip(at + 1));
            Some((name, value))
        },
    }
}

} // verus!
