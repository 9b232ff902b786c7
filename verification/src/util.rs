//! Helpers shared by the format detectors.

use vstd::prelude::*;
use crate::bytes::{contains_seq, find, first_occurrence, occurs_at};
use crate::text::utf8_lossy;

verus! {

/// The bytes of `buffer` between the first occurrence of `from` and the
/// first byte `to` after it.
pub open spec fn between(buffer: Seq<u8>, from: Seq<u8>, to: u8) -> Option<Seq<u8>> {
    if !contains_seq(buffer, from) {
        None
    } else {
        let p = choose|i: int|
            #[trigger] occurs_at(buffer, from, i) && forall|j: int| 0 <= j < i ==> !occurs_at(buffer, from, j);
        let rest = buffer.subrange(p + from.len(), buffer.len() as int);
        if !rest.contains(to) {
            None
        } else {
            let e = choose|j: int|
                0 <= j < rest.len() && #[trigger] rest[j] == to && forall|k: int| 0 <= k < j ==> rest[k] != to;
            Some(rest.subrange(0, e))
        }
    }
}

/// Calls `memchr::memchr`, the index of the first byte equal to `b`.
#[verifier::external_body]
fn memchr(b: u8, hay: &[u8]) -> (r: Option<usize>)
    ensures
        match r {
            Some(i) => i < hay.len() && hay@[i as int] == b && forall|k: int| 0 <= k < i ==> hay@[k] != b,
            None => !hay@.contains(b),
        },
{
    memchr::memchr(b, hay)
}

/// The text between the first occurrence of `from` and the first byte
/// `to` after it, decoded as UTF-8 with invalid sequences replaced.
pub fn find_between(buffer: &[u8], from: &[u8], to: u8) -> (r: Option<String>)
    ensures
        r is Some <==> between(buffer@, from@, to) is Some,
        r matches Some(s) ==> s@ == crate::text::lossy_utf8(between(buffer@, from@, to)->Some_0),
        r matches Some(s) ==> (vstd::utf8::valid_utf8(between(buffer@, from@, to)->Some_0)
            ==> s@ == vstd::utf8::decode_utf8(between(buffer@, from@, to)->Some_0)),
{
    let pos = match find(buffer, from) {
        Some(p) => p,
        None => return None,
    };
    proof {
        assert(occurs_at(buffer@, from@, pos as int));
        assert(first_occurrence(buffer@, from@, Some(pos)));
        let p = choose|i: int|
            #[trigger] occurs_at(buffer@, from@, i) && forall|j: int| 0 <= j < i ==> !occurs_at(buffer@, from@, j);
        assert(p == pos) by {
            if p < pos {
            } else if pos < p {
            }
        }
    }
    let flen = from.len();
    assert(pos + flen <= buffer.len()) by {
        assert(occurs_at(buffer@, from@, pos as int));
    }
    let start = pos + flen;
    let rest = &buffer[start..buffer.len()];
    let end = match memchr(to, rest) {
        Some(e) => e,
        None => return None,
    };
    proof {
        let e = choose|j: int|
            0 <= j < rest@.len() && #[trigger] rest@[j] == to && forall|k: int| 0 <= k < j ==> rest@[k] != to;
        assert(rest@[end as int] == to);
        assert(e == end) by {
            if e < end {
                assert(rest@[e] != to);
            } else if end < e {
            }
        }
    }
    Some(utf8_lossy(&rest[0..end]))
}

} // verus!
