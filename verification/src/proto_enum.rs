//! Enumerations stored as integer codes, and how such a field is read.

use vstd::prelude::*;

verus! {

/// An enumeration stored as an integer code.
pub trait ProtoEnum: Sized {
    /// The code of a value.
    spec fn code(self) -> i32;

    /// The value with code `v`, if any has it.
    spec fn decode(v: i32) -> Option<Self>;

    fn to_i32(&self) -> (v: i32)
        ensures
            v == self.code(),
    ;

    fn from_i32(v: i32) -> (r: Option<Self>)
        ensures
            r == Self::decode(v),
    ;

    /// Every value is read back from its code, and a code is read only as
    /// a value that has it.
    proof fn lemma_code_round_trip(e: Self, v: i32)
        ensures
            Self::decode(e.code()) == Some(e),
            Self::decode(v) matches Some(x) ==> x.code() == v,
    ;
}

/// An enumerated field as it is reported: the value where the code is
/// known, else the code itself.
#[derive(Clone, Copy, Debug, PartialEq, Eq)]
pub enum Decoded<E> {
    Known(E),
    Raw(i32),
}

/// Reads an enumerated field.
pub fn decode_value<E: ProtoEnum>(v: i32) -> (r: Decoded<E>)
    ensures
        match E::decode(v) {
            Some(e) => r == Decoded::Known(e),
            None => r == Decoded::<E>::Raw(v),
        },
{
    match E::from_i32(v) {
        Some(e) => Decoded::Known(e),
        None => Decoded::Raw(v),
    }
}

/// The values of the known codes among `codes`, in order.
pub open spec fn known_values_spec<E: ProtoEnum>(codes: Seq<i32>) -> Seq<E>
    decreases codes.len(),
{
    if codes.len() == 0 {
        Seq::empty()
    } else {
        let rest = known_values_spec::<E>(codes.drop_last());
        match E::decode(codes.last()) {
            Some(e) => rest.push(e),
            None => rest,
        }
    }
}

/// Reads a repeated enumerated field, dropping unknown codes.
pub fn known_values<E: ProtoEnum>(codes: &[i32]) -> (r: Vec<E>)
    ensures
        r@ == known_values_spec::<E>(codes@),
{
    let mut out: Vec<E> = Vec::new();
    let mut i: usize = 0;
    while i < codes.len()
        invariant
            i <= codes.len(),
            out@ == known_values_spec::<E>(codes@.subrange(0, i as int)),
        decreases codes.len() - i,
    {
        assert(codes@.subrange(0, i + 1).drop_last() =~= codes@.subrange(0, i as int));
        assert(codes@.subrange(0, i + 1).last() == codes@[i as int]);
        match E::from_i32(codes[i]) {
            Some(e) => out.push(e),
            None => {},
        }
        i = i + 1;
    }
    assert(codes@.subrange(0, codes@.len() as int) =~= codes@);
    out
}

/// Reading back the code of a value gives the value.
pub proof fn lemma_decode_of_code<E: ProtoEnum>(e: E)
    ensures
        E::decode(e.code()) == Some(e),
{
    E::lemma_code_round_trip(e, e.code());
}

} // verus!
