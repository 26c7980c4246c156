//! The field hash, as the caller supplies it, and what the library relies on
//! of it.
use vstd::prelude::*;
use crate::field::FieldElement;

verus! {

/// A field hash, as a function on encodings.
pub type SpecHash = spec_fn(Seq<Seq<u8>>) -> Seq<u8>;

/// The encodings of a sequence of elements.
pub open spec fn views(s: Seq<FieldElement>) -> Seq<Seq<u8>> {
    Seq::new(s.len(), |i: int| s[i]@)
}

/// `hash` can always be called, and when it answers it answers the function
/// `h` of the encodings of its inputs: it behaves as the field hash `h`.
pub open spec fn hashes_as<H: Fn(Vec<FieldElement>) -> Option<FieldElement>>(
    hash: H,
    h: SpecHash,
) -> bool {
    &&& forall|x: Vec<FieldElement>| #[trigger] hash.requires((x,))
    &&& forall|x: Vec<FieldElement>, o: Option<FieldElement>| #[trigger]
        hash.ensures((x,), o) ==> o is Some && o->Some_0@ == h(views(x@))
}

/// `hash` can be called on any input.
pub open spec fn callable<H: Fn(Vec<FieldElement>) -> Option<FieldElement>>(hash: H) -> bool {
    forall|x: Vec<FieldElement>| #[trigger] hash.requires((x,))
}

/// `h` gives different results on different inputs.
pub open spec fn injective(h: SpecHash) -> bool {
    forall|x: Seq<Seq<u8>>, y: Seq<Seq<u8>>| #[trigger] h(x) == #[trigger] h(y) ==> x == y
}

/// The hash is a function of its inputs, so equal inputs hash the same; and
/// where it is free of collisions, inputs that differ, even only in their
/// order, hash differently.
pub proof fn lemma_hash_determinism(h: SpecHash, x: Seq<Seq<u8>>, y: Seq<Seq<u8>>)
    ensures
        x == y ==> h(x) == h(y),
        injective(h) && x != y ==> h(x) != h(y),
{
}

/// The field hash reported a failure.
#[derive(Debug, Clone, Copy, PartialEq, Eq, Structural)]
pub struct HashError;

/// The field hash of `input`, in its order.
pub fn compute_poseidon_hash<H: Fn(Vec<FieldElement>) -> Option<FieldElement>>(
    input: &Vec<FieldElement>,
    hash: &H,
) -> (r: Result<FieldElement, HashError>)
    requires
        callable(*hash),
    ensures
        forall|h: SpecHash| #[trigger]
            hashes_as(*hash, h) ==> r is Ok && r->Ok_0@ == h(views(input@)),
{
    let mut x: Vec<FieldElement> = Vec::new();
    let mut i: usize = 0;
    while i < input.len()
        invariant
            i <= input@.len(),
            x@ == input@.subrange(0, i as int),
        decreases input@.len() - i,
    {
        x.push(input[i]);
        i = i + 1;
    }
    assert(x@ =~= input@);
    match hash(x) {
        Some(e) => Ok(e),
        None => Err(HashError),
    }
}

} // verus!
