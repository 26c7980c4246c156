//! Fixed-width encoding of elements of the MNT4-753 scalar field.
use vstd::prelude::*;

verus! {

/// Size in bytes of an encoded field element.
pub const FIELD_SIZE: usize = 96;

/// Little-endian bytes of the field modulus.
pub open spec fn modulus_bytes() -> Seq<u8> {
    seq![
        1u8, 0, 0, 64, 226, 118, 7, 217, 79, 58, 161, 15, 23, 153, 160, 78,
        151, 87, 0, 63, 188, 129, 195, 214, 164, 58, 153, 52, 118, 249, 223, 185,
        54, 38, 33, 41, 148, 202, 235, 62, 155, 169, 89, 200, 40, 92, 108, 178,
        157, 247, 90, 161, 217, 36, 209, 153, 141, 237, 160, 232, 37, 185, 253, 7,
        115, 216, 151, 108, 249, 232, 183, 94, 237, 175, 143, 91, 80, 151, 249, 183,
        173, 205, 226, 238, 34, 144, 34, 16, 17, 196, 146, 45, 198, 196, 1, 0,
    ]
}

/// `b` is 96 bytes whose little-endian value is below the field modulus:
/// at the highest byte where `b` and the modulus differ, `b` is smaller.
pub open spec fn is_canonical(b: Seq<u8>) -> bool {
    &&& b.len() == FIELD_SIZE
    &&& exists|k: int|
        0 <= k < FIELD_SIZE && #[trigger] b[k] < modulus_bytes()[k] && forall|j: int|
            k < j < FIELD_SIZE ==> b[j] == modulus_bytes()[j]
}

/// `b` followed by zero bytes up to the field size.
pub open spec fn zero_padded(b: Seq<u8>) -> Seq<u8> {
    if b.len() >= FIELD_SIZE {
        b
    } else {
        b + Seq::new((FIELD_SIZE - b.len()) as nat, |i: int| 0u8)
    }
}

/// The encoding of the zero element.
pub open spec fn zero_bytes() -> Seq<u8> {
    Seq::new(FIELD_SIZE as nat, |i: int| 0u8)
}

/// Little-endian bytes of a 64-bit integer.
pub open spec fn u64_le_bytes(x: u64) -> Seq<u8> {
    Seq::new(8, |i: int| ((x >> (8 * i) as u64) & 0xff) as u8)
}

/// Why bytes could not be read as, or written from, a field element.
#[derive(Debug, Clone, Copy, PartialEq, Eq, Structural)]
pub enum CodecError {
    /// More bytes than a field element has.
    BufferTooLong,
    /// Fewer bytes than a field element has, where no padding applies.
    BufferTooShort,
    /// The value is not below the field modulus.
    NotCanonical,
}

/// What strict decoding makes of `b`: exactly 96 canonical bytes.
pub open spec fn strict_decode(b: Seq<u8>) -> Result<Seq<u8>, CodecError> {
    if b.len() > FIELD_SIZE {
        Err(CodecError::BufferTooLong)
    } else if b.len() < FIELD_SIZE {
        Err(CodecError::BufferTooShort)
    } else if !is_canonical(b) {
        Err(CodecError::NotCanonical)
    } else {
        Ok(b)
    }
}

/// What padded decoding makes of `b`: at most 96 bytes, zero-padded, canonical.
pub open spec fn padded_decode(b: Seq<u8>) -> Result<Seq<u8>, CodecError> {
    if b.len() > FIELD_SIZE {
        Err(CodecError::BufferTooLong)
    } else if !is_canonical(zero_padded(b)) {
        Err(CodecError::NotCanonical)
    } else {
        Ok(zero_padded(b))
    }
}

/// `r` is the outcome `s`, with an element standing for its encoding.
pub open spec fn decoded_as(r: Result<FieldElement, CodecError>, s: Result<Seq<u8>, CodecError>) -> bool {
    match r {
        Ok(fe) => s == Ok::<Seq<u8>, CodecError>(fe@),
        Err(e) => s == Err::<Seq<u8>, CodecError>(e),
    }
}

/// An element of the scalar field, held as its canonical encoding.
#[derive(Clone, Copy)]
pub struct FieldElement {
    bytes: [u8; 96],
}

impl View for FieldElement {
    type V = Seq<u8>;

    closed spec fn view(&self) -> Seq<u8> {
        self.bytes@
    }
}

fn modulus() -> (r: [u8; 96])
    ensures
        r@ == modulus_bytes(),
{
    let r: [u8; 96] = [
            1u8, 0, 0, 64, 226, 118, 7, 217, 79, 58, 161, 15, 23, 153, 160, 78,
            151, 87, 0, 63, 188, 129, 195, 214, 164, 58, 153, 52, 118, 249, 223, 185,
            54, 38, 33, 41, 148, 202, 235, 62, 155, 169, 89, 200, 40, 92, 108, 178,
            157, 247, 90, 161, 217, 36, 209, 153, 141, 237, 160, 232, 37, 185, 253, 7,
            115, 216, 151, 108, 249, 232, 183, 94, 237, 175, 143, 91, 80, 151, 249, 183,
            173, 205, 226, 238, 34, 144, 34, 16, 17, 196, 146, 45, 198, 196, 1, 0,
    ];
    assert(r@ =~= modulus_bytes());
    r
}

/// Whether 96 bytes are the canonical encoding of a field element.
pub fn is_canonical_encoding(b: &[u8; 96]) -> (r: bool)
    ensures
        r == is_canonical(b@),
{
    let m = modulus();
    let mut k: usize = FIELD_SIZE;
    while k > 0
        invariant
            k <= FIELD_SIZE,
            m@ == modulus_bytes(),
            b@.len() == FIELD_SIZE,
            forall|j: int| k <= j < FIELD_SIZE ==> b@[j] == modulus_bytes()[j],
        decreases k,
    {
        k = k - 1;
        if b[k] < m[k] {
            assert(b@[k as int] < modulus_bytes()[k as int]);
            return true;
        }
        if b[k] > m[k] {
            assert forall|i: int|
                0 <= i < FIELD_SIZE && #[trigger] b@[i] < modulus_bytes()[i] implies !(forall|j: int|
                i < j < FIELD_SIZE ==> b@[j] == modulus_bytes()[j]) by {
                if i < k {
                    assert(b@[k as int] != modulus_bytes()[k as int]);
                }
            }
            return false;
        }
    }
    false
}

impl FieldElement {
    /// The zero element.
    pub fn zero() -> (r: FieldElement)
        ensures
            r@ == zero_bytes(),
    {
        let r = FieldElement { bytes: [0u8; 96] };
        assert(r@ =~= zero_bytes());
        r
    }

    /// The canonical encoding of this element.
    pub fn to_bytes(&self) -> (r: [u8; 96])
        ensures
            r@ == self@,
    {
        self.bytes
    }

    /// Whether two elements are the same.
    pub fn equals(&self, other: &FieldElement) -> (r: bool)
        ensures
            r == (self@ == other@),
    {
        let mut i: usize = 0;
        while i < FIELD_SIZE
            invariant
                i <= FIELD_SIZE,
                self@.len() == FIELD_SIZE,
                other@.len() == FIELD_SIZE,
                forall|j: int| 0 <= j < i ==> self@[j] == other@[j],
            decreases FIELD_SIZE - i,
        {
            if self.bytes[i] != other.bytes[i] {
                return false;
            }
            i = i + 1;
        }
        assert(self@ =~= other@);
        true
    }
}

/// Bytes of at most 94 bytes, zero-padded, are always canonical: the two
/// top bytes of the result are zero and the modulus has a one in the lower.
pub proof fn lemma_short_is_canonical(b: Seq<u8>)
    requires
        b.len() <= 94,
    ensures
        is_canonical(zero_padded(b)),
        zero_padded(b).len() == FIELD_SIZE,
{
    let p = zero_padded(b);
    assert(p[95] == 0u8 && p[94] == 0u8);
    assert(modulus_bytes()[94] == 1u8 && modulus_bytes()[95] == 0u8);
    assert(p[94] < modulus_bytes()[94]);
}

/// Decoding a canonical encoding, strictly or with padding, gives back an
/// element whose encoding is the same bytes.
pub proof fn lemma_round_trip(b: Seq<u8>)
    requires
        is_canonical(b),
    ensures
        strict_decode(b) == Ok::<Seq<u8>, CodecError>(b),
        padded_decode(b) == Ok::<Seq<u8>, CodecError>(b),
{
}

fn from_padded(buffer: &[u8]) -> (r: [u8; 96])
    requires
        buffer@.len() <= FIELD_SIZE,
    ensures
        r@ == zero_padded(buffer@),
{
    let mut bytes: [u8; 96] = [0u8; 96];
    let mut i: usize = 0;
    while i < buffer.len()
        invariant
            i <= buffer@.len() <= FIELD_SIZE,
            bytes@.len() == FIELD_SIZE,
            forall|j: int| 0 <= j < i ==> bytes@[j] == buffer@[j],
            forall|j: int| i <= j < FIELD_SIZE ==> bytes@[j] == 0u8,
        decreases buffer@.len() - i,
    {
        bytes[i] = buffer[i];
        i = i + 1;
    }
    assert(bytes@ =~= zero_padded(buffer@));
    bytes
}

/// Reads exactly one encoded element from `buffer`, which must hold 96
/// canonical bytes.
pub fn deserialize_from_buffer(buffer: &[u8]) -> (r: Result<FieldElement, CodecError>)
    ensures
        decoded_as(r, strict_decode(buffer@)),
{
    if buffer.len() > FIELD_SIZE {
        return Err(CodecError::BufferTooLong);
    }
    if buffer.len() < FIELD_SIZE {
        return Err(CodecError::BufferTooShort);
    }
    let bytes = from_padded(buffer);
    assert(bytes@ =~= buffer@);
    if !is_canonical_encoding(&bytes) {
        return Err(CodecError::NotCanonical);
    }
    Ok(FieldElement { bytes })
}

/// Writes the encoding of `to_write` into the first 96 bytes of `buffer`;
/// a shorter buffer is left as it was.
pub fn serialize_to_buffer(to_write: &FieldElement, buffer: &mut [u8]) -> (r: Result<(), CodecError>)
    ensures
        old(buffer)@.len() < FIELD_SIZE ==> r == Err::<(), CodecError>(CodecError::BufferTooShort)
            && final(buffer)@ == old(buffer)@,
        old(buffer)@.len() >= FIELD_SIZE ==> r is Ok && final(buffer)@ == to_write@
            + old(buffer)@.subrange(FIELD_SIZE as int, old(buffer)@.len() as int),
{
    if buffer.len() < FIELD_SIZE {
        return Err(CodecError::BufferTooShort);
    }
    let mut i: usize = 0;
    while i < FIELD_SIZE
        invariant
            i <= FIELD_SIZE <= buffer@.len(),
            buffer@.len() == old(buffer)@.len(),
            to_write@.len() == FIELD_SIZE,
            forall|j: int| 0 <= j < i ==> buffer@[j] == to_write@[j],
            forall|j: int| FIELD_SIZE <= j < buffer@.len() ==> buffer@[j] == old(buffer)@[j],
        decreases FIELD_SIZE - i,
    {
        buffer[i] = to_write.bytes[i];
        i = i + 1;
    }
    assert(buffer@ =~= to_write@ + old(buffer)@.subrange(FIELD_SIZE as int, old(buffer)@.len() as int));
    Ok(())
}

/// Reads at most 96 bytes as a field element, adding zero bytes at the end
/// to reach the field size.
pub fn read_field_element_from_buffer_with_padding(buffer: &[u8]) -> (r: Result<FieldElement, CodecError>)
    ensures
        decoded_as(r, padded_decode(buffer@)),
        buffer@.len() <= 94 ==> r is Ok,
{
    if buffer.len() > FIELD_SIZE {
        return Err(CodecError::BufferTooLong);
    }
    let bytes = from_padded(buffer);
    proof {
        if buffer@.len() <= 94 {
            lemma_short_is_canonical(buffer@);
        }
    }
    if !is_canonical_encoding(&bytes) {
        return Err(CodecError::NotCanonical);
    }
    Ok(FieldElement { bytes })
}

/// The field element of the integer `num`.
pub fn read_field_element_from_u64(num: u64) -> (r: FieldElement)
    ensures
        r@ == zero_padded(u64_le_bytes(num)),
{
    let mut bytes: [u8; 96] = [0u8; 96];
    let mut i: usize = 0;
    while i < 8
        invariant
            i <= 8,
            bytes@.len() == FIELD_SIZE,
            forall|j: int| 0 <= j < i ==> bytes@[j] == u64_le_bytes(num)[j],
            forall|j: int| i <= j < FIELD_SIZE ==> bytes@[j] == 0u8,
        decreases 8 - i,
    {
        bytes[i] = ((num >> (8 * i) as u64) & 0xff) as u8;
        i = i + 1;
    }
    assert(bytes@ =~= zero_padded(u64_le_bytes(num)));
    FieldElement { bytes }
}

/// `b` cut to the 753 bits of the field: the top byte and the seven high
/// bits of the byte below it cleared.
pub open spec fn shaved(b: Seq<u8>) -> Seq<u8> {
    b.update(95, 0u8).update(94, b[94] & 1u8)
}

/// The element drawn by 96 uniformly random bytes, or none where the bytes,
/// cut to the field's bit length, are not below the modulus and must be
/// drawn again.
pub fn field_from_random_bytes(bytes: [u8; 96]) -> (r: Option<FieldElement>)
    ensures
        is_canonical(shaved(bytes@)) ==> r is Some && r->Some_0@ == shaved(bytes@),
        !is_canonical(shaved(bytes@)) ==> r is None,
{
    let mut b = bytes;
    b[95] = 0u8;
    b[94] = bytes[94] & 1u8;
    assert(b@ =~= shaved(bytes@));
    if is_canonical_encoding(&b) {
        Some(FieldElement { bytes: b })
    } else {
        None
    }
}

} // verus!
