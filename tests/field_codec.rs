use zendoo::field::{
    deserialize_from_buffer, field_from_random_bytes, read_field_element_from_buffer_with_padding,
    read_field_element_from_u64, serialize_to_buffer, CodecError, FieldElement, FIELD_SIZE,
};
use zendoo::boundary::zendoo_get_random_field;

const LHS: [u8; 96] = [
    138, 206, 199, 243, 195, 254, 25, 94, 236, 155, 232, 182, 89, 123, 162, 207, 102, 52, 178,
    128, 55, 248, 234, 95, 33, 196, 170, 12, 118, 16, 124, 96, 47, 203, 160, 167, 144, 153,
    161, 86, 213, 126, 95, 76, 27, 98, 34, 111, 144, 36, 205, 124, 200, 168, 29, 196, 67, 210,
    100, 154, 38, 79, 178, 191, 246, 115, 84, 232, 87, 12, 34, 72, 88, 23, 236, 142, 237, 45,
    11, 148, 91, 112, 156, 47, 68, 229, 216, 56, 238, 98, 41, 243, 225, 192, 0, 0,
];

const RHS: [u8; 96] = [
    199, 130, 235, 52, 44, 219, 5, 195, 71, 154, 54, 121, 3, 11, 111, 160, 86, 212, 189, 66,
    235, 236, 240, 242, 126, 248, 116, 0, 48, 95, 133, 85, 73, 150, 110, 169, 16, 88, 136, 34,
    106, 7, 38, 176, 46, 89, 163, 49, 162, 222, 182, 42, 200, 240, 149, 226, 173, 203, 148,
    194, 207, 59, 44, 185, 67, 134, 107, 221, 188, 208, 122, 212, 200, 42, 227, 3, 23, 59, 31,
    37, 91, 64, 69, 196, 74, 195, 24, 5, 165, 25, 101, 215, 45, 92, 1, 0,
];

const MODULUS: [u8; 96] = [
    1, 0, 0, 64, 226, 118, 7, 217, 79, 58, 161, 15, 23, 153, 160, 78,
    151, 87, 0, 63, 188, 129, 195, 214, 164, 58, 153, 52, 118, 249, 223, 185,
    54, 38, 33, 41, 148, 202, 235, 62, 155, 169, 89, 200, 40, 92, 108, 178,
    157, 247, 90, 161, 217, 36, 209, 153, 141, 237, 160, 232, 37, 185, 253, 7,
    115, 216, 151, 108, 249, 232, 183, 94, 237, 175, 143, 91, 80, 151, 249, 183,
    173, 205, 226, 238, 34, 144, 34, 16, 17, 196, 146, 45, 198, 196, 1, 0,
];

#[test]
fn round_trip_of_sample_encodings() {
    for bytes in [LHS, RHS] {
        let fe = deserialize_from_buffer(&bytes).unwrap();
        assert_eq!(fe.to_bytes(), bytes);
        let mut out = [0u8; 96];
        serialize_to_buffer(&fe, &mut out).unwrap();
        assert_eq!(out, bytes);
    }
}

#[test]
fn round_trip_below_modulus() {
    let mut below = MODULUS;
    below[0] = 0;
    let fe = deserialize_from_buffer(&below).unwrap();
    assert_eq!(fe.to_bytes(), below);
    let fe = read_field_element_from_buffer_with_padding(&below).unwrap();
    assert_eq!(fe.to_bytes(), below);
}

#[test]
fn modulus_and_above_are_rejected() {
    assert_eq!(deserialize_from_buffer(&MODULUS).err(), Some(CodecError::NotCanonical));
    assert_eq!(deserialize_from_buffer(&[0xffu8; 96]).err(), Some(CodecError::NotCanonical));
    let mut above = MODULUS;
    above[93] = 197;
    above[0] = 0;
    assert_eq!(deserialize_from_buffer(&above).err(), Some(CodecError::NotCanonical));
    assert_eq!(
        read_field_element_from_buffer_with_padding(&MODULUS).err(),
        Some(CodecError::NotCanonical)
    );
}

#[test]
fn buffer_lengths() {
    assert_eq!(deserialize_from_buffer(&[0u8; 97]).err(), Some(CodecError::BufferTooLong));
    assert_eq!(deserialize_from_buffer(&[0u8; 95]).err(), Some(CodecError::BufferTooShort));
    assert_eq!(
        read_field_element_from_buffer_with_padding(&[0u8; 97]).err(),
        Some(CodecError::BufferTooLong)
    );
    assert_eq!(FIELD_SIZE, 96);
}

#[test]
fn padding_adds_zero_bytes() {
    let short = [7u8, 8, 9];
    let fe = read_field_element_from_buffer_with_padding(&short).unwrap();
    let mut expected = [0u8; 96];
    expected[..3].copy_from_slice(&short);
    assert_eq!(fe.to_bytes(), expected);
    let empty = read_field_element_from_buffer_with_padding(&[]).unwrap();
    assert_eq!(empty.to_bytes(), [0u8; 96]);
    assert!(empty.equals(&FieldElement::zero()));
}

#[test]
fn integer_embedding_is_little_endian() {
    let fe = read_field_element_from_u64(0x0102_0304_0506_0708);
    let mut expected = [0u8; 96];
    expected[..8].copy_from_slice(&[8, 7, 6, 5, 4, 3, 2, 1]);
    assert_eq!(fe.to_bytes(), expected);
    assert_eq!(read_field_element_from_u64(0).to_bytes(), [0u8; 96]);
}

#[test]
fn serialize_keeps_the_tail_and_rejects_short_buffers() {
    let fe = deserialize_from_buffer(&LHS).unwrap();
    let mut long = vec![5u8; 100];
    serialize_to_buffer(&fe, &mut long).unwrap();
    assert_eq!(&long[..96], &LHS[..]);
    assert_eq!(&long[96..], &[5u8, 5, 5, 5]);
    let mut short = vec![5u8; 95];
    assert_eq!(serialize_to_buffer(&fe, &mut short), Err(CodecError::BufferTooShort));
    assert_eq!(short, vec![5u8; 95]);
}

#[test]
fn random_bytes_are_cut_to_the_field() {
    assert!(field_from_random_bytes([0xffu8; 96]).is_none());
    let mut bytes = [0xffu8; 96];
    bytes[93] = 0;
    let fe = field_from_random_bytes(bytes).unwrap();
    let out = fe.to_bytes();
    assert_eq!(out[95], 0);
    assert_eq!(out[94], 1);
    assert_eq!(out[93], 0);
    assert_eq!(out[0], 0xff);
    let fe = zendoo_get_random_field().unwrap();
    assert!(deserialize_from_buffer(&fe.to_bytes()).is_ok());
}
