use eryzaa_core::codec::{
    de_bool, de_opt_string, de_string, de_u16, de_u32, de_u64, ser_bool, ser_opt_string,
    ser_string, ser_u16, ser_u32, ser_u64,
};

#[test]
fn integers_are_little_endian() {
    let mut out = Vec::new();
    ser_u16(&mut out, 0x1234);
    assert_eq!(out, vec![0x34, 0x12]);
    let mut out = Vec::new();
    ser_u32(&mut out, 0x0102_0304);
    assert_eq!(out, vec![4, 3, 2, 1]);
    let mut out = Vec::new();
    ser_u64(&mut out, 0x0102_0304_0506_0708);
    assert_eq!(out, vec![8, 7, 6, 5, 4, 3, 2, 1]);
}

#[test]
fn integer_decoding_mirrors_encoding() {
    let mut out = Vec::new();
    ser_u16(&mut out, u16::MAX);
    ser_u32(&mut out, 0);
    ser_u64(&mut out, u64::MAX - 1);
    let (a, p) = de_u16(&out, 0).unwrap();
    let (b, p) = de_u32(&out, p).unwrap();
    let (c, p) = de_u64(&out, p).unwrap();
    assert_eq!((a, b, c), (u16::MAX, 0, u64::MAX - 1));
    assert_eq!(p, out.len());
    // A short buffer does not decode.
    assert!(de_u64(&out, 8).is_none());
}

#[test]
fn strings_carry_a_byte_length_prefix() {
    let mut out = Vec::new();
    ser_string(&mut out, "hé");
    // 'h' is one byte, 'é' two bytes in UTF-8.
    assert_eq!(out[0], 3);
    assert_eq!(out[1..8], [0, 0, 0, 0, 0, 0, 0]);
    assert_eq!(out.len(), 11);
    let (s, p) = de_string(&out, 0).unwrap();
    assert_eq!(s, "hé");
    assert_eq!(p, 11);
}

#[test]
fn booleans_accept_only_zero_and_one() {
    let mut out = Vec::new();
    ser_bool(&mut out, true);
    ser_bool(&mut out, false);
    assert_eq!(out, vec![1, 0]);
    assert_eq!(de_bool(&out, 0).unwrap(), (true, 1));
    assert_eq!(de_bool(&out, 1).unwrap(), (false, 2));
    assert!(de_bool(&[2], 0).is_none());
}

#[test]
fn optional_strings_lead_with_a_presence_byte() {
    let mut out = Vec::new();
    ser_opt_string(&mut out, &None);
    assert_eq!(out, vec![0]);
    assert_eq!(de_opt_string(&out, 0).unwrap(), (None, 1));

    let mut out = Vec::new();
    ser_opt_string(&mut out, &Some("ab".to_string()));
    assert_eq!(out[0], 1);
    let (v, p) = de_opt_string(&out, 0).unwrap();
    assert_eq!(v, Some("ab".to_string()));
    assert_eq!(p, out.len());
    // An unknown presence byte does not decode.
    assert!(de_opt_string(&[9], 0).is_none());
}
