use candid::{decode_one, encode_one};

#[test]
fn harness_impl_candid_serde() {
    let original_val = (1u8, "One".to_string());
    // encode value
    let val = encode_one(&original_val).unwrap();
    // decode value
    let val = decode_one::<(u8, String)>(&val).unwrap();
    assert_eq!(original_val, val);
}

#[test]
fn harness_impl_with_return_candid_serde() {
    let original_val = (1u8, "One".to_string());
    // encode value
    let val = encode_one(&original_val).unwrap();
    // decode value
    let val = decode_one::<(u8, String)>(&val).unwrap();
    assert_eq!(original_val, val);
}
