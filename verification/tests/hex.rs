use device_agent::hex::hex;

#[test]
fn test_hex() {
    assert_eq!(hex(&[0x00, 0x0f, 0x10, 0xff]), "000f10ff");
}
