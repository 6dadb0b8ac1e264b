use s4::resource::lzss::LzssDecompressor;

#[test]
fn test_gamma_read() {
    let data = vec![0b00000000];
    let mut decoder = LzssDecompressor::new(data);
    let val = decoder.gamma_read();
    assert_eq!(val, Some(0));
}

#[test]
fn test_gamma_read_1() {
    let data = vec![0b01000000];
    let mut decoder = LzssDecompressor::new(data);
    let val = decoder.gamma_read();
    assert_eq!(val, Some(1));
}
