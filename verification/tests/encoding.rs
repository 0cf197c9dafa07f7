use dpc_lib::encoding::request_image_fields;

#[test]
fn image_fields_hold_the_base64_text_and_its_data_url() {
    let (b64, url) = request_image_fields(b"hello");
    assert_eq!(b64, "aGVsbG8=");
    assert_eq!(url, "data:image/png;base64,aGVsbG8=");
    let (b64, url) = request_image_fields(&[0xff, 0xfe, 0x00]);
    assert_eq!(b64, "//4A");
    assert_eq!(url, "data:image/png;base64,//4A");
    let (b64, url) = request_image_fields(&[]);
    assert_eq!(b64, "");
    assert_eq!(url, "data:image/png;base64,");
}
