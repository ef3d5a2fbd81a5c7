use oxidrive::content_type::{content_type_or_default, detect, try_detect};

#[test]
fn it_infers_the_content_type() {
    let cases: [(&str, &str, &[u8]); 4] = [
        ("test.jpg", "image/jpeg", &[0xFF, 0xD8, 0xFF, 0xAA]),
        (
            "test.svg",
            "text/svg",
            b"\n<?xml version=\"1.0\" encoding=\"UTF-8\" standalone=\"no\"?>\n<svg\n   version=\"1.1\"\n",
        ),
        ("test.rs", "text/x-rust", b"\nuse hello_world;\n\nfn main() {}\n"),
        ("test", "text/plain", b"Hello world!"),
    ];
    for (name, expected, content) in cases {
        assert_eq!(detect(name, content).unwrap(), expected, "{name}");
    }
}

#[test]
fn xml_that_is_not_svg_is_detected_as_xml_text() {
    let content = b"<?xml version=\"1.0\"?>\n<note>hi</note>\n";
    let detected = try_detect("note.xml", content).unwrap().unwrap();
    assert_ne!(detected, "text/svg");
}

#[test]
fn a_single_line_xml_document_has_no_second_line_to_check() {
    assert!(try_detect("one.xml", b"<?xml version=\"1.0\"?>   \n  ").is_none());
}

#[test]
fn unknown_binary_content_has_no_type() {
    let content = [0xC3u8, 0x28, 0x00, 0x01];
    assert!(detect("blob", &content).is_none());
    assert_eq!(content_type_or_default(None), "application/octet-stream");
    assert_eq!(content_type_or_default(Some("image/png".into())), "image/png");
}
