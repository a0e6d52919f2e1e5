use framebuffer::writer::FrameBufferWriter;

#[test]
fn every_palette_name_resolves_to_its_attribute_value() {
    let table: [(&str, u8); 16] = [
        ("black", 0x00),
        ("blue", 0x01),
        ("green", 0x02),
        ("cyan", 0x03),
        ("red", 0x04),
        ("magenta", 0x05),
        ("brown", 0x06),
        ("light_gray", 0x07),
        ("dark_gray", 0x08),
        ("light_blue", 0x09),
        ("light_green", 0x0a),
        ("light_cyan", 0x0b),
        ("light_red", 0x0c),
        ("pink", 0x0d),
        ("yellow", 0x0e),
        ("white", 0x0f),
    ];
    for (name, value) in table {
        assert_eq!(FrameBufferWriter::color_from_name(name), Some(value));
    }
}

#[test]
fn lookup_is_case_insensitive() {
    assert_eq!(FrameBufferWriter::color_from_name("Blue"), Some(0x01));
    assert_eq!(FrameBufferWriter::color_from_name("WHITE"), Some(0x0f));
    assert_eq!(FrameBufferWriter::color_from_name("LiGhT_gRaY"), Some(0x07));
}

#[test]
fn unknown_names_resolve_to_nothing() {
    assert_eq!(FrameBufferWriter::color_from_name(""), None);
    assert_eq!(FrameBufferWriter::color_from_name("grey"), None);
    assert_eq!(FrameBufferWriter::color_from_name("blu"), None);
    assert_eq!(FrameBufferWriter::color_from_name("bluee"), None);
    assert_eq!(FrameBufferWriter::color_from_name("light gray"), None);
}
