use std::borrow::Cow;

use debuginfod::BuildId;

/// Check that we can construct `BuildId` objects as expected.
#[test]
fn build_id_construction() {
    let build_id = BuildId::raw(&[0x00]);
    assert!(matches!(build_id, BuildId::RawBytes(Cow::Borrowed(..))));

    let build_id = BuildId::raw(vec![0x00]);
    assert!(matches!(build_id, BuildId::RawBytes(Cow::Owned(..))));

    let build_id = BuildId::formatted("abc");
    assert!(matches!(build_id, BuildId::Formatted(Cow::Borrowed(..))));

    let build_id = BuildId::formatted("abc".to_string());
    assert!(matches!(build_id, BuildId::Formatted(Cow::Owned(..))));
}

/// Test the string rendering of the `BuildId` type.
#[test]
fn build_id_display() {
    let build_id = BuildId::raw(&[
        0xae, 0xb9, 0xa9, 0x83, 0xac, 0xe1, 0xfb, 0x04, 0x7b, 0x23, 0x41, 0xb1, 0x95, 0x01, 0x65,
        0x44, 0x0f, 0xb2, 0xa8, 0xb9,
    ]);
    assert_eq!(
        build_id.to_string(),
        "aeb9a983ace1fb047b2341b1950165440fb2a8b9"
    );
}

#[test]
fn format_renders_raw_bytes_as_lower_hex() {
    let build_id = BuildId::raw(&[
        0xae, 0xb9, 0xa9, 0x83, 0xac, 0xe1, 0xfb, 0x04, 0x7b, 0x23, 0x41, 0xb1, 0x95, 0x01, 0x65,
        0x44, 0x0f, 0xb2, 0xa8, 0xb9,
    ]);
    assert_eq!(build_id.format(), "aeb9a983ace1fb047b2341b1950165440fb2a8b9");
}

#[test]
fn format_keeps_formatted_text_verbatim() {
    let build_id = BuildId::formatted("NotHex Really");
    let text = build_id.format();
    assert_eq!(text, "NotHex Really");
    assert!(matches!(text, Cow::Borrowed(..)));

    let build_id = BuildId::formatted("ABC".to_string());
    assert!(matches!(build_id.format(), Cow::Borrowed("ABC")));
    assert_eq!(build_id.to_string(), "ABC");
}

#[test]
fn format_of_empty_raw_bytes_is_empty() {
    let build_id = BuildId::raw(Vec::new());
    assert_eq!(build_id.format(), "");
}

#[test]
fn hex_shape_on_all_byte_values() {
    let bytes: Vec<u8> = (0..=255u8).collect();
    let build_id = BuildId::raw(bytes.clone());
    let first = build_id.to_string();
    let second = build_id.to_string();
    assert_eq!(first.len(), 2 * bytes.len());
    assert!(first.chars().all(|c| c.is_ascii_digit() || ('a'..='f').contains(&c)));
    assert_eq!(first, second);
    assert_eq!(&first[0..4], "0001");
    assert_eq!(&first[first.len() - 4..], "feff");
}
