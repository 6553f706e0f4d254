use a2native::color::{format_hex_rgb, hex_pairs_on_char_boundaries, hex_to_rgb, parse_hex_color, Rgba};

#[test]
fn test_parse_hex_color_6digit() {
    let color = parse_hex_color("#FF5733").unwrap();
    assert_eq!(color, Rgba { r: 0xFF, g: 0x57, b: 0x33, a: 0xFF });
}

#[test]
fn test_parse_hex_color_without_hash() {
    let color = parse_hex_color("00FF00").unwrap();
    assert_eq!(color, Rgba { r: 0x00, g: 0xFF, b: 0x00, a: 0xFF });
}

#[test]
fn test_parse_hex_color_8digit() {
    let color = parse_hex_color("#FF573380").unwrap();
    assert_eq!(color, Rgba { r: 0xFF, g: 0x57, b: 0x33, a: 0x80 });
}

#[test]
fn test_parse_hex_color_invalid() {
    assert!(parse_hex_color("ZZZZZZ").is_none());
    assert!(parse_hex_color("123").is_none());
    assert!(parse_hex_color("").is_none());
}

#[test]
fn hex_color_edge_cases() {
    assert_eq!(parse_hex_color("##abcdef"), Some(Rgba { r: 0xab, g: 0xcd, b: 0xef, a: 255 }));
    assert_eq!(parse_hex_color("+f+f+f"), Some(Rgba { r: 15, g: 15, b: 15, a: 255 }));
    assert!(parse_hex_color("-fffff").is_none());
    assert!(parse_hex_color("#12345").is_none());
    assert!(parse_hex_color("é1234").is_none());
}

#[test]
fn hex_to_rgb_reads_six_digits_only() {
    assert_eq!(hex_to_rgb("#6C63FF"), Some([108, 99, 255]));
    assert_eq!(hex_to_rgb("6c63ff"), Some([108, 99, 255]));
    assert_eq!(hex_to_rgb("#6C63FF80"), None);
    assert_eq!(hex_to_rgb("#6C63FG"), None);
}

#[test]
fn colour_text_round_trip() {
    for rgb in [[0u8, 0, 0], [255, 255, 255], [108, 99, 255], [1, 171, 16]] {
        let text = format_hex_rgb(rgb);
        assert_eq!(text.len(), 7);
        assert!(hex_pairs_on_char_boundaries(&text));
        assert_eq!(hex_to_rgb(&text), Some(rgb));
    }
    assert_eq!(format_hex_rgb([108, 99, 255]), "#6C63FF");
}

#[test]
fn pieces_that_cut_characters_are_detected() {
    assert!(hex_pairs_on_char_boundaries("#FF5733"));
    assert!(hex_pairs_on_char_boundaries("é1234"));
    assert!(!hex_pairs_on_char_boundaries("aé345"));
    assert!(!hex_pairs_on_char_boundaries("€1234"));
}
