use micro_platform::font_manifest::{REPLACEMENT_GLYPH, sanitize_ui_text};

const MANIFEST: &str = "# ui-sans coverage\n# generated\n# glyphs per line\nabc\nxyz äö\n";

#[test]
fn covered_text_is_left_unchanged() {
    let (text, replaced) = sanitize_ui_text(MANIFEST, "cab zyx äö");
    assert_eq!(text, "cab zyx äö");
    assert!(!replaced);
}

#[test]
fn uncovered_glyphs_become_the_replacement_glyph() {
    let (text, replaced) = sanitize_ui_text(MANIFEST, "aqb€");
    assert_eq!(text, "a\u{fffd}b\u{fffd}");
    assert_eq!(REPLACEMENT_GLYPH, '\u{fffd}');
    assert!(replaced);
}

#[test]
fn header_lines_do_not_count_as_coverage() {
    // 'u', 'i' and 'g' occur only in the three header lines.
    let (text, replaced) = sanitize_ui_text(MANIFEST, "ui");
    assert_eq!(text, "\u{fffd}\u{fffd}");
    assert!(replaced);
}

#[test]
fn line_breaks_and_tabs_are_always_supported() {
    let (text, replaced) = sanitize_ui_text("", "\n\r\t");
    assert_eq!(text, "\n\r\t");
    assert!(!replaced);
    let (text, replaced) = sanitize_ui_text("a\nb\nc", "abc\t");
    assert_eq!(text, "\u{fffd}\u{fffd}\u{fffd}\t");
    assert!(replaced);
}

#[test]
fn empty_text_needs_no_replacement() {
    let (text, replaced) = sanitize_ui_text(MANIFEST, "");
    assert_eq!(text, "");
    assert!(!replaced);
}
