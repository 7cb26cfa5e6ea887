use micro_platform::ir::{FontWeight, TextStyle};
use micro_platform::web_style::inline_text_style;

#[test]
fn rejects_an_unnormalized_browser_style() {
    assert_eq!(
        inline_text_style(None),
        Err("Web text style must be normalized before DOM rendering".into())
    );
}

#[test]
fn maps_generated_metric_pairs_to_browser_css() {
    for (size_px, line_height_px) in [(12u8, 14u8), (14, 18), (18, 24), (24, 32), (32, 40)] {
        let style = TextStyle::ui_sans(size_px, FontWeight::Regular, line_height_px).unwrap();
        assert_eq!(
            inline_text_style(Some(&style)),
            Ok(Some(format!(
                "font-family: MicroUiSans; font-size: {size_px}px; font-weight: 400; line-height: {line_height_px}px;"
            )))
        );
    }
}
