//! Text styles as browser CSS for the DOM renderer.
use vstd::prelude::*;
use vstd::string::StringExecFns;
use crate::ir::{FontFamily, FontWeight, TextStyle};
use crate::text::{decimal, push_decimal};

verus! {

/// The CSS font family of a UI font.
pub open spec fn family_css(family: FontFamily) -> Seq<char> {
    match family {
        FontFamily::UiSans => "MicroUiSans"@,
    }
}

/// The CSS weight of a font weight.
pub open spec fn weight_css(weight: FontWeight) -> nat {
    match weight {
        FontWeight::Regular => 400,
    }
}

/// The inline CSS declarations of a text style.
pub open spec fn style_css(style: TextStyle) -> Seq<char> {
    "font-family: "@ + family_css(style.family) + "; font-size: "@ + decimal(style.size_px as nat)
        + "px; font-weight: "@ + decimal(weight_css(style.weight)) + "; line-height: "@ + decimal(
        style.line_height_px as nat,
    ) + "px;"@
}

/// The inline CSS for an element's text style. Every element the DOM
/// renderer creates carries a normalized style, so a missing one is an
/// error.
pub fn inline_text_style(style: Option<&TextStyle>) -> (r: Result<Option<String>, String>)
    ensures
        match style {
            None => r matches Err(message) && message@ == "Web text style must be normalized before DOM rendering"@,
            Some(style) => r matches Ok(Some(css)) && css@ == style_css(*style),
        },
{
    let style = match style {
        None => return Err(String::from_str("Web text style must be normalized before DOM rendering")),
        Some(style) => style,
    };
    let family = match style.family {
        FontFamily::UiSans => "MicroUiSans",
    };
    let weight: u64 = match style.weight {
        FontWeight::Regular => 400,
    };
    let mut css = String::from_str("font-family: ");
    css.append(family);
    css.append("; font-size: ");
    push_decimal(&mut css, style.size_px as u64);
    css.append("px; font-weight: ");
    push_decimal(&mut css, weight);
    css.append("; line-height: ");
    push_decimal(&mut css, style.line_height_px as u64);
    css.append("px;");
    Ok(Some(css))
}

} // verus!
