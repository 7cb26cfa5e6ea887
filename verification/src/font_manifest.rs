//! Glyph coverage of the bundled UI fonts.
//!
//! A font manifest is a text whose first three lines are a header; every later
//! line lists glyphs that at least one bundled UI font can draw. Text handed to
//! a native label is first passed through [`sanitize_ui_text`], which replaces
//! every glyph that no font covers with U+FFFD.
use vstd::prelude::*;
use vstd::string::StringExecFns;

verus! {

/// The glyph that stands in for one that no bundled font can draw.
pub const REPLACEMENT_GLYPH: char = '\u{fffd}';

/// The number of line feeds among the first `i` characters of `m`.
pub open spec fn newlines_before(m: Seq<char>, i: int) -> nat
    decreases i,
{
    if i <= 0 {
        0
    } else if m[i - 1] == '\n' {
        newlines_before(m, i - 1) + 1
    } else {
        newlines_before(m, i - 1)
    }
}

/// `g` can be drawn: it is a line break or a tab, or it occurs on a line of
/// the manifest after its three header lines.
pub open spec fn glyph_supported(m: Seq<char>, g: char) -> bool {
    ||| g == '\n'
    ||| g == '\r'
    ||| g == '\t'
    ||| exists|i: int| 0 <= i < m.len() && m[i] == g && newlines_before(m, i) >= 3
}

/// `text` with every glyph that the manifest does not cover replaced.
pub open spec fn sanitized(m: Seq<char>, text: Seq<char>) -> Seq<char> {
    text.map_values(|g: char| if glyph_supported(m, g) { g } else { REPLACEMENT_GLYPH })
}

/// Some glyph of `text` is not covered by the manifest.
pub open spec fn needs_replacement(m: Seq<char>, text: Seq<char>) -> bool {
    exists|i: int| 0 <= i < text.len() && !glyph_supported(m, #[trigger] text[i])
}

/// Scans the manifest for `glyph` past its three header lines.
fn glyph_is_supported(manifest: &str, glyph: char) -> (r: bool)
    ensures
        r == glyph_supported(manifest@, glyph),
{
    if glyph == '\n' || glyph == '\r' || glyph == '\t' {
        return true;
    }
    let ghost m = manifest@;
    proof {
        broadcast use vstd::string::axiom_spec_iter;
    }
    // Line feeds seen so far, counted up to the three header lines.
    let mut lines: u8 = 0;
    let ghost mut index: int = 0;
    for c in it: manifest.chars()
        invariant
            m == manifest@,
            it.seq() == m,
            index == it.index(),
            0 <= index <= m.len(),
            lines == if newlines_before(m, index) < 3 { newlines_before(m, index) } else { 3 },
            glyph != '\n' && glyph != '\r' && glyph != '\t',
            forall|i: int| 0 <= i < index && m[i] == glyph ==> newlines_before(m, i) < 3,
    {
        assert(c == m[index]);
        if c == glyph && lines >= 3 {
            assert(0 <= index < m.len() && m[index] == glyph && newlines_before(m, index) >= 3);
            return true;
        }
        if c == '\n' && lines < 3 {
            lines = lines + 1;
        }
        proof {
            index = index + 1;
        }
    }
    false
}

/// `String::push`: appends `glyph` to the end of `out`.
#[verifier::external_body]
fn push_glyph(out: &mut String, glyph: char)
    ensures
        final(out)@ == old(out)@.push(glyph),
{
    out.push(glyph);
}

/// Replaces every glyph of `text` that no bundled UI font covers with
/// [`REPLACEMENT_GLYPH`], and says whether any glyph was replaced. The fonts'
/// coverage is read from `manifest`.
pub fn sanitize_ui_text(manifest: &str, text: &str) -> (r: (String, bool))
    ensures
        r.0@ == sanitized(manifest@, text@),
        r.1 == needs_replacement(manifest@, text@),
{
    let ghost t = text@;
    proof {
        broadcast use vstd::string::axiom_spec_iter;
    }
    let mut out = String::new();
    let mut replaced = false;
    let ghost mut index: int = 0;
    for glyph in it: text.chars()
        invariant
            t == text@,
            it.seq() == t,
            index == it.index(),
            0 <= index <= t.len(),
            out@ == sanitized(manifest@, t.take(index)),
            replaced == needs_replacement(manifest@, t.take(index)),
    {
        assert(glyph == t[index]);
        let supported = glyph_is_supported(manifest, glyph);
        if supported {
            push_glyph(&mut out, glyph);
        } else {
            push_glyph(&mut out, REPLACEMENT_GLYPH);
            replaced = true;
        }
        proof {
            let before = t.take(index);
            let after = t.take(index + 1);
            assert(after =~= before.push(glyph));
            assert(sanitized(manifest@, after) =~= sanitized(manifest@, before).push(
                if supported { glyph } else { REPLACEMENT_GLYPH },
            ));
            if !supported {
                assert(!glyph_supported(manifest@, after[index]));
            } else {
                if needs_replacement(manifest@, after) {
                    let i = choose|i: int| 0 <= i < after.len() && !glyph_supported(manifest@, #[trigger] after[i]);
                    assert(before[i] == after[i]);
                }
            }
            index = index + 1;
        }
    }
    assert(t.take(index) =~= t);
    (out, replaced)
}

} // verus!
