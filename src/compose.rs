//! The line compositor: marker stripping, tint, padding to width, and the
//! assembly of a highlighted hunk line.
use vstd::prelude::*;
use crate::paint::{Rgb, StyledSpan, painted_spans, reset, paint_ranges};
use crate::text::{push_char, push_chars};

verus! {

/// Width to which hunk lines are padded when none is configured.
pub const DEFAULT_WIDTH: usize = 100;

/// The tint behind added lines: a near-black green.
pub open spec fn added_tint() -> Rgb {
    Rgb { r: 0x01, g: 0x18, b: 0x00 }
}

/// The tint behind removed lines: a near-black red.
pub open spec fn removed_tint() -> Rgb {
    Rgb { r: 0x24, g: 0x00, b: 0x01 }
}

/// The line starts with a `+` or `-` marker.
pub open spec fn has_marker(line: Seq<char>) -> bool {
    line.len() > 0 && (line[0] == '+' || line[0] == '-')
}

/// The background tint that a hunk line's marker selects.
pub open spec fn tint_of(line: Seq<char>) -> Option<Rgb> {
    if line.len() > 0 && line[0] == '+' {
        Some(added_tint())
    } else if line.len() > 0 && line[0] == '-' {
        Some(removed_tint())
    } else {
        None
    }
}

/// The line without its marker.
pub open spec fn body_of(line: Seq<char>) -> Seq<char> {
    if has_marker(line) {
        line.subrange(1, line.len() as int)
    } else {
        line
    }
}

/// What stands in place of a stripped marker: one space.
pub open spec fn lead_of(line: Seq<char>) -> Seq<char> {
    if has_marker(line) {
        seq![' ']
    } else {
        Seq::empty()
    }
}

/// `s` followed by spaces up to `width` characters; never truncated.
pub open spec fn padded(s: Seq<char>, width: nat) -> Seq<char> {
    if s.len() < width {
        s + Seq::new((width - s.len()) as nat, |i: int| ' ')
    } else {
        s
    }
}

/// The text that the highlighter is given for a hunk line.
pub open spec fn working_text(line: Seq<char>, width: nat) -> Seq<char> {
    padded(body_of(line), width)
}

/// The composited output for a hunk line highlighted as `spans`.
pub open spec fn composited(line: Seq<char>, spans: Seq<StyledSpan>) -> Seq<char> {
    lead_of(line) + painted_spans(spans, tint_of(line)) + reset()
}

/// The tint for `+` lines.
pub fn added_background() -> (c: Rgb)
    ensures
        c == added_tint(),
{
    Rgb { r: 0x01, g: 0x18, b: 0x00 }
}

/// The tint for `-` lines.
pub fn removed_background() -> (c: Rgb)
    ensures
        c == removed_tint(),
{
    Rgb { r: 0x24, g: 0x00, b: 0x01 }
}

/// The background tint for a hunk line, chosen by its first character.
pub fn marker_tint(line: &Vec<char>) -> (r: Option<Rgb>)
    ensures
        r == tint_of(line@),
{
    if line.len() > 0 && line[0] == '+' {
        Some(added_background())
    } else if line.len() > 0 && line[0] == '-' {
        Some(removed_background())
    } else {
        None
    }
}

/// `s` padded with spaces on the right to `width` characters.
pub fn pad_to_width(s: &Vec<char>, width: usize) -> (r: String)
    ensures
        r@ == padded(s@, width as nat),
{
    let mut out = String::new();
    push_chars(&mut out, s);
    let mut n: usize = s.len();
    while n < width
        invariant
            s@.len() <= n <= width || (n == s@.len() && n >= width),
            out@ == s@ + Seq::new((n - s@.len()) as nat, |i: int| ' '),
        decreases width - n,
    {
        push_char(&mut out, ' ');
        n = n + 1;
        assert(out@ =~= s@ + Seq::new((n - s@.len()) as nat, |i: int| ' '));
    }
    assert(out@ =~= padded(s@, width as nat));
    out
}

/// The text to highlight for a hunk line: the line without its marker,
/// padded to `width`.
pub fn line_to_highlight(line: &Vec<char>, width: usize) -> (r: String)
    ensures
        r@ == working_text(line@, width as nat),
{
    if line.len() > 0 && (line[0] == '+' || line[0] == '-') {
        let mut body: Vec<char> = Vec::new();
        let mut i: usize = 1;
        while i < line.len()
            invariant
                1 <= i <= line@.len(),
                body@ == line@.subrange(1, i as int),
            decreases line@.len() - i,
        {
            body.push(line[i]);
            i = i + 1;
            assert(body@ =~= line@.subrange(1, i as int));
        }
        pad_to_width(&body, width)
    } else {
        pad_to_width(line, width)
    }
}

/// The output line for a hunk line whose working text was highlighted as
/// `spans`: a space for a stripped marker, the spans painted on the line's
/// tint, and one trailing reset.
pub fn assemble_line(line: &Vec<char>, spans: &Vec<StyledSpan>) -> (r: String)
    ensures
        r@ == composited(line@, spans@),
{
    let mut out = String::new();
    if line.len() > 0 && (line[0] == '+' || line[0] == '-') {
        push_char(&mut out, ' ');
    }
    assert(out@ =~= lead_of(line@));
    let tint = marker_tint(line);
    paint_ranges(spans, tint, &mut out);
    out
}

} // verus!
