//! ANSI SGR rendering of styled spans on an optional background tint.
use vstd::prelude::*;
use crate::text::push_char;

verus! {

/// An RGB color.
#[derive(Clone, Copy, Debug, PartialEq, Eq, Structural)]
pub struct Rgb {
    pub r: u8,
    pub g: u8,
    pub b: u8,
}

/// A run of text with its foreground color.
pub struct StyledSpan {
    pub foreground: Rgb,
    pub text: String,
}

pub open spec fn escape_char() -> char {
    '\u{1b}'
}

/// The SGR sequence that clears all colors.
pub open spec fn reset() -> Seq<char> {
    seq![escape_char(), '[', '0', 'm']
}

pub open spec fn digit_char(d: int) -> char {
    if d == 0 { '0' }
    else if d == 1 { '1' }
    else if d == 2 { '2' }
    else if d == 3 { '3' }
    else if d == 4 { '4' }
    else if d == 5 { '5' }
    else if d == 6 { '6' }
    else if d == 7 { '7' }
    else if d == 8 { '8' }
    else { '9' }
}

/// The decimal digits of `n`, without leading zeros.
pub open spec fn decimal(n: nat) -> Seq<char>
    decreases n,
{
    if n < 10 {
        seq![digit_char(n as int)]
    } else {
        decimal(n / 10).push(digit_char((n % 10) as int))
    }
}

/// `ESC [ <layer>8;2;<r>;<g>;<b> m`: a 24-bit color for the layer, `3` for
/// foreground and `4` for background.
pub open spec fn color_escape(layer: char, c: Rgb) -> Seq<char> {
    seq![escape_char(), '[', layer, '8', ';', '2', ';'] + decimal(c.r as nat) + seq![';']
        + decimal(c.g as nat) + seq![';'] + decimal(c.b as nat) + seq!['m']
}

pub open spec fn foreground_escape(c: Rgb) -> Seq<char> {
    color_escape('3', c)
}

pub open spec fn background_escape(c: Rgb) -> Seq<char> {
    color_escape('4', c)
}

/// `text` with the given colors applied, each color followed by a reset when
/// `reset_color` holds.
pub open spec fn painted(
    text: Seq<char>,
    foreground: Option<Rgb>,
    background: Option<Rgb>,
    reset_color: bool,
) -> Seq<char> {
    let tail = if reset_color { reset() } else { Seq::empty() };
    let bg = match background {
        Some(b) => background_escape(b) + tail,
        None => Seq::empty(),
    };
    let fg = match foreground {
        Some(f) => foreground_escape(f) + text + tail,
        None => text,
    };
    bg + fg
}

/// The spans, each painted in its foreground color on `background`, with no
/// resets between them.
pub open spec fn painted_spans(spans: Seq<StyledSpan>, background: Option<Rgb>) -> Seq<char>
    decreases spans.len(),
{
    if spans.len() == 0 {
        Seq::empty()
    } else {
        painted_spans(spans.drop_last(), background) + painted(
            spans.last().text@,
            Some(spans.last().foreground),
            background,
            false,
        )
    }
}

/// The texts of the spans, joined in order.
pub open spec fn span_text(spans: Seq<StyledSpan>) -> Seq<char>
    decreases spans.len(),
{
    if spans.len() == 0 {
        Seq::empty()
    } else {
        span_text(spans.drop_last()) + spans.last().text@
    }
}

fn digit(d: u8) -> (c: char)
    requires
        d < 10,
    ensures
        c == digit_char(d as int),
{
    if d == 0 { '0' }
    else if d == 1 { '1' }
    else if d == 2 { '2' }
    else if d == 3 { '3' }
    else if d == 4 { '4' }
    else if d == 5 { '5' }
    else if d == 6 { '6' }
    else if d == 7 { '7' }
    else if d == 8 { '8' }
    else { '9' }
}

/// Appends the decimal digits of `n`.
pub fn push_decimal(buf: &mut String, n: u8)
    ensures
        final(buf)@ == old(buf)@ + decimal(n as nat),
{
    let ghost start = buf@;
    if n >= 100 {
        push_char(buf, digit(n / 100));
    }
    if n >= 10 {
        push_char(buf, digit((n / 10) % 10));
    }
    push_char(buf, digit(n % 10));
    proof {
        let m = n as nat;
        if m >= 100 {
            assert(decimal(m / 100) == seq![digit_char((m / 100) as int)]);
            assert(decimal(m / 10) == decimal(m / 100).push(digit_char((m / 10 % 10) as int)));
        } else if m >= 10 {
            assert(decimal(m / 10) == seq![digit_char((m / 10) as int)]);
        }
        assert(buf@ =~= start + decimal(m));
    }
}

/// Appends the 24-bit color escape for `c` on `layer`.
fn push_color_escape(buf: &mut String, layer: char, c: Rgb)
    ensures
        final(buf)@ == old(buf)@ + color_escape(layer, c),
{
    let ghost start = buf@;
    push_char(buf, '\u{1b}');
    push_char(buf, '[');
    push_char(buf, layer);
    push_char(buf, '8');
    push_char(buf, ';');
    push_char(buf, '2');
    push_char(buf, ';');
    push_decimal(buf, c.r);
    push_char(buf, ';');
    push_decimal(buf, c.g);
    push_char(buf, ';');
    push_decimal(buf, c.b);
    push_char(buf, 'm');
    assert(buf@ =~= start + color_escape(layer, c));
}

/// Appends the reset sequence.
pub fn push_reset(buf: &mut String)
    ensures
        final(buf)@ == old(buf)@ + reset(),
{
    let ghost start = buf@;
    push_char(buf, '\u{1b}');
    push_char(buf, '[');
    push_char(buf, '0');
    push_char(buf, 'm');
    assert(buf@ =~= start + reset());
}

/// Appends `text` with the given colors applied.
pub fn paint(
    text: &str,
    foreground: Option<Rgb>,
    background: Option<Rgb>,
    reset_color: bool,
    buf: &mut String,
)
    ensures
        final(buf)@ == old(buf)@ + painted(text@, foreground, background, reset_color),
{
    let ghost start = buf@;
    match background {
        Some(b) => {
            push_color_escape(buf, '4', b);
            if reset_color {
                push_reset(buf);
            }
        },
        None => {},
    }
    let ghost mid = buf@;
    match foreground {
        Some(f) => {
            push_color_escape(buf, '3', f);
            buf.append(text);
            if reset_color {
                push_reset(buf);
            }
        },
        None => {
            buf.append(text);
        },
    }
    assert(buf@ =~= start + painted(text@, foreground, background, reset_color));
}

/// Appends the spans painted on `background`, then one reset.
pub fn paint_ranges(spans: &Vec<StyledSpan>, background: Option<Rgb>, buf: &mut String)
    ensures
        final(buf)@ == old(buf)@ + painted_spans(spans@, background) + reset(),
{
    let ghost start = buf@;
    let mut i: usize = 0;
    while i < spans.len()
        invariant
            i <= spans@.len(),
            buf@ == start + painted_spans(spans@.subrange(0, i as int), background),
        decreases spans@.len() - i,
    {
        let ghost before = buf@;
        paint(spans[i].text.as_str(), Some(spans[i].foreground), background, false, buf);
        i = i + 1;
        assert(spans@.subrange(0, i as int).drop_last() =~= spans@.subrange(0, i - 1));
    }
    assert(spans@.subrange(0, spans@.len() as int) =~= spans@);
    push_reset(buf);
}

} // verus!
