//! Properties of the compositor and the painter, proved over their spec
//! functions.
use vstd::prelude::*;
use crate::compose::{
    added_tint, body_of, composited, lead_of, padded, tint_of, working_text,
};
use crate::paint::{
    color_escape, decimal, digit_char, escape_char, painted, painted_spans, reset, span_text,
    StyledSpan,
};

verus! {

/// No character of `s` is `c`.
pub open spec fn lacks(s: Seq<char>, c: char) -> bool {
    forall|i: int| 0 <= i < s.len() ==> s[i] != c
}

/// A character that escape sequences are made of.
pub open spec fn is_escape_char(c: char) -> bool {
    c == escape_char() || c == '[' || c == ';' || c == 'm' || c == '0' || c == '1' || c == '2'
        || c == '3' || c == '4' || c == '5' || c == '6' || c == '7' || c == '8' || c == '9'
}

/// Every escape character in `s` opens a color sequence: it is followed by
/// `[` and the layer digit `3` or `4`.
pub open spec fn color_escapes_only(s: Seq<char>) -> bool {
    forall|i: int|
        0 <= i < s.len() && #[trigger] s[i] == escape_char() ==> i + 2 < s.len() && s[i + 1]
            == '[' && (s[i + 2] == '3' || s[i + 2] == '4')
}

proof fn lemma_decimal_digits(n: nat)
    ensures
        forall|i: int| 0 <= i < decimal(n).len() ==> is_escape_char(#[trigger] decimal(n)[i])
            && decimal(n)[i] != escape_char() && decimal(n)[i] != 'm',
    decreases n,
{
    let d = decimal(n);
    if n >= 10 {
        lemma_decimal_digits(n / 10);
        let p = decimal(n / 10);
        assert(d == p.push(digit_char((n % 10) as int)));
        assert forall|i: int| 0 <= i < d.len() implies is_escape_char(#[trigger] d[i])
            && d[i] != escape_char() && d[i] != 'm' by {
            if i < p.len() {
                assert(d[i] == p[i]);
            }
        }
    }
}

proof fn lemma_lacks_concat(a: Seq<char>, b: Seq<char>, c: char)
    ensures
        lacks(a + b, c) == (lacks(a, c) && lacks(b, c)),
{
    let s = a + b;
    if lacks(s, c) {
        assert forall|i: int| 0 <= i < b.len() implies b[i] != c by {
            assert(s[a.len() + i] == b[i]);
        }
        assert forall|i: int| 0 <= i < a.len() implies a[i] != c by {
            assert(s[i] == a[i]);
        }
    }
    if lacks(a, c) && lacks(b, c) {
        assert forall|i: int| 0 <= i < s.len() implies s[i] != c by {
            if i < a.len() {
                assert(s[i] == a[i]);
            } else {
                assert(s[i] == b[i - a.len()]);
            }
        }
    }
}

proof fn lemma_color_escapes_concat(a: Seq<char>, b: Seq<char>)
    requires
        color_escapes_only(a),
        color_escapes_only(b),
    ensures
        color_escapes_only(a + b),
{
    let s = a + b;
    assert forall|i: int| 0 <= i < s.len() && #[trigger] s[i] == escape_char() implies i + 2
        < s.len() && s[i + 1] == '[' && (s[i + 2] == '3' || s[i + 2] == '4') by {
        if i < a.len() {
            assert(a[i] == escape_char());
        } else {
            assert(b[i - a.len()] == escape_char());
        }
    }
}

proof fn lemma_color_escape_shape(layer: char, c: crate::paint::Rgb)
    requires
        layer == '3' || layer == '4',
    ensures
        color_escapes_only(color_escape(layer, c)),
        forall|x: char| !is_escape_char(x) ==> lacks(color_escape(layer, c), x),
        color_escape(layer, c) == seq![escape_char()] + color_escape(layer, c).subrange(
            1,
            color_escape(layer, c).len() - 1,
        ) + seq!['m'],
        lacks(color_escape(layer, c).subrange(1, color_escape(layer, c).len() - 1), 'm'),
{
    lemma_decimal_digits(c.r as nat);
    lemma_decimal_digits(c.g as nat);
    lemma_decimal_digits(c.b as nat);
    let s = color_escape(layer, c);
    assert forall|i: int| 0 < i < s.len() implies s[i] != escape_char() && is_escape_char(
        s[i],
    ) && (i < s.len() - 1 ==> s[i] != 'm') by {
        let p = seq![escape_char(), '[', layer, '8', ';', '2', ';'];
        let d1 = decimal(c.r as nat);
        let d2 = decimal(c.g as nat);
        let d3 = decimal(c.b as nat);
        if i < 7 {
        } else if i < 7 + d1.len() {
            assert(s[i] == d1[i - 7]);
        } else if i == 7 + d1.len() {
        } else if i < 8 + d1.len() + d2.len() {
            assert(s[i] == d2[i - 8 - d1.len()]);
        } else if i == 8 + d1.len() + d2.len() {
        } else if i < 9 + d1.len() + d2.len() + d3.len() {
            assert(s[i] == d3[i - 9 - d1.len() - d2.len()]);
        }
    }
    let mid = s.subrange(1, s.len() - 1);
    assert(s =~= seq![escape_char()] + mid + seq!['m']);
    assert forall|i: int| 0 <= i < mid.len() implies mid[i] != 'm' by {
        assert(mid[i] == s[i + 1]);
    }
}

proof fn lemma_painted_spans_shape(spans: Seq<StyledSpan>, background: Option<crate::paint::Rgb>)
    requires
        forall|k: int| 0 <= k < spans.len() ==> lacks(#[trigger] spans[k].text@, escape_char()),
    ensures
        color_escapes_only(painted_spans(spans, background)),
    decreases spans.len(),
{
    if spans.len() > 0 {
        let last = spans.last();
        lemma_painted_spans_shape(spans.drop_last(), background);
        assert(lacks(spans[spans.len() - 1].text@, escape_char()));
        let fg = color_escape('3', last.foreground);
        lemma_color_escape_shape('3', last.foreground);
        lemma_color_escapes_concat(fg, last.text@);
        match background {
            Some(b) => {
                lemma_color_escape_shape('4', b);
                lemma_color_escapes_concat(color_escape('4', b), fg + last.text@);
                assert(painted(last.text@, Some(last.foreground), background, false)
                    =~= color_escape('4', b) + (fg + last.text@));
            },
            None => {
                assert(painted(last.text@, Some(last.foreground), background, false)
                    =~= fg + last.text@);
            },
        }
        lemma_color_escapes_concat(
            painted_spans(spans.drop_last(), background),
            painted(last.text@, Some(last.foreground), background, false),
        );
    }
}

proof fn lemma_reset_only_at_end(body: Seq<char>)
    requires
        color_escapes_only(body),
    ensures
        ({
            let out = body + reset();
            &&& out.len() >= 4
            &&& out.subrange(out.len() - 4, out.len() as int) == reset()
            &&& forall|i: int|
                0 <= i && i + 4 <= out.len() && #[trigger] out.subrange(i, i + 4) == reset()
                    ==> i == out.len() - 4
        }),
{
    let out = body + reset();
    assert(out.subrange(out.len() - 4, out.len() as int) =~= reset());
    assert forall|i: int|
        0 <= i && i + 4 <= out.len() && #[trigger] out.subrange(i, i + 4) == reset() implies i
        == out.len() - 4 by {
        assert(out.subrange(i, i + 4)[0] == out[i]);
        assert(out.subrange(i, i + 4)[2] == out[i + 2]);
        if i < body.len() {
            assert(body[i] == escape_char());
            assert(out[i + 2] == body[i + 2]);
        }
    }
}

/// What `paint_ranges` appends ends in the reset sequence and holds it
/// nowhere else, for any background and any number of spans, when no span
/// text holds an escape character.
pub proof fn lemma_paint_ranges_single_reset(
    spans: Seq<StyledSpan>,
    background: Option<crate::paint::Rgb>,
)
    requires
        forall|k: int| 0 <= k < spans.len() ==> lacks(#[trigger] spans[k].text@, escape_char()),
    ensures
        ({
            let out = painted_spans(spans, background) + reset();
            &&& out.len() >= 4
            &&& out.subrange(out.len() - 4, out.len() as int) == reset()
            &&& forall|i: int|
                0 <= i && i + 4 <= out.len() && #[trigger] out.subrange(i, i + 4) == reset()
                    ==> i == out.len() - 4
        }),
{
    lemma_painted_spans_shape(spans, background);
    lemma_reset_only_at_end(painted_spans(spans, background));
}

/// A composited line ends in the reset sequence, and holds it nowhere else,
/// when no span text holds an escape character.
pub proof fn lemma_single_reset(line: Seq<char>, spans: Seq<StyledSpan>)
    requires
        forall|k: int| 0 <= k < spans.len() ==> lacks(#[trigger] spans[k].text@, escape_char()),
    ensures
        ({
            let out = composited(line, spans);
            &&& out.len() >= 4
            &&& out.subrange(out.len() - 4, out.len() as int) == reset()
            &&& forall|i: int|
                0 <= i && i + 4 <= out.len() && #[trigger] out.subrange(i, i + 4) == reset()
                    ==> i == out.len() - 4
        }),
{
    lemma_painted_spans_shape(spans, tint_of(line));
    assert(color_escapes_only(lead_of(line)));
    lemma_color_escapes_concat(lead_of(line), painted_spans(spans, tint_of(line)));
    lemma_reset_only_at_end(lead_of(line) + painted_spans(spans, tint_of(line)));
}

/// What a terminal shows of `s`: its characters outside SGR sequences, which
/// run from an escape character through the next `m`; `inside` says whether
/// `s` starts within such a sequence.
pub open spec fn shown(s: Seq<char>, inside: bool) -> Seq<char>
    decreases s.len(),
{
    if s.len() == 0 {
        Seq::empty()
    } else if inside {
        shown(s.drop_first(), s[0] != 'm')
    } else if s[0] == escape_char() {
        shown(s.drop_first(), true)
    } else {
        seq![s[0]] + shown(s.drop_first(), false)
    }
}

/// Whether the end of `s` lies within an SGR sequence.
pub open spec fn inside_after(s: Seq<char>, inside: bool) -> bool
    decreases s.len(),
{
    if s.len() == 0 {
        inside
    } else if inside {
        inside_after(s.drop_first(), s[0] != 'm')
    } else if s[0] == escape_char() {
        inside_after(s.drop_first(), true)
    } else {
        inside_after(s.drop_first(), false)
    }
}

proof fn lemma_shown_concat(a: Seq<char>, b: Seq<char>, inside: bool)
    ensures
        shown(a + b, inside) == shown(a, inside) + shown(b, inside_after(a, inside)),
        inside_after(a + b, inside) == inside_after(b, inside_after(a, inside)),
    decreases a.len(),
{
    if a.len() == 0 {
        assert(a + b =~= b);
    } else {
        assert((a + b).drop_first() =~= a.drop_first() + b);
        let next = if inside {
            a[0] != 'm'
        } else {
            a[0] == escape_char()
        };
        lemma_shown_concat(a.drop_first(), b, next);
        if !inside && a[0] != escape_char() {
            assert(seq![a[0]] + (shown(a.drop_first(), false) + shown(b, inside_after(a, inside)))
                =~= (seq![a[0]] + shown(a.drop_first(), false)) + shown(
                b,
                inside_after(a, inside),
            ));
        }
    }
}

proof fn lemma_shown_plain(s: Seq<char>)
    requires
        lacks(s, escape_char()),
    ensures
        shown(s, false) == s,
        !inside_after(s, false),
    decreases s.len(),
{
    if s.len() > 0 {
        lemma_shown_plain(s.drop_first());
        assert(seq![s[0]] + s.drop_first() =~= s);
    }
}

proof fn lemma_shown_within(s: Seq<char>)
    requires
        lacks(s, 'm'),
    ensures
        shown(s, true) == Seq::<char>::empty(),
        inside_after(s, true),
    decreases s.len(),
{
    if s.len() > 0 {
        lemma_shown_within(s.drop_first());
    }
}

proof fn lemma_shown_sequence(mid: Seq<char>)
    requires
        lacks(mid, 'm'),
    ensures
        shown(seq![escape_char()] + mid + seq!['m'], false) == Seq::<char>::empty(),
        !inside_after(seq![escape_char()] + mid + seq!['m'], false),
{
    let s = seq![escape_char()] + mid + seq!['m'];
    assert(s.drop_first() =~= mid + seq!['m']);
    lemma_shown_within(mid);
    lemma_shown_concat(mid, seq!['m'], true);
    assert(seq!['m'].drop_first() =~= Seq::<char>::empty());
    assert(shown(seq!['m'], true) == shown(Seq::<char>::empty(), false));
    assert(inside_after(seq!['m'], true) == inside_after(Seq::<char>::empty(), false));
    assert(shown(mid, true) + shown(seq!['m'], true) =~= Seq::<char>::empty());
}

proof fn lemma_shown_painted_spans(spans: Seq<StyledSpan>, background: Option<crate::paint::Rgb>)
    requires
        forall|k: int| 0 <= k < spans.len() ==> lacks(#[trigger] spans[k].text@, escape_char()),
    ensures
        shown(painted_spans(spans, background), false) == span_text(spans),
        !inside_after(painted_spans(spans, background), false),
    decreases spans.len(),
{
    if spans.len() > 0 {
        let last = spans.last();
        let rest = painted_spans(spans.drop_last(), background);
        lemma_shown_painted_spans(spans.drop_last(), background);
        assert(lacks(spans[spans.len() - 1].text@, escape_char()));
        lemma_shown_plain(last.text@);
        let fg = color_escape('3', last.foreground);
        lemma_color_escape_shape('3', last.foreground);
        lemma_shown_sequence(fg.subrange(1, fg.len() - 1));
        lemma_shown_concat(fg, last.text@, false);
        let piece = painted(last.text@, Some(last.foreground), background, false);
        match background {
            Some(b) => {
                let bg = color_escape('4', b);
                lemma_color_escape_shape('4', b);
                lemma_shown_sequence(bg.subrange(1, bg.len() - 1));
                lemma_shown_concat(bg, fg + last.text@, false);
                assert(piece =~= bg + (fg + last.text@));
            },
            None => {
                assert(piece =~= fg + last.text@);
            },
        }
        assert(shown(piece, false) =~= last.text@);
        lemma_shown_concat(rest, piece, false);
    }
}

/// A composited line shows, once its escape sequences are removed, the
/// space that replaced a marker and then the padded text: as many
/// characters as the longer of the unmarked line and the width, after that
/// space. This holds when no span text holds an escape character.
pub proof fn lemma_shown_width(line: Seq<char>, spans: Seq<StyledSpan>, width: nat)
    requires
        span_text(spans) == working_text(line, width),
        forall|k: int| 0 <= k < spans.len() ==> lacks(#[trigger] spans[k].text@, escape_char()),
    ensures
        shown(composited(line, spans), false) == lead_of(line) + padded(body_of(line), width),
        shown(composited(line, spans), false).len() == lead_of(line).len() + if body_of(
            line,
        ).len() < width {
            width
        } else {
            body_of(line).len()
        },
{
    let lead = lead_of(line);
    let body = painted_spans(spans, tint_of(line));
    lemma_shown_plain(lead);
    lemma_shown_painted_spans(spans, tint_of(line));
    lemma_shown_concat(lead, body, false);
    assert(reset() =~= seq![escape_char()] + seq!['[', '0'] + seq!['m']);
    lemma_shown_sequence(seq!['[', '0']);
    lemma_shown_concat(lead + body, reset(), false);
    assert(shown(composited(line, spans), false) =~= lead + span_text(spans));
    lemma_padded_length(body_of(line), width);
}

/// Padding keeps the text and fills with spaces up to the width: the result
/// is as long as the longer of the text and the width, and nothing is cut.
pub proof fn lemma_padded_length(s: Seq<char>, width: nat)
    ensures
        padded(s, width).len() == if s.len() < width { width } else { s.len() },
        padded(s, width).subrange(0, s.len() as int) == s,
        forall|i: int| s.len() <= i < padded(s, width).len() ==> padded(s, width)[i] == ' ',
{
    assert(padded(s, width).subrange(0, s.len() as int) =~= s);
}

/// A hunk line starting with `+` loses exactly that character, gains one
/// leading space in its place, and takes the added tint.
pub proof fn lemma_added_marker(line: Seq<char>)
    requires
        line.len() > 0,
        line[0] == '+',
    ensures
        body_of(line) == line.subrange(1, line.len() as int),
        body_of(line).len() == line.len() - 1,
        lead_of(line) == seq![' '],
        tint_of(line) == Some(added_tint()),
{
}

/// Compositing adds no character beyond escape sequences and spaces: a
/// character of neither kind that the line lacks, its output lacks too.
pub proof fn lemma_composited_keeps_out(
    line: Seq<char>,
    spans: Seq<StyledSpan>,
    width: nat,
    c: char,
)
    requires
        span_text(spans) == working_text(line, width),
        !line.contains(c),
        !is_escape_char(c),
        c != ' ',
    ensures
        !composited(line, spans).contains(c),
{
    let body = body_of(line);
    assert(lacks(body, c)) by {
        if body != line {
            assert forall|i: int| 0 <= i < body.len() implies body[i] != c by {
                assert(body[i] == line[i + 1]);
            }
        }
    }
    assert(lacks(padded(body, width), c));
    lemma_painted_spans_lack(spans, tint_of(line), c);
    lemma_lacks_concat(lead_of(line), painted_spans(spans, tint_of(line)), c);
    lemma_lacks_concat(lead_of(line) + painted_spans(spans, tint_of(line)), reset(), c);
    assert(lacks(composited(line, spans), c));
}

proof fn lemma_painted_spans_lack(
    spans: Seq<StyledSpan>,
    background: Option<crate::paint::Rgb>,
    c: char,
)
    requires
        lacks(span_text(spans), c),
        !is_escape_char(c),
    ensures
        lacks(painted_spans(spans, background), c),
    decreases spans.len(),
{
    if spans.len() > 0 {
        let last = spans.last();
        lemma_lacks_concat(span_text(spans.drop_last()), last.text@, c);
        lemma_painted_spans_lack(spans.drop_last(), background, c);
        let fg = color_escape('3', last.foreground);
        lemma_color_escape_shape('3', last.foreground);
        lemma_lacks_concat(fg, last.text@, c);
        match background {
            Some(b) => {
                lemma_color_escape_shape('4', b);
                lemma_lacks_concat(color_escape('4', b), fg + last.text@, c);
                assert(painted(last.text@, Some(last.foreground), background, false)
                    =~= color_escape('4', b) + (fg + last.text@));
            },
            None => {
                assert(painted(last.text@, Some(last.foreground), background, false)
                    =~= fg + last.text@);
            },
        }
        lemma_lacks_concat(
            painted_spans(spans.drop_last(), background),
            painted(last.text@, Some(last.foreground), background, false),
            c,
        );
    }
}

} // verus!
