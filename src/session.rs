//! The stream driver's per-line step: it carries the diff state and the
//! current file's grammar from one line to the next.
use vstd::prelude::*;
use syntect::highlighting::Theme;
use syntect::parsing::{SyntaxReference, SyntaxSet};
use crate::classify::{
    DiffState, classify, file_extension, next_state, is_hunk_content, opens_file_diff,
    extension_of, hunk_content, opens_file_diff_line,
};
use crate::compose::{working_text, composited, line_to_highlight, assemble_line};
use crate::highlight::{
    ansi_stripped, strip_ansi, resolve_syntax, highlight_text, bundled_set, grammar_in,
    has_syntax_for, highlight_fails, highlight_covers,
};
use crate::paint::{StyledSpan, span_text};
use crate::laws::lemma_composited_keeps_out;
use crate::text::chars_of;

verus! {

/// The state carried across the lines of one run.
pub struct Session<'a> {
    pub state: DiffState,
    pub syntax: Option<&'a SyntaxReference>,
    pub syntaxes: &'a SyntaxSet,
    pub theme: &'a Theme,
    pub width: usize,
}

/// Whether a line is composited rather than passed through.
pub open spec fn is_composited(state: DiffState, has_syntax: bool, line: Seq<char>) -> bool {
    is_hunk_content(state, line) && has_syntax
}

/// The hunk line `line`, highlighted and composited at `width`, or `None`
/// when the highlighter fails or its spans do not make up the text.
pub fn composite_line(
    line: &Vec<char>,
    syntax: &SyntaxReference,
    theme: &Theme,
    set: &SyntaxSet,
    width: usize,
) -> (r: Option<String>)
    requires
        bundled_set(*set),
        grammar_in(*syntax, *set),
    ensures
        r is Some <==> highlights(*syntax, *set, working_text(line@, width as nat)),
        r matches Some(s) ==> exists|spans: Seq<StyledSpan>|
            span_text(spans) == working_text(line@, width as nat)
                && s@ == composited(line@, spans),
{
    let text = line_to_highlight(line, width);
    match highlight_text(syntax, theme, set, text.as_str()) {
        Some(spans) => {
            let out = assemble_line(line, &spans);
            assert(span_text(spans@) == working_text(line@, width as nat));
            Some(out)
        },
        None => None,
    }
}

/// A fresh highlighter for `syntax` succeeds on `text` with spans that make
/// it up.
pub open spec fn highlights(syntax: SyntaxReference, set: SyntaxSet, text: Seq<char>) -> bool {
    !highlight_fails(syntax, set, text) && highlight_covers(syntax, set, text)
}

impl<'a> Session<'a> {
    /// The grammar set is syntect's bundled one, and the current grammar is
    /// one of its grammars.
    pub open spec fn wf(&self) -> bool {
        bundled_set(*self.syntaxes) && (self.syntax matches Some(g) ==> grammar_in(
            *g,
            *self.syntaxes,
        ))
    }

    /// A session in the `Unknown` state with no grammar.
    pub fn new(syntaxes: &'a SyntaxSet, theme: &'a Theme, width: usize) -> (r: Self)
        requires
            bundled_set(*syntaxes),
        ensures
            r.wf(),
            r.state == DiffState::Unknown,
            r.syntax is None,
            r.syntaxes == syntaxes,
            r.theme == theme,
            r.width == width,
    {
        Session { state: DiffState::Unknown, syntax: None, syntaxes, theme, width }
    }

    /// Handles one input line and returns the one line to emit for it: the
    /// composited line for hunk content under a resolved grammar that
    /// highlights it, else the raw line unchanged.
    pub fn process_line(&mut self, raw: &str) -> (r: String)
        requires
            old(self).wf(),
        ensures
            final(self).wf(),
            final(self).state == next_state(old(self).state, ansi_stripped(raw@)),
            final(self).syntaxes == old(self).syntaxes,
            final(self).theme == old(self).theme,
            final(self).width == old(self).width,
            !opens_file_diff(ansi_stripped(raw@)) ==> final(self).syntax == old(self).syntax,
            opens_file_diff(ansi_stripped(raw@)) ==> match extension_of(ansi_stripped(raw@)) {
                Some(e) => (final(self).syntax is Some <==> has_syntax_for(*old(self).syntaxes, e)),
                None => final(self).syntax is None,
            },
            !is_composited(old(self).state, old(self).syntax is Some, ansi_stripped(raw@))
                ==> r@ == raw@,
            !is_composited(old(self).state, old(self).syntax is Some, ansi_stripped(raw@))
                && !raw@.contains('\u{1b}') && !raw@.contains('\u{9b}') ==> r@ == ansi_stripped(
                raw@,
            ),
            is_composited(old(self).state, old(self).syntax is Some, ansi_stripped(raw@)) ==> if highlights(
                *old(self).syntax->0,
                *old(self).syntaxes,
                working_text(ansi_stripped(raw@), old(self).width as nat),
            ) {
                exists|spans: Seq<StyledSpan>|
                    span_text(spans) == working_text(ansi_stripped(raw@), old(self).width as nat)
                        && r@ == composited(ansi_stripped(raw@), spans)
            } else {
                r@ == raw@
            },
            !raw@.contains('\n') ==> !r@.contains('\n'),
    {
        let stripped = strip_ansi(raw);
        let line = chars_of(stripped.as_str());
        let hunk = hunk_content(self.state, &line);
        let opens = opens_file_diff_line(&line);
        let mut out: Option<String> = None;
        if hunk {
            match self.syntax {
                Some(syntax) => {
                    out = composite_line(&line, syntax, self.theme, self.syntaxes, self.width);
                },
                None => {},
            }
        }
        if opens {
            self.syntax = resolve_syntax(self.syntaxes, file_extension(&line));
        }
        self.state = classify(self.state, &line);
        match out {
            Some(s) => {
                proof {
                    if !raw@.contains('\n') {
                        let spans = choose|spans: Seq<StyledSpan>|
                            span_text(spans) == working_text(line@, old(self).width as nat)
                                && s@ == composited(line@, spans);
                        lemma_composited_keeps_out(line@, spans, old(self).width as nat, '\n');
                    }
                }
                s
            },
            None => raw.to_owned(),
        }
    }
}

} // verus!
