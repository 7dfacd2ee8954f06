//! The syntax highlighter and the ANSI stripper, as this library sees them.
use vstd::prelude::*;
use syntect::easy::HighlightLines;
use syntect::highlighting::{Theme, ThemeSet};
use syntect::parsing::{SyntaxReference, SyntaxSet};
use crate::paint::{Rgb, StyledSpan, span_text};

verus! {

#[verifier::external_type_specification]
#[verifier::external_body]
pub struct ExSyntaxSet(SyntaxSet);

#[verifier::external_type_specification]
#[verifier::external_body]
pub struct ExSyntaxReference(SyntaxReference);

#[verifier::external_type_specification]
#[verifier::external_body]
pub struct ExTheme(Theme);

#[verifier::external_type_specification]
#[verifier::external_body]
pub struct ExThemeSet(ThemeSet);

#[verifier::external_type_specification]
#[verifier::external_body]
pub struct ExSyntectError(syntect::Error);

/// The theme used when none is named.
pub const DELTA_THEME_DEFAULT: &'static str = "base16-mocha.dark";

/// What `console::strip_ansi_codes` makes of a string.
pub uninterp spec fn ansi_stripped(s: Seq<char>) -> Seq<char>;

/// Whether `set` is syntect's bundled grammar set.
pub uninterp spec fn bundled_set(set: SyntaxSet) -> bool;

/// Whether `syntax` is one of the grammars that `set` holds.
pub uninterp spec fn grammar_in(syntax: SyntaxReference, set: SyntaxSet) -> bool;

/// Whether `set` holds a grammar for the file extension.
pub uninterp spec fn has_syntax_for(set: SyntaxSet, extension: Seq<char>) -> bool;

/// Whether a fresh highlighter for `syntax` fails on `line`.
pub uninterp spec fn highlight_fails(syntax: SyntaxReference, set: SyntaxSet, line: Seq<char>) -> bool;

/// Whether the spans that a fresh highlighter for `syntax` returns for `line`
/// join to the whole line.
pub uninterp spec fn highlight_covers(syntax: SyntaxReference, set: SyntaxSet, line: Seq<char>) -> bool;

/// Whether `set` holds a theme under `name`.
pub uninterp spec fn has_theme(set: ThemeSet, name: Seq<char>) -> bool;

/// Relies on `console::strip_ansi_codes`: it removes escape sequences and
/// keeps the rest, so it adds no character that `s` lacks; a string with no
/// escape or CSI character holds no sequence and is returned as it is.
#[verifier::external_body]
pub(crate) fn strip_ansi(s: &str) -> (r: String)
    ensures
        r@ == ansi_stripped(s@),
        forall|c: char| r@.contains(c) ==> s@.contains(c),
        !s@.contains('\u{1b}') && !s@.contains('\u{9b}') ==> r@ == s@,
{
    console::strip_ansi_codes(s).to_string()
}

/// Relies on `SyntaxSet::load_defaults_newlines`: syntect's bundled grammars,
/// each built by its YAML loader, which gives every grammar its start context
/// and checks its patterns.
#[verifier::external_body]
fn load_bundled_syntaxes() -> (r: SyntaxSet)
    ensures
        bundled_set(r),
{
    SyntaxSet::load_defaults_newlines()
}

/// Relies on `SyntaxSet::find_syntax_by_extension`: a grammar of the set whose
/// extensions include `extension`, if the set has one.
pub assume_specification<'a>[ SyntaxSet::find_syntax_by_extension ](
    set: &'a SyntaxSet,
    extension: &str,
) -> (r: Option<&'a SyntaxReference>)
    ensures
        r is Some <==> has_syntax_for(*set, extension@),
        r matches Some(g) ==> grammar_in(*g, *set),
;

/// Relies on `HighlightLines::new` and `HighlightLines::highlight_line`: a
/// fresh highlighter for `syntax` and `theme` run on one line of `set`'s
/// grammars. Both name their outcome.
#[verifier::external_body]
fn highlight_fresh(
    syntax: &SyntaxReference,
    theme: &Theme,
    set: &SyntaxSet,
    line: &str,
) -> (r: Result<Vec<StyledSpan>, syntect::Error>)
    requires
        bundled_set(*set),
        grammar_in(*syntax, *set),
    ensures
        r is Err <==> highlight_fails(*syntax, *set, line@),
        r matches Ok(spans) ==> (span_text(spans@) == line@ <==> highlight_covers(
            *syntax,
            *set,
            line@,
        )),
{
    HighlightLines::new(syntax, theme).highlight_line(line, set).map(
        |v| v.into_iter().map(|(style, text)| StyledSpan {
            foreground: Rgb { r: style.foreground.r, g: style.foreground.g, b: style.foreground.b },
            text: text.to_string(),
        }).collect(),
    )
}

/// Relies on the `themes` map of a `ThemeSet`: the theme stored under `name`.
#[verifier::external_body]
fn find_theme<'a>(set: &'a ThemeSet, name: &str) -> (r: Option<&'a Theme>)
    ensures
        r is Some <==> has_theme(*set, name@),
{
    set.themes.get(name)
}

/// syntect's bundled grammars.
pub fn default_syntaxes() -> (r: SyntaxSet)
    ensures
        bundled_set(r),
{
    load_bundled_syntaxes()
}

/// The theme name to look up: the one given, else the default.
pub fn theme_name<'b>(name: Option<&'b str>) -> (r: &'b str)
    ensures
        r@ == match name {
            Some(n) => n@,
            None => DELTA_THEME_DEFAULT@,
        },
{
    match name {
        Some(n) => n,
        None => DELTA_THEME_DEFAULT,
    }
}

/// The theme named `name`, or the default theme when no name is given.
pub fn resolve_theme<'a>(set: &'a ThemeSet, name: Option<&str>) -> (r: Option<&'a Theme>)
    ensures
        r is Some <==> has_theme(
            *set,
            match name {
                Some(n) => n@,
                None => DELTA_THEME_DEFAULT@,
            },
        ),
{
    find_theme(set, theme_name(name))
}

/// The grammar for a file extension; none without an extension.
pub fn resolve_syntax<'a>(set: &'a SyntaxSet, extension: Option<String>) -> (r: Option<
    &'a SyntaxReference,
>)
    ensures
        extension is None ==> r is None,
        extension matches Some(e) ==> (r is Some <==> has_syntax_for(*set, e@)),
        r matches Some(g) ==> grammar_in(*g, *set),
{
    match extension {
        Some(e) => set.find_syntax_by_extension(e.as_str()),
        None => None,
    }
}

/// Whether the spans' texts, joined in order, are `text`.
pub fn joins_to(spans: &Vec<StyledSpan>, text: &str) -> (r: bool)
    ensures
        r == (span_text(spans@) == text@),
{
    let mut joined = String::new();
    let mut i: usize = 0;
    while i < spans.len()
        invariant
            i <= spans@.len(),
            joined@ == span_text(spans@.subrange(0, i as int)),
        decreases spans@.len() - i,
    {
        joined.append(spans[i].text.as_str());
        i = i + 1;
        assert(spans@.subrange(0, i as int).drop_last() =~= spans@.subrange(0, i - 1));
    }
    assert(spans@.subrange(0, spans@.len() as int) =~= spans@);
    let whole = text.to_owned();
    joined == whole
}

/// The spans of `text` under a fresh highlighter for `syntax` and `theme`:
/// `None` when highlighting fails or its spans do not make up the text.
pub fn highlight_text(
    syntax: &SyntaxReference,
    theme: &Theme,
    set: &SyntaxSet,
    text: &str,
) -> (r: Option<Vec<StyledSpan>>)
    requires
        bundled_set(*set),
        grammar_in(*syntax, *set),
    ensures
        r is Some <==> !highlight_fails(*syntax, *set, text@) && highlight_covers(
            *syntax,
            *set,
            text@,
        ),
        r matches Some(spans) ==> span_text(spans@) == text@,
{
    match highlight_fresh(syntax, theme, set, text) {
        Ok(spans) => {
            if joins_to(&spans, text) {
                Some(spans)
            } else {
                None
            }
        },
        Err(_) => None,
    }
}

} // verus!
