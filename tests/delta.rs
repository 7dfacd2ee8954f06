use delta::classify::{classify, file_extension, hunk_content, opens_file_diff_line, DiffState};
use delta::compose::{
    added_background, assemble_line, line_to_highlight, marker_tint, pad_to_width,
    removed_background, DEFAULT_WIDTH,
};
use delta::highlight::{
    default_syntaxes, highlight_text, joins_to, resolve_syntax, resolve_theme, theme_name,
    DELTA_THEME_DEFAULT,
};
use delta::paint::{paint, paint_ranges, push_decimal, push_reset, Rgb, StyledSpan};
use delta::session::{composite_line, Session};
use syntect::highlighting::ThemeSet;
use syntect::parsing::SyntaxSet;

fn chars(s: &str) -> Vec<char> {
    s.chars().collect()
}

/// The characters of `s` outside `ESC [ ... m` sequences.
fn visible(s: &str) -> String {
    let mut out = String::new();
    let mut in_escape = false;
    for c in s.chars() {
        if in_escape {
            if c == 'm' {
                in_escape = false;
            }
        } else if c == '\u{1b}' {
            in_escape = true;
        } else {
            out.push(c);
        }
    }
    out
}

fn registries() -> (SyntaxSet, ThemeSet) {
    (default_syntaxes(), ThemeSet::load_defaults())
}

fn run(lines: &[&str], width: usize) -> Vec<String> {
    let (syntaxes, themes) = registries();
    let theme = resolve_theme(&themes, None).unwrap();
    let mut session = Session::new(&syntaxes, theme, width);
    lines.iter().map(|l| session.process_line(l)).collect()
}

#[test]
fn classify_follows_prefixes() {
    assert_eq!(classify(DiffState::Unknown, &chars("diff --git a/x b/x")), DiffState::DiffMeta);
    assert_eq!(classify(DiffState::DiffHunk, &chars("commit 1234")), DiffState::Commit);
    assert_eq!(classify(DiffState::DiffMeta, &chars("@@ -1 +1 @@")), DiffState::DiffHunk);
    assert_eq!(classify(DiffState::DiffHunk, &chars("+x")), DiffState::DiffHunk);
    assert_eq!(classify(DiffState::Commit, &chars("Author: a")), DiffState::Commit);
    assert_eq!(classify(DiffState::Unknown, &chars("diff -u")), DiffState::Unknown);
    assert_eq!(classify(DiffState::Unknown, &chars("")), DiffState::Unknown);
}

#[test]
fn hunk_content_needs_hunk_state() {
    assert!(hunk_content(DiffState::DiffHunk, &chars("+x")));
    assert!(hunk_content(DiffState::DiffHunk, &chars(" context")));
    assert!(!hunk_content(DiffState::DiffHunk, &chars("@@ -2 +2 @@")));
    assert!(!hunk_content(DiffState::DiffMeta, &chars("+x")));
    assert!(opens_file_diff_line(&chars("diff --git a/x b/x")));
    assert!(!opens_file_diff_line(&chars("diff-git")));
}

#[test]
fn extension_of_last_path() {
    assert_eq!(file_extension(&chars("diff --git a/foo.py b/foo.py")), Some("py".to_string()));
    assert_eq!(file_extension(&chars("diff --git a/x.tar.gz b/x.tar.gz")), Some("gz".to_string()));
    assert_eq!(file_extension(&chars("diff --git a/Makefile b/Makefile")), None);
    assert_eq!(file_extension(&chars("diff --git a/d.x/Makefile b/d.x/Makefile")), None);
    assert_eq!(file_extension(&chars("diff --git a/foo. b/foo.")), None);
    assert_eq!(file_extension(&chars("")), None);
}

#[test]
fn decimal_digits() {
    for (n, want) in [(0u8, "0"), (7, "7"), (42, "42"), (100, "100"), (255, "255")] {
        let mut s = String::new();
        push_decimal(&mut s, n);
        assert_eq!(s, want);
    }
}

#[test]
fn paint_with_and_without_colors() {
    let fg = Rgb { r: 1, g: 2, b: 3 };
    let bg = Rgb { r: 200, g: 0, b: 45 };
    let mut s = String::from(">");
    paint("ab", Some(fg), Some(bg), false, &mut s);
    assert_eq!(s, ">\x1b[48;2;200;0;45m\x1b[38;2;1;2;3mab");
    let mut s = String::new();
    paint("ab", Some(fg), None, true, &mut s);
    assert_eq!(s, "\x1b[38;2;1;2;3mab\x1b[0m");
    let mut s = String::new();
    paint("ab", None, Some(bg), true, &mut s);
    assert_eq!(s, "\x1b[48;2;200;0;45m\x1b[0mab");
    let mut s = String::new();
    push_reset(&mut s);
    assert_eq!(s, "\x1b[0m");
}

#[test]
fn paint_ranges_single_trailing_reset() {
    let spans = vec![
        StyledSpan { foreground: Rgb { r: 9, g: 8, b: 7 }, text: "x".to_string() },
        StyledSpan { foreground: Rgb { r: 10, g: 11, b: 12 }, text: "yz".to_string() },
    ];
    let mut s = String::new();
    paint_ranges(&spans, Some(added_background()), &mut s);
    assert_eq!(
        s,
        "\x1b[48;2;1;24;0m\x1b[38;2;9;8;7mx\x1b[48;2;1;24;0m\x1b[38;2;10;11;12myz\x1b[0m"
    );
    let mut s = String::new();
    paint_ranges(&Vec::new(), Some(removed_background()), &mut s);
    assert_eq!(s, "\x1b[0m");
}

#[test]
fn tint_by_marker() {
    assert_eq!(marker_tint(&chars("+a")), Some(Rgb { r: 0x01, g: 0x18, b: 0x00 }));
    assert_eq!(marker_tint(&chars("-a")), Some(Rgb { r: 0x24, g: 0x00, b: 0x01 }));
    assert_eq!(marker_tint(&chars(" a")), None);
    assert_eq!(marker_tint(&chars("")), None);
}

#[test]
fn padding_never_truncates() {
    assert_eq!(pad_to_width(&chars("ab"), 5), "ab   ");
    assert_eq!(pad_to_width(&chars("abcdef"), 3), "abcdef");
    assert_eq!(pad_to_width(&chars(""), 0), "");
    assert_eq!(pad_to_width(&chars("é"), 2), "é ");
}

#[test]
fn marker_is_stripped_before_padding() {
    assert_eq!(line_to_highlight(&chars("+abc"), 5), "abc  ");
    assert_eq!(line_to_highlight(&chars("-abc"), 2), "abc");
    assert_eq!(line_to_highlight(&chars(" abc"), 5), " abc ");
    assert_eq!(line_to_highlight(&chars("+"), 0), "");
    assert_eq!(line_to_highlight(&chars("+abc"), DEFAULT_WIDTH).chars().count(), 100);
}

#[test]
fn assembled_line_has_lead_tint_and_reset() {
    let spans = vec![StyledSpan { foreground: Rgb { r: 1, g: 1, b: 1 }, text: "ab".to_string() }];
    assert_eq!(
        assemble_line(&chars("-ab"), &spans),
        " \x1b[48;2;36;0;1m\x1b[38;2;1;1;1mab\x1b[0m"
    );
    assert_eq!(assemble_line(&chars(" ab"), &spans), "\x1b[38;2;1;1;1mab\x1b[0m");
    assert_eq!(assemble_line(&chars(""), &Vec::new()), "\x1b[0m");
}

#[test]
fn theme_name_falls_back_to_default() {
    assert_eq!(theme_name(None), "base16-mocha.dark");
    assert_eq!(theme_name(Some("InspiredGitHub")), "InspiredGitHub");
}

#[test]
fn spans_join_check() {
    let spans = vec![
        StyledSpan { foreground: Rgb { r: 0, g: 0, b: 0 }, text: "ab".to_string() },
        StyledSpan { foreground: Rgb { r: 0, g: 0, b: 0 }, text: "c".to_string() },
    ];
    assert!(joins_to(&spans, "abc"));
    assert!(!joins_to(&spans, "ab"));
    assert!(!joins_to(&spans, "abcd"));
    assert!(joins_to(&Vec::new(), ""));
}

#[test]
fn theme_and_grammar_lookup() {
    let (syntaxes, themes) = registries();
    assert!(resolve_theme(&themes, None).is_some());
    assert!(resolve_theme(&themes, Some(DELTA_THEME_DEFAULT)).is_some());
    assert!(resolve_theme(&themes, Some("no-such-theme")).is_none());
    assert!(resolve_syntax(&syntaxes, Some("py".to_string())).is_some());
    assert!(resolve_syntax(&syntaxes, Some("unknownext".to_string())).is_none());
    assert!(resolve_syntax(&syntaxes, None).is_none());
}

#[test]
fn highlighter_covers_text() {
    let (syntaxes, themes) = registries();
    let theme = resolve_theme(&themes, None).unwrap();
    let syntax = resolve_syntax(&syntaxes, Some("py".to_string())).unwrap();
    let spans = highlight_text(syntax, theme, &syntaxes, "print(\"hi\")").unwrap();
    assert!(spans.len() > 1);
    let joined: String = spans.iter().map(|s| s.text.as_str()).collect();
    assert_eq!(joined, "print(\"hi\")");
    let out = composite_line(&chars("+x = 1"), syntax, theme, &syntaxes, 10).unwrap();
    assert_eq!(visible(&out), " x = 1     ");
}

#[test]
fn python_added_line_is_composited() {
    let out = run(&["diff --git a/foo.py b/foo.py", "@@ -1,1 +1,1 @@", "+print(\"hi\")"], 100);
    assert_eq!(out[0], "diff --git a/foo.py b/foo.py");
    assert_eq!(out[1], "@@ -1,1 +1,1 @@");
    let line = &out[2];
    assert!(line.starts_with(" \x1b[48;2;1;24;0m\x1b[38;2;"));
    assert!(line.ends_with("\x1b[0m"));
    assert_eq!(line.matches("\x1b[0m").count(), 1);
    assert!(line.matches("\x1b[38;2;").count() > 1);
    let shown = visible(line);
    assert_eq!(shown.chars().count(), 101);
    assert_eq!(shown, format!(" print(\"hi\"){}", " ".repeat(89)));
}

#[test]
fn unknown_extension_passes_through() {
    let input = ["diff --git a/foo.unknownext b/foo.unknownext", "@@ -1,1 +1,1 @@", "+print(\"hi\")"];
    let out = run(&input, 100);
    assert_eq!(out, input.to_vec());
}

#[test]
fn lines_outside_hunks_pass_through() {
    let input = [
        "commit abc",
        "Author: someone",
        "+not in a hunk",
        "diff --git a/a.rs b/a.rs",
        "index 1..2",
        "--- a/a.rs",
        "\x1b[1mbold\x1b[0m",
    ];
    let out = run(&input, 100);
    assert_eq!(out, input.to_vec());
}

#[test]
fn one_output_line_per_input_line() {
    let input = [
        "commit abc",
        "diff --git a/a.rs b/a.rs",
        "@@ -1,3 +1,3 @@",
        " fn main() {",
        "-    let x = 1;",
        "+    let x = 2;",
        "",
        "@@ -9 +9 @@",
    ];
    let out = run(&input, 20);
    assert_eq!(out.len(), input.len());
    for line in &out {
        assert!(!line.contains('\n'));
    }
    assert!(out[4].starts_with(" \x1b[48;2;36;0;1m"));
    assert_eq!(visible(&out[3]), format!(" fn main() {{{}", " ".repeat(8)));
    assert_eq!(out[7], "@@ -9 +9 @@");
}

#[test]
fn pass_through_twice_is_identity() {
    let input = ["diff --git a/x.unknownext b/x.unknownext", "@@ -1 +1 @@", "-gone", "plain"];
    let once = run(&input, 100);
    let refs: Vec<&str> = once.iter().map(|s| s.as_str()).collect();
    let twice = run(&refs, 100);
    assert_eq!(twice, input.to_vec());
}

#[test]
fn colored_input_is_stripped_before_compositing() {
    let out = run(&["diff --git a/a.py b/a.py", "\x1b[36m@@ -1 +1 @@\x1b[0m", "\x1b[32m+x\x1b[0m"], 4);
    assert_eq!(out[1], "\x1b[36m@@ -1 +1 @@\x1b[0m");
    assert!(out[2].starts_with(" \x1b[48;2;1;24;0m"));
    assert_eq!(visible(&out[2]), " x   ");
    assert_eq!(out[2].matches("\x1b[0m").count(), 1);
}

#[test]
fn grammar_resets_on_next_file() {
    let out = run(
        &["diff --git a/a.py b/a.py", "@@ -1 +1 @@", "+x", "diff --git a/b b/b", "@@ -1 +1 @@", "+x"],
        4,
    );
    assert!(out[2].ends_with("\x1b[0m"));
    assert_eq!(out[5], "+x");
}
