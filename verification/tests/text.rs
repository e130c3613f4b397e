use plzplz::cli::format_help;
use plzplz::text::{
    contains, from_chars, join, parse_u32, split_lines, split_once, starts_with, strip_prefix,
    to_chars, trim_chars,
};
use plzplz::utils::{filtered, fuzzy_match, PickItem};

fn s(v: &Vec<char>) -> String {
    from_chars(v)
}

fn strip(content: &str) -> String {
    plzplz::templates::strip_template_section(content)
}

#[test]
fn strip_template_section() {
    let input = r#"[template]
description = "Test"
env = "rust"

# Build
[tasks.build]
run = "cargo build"
"#;
    let result = strip(input);
    assert!(!result.contains("[template]"));
    assert!(!result.contains("description = \"Test\""));
    assert!(result.contains("[tasks.build]"));
    assert!(result.contains("cargo build"));
    assert_eq!(result, "# Build\n[tasks.build]\nrun = \"cargo build\"\n");
}

#[test]
fn strip_template_section_ends_the_header_at_the_next_section() {
    let input = "\n\n  [template]  \nenv = \"uv\"\n[tasks.a]\nrun = \"a\"\n\n[tasks.b]\nrun = \"b\"";
    assert_eq!(
        strip(input),
        "[tasks.a]\nrun = \"a\"\n\n[tasks.b]\nrun = \"b\"\n"
    );
    assert_eq!(strip(""), "");
    assert_eq!(strip("[template]\nx = 1"), "");
    assert_eq!(strip("a\r\nb"), "a\nb\n");
    assert_eq!(strip("[template]\n[template]\n\nkept\n"), "kept\n");
}

#[test]
fn fuzzy_match_follows_the_order_of_the_letters() {
    assert!(fuzzy_match("bld", "build"));
    assert!(fuzzy_match("", "anything"));
    assert!(fuzzy_match("", ""));
    assert!(fuzzy_match("BUILD", "build"));
    assert!(fuzzy_match("build", "Re-BUILD all"));
    assert!(!fuzzy_match("dlb", "build"));
    assert!(!fuzzy_match("builds", "build"));
    assert!(!fuzzy_match("x", ""));
    assert!(fuzzy_match("tt", "test"));
    assert!(!fuzzy_match("ttt", "test"));
    assert!(fuzzy_match("é", "É"));
}

#[test]
fn filtered_offers_what_matches_label_or_description() {
    let items = vec![
        PickItem { label: "build".to_string(), description: "Compile".to_string(), preview: None },
        PickItem { label: "test".to_string(), description: "Run the build checks".to_string(), preview: None },
        PickItem { label: "fmt".to_string(), description: String::new(), preview: None },
    ];
    assert_eq!(filtered(&items, ""), vec![0, 1, 2]);
    assert_eq!(filtered(&items, "bld"), vec![0, 1]);
    assert_eq!(filtered(&items, "fm"), vec![2]);
    assert_eq!(filtered(&items, "zzz"), Vec::<usize>::new());
    assert_eq!(filtered(&vec![], "a"), Vec::<usize>::new());
}

#[test]
fn lines_end_at_line_feeds() {
    let rows = |t: &str| -> Vec<String> { split_lines(&to_chars(t)).iter().map(s).collect() };
    assert_eq!(rows(""), Vec::<String>::new());
    assert_eq!(rows("a"), vec!["a"]);
    assert_eq!(rows("a\n"), vec!["a"]);
    assert_eq!(rows("a\n\nb"), vec!["a", "", "b"]);
    assert_eq!(rows("\n"), vec![""]);
    assert_eq!(rows("foo\nbar\n\r\nbaz\r"), vec!["foo", "bar", "", "baz\r"]);
    assert_eq!(rows("a\rb\r\n"), vec!["a\rb"]);
    for t in ["", "a", "a\n", "a\n\nb", "\n", "foo\nbar\n\r\nbaz\r", "a\rb\r\n", "\r\n\r\n", "x\r"] {
        let expected: Vec<String> = t.lines().map(|l| l.to_string()).collect();
        assert_eq!(rows(t), expected, "lines of {t:?}");
    }
}

#[test]
fn trimming_agrees_with_the_standard_library() {
    for t in ["", " ", "a", "  a b \t\n", "\u{a0}x\u{2003}", "\r\n", "x  ", "  x", "#  y"] {
        assert_eq!(s(&trim_chars(&to_chars(t))), t.trim(), "trim of {t:?}");
    }
}

#[test]
fn searching_agrees_with_the_standard_library() {
    for (t, p) in [("", ""), ("abc", ""), ("abc", "abc"), ("abc", "bc"), ("abc", "abcd"), ("aab", "ab"), ("abab", "ba"), ("abc", "ac"), ("", "a")] {
        assert_eq!(contains(t, p), t.contains(p), "{t:?} contains {p:?}");
        assert_eq!(starts_with(t, p), t.starts_with(p), "{t:?} starts with {p:?}");
        assert_eq!(strip_prefix(t, p).as_deref(), t.strip_prefix(p), "{t:?} without {p:?}");
    }
    for (t, c) in [("", ':'), ("a:b", ':'), (":", ':'), ("a:b:c", ':'), ("abc", ':'), ("a:", ':')] {
        let expected = t.split_once(c).map(|(a, b)| (a.to_string(), b.to_string()));
        assert_eq!(split_once(t, c), expected, "{t:?} split at {c:?}");
    }
}

#[test]
fn numbers_agree_with_the_standard_library() {
    for t in ["", "+", "-", "0", "+0", "-0", "00012", "4294967295", "4294967296", "99999999999999999999", "1 ", " 1", "1_0", "+-1", "++1", "٣", "12a"] {
        let expected: Option<u32> = t.parse().ok();
        assert_eq!(parse_u32(&to_chars(t)), expected, "number in {t:?}");
    }
}

#[test]
fn join_puts_the_separator_between() {
    assert_eq!(join(&vec![], ", "), "");
    assert_eq!(join(&vec!["a".to_string()], ", "), "a");
    assert_eq!(join(&vec!["a".to_string(), "".to_string(), "b".to_string()], "--"), "a----b");
}

#[test]
fn cli_no_args_no_config_shows_help() {
    assert!(format_help().contains("Run a task from plz.toml"));
}

#[test]
fn cli_help_lists_all_commands() {
    let help = format_help();
    for word in ["init", "add [name]", "hooks", "hooks add", "schema", "cheatsheet", "update", "--no-interactive", "-h, --help"] {
        assert!(help.contains(word), "help lacks {word}");
    }
    assert!(help.contains("Commands:"));
    assert!(help.contains("Options:"));
}

#[test]
fn help_text_is_exact() {
    let expected = "\x1b[1mplz\x1b[0m [task] [args...]          Run a task from plz.toml\n\
\x1b[1mplz\x1b[0m [group] [task] [args...]  Run a task from a task group\n\
\x1b[1mplz\x1b[0m                           Choose a task interactively\n\
\n\
\x1b[2mCommands:\x1b[0m\n\
\x20 \x1b[2mplz\x1b[0m init        Create a plz.toml\n\
\x20 \x1b[2mplz\x1b[0m add [name]  Add a new task to plz.toml\n\
\x20 \x1b[2mplz\x1b[0m hooks       Install or manage git hooks\n\
\x20 \x1b[2mplz\x1b[0m hooks add   Add a git hook to existing tasks\n\
\x20 \x1b[2mplz\x1b[0m schema      Print JSON Schema for plz.toml\n\
\x20 \x1b[2mplz\x1b[0m cheatsheet  Print a cheatsheet of plz.toml features\n\
\x20 \x1b[2mplz\x1b[0m update      Update plz to the latest version\n\
\x20 \x1b[2mplz\x1b[0m plz         Manage global defaults\n\
\n\
\x1b[2mOptions:\x1b[0m\n\
\x20 --no-interactive  Disable interactive prompts (auto-detected in CI)\n\
\x20 -h, --help        Print help\n";
    assert_eq!(format_help(), expected);
}

fn is_space(c: char) -> bool {
    let n = c as u32;
    (0x09..=0x0D).contains(&n)
        || n == 0x20
        || n == 0x85
        || n == 0xA0
        || n == 0x1680
        || (0x2000..=0x200A).contains(&n)
        || n == 0x2028
        || n == 0x2029
        || n == 0x202F
        || n == 0x205F
        || n == 0x3000
}

#[test]
fn white_space_is_twenty_five_code_points() {
    let mut spaces = 0;
    for c in '\0'..=char::MAX {
        let kept = trim_chars(&vec![c]);
        if is_space(c) {
            spaces += 1;
            assert!(kept.is_empty(), "{:?} is white space", c);
        } else {
            assert_eq!(kept, vec![c], "{:?} is no white space", c);
        }
    }
    assert_eq!(spaces, 25);
}

#[test]
fn trim_takes_white_space_of_every_kind() {
    let t = "\t\n\u{0B}\u{0C}\r \u{85}\u{A0}\u{1680}\u{2000}\u{200A}a\u{200B}b\u{2028}\u{2029}\u{202F}\u{205F}\u{3000}";
    assert_eq!(s(&trim_chars(&to_chars(t))), "a\u{200B}b");
    assert_eq!(s(&trim_chars(&to_chars("\u{200B} x \u{FEFF}"))), "\u{200B} x \u{FEFF}");
}
