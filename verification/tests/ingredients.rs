use recipe_store::ingredients::{is_whitespace, parse_ingredients};

fn split_by_std(text: &str) -> Vec<String> {
    text.lines().map(str::trim).filter(|line| !line.is_empty()).map(str::to_string).collect()
}

#[test]
fn parse_splits_at_line_feeds() {
    assert_eq!(parse_ingredients("leek\ncarrot"), vec!["leek", "carrot"]);
    assert_eq!(parse_ingredients("leek"), vec!["leek"]);
    assert_eq!(parse_ingredients("a\nb\nc\n"), vec!["a", "b", "c"]);
}

#[test]
fn parse_of_nothing_is_nothing() {
    assert_eq!(parse_ingredients(""), Vec::<String>::new());
    assert_eq!(parse_ingredients("\n"), Vec::<String>::new());
    assert_eq!(parse_ingredients(" \t \n\r\n  \n"), Vec::<String>::new());
}

#[test]
fn parse_trims_both_ends_and_keeps_inner_spaces() {
    assert_eq!(parse_ingredients("  two  eggs \t"), vec!["two  eggs"]);
    assert_eq!(parse_ingredients("\u{3000}rice\u{2003}\n\u{feff}x"), vec!["rice", "\u{feff}x"]);
    assert_eq!(parse_ingredients("x"), vec!["x"]);
    assert_eq!(parse_ingredients(" x"), vec!["x"]);
    assert_eq!(parse_ingredients("x "), vec!["x"]);
}

#[test]
fn parse_drops_blank_lines() {
    assert_eq!(parse_ingredients("\n\nleek\n\n \ncarrot\n\n"), vec!["leek", "carrot"]);
}

#[test]
fn parse_takes_carriage_returns_for_space() {
    assert_eq!(parse_ingredients("leek\r\ncarrot\r\n"), vec!["leek", "carrot"]);
    assert_eq!(parse_ingredients("leek\rcarrot"), vec!["leek\rcarrot"]);
    assert_eq!(parse_ingredients("\rleek\r"), vec!["leek"]);
}

#[test]
fn parse_counts_characters_not_bytes() {
    assert_eq!(parse_ingredients(" crème fraîche \n 🍅 tomaat \n"), vec!["crème fraîche", "🍅 tomaat"]);
}

#[test]
fn parse_agrees_with_lines_trim_and_filter() {
    let pieces = ["", " ", "a", "\n", "\r\n", "\r", "\t", "b c", "\u{a0}", "\u{85}", "é", "\u{2028}", "\u{b}"];
    for a in pieces {
        for b in pieces {
            for c in pieces {
                for d in pieces {
                    let text = format!("{a}{b}{c}{d}");
                    assert_eq!(parse_ingredients(&text), split_by_std(&text), "{text:?}");
                }
            }
        }
    }
}

#[test]
fn parse_gives_no_empty_line() {
    let text = " a \n\n b\n \nc \n";
    for line in parse_ingredients(text) {
        assert!(!line.is_empty());
        assert_eq!(line.trim(), line);
        assert!(!line.contains('\n'));
    }
}

#[test]
fn whitespace_is_what_the_standard_library_takes_for_it() {
    for n in 0..=0x10ffff_u32 {
        if let Some(c) = char::from_u32(n) {
            assert_eq!(is_whitespace(c), c.is_whitespace(), "{n:#x}");
        }
    }
}

#[test]
fn whitespace_on_chosen_characters() {
    for c in [' ', '\t', '\n', '\r', '\u{b}', '\u{c}', '\u{85}', '\u{a0}', '\u{1680}', '\u{2000}', '\u{200a}', '\u{2028}', '\u{2029}', '\u{202f}', '\u{205f}', '\u{3000}'] {
        assert!(is_whitespace(c), "{c:?}");
    }
    for c in ['a', '0', '\0', '\u{8}', '\u{e}', '\u{1f}', '\u{200b}', '\u{180e}', '\u{feff}', '\u{2060}'] {
        assert!(!is_whitespace(c), "{c:?}");
    }
}
