use monkeylib::display::{Display, Placement};
use monkeylib::text::{is_space_char, tokenize};

fn lines(n: usize) -> Vec<String> {
    (0..n).map(|i| i.to_string()).collect()
}

#[test]
fn tokenize_splits_on_ascii_whitespace() {
    assert_eq!(tokenize("and for that this"), vec!["and", "for", "that", "this"]);
    assert_eq!(tokenize("  and\tfor\n\nthat\r\x0cthis  "), vec!["and", "for", "that", "this"]);
    assert_eq!(tokenize(""), Vec::<String>::new());
    assert_eq!(tokenize(" \t\r\n"), Vec::<String>::new());
    assert_eq!(tokenize("one"), vec!["one"]);
    assert_eq!(tokenize("a b"), vec!["a", "b"]);
    assert_eq!(tokenize(" x"), vec!["x"]);
    assert_eq!(tokenize("x "), vec!["x"]);
    // a space that is not ASCII parts nothing
    assert_eq!(tokenize("a\u{a0}b c"), vec!["a\u{a0}b", "c"]);
    assert_eq!(tokenize("a\u{b}b"), vec!["a\u{b}b"]);
}

#[test]
fn tokenize_puts_words_in_lower_case() {
    assert_eq!(tokenize("And FOR tHaT this"), vec!["and", "for", "that", "this"]);
    assert_eq!(tokenize("\u{c9}T\u{c9} \u{212a}"), vec!["\u{e9}t\u{e9}", "k"]);
    assert_eq!(tokenize("\u{3a3}\u{391}\u{3a3}"), vec!["\u{3c3}\u{3b1}\u{3c2}"]);
    for line in ["Hello  World", " MiXed\tCASE words\n", "\u{130}x Y"] {
        let expected: Vec<String> = line.split_ascii_whitespace().map(|w| w.to_lowercase()).collect();
        assert_eq!(tokenize(line), expected);
    }
}

#[test]
fn spaces_are_the_five_ascii_ones() {
    for c in [' ', '\t', '\n', '\x0c', '\r'] {
        assert!(is_space_char(c));
    }
    for c in ['a', '\x0b', '\u{a0}', '\u{2003}', '0', '\0'] {
        assert!(!is_space_char(c));
    }
    for code in 0u8..128 {
        let c = char::from(code);
        assert_eq!(is_space_char(c), c.is_ascii_whitespace());
    }
}

#[test]
fn display_places_blocks_side_by_side() {
    let mut display = Display::new();
    let mut columns = Vec::new();
    for _ in 0..5 {
        let placement = display.new_block(&lines(4));
        assert!(!placement.wiped);
        assert_eq!(placement.first_row, 31);
        assert_eq!(placement.wiped_column, placement.column);
        columns.push(placement.column);
    }
    assert_eq!(columns, vec![10, 28, 46, 64, 82]);

    // the row is full: it is wiped and started again
    let placement = display.new_block(&lines(4));
    assert_eq!(placement, Placement { wiped: true, wiped_column: 100, column: 2, first_row: 31 });
    let mut columns = Vec::new();
    for _ in 0..5 {
        let placement = display.new_block(&lines(0));
        assert!(!placement.wiped);
        columns.push(placement.column);
    }
    assert_eq!(columns, vec![20, 38, 56, 74, 92]);
    let placement = display.new_block(&lines(9));
    assert_eq!(placement, Placement { wiped: true, wiped_column: 110, column: 2, first_row: 31 });
    assert_eq!(display.new_block(&lines(1)).column, 20);
}

#[test]
fn display_runs_for_long() {
    let mut display = Display::new();
    let mut wiped = 0;
    for _ in 0..1000 {
        let placement = display.new_block(&lines(2));
        assert!(placement.column <= 92);
        if placement.wiped {
            wiped += 1;
            assert_eq!(placement.column, 2);
        }
    }
    assert_eq!(wiped, 166);
}

#[test]
fn display_takes_as_many_lines_as_the_terminal_has_rows() {
    let mut display = Display::new();
    let placement = display.new_block(&lines(65505));
    assert_eq!(placement, Placement { wiped: false, wiped_column: 10, column: 10, first_row: 31 });
    assert_eq!(u32::from(placement.first_row) + 65504, 65535);
    assert_eq!(display.new_block(&lines(0)).column, 28);
}
