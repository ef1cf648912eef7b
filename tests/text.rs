use mipsy::tabs_to_spaces;

#[test]
fn tab_expands_to_next_stop() {
    assert_eq!(tabs_to_spaces("a\tb"), "a       b");
    assert_eq!(tabs_to_spaces("\tx"), "        x");
    assert_eq!(tabs_to_spaces("abcdefgh\tx"), "abcdefgh        x");
    assert_eq!(tabs_to_spaces("abcdefg\tx"), "abcdefg x");
}

#[test]
fn newline_restarts_tab_stops() {
    assert_eq!(tabs_to_spaces("abc\n\tx"), "abc\n        x");
}

#[test]
fn text_without_tabs_is_unchanged() {
    assert_eq!(tabs_to_spaces(""), "");
    assert_eq!(tabs_to_spaces("li $t0, 1 # one\n"), "li $t0, 1 # one\n");
}

#[test]
fn expanding_twice_is_expanding_once() {
    for t in ["\ta\t\tb\n\t c", "x\t", "", "no tabs", "\t\t\n\t"] {
        let once = tabs_to_spaces(t);
        assert_eq!(tabs_to_spaces(&once), once);
    }
}
