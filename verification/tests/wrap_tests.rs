use folderinfo::wrap::pad_text;

#[test]
fn wrap_empty_text_is_one_blank_word_line() {
    assert_eq!(pad_text("", 10), vec![" ".to_string()]);
}

#[test]
fn wrap_short_text_stays_on_one_line() {
    assert_eq!(pad_text("hello world", 80), vec!["hello world ".to_string()]);
}

#[test]
fn wrap_breaks_greedily() {
    assert_eq!(
        pad_text("a b c", 3),
        vec!["a ".to_string(), "b ".to_string(), "c ".to_string()]
    );
}

#[test]
fn wrap_overlong_word_stands_alone_unsplit() {
    assert_eq!(
        pad_text("abcdefgh xy", 4),
        vec!["".to_string(), "abcdefgh ".to_string(), "xy ".to_string()]
    );
}

#[test]
fn wrap_fills_up_to_the_budget_exactly() {
    let w1 = "a".repeat(70);
    // 70 + 4 + 1 = 75 <= 80, then 4 + 75 + 1 = 80 <= 80: both words fit.
    let text = format!("[n] {} {}", w1, "bbbb");
    assert_eq!(pad_text(&text, 80), vec![format!("[n] {} bbbb ", w1)]);
    // A one-character-longer second word overflows the same budget.
    let text = format!("[n] {} {}", w1, "bbbbb");
    assert_eq!(
        pad_text(&text, 80),
        vec![format!("[n] {} ", w1), "bbbbb ".to_string()]
    );
}

#[test]
fn wrap_zero_budget_puts_every_word_alone() {
    assert_eq!(
        pad_text("a b", 0),
        vec!["".to_string(), "a ".to_string(), "b ".to_string()]
    );
}
