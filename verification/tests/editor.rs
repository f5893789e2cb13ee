//! The editor of the draft.

use chibi_tui::editor::Draft;

fn draft(s: &str) -> Draft {
    let mut d = Draft::new();
    d.insert_text(s);
    d
}

#[test]
fn typing_goes_in_at_the_caret() {
    let mut d = draft("ac");
    assert_eq!(d.position(), (0, 2));
    d.left();
    d.insert('b');
    assert_eq!((d.text().as_str(), d.position()), ("abc", (0, 2)));
    d.insert_text("\u{4e2d}\nx");
    assert_eq!(d.lines(), ["ab\u{4e2d}", "xc"]);
    assert_eq!(d.position(), (1, 1));
    assert_eq!(Draft::new().lines(), [""]);
}

#[test]
fn backspace_takes_typing_back() {
    let mut d = draft("a\nb");
    d.left();
    d.insert('z');
    assert!(d.backspace());
    assert_eq!((d.text().as_str(), d.position()), ("a\nb", (1, 0)));
    assert!(d.backspace());
    assert_eq!((d.text().as_str(), d.position()), ("ab", (0, 1)), "lines are joined");
    assert!(d.backspace());
    assert!(!d.backspace());
    assert_eq!(d.text(), "b");
}

#[test]
fn the_caret_moves_to_the_ends_of_its_line() {
    let mut d = draft("one\ntwo\nthree");
    d.home();
    assert_eq!(d.position(), (2, 0));
    d.left();
    assert_eq!(d.position(), (1, 3));
    d.home();
    assert_eq!(d.position(), (1, 0));
    d.end();
    assert_eq!(d.position(), (1, 3));
    d.right();
    assert_eq!(d.position(), (2, 0));
    d.end();
    d.right();
    assert_eq!(d.position(), (2, 5));
}

#[test]
fn the_caret_keeps_its_column_where_it_can() {
    let mut d = draft("long line\nab\nlonger line");
    d.up();
    assert_eq!(d.position(), (1, 2), "the short line ends the move");
    d.up();
    assert_eq!(d.position(), (0, 2));
    d.up();
    assert_eq!(d.position(), (0, 2), "no line above");
    d.down();
    d.down();
    assert_eq!(d.position(), (2, 2));
    d.down();
    assert_eq!(d.position(), (2, 2), "no line below");
}

#[test]
fn a_line_is_deleted_back_from_the_caret() {
    let mut d = draft("keep\ndrop this");
    d.left();
    d.left();
    d.delete_to_line_start();
    assert_eq!((d.text().as_str(), d.position()), ("keep\nis", (1, 0)));
    d.delete_to_line_start();
    assert_eq!(d.text(), "keep\nis");
}
