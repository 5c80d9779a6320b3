use lab::{ConfigParsingError, ListCursor, YkmdError};

#[test]
fn error_messages() {
    let e = YkmdError::new("Invalid function");
    assert_eq!(e.details(), "Invalid function");
    assert_eq!(e.message(), "ykushcmd failed: Invalid function");
    let c = ConfigParsingError::new("No boards found");
    assert_eq!(c.details(), "No boards found");
    assert_eq!(c.message(), "Invalid Yaml Config: No boards found");
}

#[test]
fn cursor_wraps_forward() {
    let mut c = ListCursor::new(3);
    c.next();
    assert_eq!(c.selected, Some(0));
    c.next();
    c.next();
    assert_eq!(c.selected, Some(2));
    c.next();
    assert_eq!(c.selected, Some(0));
}

#[test]
fn cursor_wraps_backward() {
    let mut c = ListCursor::new(3);
    c.previous();
    assert_eq!(c.selected, Some(0));
    c.previous();
    assert_eq!(c.selected, Some(2));
    c.previous();
    assert_eq!(c.selected, Some(1));
    c.deselect();
    assert_eq!(c.selected, None);
}

#[test]
fn cursor_on_empty_list_selects_nothing() {
    let mut c = ListCursor::new(0);
    c.next();
    assert_eq!(c.selected, None);
    c.previous();
    assert_eq!(c.selected, None);
}

#[test]
fn cursor_past_the_end_moves_back_one() {
    let mut c = ListCursor { selected: Some(5), len: 3 };
    c.previous();
    assert_eq!(c.selected, Some(4));
    c.next();
    assert_eq!(c.selected, Some(0));
}
