use yfnutool::cmd_line::{str_repr, Bytes};

fn line(marked: &str) -> Bytes {
    str_repr::<&str, Bytes>(marked)
}

#[test]
fn cli_helper() {
    assert_eq!(
        str_repr::<_, Bytes>("h|ello world"),
        Bytes {
            text: b"hello world".to_vec(),
            cursor_pos: 1,
        }
    )
}

#[test]
fn insert_push_cursor_before_cursor() {
    let mut actual = line(" |  ");
    actual.insert_push_cursor(0, b'i');
    assert_eq!(actual, line("i |  "));
}

#[test]
fn insert_push_cursor_at_cursor() {
    let mut actual = line(" |  ");
    actual.insert_push_cursor(1, b'i');
    assert_eq!(actual, line(" i|  "));
}

#[test]
fn insert_push_cursor_after_cursor() {
    let mut actual = line(" |  ");
    actual.insert_push_cursor(2, b'i');
    assert_eq!(actual, line(" | i "));
}

#[test]
fn insert_push_cursor_at_end() {
    let mut actual = line(" |  ");
    actual.insert_push_cursor(3, b'i');
    assert_eq!(actual, line(" |  i"));
}

#[test]
fn delete_pull_cursor_before_cursor() {
    let mut actual = line("d|  ");
    actual.delete_pull_cursor(0);
    assert_eq!(actual, line("|  "));
}

#[test]
fn delete_pull_cursor_at_cursor() {
    let mut actual = line(" |d ");
    actual.delete_pull_cursor(1);
    assert_eq!(actual, line("|  "));
}

#[test]
fn delete_pull_cursor_after_cursor() {
    let mut actual = line(" | d");
    actual.delete_pull_cursor(2);
    assert_eq!(actual, line(" | "));
}

#[test]
fn insert_no_push_cursor_before_cursor() {
    let mut actual = line(" |  ");
    actual.insert_no_push_cursor(0, b'i');
    assert_eq!(actual, line("i |  "));
}

#[test]
fn insert_no_push_cursor_at_cursor() {
    let mut actual = line(" |  ");
    actual.insert_no_push_cursor(1, b'i');
    assert_eq!(actual, line(" |i  "));
}

#[test]
fn insert_no_push_cursor_after_cursor() {
    let mut actual = line(" |  ");
    actual.insert_no_push_cursor(2, b'i');
    assert_eq!(actual, line(" | i "));
}

#[test]
fn insert_no_push_cursor_at_end() {
    let mut actual = line(" |  ");
    actual.insert_no_push_cursor(3, b'i');
    assert_eq!(actual, line(" |  i"));
}

#[test]
fn delete_no_pull_cursor_before_cursor() {
    let mut actual = line("d|  ");
    actual.delete_no_pull_cursor(0);
    assert_eq!(actual, line("|  "));
}

#[test]
fn delete_no_pull_cursor_at_cursor() {
    let mut actual = line(" |d ");
    actual.delete_no_pull_cursor(1);
    assert_eq!(actual, line(" | "));
}

#[test]
fn delete_no_pull_cursor_after_cursor() {
    let mut actual = line(" | d");
    actual.delete_no_pull_cursor(2);
    assert_eq!(actual, line(" | "));
}

#[test]
fn overwrite_range_at_start() {
    let mut actual = line("0|123");
    actual.overwrite_range(0..0, b"i");
    assert_eq!(actual, line("i0|123"));
}

#[test]
fn overwrite_range_before_replace_with_less() {
    let mut actual = line("01234|5");
    actual.overwrite_range(2..3, b"i");
    assert_eq!(actual, line("01i34|5"));
}

#[test]
fn overwrite_range_before_replace_with_more() {
    let mut actual = line("01234|5");
    actual.overwrite_range(2..3, b"iii");
    assert_eq!(actual, line("01iii34|5"));
}

#[test]
fn overwrite_range_before_replace_with_same() {
    let mut actual = line("01234|5");
    actual.overwrite_range(2..3, b"i");
    assert_eq!(actual, line("01i34|5"));
}

#[test]
fn overwrite_range_at_end() {
    let mut actual = line("0|123");
    actual.overwrite_range(4..4, b"i");
    assert_eq!(actual, line("0|123i"));
}

#[test]
fn overwrite_range_at_end_cursor_at_end() {
    let mut actual = line("0123|");
    actual.overwrite_range(4..4, b"i");
    assert_eq!(actual, line("0123i|"));
}
