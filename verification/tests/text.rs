use block_links::text::{join, split_lines};

fn strings(items: &[&str]) -> Vec<String> {
    items.iter().map(|item| item.to_string()).collect()
}

#[test]
fn split_lines_of_the_empty_text_is_empty() {
    assert_eq!(split_lines(""), Vec::<String>::new());
}

#[test]
fn split_lines_without_line_feed_is_one_line() {
    assert_eq!(split_lines("abc"), strings(&["abc"]));
}

#[test]
fn split_lines_splits_at_line_feeds() {
    assert_eq!(split_lines("a\nb\nc"), strings(&["a", "b", "c"]));
}

#[test]
fn split_lines_has_no_empty_line_after_a_last_line_feed() {
    assert_eq!(split_lines("a\nb\n"), strings(&["a", "b"]));
    assert_eq!(split_lines("\n"), strings(&[""]));
}

#[test]
fn split_lines_keeps_empty_lines_in_between() {
    assert_eq!(split_lines("a\n\nb"), strings(&["a", "", "b"]));
    assert_eq!(split_lines("\n\n"), strings(&["", ""]));
}

#[test]
fn split_lines_drops_a_carriage_return_in_front_of_a_line_feed() {
    assert_eq!(split_lines("a\r\nb\r\n"), strings(&["a", "b"]));
    assert_eq!(split_lines("a\r\r\nb"), strings(&["a\r", "b"]));
    assert_eq!(split_lines("\r\n"), strings(&[""]));
}

#[test]
fn split_lines_keeps_a_carriage_return_elsewhere() {
    assert_eq!(split_lines("a\rb"), strings(&["a\rb"]));
    assert_eq!(split_lines("a\nb\r"), strings(&["a", "b\r"]));
}

#[test]
fn split_lines_counts_characters_not_bytes() {
    assert_eq!(split_lines("äö\nü\r\n€"), strings(&["äö", "ü", "€"]));
}

#[test]
fn split_lines_agrees_with_the_standard_library() {
    for text in ["", "a", "a\n", "\na", "a\r\n\r\nb", "x\n\ny\n", "> Usage: a  \n> Macros: b"] {
        let expected: Vec<String> = text.lines().map(|line| line.to_string()).collect();
        assert_eq!(split_lines(text), expected);
    }
}

#[test]
fn join_of_nothing_is_empty() {
    assert_eq!(join(&Vec::new(), ", "), "");
}

#[test]
fn join_of_one_part_is_the_part() {
    assert_eq!(join(&strings(&["a"]), ", "), "a");
}

#[test]
fn join_puts_the_separator_between_parts() {
    assert_eq!(join(&strings(&["a", "b", "c"]), ", "), "a, b, c");
    assert_eq!(join(&strings(&["a", "", "c"]), "-"), "a--c");
    assert_eq!(join(&strings(&["a", "b"]), ""), "ab");
}
