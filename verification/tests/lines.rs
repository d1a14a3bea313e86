use espanso_helper::lines::{contains_line_break, split_lines};

fn owned(lines: &[&str]) -> Vec<String> {
    lines.iter().map(|line| line.to_string()).collect()
}

fn std_lines(text: &str) -> Vec<String> {
    text.lines().map(|line| line.to_string()).collect()
}

#[test]
fn empty_text_has_no_lines() {
    assert_eq!(split_lines(""), Vec::<String>::new());
}

#[test]
fn text_without_line_feed_is_one_line() {
    assert_eq!(split_lines("by the way"), owned(&["by the way"]));
}

#[test]
fn line_feed_separates_lines() {
    assert_eq!(split_lines("Best,\nJane"), owned(&["Best,", "Jane"]));
}

#[test]
fn final_line_feed_opens_no_line() {
    assert_eq!(split_lines("Best,\nJane\n"), owned(&["Best,", "Jane"]));
}

#[test]
fn lone_line_feed_is_one_empty_line() {
    assert_eq!(split_lines("\n"), owned(&[""]));
}

#[test]
fn empty_lines_are_kept() {
    assert_eq!(split_lines("a\n\nb"), owned(&["a", "", "b"]));
    assert_eq!(split_lines("\n\n"), owned(&["", ""]));
    assert_eq!(split_lines("\na"), owned(&["", "a"]));
}

#[test]
fn carriage_return_before_line_feed_is_dropped() {
    assert_eq!(split_lines("a\r\nb"), owned(&["a", "b"]));
    assert_eq!(split_lines("a\r\nb\r\n"), owned(&["a", "b"]));
    assert_eq!(split_lines("\r\n"), owned(&[""]));
}

#[test]
fn only_one_carriage_return_is_dropped() {
    assert_eq!(split_lines("a\r\r\nb"), owned(&["a\r", "b"]));
}

#[test]
fn carriage_return_elsewhere_is_kept() {
    assert_eq!(split_lines("a\rb"), owned(&["a\rb"]));
    assert_eq!(split_lines("a\rb\nc"), owned(&["a\rb", "c"]));
    assert_eq!(split_lines("\ra\n"), owned(&["\ra"]));
}

#[test]
fn carriage_return_at_the_end_of_the_text_is_kept() {
    assert_eq!(split_lines("foo\nbar\n\r\nbaz\r"), owned(&["foo", "bar", "", "baz\r"]));
    assert_eq!(split_lines("a\r"), owned(&["a\r"]));
}

#[test]
fn characters_of_several_bytes_are_kept_whole() {
    assert_eq!(split_lines("Grüße,\nJürgen ✓\r\n日本語"), owned(&["Grüße,", "Jürgen ✓", "日本語"]));
}

#[test]
fn split_lines_agrees_with_the_standard_library() {
    let samples = [
        "",
        "\n",
        "\r",
        "\r\n",
        "\n\r",
        "\r\r\n",
        "\n\n",
        "a",
        "a\n",
        "a\r",
        "a\r\n",
        "a\nb",
        "a\r\nb",
        "a\n\rb",
        "a\n\nb\n",
        "a\r\n\r\nb\r\n",
        "  indented\n\ttabbed\n",
        "one\ntwo\nthree",
        "foo\nbar\n\r\nbaz\r",
        "ä\r\nö\nü\r",
        "matches:\n\n- trigger: 'x'\n  replace: 'y'\n",
    ];
    for sample in samples {
        assert_eq!(split_lines(sample), std_lines(sample), "lines of {:?}", sample);
    }
}

#[test]
fn split_lines_agrees_with_the_standard_library_on_all_short_texts() {
    let alphabet = ['a', '\n', '\r', ' '];
    let mut texts = vec![String::new()];
    for _ in 0..6 {
        let mut longer = Vec::new();
        for text in &texts {
            for c in alphabet {
                let mut next = text.clone();
                next.push(c);
                longer.push(next);
            }
        }
        for text in &longer {
            assert_eq!(split_lines(text), std_lines(text), "lines of {:?}", text);
        }
        texts = longer;
    }
}

#[test]
fn line_feed_is_found_anywhere() {
    assert!(contains_line_break("\n"));
    assert!(contains_line_break("a\nb"));
    assert!(contains_line_break("ab\n"));
    assert!(contains_line_break("\nab"));
    assert!(contains_line_break("a\r\nb"));
}

#[test]
fn text_without_line_feed_has_no_line_break() {
    assert!(!contains_line_break(""));
    assert!(!contains_line_break("by the way"));
    assert!(!contains_line_break("a\rb"));
    assert!(!contains_line_break("a\\nb"));
}
