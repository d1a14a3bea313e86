use espanso_helper::lines::split_lines;
use espanso_helper::record::{format_record, indent_block, Rule};
use espanso_helper::snippet::SnippetFile;

fn rule(trigger: &str, replace: &str) -> Rule {
    Rule::new(trigger.to_string(), replace.to_string())
}

fn owned(lines: &[&str]) -> Vec<String> {
    lines.iter().map(|line| line.to_string()).collect()
}

fn header_lines(text: &str) -> usize {
    split_lines(text).iter().filter(|line| line.as_str() == "matches:").count()
}

#[test]
fn block_body_reads_back_as_the_indented_lines() {
    for replace in ["Best,\nJane", "one\n\nthree\n", "\n", "a\nb\r", "  x\n\ty\n"] {
        let expected: Vec<String> =
            split_lines(replace).iter().map(|line| format!("    {}", line)).collect();
        assert_eq!(split_lines(&indent_block(replace)), expected, "body of {:?}", replace);
    }
}

#[test]
fn carriage_return_inside_a_block_is_read_as_line_ending() {
    assert_eq!(split_lines("a\r\r\nb"), owned(&["a\r", "b"]));
    assert_eq!(indent_block("a\r\r\nb"), "    a\r\n    b");
    assert_eq!(split_lines(&indent_block("a\r\r\nb")), owned(&["    a", "    b"]));
}

#[test]
fn single_line_record_is_three_lines() {
    assert_eq!(
        split_lines(&format_record("btw", "by the way")),
        owned(&["", "- trigger: 'btw'", "  replace: 'by the way'"])
    );
}

#[test]
fn block_record_is_three_lines_and_the_body() {
    assert_eq!(
        split_lines(&format_record("sig", "Best,\nJane")),
        owned(&["", "- trigger: 'sig'", "  replace: |", "    Best,", "    Jane"])
    );
}

#[test]
fn file_is_the_header_line_and_the_lines_of_each_record() {
    let mut file = SnippetFile::missing();
    file.append(&rule("x", "y"));
    file.append(&rule("sig", "Best,\nJane"));
    let text = file.content.expect("file exists");
    assert_eq!(
        split_lines(&text),
        owned(&[
            "matches:",
            "",
            "- trigger: 'x'",
            "  replace: 'y'",
            "",
            "- trigger: 'sig'",
            "  replace: |",
            "    Best,",
            "    Jane",
        ])
    );
}

#[test]
fn record_adds_whole_lines_behind_ended_text() {
    let before = "matches:\n\n- trigger: 'a'\n  replace: 'b'\n";
    let mut file = SnippetFile::holding(before.to_string());
    file.append(&rule("sig", "Best,\r\nJane\r"));
    let text = file.content.expect("file exists");
    let mut expected = split_lines(before);
    expected.extend(owned(&["", "- trigger: 'sig'", "  replace: |", "    Best,", "    Jane"]));
    assert_eq!(split_lines(&text), expected);
    assert!(text.ends_with('\n'));
}

#[test]
fn two_appends_leave_one_header_line() {
    let rules = [("", "ignored"), ("x", "y"), ("sig", "Best,\nJane"), ("m", "matches:\nmatches:")];
    for (first_trigger, first_replace) in rules {
        for (second_trigger, second_replace) in rules {
            let mut file = SnippetFile::missing();
            file.append(&rule(first_trigger, first_replace));
            file.append(&rule(second_trigger, second_replace));
            match file.content {
                Some(text) => {
                    assert_eq!(header_lines(&text), 1);
                    assert_eq!(split_lines(&text)[0], "matches:");
                }
                None => {
                    assert_eq!(first_trigger, "");
                    assert_eq!(second_trigger, "");
                }
            }
        }
    }
}

#[test]
fn trigger_with_line_feeds_can_bring_a_header_line_of_its_own() {
    let mut file = SnippetFile::missing();
    file.append(&rule("a\nmatches:\nb", "y"));
    let text = file.content.expect("file exists");
    assert_eq!(text, "matches:\n\n- trigger: 'a\nmatches:\nb'\n  replace: 'y'\n");
    assert_eq!(header_lines(&text), 2);
}

#[test]
fn file_made_by_appends_starts_with_the_header_line() {
    let mut file = SnippetFile::missing();
    for (trigger, replace) in [("x", "y"), ("", "z"), ("sig", "Best,\nJane"), ("q", "")] {
        file.append(&rule(trigger, replace));
        let text = file.content.clone().expect("file exists");
        assert!(text.starts_with("matches:\n"));
        assert_eq!(split_lines(&text)[0], "matches:");
    }
}
