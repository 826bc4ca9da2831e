use reflow::config::Config;
use reflow::pipeline::reflow_lines;

fn mk_config(
    max_line_length: usize,
    break_words: bool,
    keep_trailing_whitespaces: bool,
    preserve_list_indentation: bool,
) -> Config {
    Config {
        max_line_length,
        break_words,
        keep_trailing_whitespaces,
        preserve_list_indentation,
        rewrap: false,
    }
}

fn run_text(cfg: &Config, input: &str) -> String {
    let lines: Vec<String> = input.lines().map(|s| s.to_string()).collect();
    let out = reflow_lines(cfg, &Vec::new(), &Vec::new(), &lines).unwrap();
    let mut text = String::new();
    for line in out {
        text.push_str(&line);
        text.push('\n');
    }
    text
}

#[test]
fn main_test_simple_one_liner() {
    assert_eq!(run_text(&mk_config(0, true, true, false), "foo\n"), "foo\n");
}

#[test]
fn main_test_line_wrapping_with_word_breaks() {
    assert_eq!(run_text(&mk_config(10, true, false, false), "foo bar baz\n"), "foo bar ba\nz\n");
    assert_eq!(run_text(&mk_config(10, true, true, false), "foo bar baz\n"), "foo bar ba\nz\n");
    assert_eq!(run_text(&mk_config(2, true, false, false), "foo bar baz\n"), "fo\no\nba\nr\nba\nz\n");
    assert_eq!(
        run_text(&mk_config(2, true, true, false), "foo bar baz\n"),
        "fo\no \nba\nr \nba\nz\n"
    );
    assert_eq!(run_text(&mk_config(5, true, false, false), "foobar\nbaz\n"), "fooba\nr\nbaz\n");
}

#[test]
fn main_test_line_wrapping_without_work_breaks() {
    assert_eq!(run_text(&mk_config(10, false, false, false), "foo bar baz\n"), "foo bar\nbaz\n");
    assert_eq!(run_text(&mk_config(10, false, true, false), "foo bar baz\n"), "foo bar \nbaz\n");
    assert_eq!(run_text(&mk_config(2, false, false, false), "foo bar baz\n"), "foo\nbar\nbaz\n");
    assert_eq!(
        run_text(&mk_config(5, false, false, false), "foobar\nbaz t1 t2\n"),
        "foobar\nbaz\nt1 t2\n"
    );
}

#[test]
fn main_test_list_handling_without_preserving_indentation() {
    assert_eq!(
        run_text(
            &mk_config(14, false, false, false),
            "A list follows:\n* foo bar baz\n* test1 test2 test3 test4\n"
        ),
        "A list\nfollows:\n* foo bar baz\n* test1 test2\ntest3 test4\n"
    );
    assert_eq!(
        run_text(
            &mk_config(13, false, false, false),
            "A list follows:\n* foo bar baz\n* test1 test2 test3 test4\n"
        ),
        "A list\nfollows:\n* foo bar baz\n* test1 test2\ntest3 test4\n"
    );
}

#[test]
fn main_test_list_handling_with_preserving_indentation() {
    assert_eq!(
        run_text(
            &mk_config(13, false, false, true),
            "A list follows:\n* foo bar baz\n* test1 test2 test3 test4\n"
        ),
        "A list\nfollows:\n* foo bar baz\n* test1 test2\n  test3 test4\n"
    );
    assert_eq!(
        run_text(
            &mk_config(13, false, false, true),
            "A list follows:\n* foo bar baz\n  * test1 test2 test3 test4\n"
        ),
        "A list\nfollows:\n* foo bar baz\n  * test1\n    test2\n    test3\n    test4\n"
    );
    assert_eq!(
        run_text(
            &mk_config(15, false, false, true),
            "A list follows:\n* foo bar baz\n  * test1 test2\n    test3 test4\n"
        ),
        "A list follows:\n* foo bar baz\n  * test1 test2\n    test3 test4\n"
    );
}
