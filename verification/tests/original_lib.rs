use reflow::config::Config;
use reflow::pipeline::{finish, process_line, reflow_lines};
use reflow::subst::compile_substitutions;
use reflow::wrap::WrapState;

fn mk_config(
    max_line_length: usize,
    break_words: bool,
    keep_trailing_whitespaces: bool,
    preserve_list_indentation: bool,
    rewrap: bool,
) -> Config {
    Config {
        max_line_length,
        break_words,
        keep_trailing_whitespaces,
        preserve_list_indentation,
        rewrap,
    }
}

fn run_text(cfg: &Config, patterns: &[&str], replacements: &[&str], input: &str) -> String {
    let patterns: Vec<String> = patterns.iter().map(|s| s.to_string()).collect();
    let replacements: Vec<String> = replacements.iter().map(|s| s.to_string()).collect();
    let lines: Vec<String> = input.lines().map(|s| s.to_string()).collect();
    let out = reflow_lines(cfg, &patterns, &replacements, &lines).unwrap();
    let mut text = String::new();
    for line in out {
        text.push_str(&line);
        text.push('\n');
    }
    text
}

#[test]
fn lib_test_simple_one_liner() {
    let cfg = mk_config(0, true, true, false, false);
    assert_eq!(run_text(&cfg, &[], &[], "foo\n"), "foo\n");
}

#[test]
fn lib_test_line_wrapping_with_word_breaks() {
    let mk = |max: usize, keep: bool| mk_config(max, true, keep, false, false);
    assert_eq!(run_text(&mk(10, false), &[], &[], "foo bar baz\n"), "foo bar ba\nz\n");
    assert_eq!(run_text(&mk(10, true), &[], &[], "foo bar baz\n"), "foo bar ba\nz\n");
    assert_eq!(run_text(&mk(2, false), &[], &[], "foo bar baz\n"), "fo\no\nba\nr\nba\nz\n");
    assert_eq!(run_text(&mk(2, true), &[], &[], "foo bar baz\n"), "fo\no \nba\nr \nba\nz\n");
    assert_eq!(run_text(&mk(5, false), &[], &[], "foobar\nbaz\n"), "fooba\nr\nbaz\n");
}

#[test]
fn lib_test_line_wrapping_without_work_breaks() {
    let mk = |max: usize, keep: bool| mk_config(max, false, keep, false, false);
    assert_eq!(run_text(&mk(10, false), &[], &[], "foo bar baz\n"), "foo bar\nbaz\n");
    assert_eq!(run_text(&mk(10, true), &[], &[], "foo bar baz\n"), "foo bar \nbaz\n");
    assert_eq!(run_text(&mk(2, false), &[], &[], "foo bar baz\n"), "foo\nbar\nbaz\n");
    assert_eq!(run_text(&mk(5, false), &[], &[], "foobar\nbaz t1 t2\n"), "foobar\nbaz\nt1 t2\n");
}

#[test]
fn lib_test_list_handling_without_preserving_indentation() {
    let mk = |max: usize| mk_config(max, false, false, false, false);
    assert_eq!(
        run_text(&mk(14), &[], &[], "A list follows:\n* foo bar baz\n* test1 test2 test3 test4\n"),
        "A list\nfollows:\n* foo bar baz\n* test1 test2\ntest3 test4\n"
    );
    assert_eq!(
        run_text(&mk(13), &[], &[], "A list follows:\n* foo bar baz\n* test1 test2 test3 test4\n"),
        "A list\nfollows:\n* foo bar baz\n* test1 test2\ntest3 test4\n"
    );
}

#[test]
fn lib_test_list_handling_with_preserving_indentation() {
    let mk = |max: usize| mk_config(max, false, false, true, false);
    assert_eq!(
        run_text(&mk(13), &[], &[], "A list follows:\n* foo bar baz\n* test1 test2 test3 test4\n"),
        "A list\nfollows:\n* foo bar baz\n* test1 test2\n  test3 test4\n"
    );
    assert_eq!(
        run_text(
            &mk(13),
            &[],
            &[],
            "A list follows:\n* foo bar baz\n  * test1 test2 test3 test4\n"
        ),
        "A list\nfollows:\n* foo bar baz\n  * test1\n    test2\n    test3\n    test4\n"
    );
    assert_eq!(
        run_text(
            &mk(15),
            &[],
            &[],
            "A list follows:\n* foo bar baz\n  * test1 test2\n    test3 test4\n"
        ),
        "A list follows:\n* foo bar baz\n  * test1 test2\n    test3 test4\n"
    );
}

#[test]
fn test_rewrapping() {
    let mk = |max: usize| mk_config(max, false, false, true, true);
    assert_eq!(
        run_text(
            &mk(15),
            &[],
            &[],
            "A list follows:\n* foo bar baz\n  * test1 test2 test3 test4\n"
        ),
        "A list follows:\n* foo bar baz\n  * test1 test2\n    test3 test4\n"
    );
    assert_eq!(
        run_text(
            &mk(15),
            &[],
            &[],
            "A list\nfollows:\n* foo\n  bar baz\n  * test1 test2 test3 test4\n"
        ),
        "A list follows:\n* foo bar baz\n  * test1 test2\n    test3 test4\n"
    );
    assert_eq!(
        run_text(
            &mk(0),
            &[],
            &[],
            "A list\nfollows:\n* foo\n  bar baz\n  * test1 test2 test3 test4\n"
        ),
        "A list follows:\n* foo bar baz\n  * test1 test2 test3 test4\n"
    );
}

#[test]
fn test_reading_input_files() {
    // Two input sources processed as one logical stream: the pending line
    // carries across the source boundary in re-wrap mode.
    let cfg = mk_config(15, false, false, true, true);
    let rules = compile_substitutions(&Vec::new(), &Vec::new()).unwrap();
    let source1 = ["foo bar", "1 2 3 4"];
    let source2 = ["5 6 7 8", "9 10 11 12"];
    let mut state = WrapState::new();
    let mut text = String::new();
    for line in source1.iter().chain(source2.iter()) {
        for done in process_line(&cfg, &rules, &mut state, line) {
            text.push_str(&done);
            text.push('\n');
        }
    }
    if let Some(last) = finish(&cfg, state) {
        text.push_str(&last);
        text.push('\n');
    }
    assert_eq!(text, "foo bar 1 2 3 4\n5 6 7 8 9 10 11\n12\n");
}

#[test]
fn test_substitution() {
    let cfg = mk_config(20, false, false, true, false);
    assert_eq!(
        run_text(&cfg, &["oo", "remove"], &["00"], "foobar\nfoobaz\n"),
        "f00bar\nf00baz\n"
    );
}
