use catr::config::{open_failure_message, source_for, Config, Mode, Source};
use catr::digits::{count_digits, decimal_text};
use catr::format::{format_number, format_number_nonblank, number_nonblank_incr};
use catr::numbering::{number_lines, LineNumberer};

fn lines(texts: &[&str]) -> Vec<String> {
    texts.iter().map(|t| t.to_string()).collect()
}

#[test]
fn digit_counts_match_text_length() {
    assert_eq!(count_digits(0), 1);
    assert_eq!(count_digits(9), 1);
    assert_eq!(count_digits(10), 2);
    assert_eq!(count_digits(99), 2);
    assert_eq!(count_digits(100), 3);
    assert_eq!(count_digits(999999), 6);
    assert_eq!(count_digits(1000000), 7);
    for n in [0usize, 7, 42, 12345, 999999, 1000000, 31415926535, usize::MAX] {
        assert_eq!(count_digits(n), n.to_string().len());
    }
}

#[test]
fn digit_count_of_largest_number() {
    assert_eq!(count_digits(usize::MAX), usize::MAX.to_string().len());
}

#[test]
fn decimal_text_of_numbers() {
    assert_eq!(decimal_text(0), "0");
    assert_eq!(decimal_text(7), "7");
    assert_eq!(decimal_text(10), "10");
    assert_eq!(decimal_text(1234567890), "1234567890");
    assert_eq!(decimal_text(usize::MAX), usize::MAX.to_string());
}

#[test]
fn format_number_pads_to_six() {
    assert_eq!(format_number("foo", 1), "     1\tfoo");
    assert_eq!(format_number("", 2), "     2\t");
    assert_eq!(format_number("x", 42), "    42\tx");
    assert_eq!(format_number("x", 999999), "999999\tx");
}

#[test]
fn format_number_wide_numbers_get_no_padding() {
    assert_eq!(format_number("x", 1000000), "1000000\tx");
    assert_eq!(format_number("y", 123456789), "123456789\ty");
}

#[test]
fn format_nonblank_leaves_blank_bare() {
    assert_eq!(format_number_nonblank("", 3), "");
    assert_eq!(format_number_nonblank("bar", 3), "     3\tbar");
}

#[test]
fn nonblank_increment() {
    assert_eq!(number_nonblank_incr(&String::new()), 0);
    assert_eq!(number_nonblank_incr(&"a".to_string()), 1);
    assert_eq!(number_nonblank_incr(&" ".to_string()), 1);
}

#[test]
fn example_number_all() {
    let out = number_lines(Mode::NumberAll, &lines(&["foo", "", "bar"]));
    assert_eq!(out, lines(&["     1\tfoo", "     2\t", "     3\tbar"]));
}

#[test]
fn example_number_nonblank() {
    let out = number_lines(Mode::NumberNonblank, &lines(&["foo", "", "bar"]));
    assert_eq!(out, lines(&["     1\tfoo", "", "     2\tbar"]));
}

#[test]
fn number_all_counts_every_line() {
    let input = lines(&["a", "", "", "b", "c"]);
    let out = number_lines(Mode::NumberAll, &input);
    assert_eq!(out.len(), input.len());
    for (i, o) in out.iter().enumerate() {
        assert_eq!(*o, format!("{:>6}\t{}", i + 1, input[i]));
    }
}

#[test]
fn number_nonblank_counts_nonblank_lines() {
    let out = number_lines(Mode::NumberNonblank, &lines(&["", "a", "", "", "b", "", "c"]));
    assert_eq!(
        out,
        lines(&["", "     1\ta", "", "", "     2\tb", "", "     3\tc"])
    );
}

#[test]
fn plain_mode_is_verbatim() {
    let input = lines(&["foo", "", "  bar\t", "baz"]);
    assert_eq!(number_lines(Mode::Plain, &input), input);
}

#[test]
fn plain_run_concatenates_sources() {
    let first = lines(&["one", ""]);
    let second = lines(&["two", "three"]);
    let mut text = String::new();
    for source in [&first, &second] {
        for out in number_lines(Mode::Plain, source) {
            text.push_str(&out);
            text.push('\n');
        }
    }
    assert_eq!(text, "one\n\ntwo\nthree\n");
}

#[test]
fn empty_source_gives_nothing() {
    assert!(number_lines(Mode::NumberAll, &Vec::new()).is_empty());
}

#[test]
fn numbering_restarts_for_each_source() {
    let mut first = LineNumberer::new(Mode::NumberAll);
    assert_eq!(first.next_line(&"a".to_string()), "     1\ta");
    assert_eq!(first.next_line(&"b".to_string()), "     2\tb");
    assert_eq!(first.counter, 3);
    let mut second = LineNumberer::new(Mode::NumberAll);
    assert_eq!(second.next_line(&"c".to_string()), "     1\tc");
}

#[test]
fn nonblank_numberer_holds_counter_on_blank() {
    let mut n = LineNumberer::new(Mode::NumberNonblank);
    assert_eq!(n.next_line(&String::new()), "");
    assert_eq!(n.counter, 1);
    assert_eq!(n.next_line(&"x".to_string()), "     1\tx");
    assert_eq!(n.counter, 2);
}

#[test]
fn plain_numberer_keeps_counter() {
    let mut n = LineNumberer::new(Mode::Plain);
    assert_eq!(n.next_line(&"x".to_string()), "x");
    assert_eq!(n.counter, 1);
}

#[test]
fn number_all_wins_over_nonblank() {
    let both = Config::new(vec!["-".to_string()], true, true);
    assert_eq!(both.mode(), Mode::NumberAll);
    assert_eq!(Config::new(vec![], false, true).mode(), Mode::NumberNonblank);
    assert_eq!(Config::new(vec![], true, false).mode(), Mode::NumberAll);
    assert_eq!(Config::new(vec![], false, false).mode(), Mode::Plain);
}

#[test]
fn dash_is_standard_input() {
    assert_eq!(source_for("-"), Source::Stdin);
    assert_eq!(source_for("notes.txt"), Source::Path("notes.txt".to_string()));
    assert_eq!(source_for("--"), Source::Path("--".to_string()));
    assert_eq!(source_for(""), Source::Path(String::new()));
}

#[test]
fn open_failure_names_the_input() {
    let msg = open_failure_message("missing.txt", "No such file or directory (os error 2)");
    assert_eq!(
        msg,
        "Failed to open missing.txt: No such file or directory (os error 2)"
    );
    assert!(msg.contains("missing.txt"));
}
