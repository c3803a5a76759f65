use clap_show::text::{drop_leading_words, is_blank_char, join_texts, replace_each, to_upper};
use clap_show::{anchor, get_usage, paragraph};

fn strings(items: &[&str]) -> Vec<String> {
    items.iter().map(|s| s.to_string()).collect()
}

#[test]
fn join_puts_the_separator_between_neighbours() {
    assert_eq!(join_texts(&strings(&[]), " "), "");
    assert_eq!(join_texts(&strings(&["a"]), " "), "a");
    assert_eq!(join_texts(&strings(&["a", "b", "c"]), ", "), "a, b, c");
    assert_eq!(join_texts(&strings(&["", ""]), "-"), "-");
}

#[test]
fn replace_each_rewrites_every_occurrence() {
    assert_eq!(replace_each("a.b..c", '.', "::"), "a::b::::c");
    assert_eq!(replace_each("abc", 'x', "y"), "abc");
    assert_eq!(replace_each("", 'x', "y"), "");
    assert_eq!(replace_each("xxx", 'x', ""), "");
}

#[test]
fn drop_leading_words_drops_words_and_the_white_space_around_them() {
    assert_eq!(drop_leading_words("a b c d", 0), "a b c d");
    assert_eq!(drop_leading_words(" a b", 0), " a b");
    assert_eq!(drop_leading_words("a b c d", 1), "b c d");
    assert_eq!(drop_leading_words("a b c d", 3), "d");
    assert_eq!(drop_leading_words("a b c d", 4), "");
    assert_eq!(drop_leading_words("a b c d", 9), "");
    assert_eq!(drop_leading_words("", 1), "");
    assert_eq!(drop_leading_words("  \t ", 1), "");
    assert_eq!(drop_leading_words("  a \n\t b  c ", 1), "b  c ");
}

#[test]
fn white_space_is_what_std_calls_white_space() {
    let mut code: u32 = 0;
    while code <= 0x10FFFF {
        if let Some(c) = char::from_u32(code) {
            assert_eq!(is_blank_char(c), c.is_whitespace(), "U+{:04X}", code);
        }
        code += 1;
    }
}

#[test]
fn to_upper_changes_ascii_letters_only() {
    assert_eq!(to_upper("pos_required"), "POS_REQUIRED");
    assert_eq!(to_upper("az AZ 09 {`"), "AZ AZ 09 {`");
    assert_eq!(to_upper("é"), "é");
    assert_eq!(to_upper(""), "");
}

#[test]
fn usage_loses_label_and_program_name() {
    assert_eq!(get_usage("Usage: app [OPTIONS] <COMMAND>"), "[OPTIONS] <COMMAND>");
    assert_eq!(get_usage("Usage: app build <TARGET>"), "build <TARGET>");
}

#[test]
fn usage_of_two_words_or_fewer_is_empty() {
    assert_eq!(get_usage("Usage: app"), "");
    assert_eq!(get_usage("Usage:"), "");
    assert_eq!(get_usage(""), "");
    assert_eq!(get_usage("Usage: app "), "");
    assert_eq!(get_usage(" \t\n"), "");
}

#[test]
fn usage_keeps_the_rest_as_it_is() {
    assert_eq!(get_usage("Usage: app  a  b \n c"), "a  b \n c");
    assert_eq!(
        get_usage("Usage: app [OPTIONS]\n       app <COMMAND>"),
        "[OPTIONS]\n       app <COMMAND>"
    );
}

#[test]
fn usage_words_are_parted_by_any_white_space() {
    assert_eq!(get_usage("Usage:\tapp x y"), "x y");
    assert_eq!(get_usage("Usage:\napp\u{a0}x"), "x");
    assert_eq!(get_usage("  Usage:   app   x"), "x");
    assert_eq!(get_usage("Usage:\u{3000}app\u{2003}x y"), "x y");
}

#[test]
fn usage_agrees_with_splitting_on_white_space() {
    let lines = ["Usage: app a b", " Usage:\tapp\n  a", "Usage: app", "one", "", "a b c d e"];
    for line in lines {
        let words: Vec<&str> = line.split_whitespace().skip(2).collect();
        let kept = get_usage(line);
        let kept_words: Vec<&str> = kept.split_whitespace().collect();
        assert_eq!(kept_words, words);
        assert!(line.ends_with(kept.as_str()));
        assert!(!kept.starts_with(char::is_whitespace));
    }
}

#[test]
fn paragraph_turns_newlines_into_breaks() {
    assert_eq!(paragraph("one\ntwo\n\nthree"), "one<br />two<br /><br />three");
    assert_eq!(paragraph("plain"), "plain");
    assert_eq!(paragraph(""), "");
}

#[test]
fn anchor_turns_spaces_into_hyphens() {
    assert_eq!(anchor("root A B"), "root-A-B");
    assert_eq!(anchor("app"), "app");
    assert_eq!(anchor(" a  b "), "-a--b-");
    assert_eq!(anchor("a\tb"), "a\tb");
}
