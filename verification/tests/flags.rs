use clap_show::{fmt_flags, ArgumentNode};

fn flag_arg(id: &str) -> ArgumentNode {
    ArgumentNode {
        id: id.to_string(),
        short: None,
        long: None,
        value_names: None,
        takes_values: false,
        positional: false,
        required: false,
        max_values: None,
        help: None,
        long_help: None,
        hidden: false,
    }
}

fn names(items: &[&str]) -> Option<Vec<String>> {
    Some(items.iter().map(|s| s.to_string()).collect())
}

#[test]
fn required_option_shows_both_flags_and_angle_brackets() {
    let mut arg = flag_arg("flag");
    arg.short = Some('f');
    arg.long = Some("flag".to_string());
    arg.takes_values = true;
    arg.required = true;
    arg.value_names = names(&["VALUE"]);
    arg.max_values = Some(1);
    let text = fmt_flags(&arg);
    assert_eq!(text, "-f, --flag <VALUE>");
    assert_eq!(text.matches('<').count(), 1);
    assert!(!text.contains('[') && !text.contains(']'));
}

#[test]
fn optional_long_option_is_indented_and_uses_square_brackets() {
    let mut arg = flag_arg("name");
    arg.long = Some("name".to_string());
    arg.takes_values = true;
    arg.value_names = names(&["NAME"]);
    let text = fmt_flags(&arg);
    assert_eq!(text, "    --name [NAME]");
    assert!(text.starts_with("  "));
}

#[test]
fn repeating_argument_ends_with_ellipsis() {
    let mut arg = flag_arg("files");
    arg.long = Some("file".to_string());
    arg.takes_values = true;
    arg.value_names = names(&["FILE"]);
    arg.max_values = Some(usize::MAX);
    let text = fmt_flags(&arg);
    assert_eq!(text, "    --file [FILE] ...");
    assert!(text.ends_with("..."));
}

#[test]
fn repeating_argument_without_values_shows_only_the_ellipsis() {
    let mut arg = flag_arg("verbose");
    arg.short = Some('v');
    arg.max_values = Some(2);
    assert_eq!(fmt_flags(&arg), "-v ...");
}

#[test]
fn two_values_at_most_one_do_not_repeat() {
    let mut arg = flag_arg("level");
    arg.short = Some('l');
    arg.takes_values = true;
    arg.value_names = names(&["LEVEL"]);
    arg.max_values = Some(1);
    assert_eq!(fmt_flags(&arg), "-l [LEVEL]");
    arg.max_values = Some(0);
    assert_eq!(fmt_flags(&arg), "-l [LEVEL]");
}

#[test]
fn switch_without_value_has_no_placeholder() {
    let mut arg = flag_arg("verbose");
    arg.short = Some('v');
    arg.long = Some("verbose".to_string());
    assert_eq!(fmt_flags(&arg), "-v, --verbose");
}

#[test]
fn short_flag_alone() {
    let mut arg = flag_arg("quiet");
    arg.short = Some('q');
    assert_eq!(fmt_flags(&arg), "-q");
}

#[test]
fn positional_falls_back_to_upper_case_identifier() {
    let mut arg = flag_arg("target");
    arg.positional = true;
    arg.takes_values = true;
    arg.required = true;
    assert_eq!(fmt_flags(&arg), "   <TARGET>");
}

#[test]
fn optional_positional_falls_back_in_square_brackets() {
    let mut arg = flag_arg("pos_optional");
    arg.positional = true;
    arg.takes_values = true;
    assert_eq!(fmt_flags(&arg), "   [POS_OPTIONAL]");
}

#[test]
fn fallback_upper_cases_ascii_letters_only() {
    let mut arg = flag_arg("größe-2x");
    arg.takes_values = true;
    arg.required = true;
    assert_eq!(fmt_flags(&arg), "   <GRößE-2X>");
}

#[test]
fn several_value_names_are_separated_by_spaces() {
    let mut arg = flag_arg("point");
    arg.long = Some("point".to_string());
    arg.short = Some('p');
    arg.takes_values = true;
    arg.required = true;
    arg.value_names = names(&["X", "Y"]);
    arg.max_values = Some(2);
    assert_eq!(fmt_flags(&arg), "-p, --point <X> <Y> ...");
}

#[test]
fn declared_value_names_are_kept_as_written() {
    let mut arg = flag_arg("out");
    arg.long = Some("out".to_string());
    arg.takes_values = true;
    arg.value_names = names(&["path"]);
    assert_eq!(fmt_flags(&arg), "    --out [path]");
}

#[test]
fn value_names_are_ignored_where_no_value_is_taken() {
    let mut arg = flag_arg("dry");
    arg.long = Some("dry-run".to_string());
    arg.value_names = names(&["IGNORED"]);
    assert_eq!(fmt_flags(&arg), "    --dry-run");
}

#[test]
fn empty_long_name_still_counts_as_a_long_flag() {
    let mut arg = flag_arg("odd");
    arg.short = Some('o');
    arg.long = Some(String::new());
    assert_eq!(fmt_flags(&arg), "-o, --");
}

#[test]
fn formatting_twice_gives_the_same_text() {
    let mut arg = flag_arg("flag");
    arg.short = Some('f');
    arg.long = Some("flag".to_string());
    arg.takes_values = true;
    arg.value_names = names(&["VALUE"]);
    assert_eq!(fmt_flags(&arg), fmt_flags(&arg));
}

#[test]
fn well_formedness_of_arguments() {
    let mut arg = flag_arg("flag");
    assert!(arg.is_well_formed());
    arg.value_names = names(&[]);
    assert!(arg.is_well_formed());
    arg.takes_values = true;
    assert!(!arg.is_well_formed());
    arg.value_names = names(&["A"]);
    assert!(arg.is_well_formed());
    arg.value_names = None;
    assert!(arg.is_well_formed());
}
