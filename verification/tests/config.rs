use latex_cut::config::{
    mode_for_name, parse_escape_fields, parse_fields, parse_mode, parse_position,
    parse_wrap_fields,
};
use latex_cut::{ConfigError, CutOptions, EncodingOption};

#[test]
fn position_is_read_from_digits() {
    assert_eq!(parse_position("1"), Some(1));
    assert_eq!(parse_position("42"), Some(42));
    assert_eq!(parse_position("007"), Some(7));
    assert_eq!(parse_position("1234567890"), Some(1234567890));
}

#[test]
fn position_may_have_a_plus_sign() {
    assert_eq!(parse_position("+12"), Some(12));
    assert_eq!(parse_position("++12"), None);
    assert_eq!(parse_position("+"), None);
    assert_eq!(parse_position("1+"), None);
}

#[test]
fn position_zero_is_refused() {
    assert_eq!(parse_position("0"), None);
    assert_eq!(parse_position("000"), None);
    assert_eq!(parse_position("+0"), None);
}

#[test]
fn position_must_be_digits_only() {
    assert_eq!(parse_position(""), None);
    assert_eq!(parse_position(" 1"), None);
    assert_eq!(parse_position("1 "), None);
    assert_eq!(parse_position("-1"), None);
    assert_eq!(parse_position("1a"), None);
    assert_eq!(parse_position("1_000"), None);
    assert_eq!(parse_position("1.0"), None);
    assert_eq!(parse_position("٣"), None);
    assert_eq!(parse_position("/"), None);
    assert_eq!(parse_position(":"), None);
}

#[test]
fn position_must_fit_the_machine() {
    let largest = usize::MAX.to_string();
    assert_eq!(parse_position(&largest), Some(usize::MAX));
    assert_eq!(parse_position("340282366920938463463374607431768211456"), None);
    let mut ten_times = largest.clone();
    ten_times.push('0');
    assert_eq!(parse_position(&ten_times), None);
    let next = (usize::MAX as u128 + 1).to_string();
    assert_eq!(parse_position(&next), None);
}

#[test]
fn position_agrees_with_std() {
    for entry in ["1", "+5", "0012", "", "+", "x", "12x", "-3", " 4", "99999999999999999999999"] {
        let expected = entry.parse::<usize>().ok().filter(|n| *n >= 1);
        assert_eq!(parse_position(entry), expected);
    }
}

#[test]
fn field_list_is_read_in_order() {
    assert_eq!(parse_fields("2,1"), Ok(vec![2, 1]));
    assert_eq!(parse_fields("3"), Ok(vec![3]));
    assert_eq!(parse_fields("1,1,+10"), Ok(vec![1, 1, 10]));
}

#[test]
fn field_list_reports_first_bad_entry() {
    assert_eq!(parse_fields(""), Err(ConfigError::InvalidField(String::new())));
    assert_eq!(parse_fields("1,,2"), Err(ConfigError::InvalidField(String::new())));
    assert_eq!(parse_fields("1,x,y"), Err(ConfigError::InvalidField(String::from("x"))));
    assert_eq!(parse_fields("1, 2"), Err(ConfigError::InvalidField(String::from(" 2"))));
    assert_eq!(parse_fields("2,0"), Err(ConfigError::InvalidField(String::from("0"))));
    assert_eq!(parse_fields("1,2,"), Err(ConfigError::InvalidField(String::new())));
}

#[test]
fn wrap_list_is_split_at_commas() {
    assert_eq!(
        parse_wrap_fields("emph,,textbf"),
        vec![String::from("emph"), String::new(), String::from("textbf")]
    );
    assert_eq!(parse_wrap_fields("emph"), vec![String::from("emph")]);
}

#[test]
fn empty_wrap_list_is_one_empty_name() {
    assert_eq!(parse_wrap_fields(""), vec![String::new()]);
}

#[test]
fn mode_names() {
    assert_eq!(mode_for_name("none"), Some(EncodingOption::Plain));
    assert_eq!(mode_for_name("latex"), Some(EncodingOption::LaTeX));
    assert_eq!(mode_for_name("listing"), Some(EncodingOption::Listing));
    assert_eq!(mode_for_name(""), Some(EncodingOption::LaTeX));
}

#[test]
fn mode_names_are_exact() {
    assert_eq!(mode_for_name("LaTeX"), None);
    assert_eq!(mode_for_name("non"), None);
    assert_eq!(mode_for_name("nonee"), None);
    assert_eq!(mode_for_name(" latex"), None);
    assert_eq!(mode_for_name("plain"), None);
}

#[test]
fn mode_is_read_whatever_the_case() {
    assert_eq!(parse_mode("LaTeX"), Some(EncodingOption::LaTeX));
    assert_eq!(parse_mode("LISTING"), Some(EncodingOption::Listing));
    assert_eq!(parse_mode("None"), Some(EncodingOption::Plain));
    assert_eq!(parse_mode("latex"), Some(EncodingOption::LaTeX));
    assert_eq!(parse_mode(""), Some(EncodingOption::LaTeX));
    assert_eq!(parse_mode("tex"), None);
}

#[test]
fn escape_list_is_read_in_order() {
    assert_eq!(
        parse_escape_fields("none,LaTeX,Listing,"),
        Ok(vec![
            EncodingOption::Plain,
            EncodingOption::LaTeX,
            EncodingOption::Listing,
            EncodingOption::LaTeX
        ])
    );
}

#[test]
fn empty_escape_list_is_one_latex_entry() {
    assert_eq!(parse_escape_fields(""), Ok(vec![EncodingOption::LaTeX]));
}

#[test]
fn escape_list_reports_first_bad_entry_as_written() {
    assert_eq!(
        parse_escape_fields("latex,Bogus,other"),
        Err(ConfigError::UnknownEncoding(String::from("Bogus")))
    );
    assert_eq!(
        parse_escape_fields(" none"),
        Err(ConfigError::UnknownEncoding(String::from(" none")))
    );
}

#[test]
fn configure_builds_valid_options() {
    let o = CutOptions::configure(
        String::from(";"),
        "2,1",
        true,
        String::from("row"),
        "emph,",
        "none,listing",
    )
    .unwrap();
    assert_eq!(o.input_delimiter, ";");
    assert_eq!(o.output_delimiter, " & ");
    assert!(o.only_delimited);
    assert_eq!(o.fields, vec![2, 1]);
    assert_eq!(o.wrap_lines, "row");
    assert_eq!(o.wrap_fields, vec![String::from("emph"), String::new()]);
    assert_eq!(o.escape_fields, vec![EncodingOption::Plain, EncodingOption::Listing]);
    assert!(o.is_valid());
    assert_eq!(o.cut_line("a_b;c_d", &o.converter()), Some(String::from("\\row{\\emph{c_d} & a\\_b}")));
}

#[test]
fn configure_with_lists_left_empty() {
    let o = CutOptions::configure(String::from(","), "2,1", false, String::new(), "", "").unwrap();
    assert_eq!(o.wrap_fields, vec![String::new()]);
    assert_eq!(o.escape_fields, vec![EncodingOption::LaTeX]);
    assert_eq!(o.cut_line("a_b,c_d", &o.converter()), Some(String::from("c\\_d & a_b\\\\")));
}

#[test]
fn configure_refuses_empty_delimiter() {
    let r = CutOptions::configure(String::new(), "x", false, String::new(), "", "bogus");
    assert_eq!(r.err(), Some(ConfigError::EmptyDelimiter));
}

#[test]
fn configure_refuses_bad_field_before_bad_mode() {
    let r = CutOptions::configure(String::from(","), "1,zero", false, String::new(), "", "bogus");
    assert_eq!(r.err(), Some(ConfigError::InvalidField(String::from("zero"))));
    let r = CutOptions::configure(String::from(","), "0", false, String::new(), "", "");
    assert_eq!(r.err(), Some(ConfigError::InvalidField(String::from("0"))));
}

#[test]
fn configure_refuses_unknown_mode() {
    let r = CutOptions::configure(String::from(","), "1", false, String::new(), "", "bogus");
    assert_eq!(r.err(), Some(ConfigError::UnknownEncoding(String::from("bogus"))));
}

#[test]
fn error_messages() {
    assert_eq!(ConfigError::EmptyDelimiter.message(), "the delimiter must not be empty");
    assert_eq!(
        ConfigError::InvalidField(String::from("x1")).message(),
        "unable to read field id: x1"
    );
    assert_eq!(
        ConfigError::UnknownEncoding(String::from("Bogus")).message(),
        "unknown encoding specified: Bogus"
    );
}
