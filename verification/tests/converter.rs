use latex_cut::{field_encoder, field_wrapper, ColumnTransform, Converter, EncodingOption};

fn names(items: &[&str]) -> Vec<String> {
    items.iter().map(|s| String::from(*s)).collect()
}

#[test]
fn field_wrapper_gives_name_at_position() {
    let list = names(&["emph", "", "textbf"]);
    assert_eq!(field_wrapper(&list, 0), "emph");
    assert_eq!(field_wrapper(&list, 1), "");
    assert_eq!(field_wrapper(&list, 2), "textbf");
}

#[test]
fn field_wrapper_beyond_list_gives_empty_name() {
    let list = names(&["emph"]);
    assert_eq!(field_wrapper(&list, 1), "");
    assert_eq!(field_wrapper(&Vec::new(), 0), "");
    assert_eq!(field_wrapper(&list, usize::MAX), "");
}

#[test]
fn field_encoder_gives_mode_at_position() {
    let list = vec![EncodingOption::LaTeX, EncodingOption::Listing, EncodingOption::Plain];
    assert_eq!(field_encoder(&list, 0), EncodingOption::LaTeX);
    assert_eq!(field_encoder(&list, 1), EncodingOption::Listing);
    assert_eq!(field_encoder(&list, 2), EncodingOption::Plain);
}

#[test]
fn field_encoder_beyond_list_gives_plain() {
    let list = vec![EncodingOption::LaTeX];
    assert_eq!(field_encoder(&list, 1), EncodingOption::Plain);
    assert_eq!(field_encoder(&Vec::new(), 0), EncodingOption::Plain);
}

#[test]
fn column_transform_escapes_then_wraps() {
    let transform = ColumnTransform { escape: EncodingOption::LaTeX, wrap: String::from("emph") };
    assert_eq!(transform.apply(String::from("a_b")), "\\emph{a\\_b}");
}

#[test]
fn column_transform_without_macro_only_escapes() {
    let transform = ColumnTransform { escape: EncodingOption::Listing, wrap: String::new() };
    assert_eq!(transform.apply(String::from("a_b&c")), "a\\_b&c");
}

#[test]
fn converter_has_a_row_for_every_configured_position() {
    let c = Converter::new(&names(&["a", "b", "c"]), &vec![EncodingOption::LaTeX]);
    assert_eq!(c.columns.len(), 3);
    let c = Converter::new(&names(&["a"]), &vec![EncodingOption::LaTeX, EncodingOption::Plain]);
    assert_eq!(c.columns.len(), 2);
    let c = Converter::new(&Vec::new(), &Vec::new());
    assert_eq!(c.columns.len(), 0);
}

#[test]
fn converter_rewrites_each_column_by_its_own_entries() {
    let c = Converter::new(
        &names(&["emph", "", "texttt"]),
        &vec![EncodingOption::Plain, EncodingOption::LaTeX],
    );
    assert_eq!(c.call(0, String::from("a_b")), "\\emph{a_b}");
    assert_eq!(c.call(1, String::from("a_b")), "a\\_b");
    assert_eq!(c.call(2, String::from("a_b")), "\\texttt{a_b}");
}

#[test]
fn converter_leaves_columns_beyond_both_lists() {
    let c = Converter::new(&names(&["emph"]), &vec![EncodingOption::LaTeX]);
    assert_eq!(c.call(1, String::from("a_b")), "a_b");
    assert_eq!(c.call(1000, String::from("{x}")), "{x}");
}

#[test]
fn converter_gives_the_same_answer_every_time() {
    let c = Converter::new(&names(&["emph"]), &vec![EncodingOption::LaTeX]);
    let first = c.call(0, String::from("50%"));
    let second = c.call(0, String::from("50%"));
    assert_eq!(first, "\\emph{50\\%}");
    assert_eq!(first, second);
}
