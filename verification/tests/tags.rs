use singer_metrics::cli::Commands;
use singer_metrics::metric::Precision;
use singer_metrics::tags::{Number, TagValue, Tags};
use singer_metrics::text::{
    chars_of, decimal_text, escape_spaces, glue, push_chars, push_decimal, same_text, text_of,
};

#[test]
fn insert_keeps_the_place_of_a_key() {
    let mut tags = Tags::new();
    assert_eq!(tags.len(), 0);
    tags.insert("a".to_string(), TagValue::Bool(true));
    tags.insert("b".to_string(), TagValue::Null);
    tags.insert("a".to_string(), TagValue::Text("again".to_string()));
    tags.insert("c".to_string(), TagValue::Bool(false));
    assert_eq!(tags.len(), 3);
    assert_eq!(
        tags.entries,
        vec![
            ("a".to_string(), TagValue::Text("again".to_string())),
            ("b".to_string(), TagValue::Null),
            ("c".to_string(), TagValue::Bool(false)),
        ]
    );
}

#[test]
fn number_of_an_integer() {
    assert_eq!(
        Number::from_i64(-120),
        Number { text: "-120".to_string(), integer: Some(-120), float_text: None }
    );
    assert_eq!(Number::from_i64(i64::MIN).text, "-9223372036854775808");
}

#[test]
fn decimal_numerals() {
    assert_eq!(decimal_text(0), "0");
    assert_eq!(decimal_text(7), "7");
    assert_eq!(decimal_text(10), "10");
    assert_eq!(decimal_text(-1), "-1");
    assert_eq!(decimal_text(1234567890), "1234567890");
    assert_eq!(decimal_text(i128::MAX), i128::MAX.to_string());
    assert_eq!(decimal_text(i128::MIN), i128::MIN.to_string());
    let mut text = "n=".to_string();
    push_decimal(&mut text, -45);
    assert_eq!(text, "n=-45");
}

#[test]
fn spaces_are_escaped_and_nothing_else() {
    assert_eq!(escape_spaces("Tag With Spaces"), "Tag\\ With\\ Spaces");
    assert_eq!(escape_spaces(""), "");
    assert_eq!(escape_spaces(" "), "\\ ");
    assert_eq!(escape_spaces("  a"), "\\ \\ a");
    assert_eq!(escape_spaces("a\tb,c=d\\e"), "a\tb,c=d\\e");
    assert_eq!(escape_spaces("a\\ b"), "a\\\\ b");
}

#[test]
fn lists_are_glued_with_one_comma() {
    let mut list = String::new();
    glue(&mut list, "");
    assert_eq!(list, "");
    glue(&mut list, "a=1");
    assert_eq!(list, "a=1");
    glue(&mut list, "");
    assert_eq!(list, "a=1");
    glue(&mut list, "b=2,c=3");
    assert_eq!(list, "a=1,b=2,c=3");
}

#[test]
fn characters_in_and_out() {
    let chars = chars_of("héllo");
    assert_eq!(chars, vec!['h', 'é', 'l', 'l', 'o']);
    assert_eq!(text_of(&chars, 1, 4), "éll");
    assert_eq!(text_of(&chars, 2, 2), "");
    let mut text = "x".to_string();
    push_chars(&mut text, &chars, 0, 5);
    assert_eq!(text, "xhéllo");
    assert!(same_text("abc", "abc"));
    assert!(!same_text("abc", "abd"));
    assert!(!same_text("abc", "ab"));
}

#[test]
fn command_gives_its_protocol() {
    let protocol = Commands::LineProtocol { precision: Precision::Microseconds }.protocol();
    assert_eq!(protocol.precision, Precision::Microseconds);
    assert_eq!(protocol.extra_tags.len(), 0);
}
