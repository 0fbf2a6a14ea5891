use pico_cli::args::{contains_param, get_parsed_param, get_str_param, ArgList};
use pico_cli::error::{into_truncated, Error};
use pico_cli::parser::{parse, ParsedCommand};

fn pairs(c: &ParsedCommand) -> Vec<(String, String)> {
    c.args
        .iter()
        .map(|a| (a.param.as_str().to_string(), a.value.as_str().to_string()))
        .collect()
}

#[test]
fn quoted_value_keeps_its_spaces() {
    let c = ParsedCommand::parse("cmd a=\"x y\"").unwrap();
    assert_eq!(c.cmd.as_str(), "cmd");
    assert_eq!(pairs(&c), vec![("a".to_string(), "x y".to_string())]);
}

#[test]
fn quoted_value_round_trip_many_spaces() {
    let value = "Hello  big World ";
    let line = format!("say text=\"{}\"", value);
    let c = ParsedCommand::parse(&line).unwrap();
    assert_eq!(pairs(&c), vec![("text".to_string(), value.to_string())]);
}

#[test]
fn names_are_lowercased_values_keep_case() {
    let c = ParsedCommand::parse("BLINK Times=5").unwrap();
    assert_eq!(c.cmd.as_str(), "blink");
    assert_eq!(pairs(&c), vec![("times".to_string(), "5".to_string())]);
    let c = ParsedCommand::parse("pin alias=\"LeD\"").unwrap();
    assert_eq!(pairs(&c), vec![("alias".to_string(), "LeD".to_string())]);
}

#[test]
fn malformed_equals_is_a_parse_error() {
    assert!(matches!(ParsedCommand::parse("cmd =5"), Err(Error::Parse(_))));
    assert!(matches!(ParsedCommand::parse("cmd ="), Err(Error::Parse(_))));
    assert!(matches!(ParsedCommand::parse("cmd x="), Err(Error::Parse(_))));
}

#[test]
fn unmatched_quote_is_a_parse_error() {
    assert!(matches!(ParsedCommand::parse("cmd x=\"abc"), Err(Error::Parse(_))));
}

#[test]
fn dangling_escape_is_a_parse_error() {
    assert!(matches!(ParsedCommand::parse("cmd x=\"abc\\"), Err(Error::Parse(_))));
}

#[test]
fn escapes_inside_quotes() {
    let c = ParsedCommand::parse("say t=\"a\\\"b\\\\c\"").unwrap();
    assert_eq!(pairs(&c), vec![("t".to_string(), "a\"b\\c".to_string())]);
}

#[test]
fn empty_line_is_help() {
    let c = ParsedCommand::parse("").unwrap();
    assert_eq!(c.cmd.as_str(), "help");
    assert_eq!(c.args.len(), 0);
    let c = ParsedCommand::parse("   \r").unwrap();
    assert_eq!(c.cmd.as_str(), "help");
    assert_eq!(c.args.len(), 0);
}

#[test]
fn flags_and_order_and_duplicates() {
    let c = ParsedCommand::parse("pin high gpio=3 high\r").unwrap();
    assert_eq!(
        pairs(&c),
        vec![
            ("high".to_string(), String::new()),
            ("gpio".to_string(), "3".to_string()),
            ("high".to_string(), String::new()),
        ]
    );
}

#[test]
fn value_split_at_first_equals() {
    let c = ParsedCommand::parse("set k=a=b").unwrap();
    assert_eq!(pairs(&c), vec![("k".to_string(), "a=b".to_string())]);
}

#[test]
fn too_many_arguments() {
    assert!(matches!(ParsedCommand::parse("c a b c d e"), Ok(_)));
    assert!(matches!(ParsedCommand::parse("c a b c d e f"), Err(Error::TooManyArgs)));
}

#[test]
fn over_long_parameter_and_value() {
    let ok_param = "p".repeat(16);
    assert!(ParsedCommand::parse(&format!("c {}", ok_param)).is_ok());
    let long_param = "p".repeat(17);
    assert!(matches!(ParsedCommand::parse(&format!("c {}", long_param)), Err(Error::ArgTooLong)));
    let long_value = "v".repeat(65);
    assert!(matches!(ParsedCommand::parse(&format!("c k={}", long_value)), Err(Error::ArgTooLong)));
    let ok_value = "v".repeat(64);
    assert!(ParsedCommand::parse(&format!("c k={}", ok_value)).is_ok());
}

#[test]
fn over_long_name_and_line() {
    let long_name = "n".repeat(25);
    assert!(matches!(ParsedCommand::parse(&long_name), Err(Error::CommandTooLong)));
    let long_line = format!("c {}", "x ".repeat(100));
    assert!(matches!(ParsedCommand::parse(&long_line), Err(Error::CommandTooLong)));
}

#[test]
fn multibyte_value_counts_bytes() {
    // 32 two-byte characters fill a value exactly; one more does not fit
    let fits = "é".repeat(32);
    let c = ParsedCommand::parse(&format!("c k=\"{}\"", fits)).unwrap();
    assert_eq!(pairs(&c), vec![("k".to_string(), fits.clone())]);
    let over = "é".repeat(33);
    assert!(matches!(ParsedCommand::parse(&format!("c k=\"{}\"", over)), Err(Error::ArgTooLong)));
}

#[test]
fn argument_only_parse() {
    let a = parse("Alias=OUT_A high").unwrap();
    assert_eq!(a.len(), 2);
    assert_eq!(a[0].param.as_str(), "alias");
    assert_eq!(a[0].value.as_str(), "out_a");
    assert_eq!(a[1].param.as_str(), "high");
    assert_eq!(parse("").unwrap().len(), 0);
    assert!(matches!(parse("x="), Err(Error::Parse(_))));
}

#[test]
fn parameter_lookup() {
    let c = ParsedCommand::parse("blink times=5 Interval=200 fast times=7").unwrap();
    let args = c.args.as_slice();
    assert_eq!(get_str_param("TIMES", args), Some("5"));
    assert_eq!(get_str_param("missing", args), None);
    assert!(contains_param(args, "Fast"));
    assert!(!contains_param(args, "slow"));
    assert_eq!(get_parsed_param("interval", args), Ok(200));
    assert_eq!(get_parsed_param("times", args), Ok(5));
}

#[test]
fn parsed_parameter_errors() {
    let c = ParsedCommand::parse("c n=12x big=4294967296 max=4294967295 plus=+7 fast").unwrap();
    let args = c.args.as_slice();
    assert_eq!(get_parsed_param("n", args), Err(Error::Parse(into_truncated("n"))));
    assert_eq!(get_parsed_param("big", args), Err(Error::Parse(into_truncated("big"))));
    assert_eq!(get_parsed_param("max", args), Ok(4294967295));
    assert_eq!(get_parsed_param("plus", args), Ok(7));
    assert_eq!(get_parsed_param("fast", args), Err(Error::Parse(into_truncated("fast"))));
    assert_eq!(get_parsed_param("gone", args), Err(Error::MissingArg(into_truncated("gone"))));
}

#[test]
fn truncation_keeps_whole_characters() {
    assert_eq!(into_truncated("short").as_str(), "short");
    let long = "a".repeat(60);
    assert_eq!(into_truncated(&long).as_str(), &long[..48]);
    let wide = format!("{}é", "a".repeat(47));
    assert_eq!(into_truncated(&wide).as_str(), &wide[..47]);
}

#[test]
fn lookups_through_the_trait() {
    let c = ParsedCommand::parse("servo us=1500 Sweep").unwrap();
    let args: &[pico_cli::parser::Argument] = c.args.as_slice();
    assert_eq!(ArgList::get_parsed_param(args, "US"), Ok(1500));
    assert_eq!(ArgList::get_str_param(args, "us"), Some("1500"));
    assert!(ArgList::contains_param(args, "sweep"));
    assert_eq!(ArgList::get_parsed_param(args, "pause"), Err(Error::MissingArg(into_truncated("pause"))));
}

#[test]
fn quoted_value_round_trip_argument_parser() {
    let value = "Mixed Case  and spaces ";
    let a = parse(&format!("cmd label=\"{}\"", value)).unwrap();
    assert_eq!(a.len(), 2);
    assert_eq!(a[0].param.as_str(), "cmd");
    assert_eq!(a[0].value.as_str(), "");
    assert_eq!(a[1].param.as_str(), "label");
    assert_eq!(a[1].value.as_str(), value);
}
