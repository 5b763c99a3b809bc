use log_query::parser::parser::{ParseError, Parser};
use log_query::parser::parser_profile::ParserProfile;
use log_query::parser::simple_parser::{collect_fields, SimpleParser};
use log_query::{process_query_on_log_line, LogLineParseResult, Query};

fn sample_log() -> String {
    String::from("2020/07/17 23:12:30.037 INFO [ImageManagerImpl] [ImageManagerImpl-dispatcher] [liquid-server-war] [] Process snapshot: Snapshotting not enabled")
}

fn toy_parser() -> SimpleParser {
    let parser_config = r#"{
                "parser_name": "test_parser_1",
                "line_format": "(?P<year>\\d{4})/(?P<month>\\d{2})/(?P<day>\\d{2})\\s(?P<hour>\\d{2}):(?P<minute>\\d{2}):(?P<second>\\d{2})\\.(?P<millisecond>\\d{0,3})\\s(?P<verbosity>\\w+)\\s\\[(?P<class>\\w+)\\]\\s\\[(?P<thread>[^\\]]+)\\]\\s\\[(?P<application>[^\\]]+)\\]\\s\\[(?P<client_id>[^\\]]*)\\]\\s(?P<content>.*)"
            }"#;
    let config: serde_json::Value = serde_json::from_str(parser_config).unwrap();
    let profile = ParserProfile::new(
        config["parser_name"].as_str().unwrap(),
        config["line_format"].as_str().unwrap(),
    );

    SimpleParser::from_profile(profile).unwrap()
}

fn names_of(line: &dyn Fn(&str) -> bool, candidates: &[&str]) -> Vec<String> {
    candidates.iter().filter(|name| line(name)).map(|name| String::from(*name)).collect()
}

#[test]
fn test_process_query_on_log_line() {
    let parser = toy_parser();
    let parsed_log = match parser.parse(&sample_log()) {
        Ok(log) => log,
        Err(err) => panic!("{:?}", err),
    };
    // Without quotes, and with a single `&`, this text is no query.
    assert!(Query::new("class=ImageManagerImpl&thread=ImageManagerImpl-dispatcher").is_err());
    let query = Query::new("class=\"ImageManagerImpl\"&&thread=\"ImageManagerImpl-dispatcher\"").unwrap();
    assert_eq!(process_query_on_log_line(&query, &*parsed_log), true);
}

#[test]
fn lib_test_java_parse() {
    let log_line = sample_log();
    let parser = toy_parser();
    let parsed_log = match parser.parse(&log_line) {
        Ok(log) => log,
        Err(err) => panic!("{:?}", err),
    };
    assert_eq!(parsed_log.get_field("thread").unwrap(), "ImageManagerImpl-dispatcher");
    assert_eq!(parsed_log.get_field("class").unwrap(), "ImageManagerImpl");
    assert_eq!(parsed_log.get_field("verbosity").unwrap(), "INFO");
}

#[test]
fn test_simple_parse() {
    let parser = SimpleParser::new("simple_parser", r"(?P<test_capture_group>test_[a-z]+)").unwrap();
    let log = "test_key";
    assert_eq!(parser.parse(log).unwrap().get_field("test_capture_group").unwrap(), "test_key");
}

#[test]
fn parser_keeps_its_name() {
    assert_eq!(toy_parser().get_name(), "test_parser_1");
}

#[test]
fn pattern_that_does_not_compile_is_rejected() {
    assert_eq!(SimpleParser::new("broken", "foo(bar").err(), Some(ParseError::PatternCompileError));
    assert_eq!(
        SimpleParser::from_profile(ParserProfile::new("broken", "(?P<a>")).err(),
        Some(ParseError::PatternCompileError)
    );
}

#[test]
fn line_without_match_is_no_match() {
    let parser = SimpleParser::new("simple_parser", r"(?P<test_capture_group>test_[a-z]+)").unwrap();
    assert_eq!(parser.parse("nothing here").err(), Some(ParseError::NoMatch));
    assert_eq!(parser.parse("").err(), Some(ParseError::NoMatch));
}

#[test]
fn fields_are_the_named_groups_that_took_part() {
    let parser = SimpleParser::new("optional", r"(?P<a>x)(?P<b>y)?(z)(?P<c>w*)").unwrap();
    let line = parser.parse("xz").unwrap();
    let has = |name: &str| line.get_field(name).is_some();
    assert_eq!(names_of(&has, &["a", "b", "c", "", "0", "3"]), vec!["a", "c"]);
    assert_eq!(line.get_content().len(), 2);
    assert_eq!(line.get_field("a").unwrap(), "x");
    assert_eq!(line.get_field("c").unwrap(), "");
    assert_eq!(line.get_field("b"), None);

    let line = parser.parse("--xyzww--").unwrap();
    assert_eq!(line.get_content().len(), 3);
    assert_eq!(line.get_field("b").unwrap(), "y");
    assert_eq!(line.get_field("c").unwrap(), "ww");
}

#[test]
fn pattern_without_named_groups_gives_no_fields() {
    let parser = SimpleParser::new("bare", r"(\d+)-(\d+)").unwrap();
    let line = parser.parse("10-20").unwrap();
    assert_eq!(line.get_content().len(), 0);
}

#[test]
fn fields_are_collected_pairwise() {
    let names = vec![None, Some(String::from("a")), Some(String::from("b")), None, Some(String::from("c"))];
    let texts = vec![
        Some(String::from("whole")),
        Some(String::from("1")),
        None,
        Some(String::from("unnamed")),
        Some(String::from("3")),
    ];
    let fields = collect_fields(&names, &texts);
    assert_eq!(fields.len(), 2);
    assert_eq!(fields.get("a"), Some(&String::from("1")));
    assert_eq!(fields.get("b"), None);
    assert_eq!(fields.get("c"), Some(&String::from("3")));

    let fewer = vec![Some(String::from("whole")), Some(String::from("1"))];
    let fields = collect_fields(&names, &fewer);
    assert_eq!(fields.len(), 1);
    assert_eq!(fields.get("a"), Some(&String::from("1")));
    assert_eq!(collect_fields(&Vec::new(), &texts).len(), 0);
}

#[test]
fn end_to_end() {
    let parser = SimpleParser::new(
        "dated",
        r"(?P<year>\d{4})-(?P<month>\d{2})-(?P<day>\d{2}) (?P<level>\w+) (?P<msg>.*)",
    )
    .unwrap();
    let line = parser.parse("2020-03-11 WARN disk full").unwrap();
    assert_eq!(line.get_content().len(), 5);
    assert_eq!(line.get_field("year").unwrap(), "2020");
    assert_eq!(line.get_field("month").unwrap(), "03");
    assert_eq!(line.get_field("day").unwrap(), "11");
    assert_eq!(line.get_field("level").unwrap(), "WARN");
    assert_eq!(line.get_field("msg").unwrap(), "disk full");

    assert_eq!(Query::new("level=\"WARN\"").unwrap().check(&*line), true);
    assert_eq!(Query::new("level=\"WARN\"&&year=\"1999\"").unwrap().check(&*line), false);
    assert_eq!(Query::new("level=\"WARN\"||year=\"1999\"").unwrap().check(&*line), true);
}
