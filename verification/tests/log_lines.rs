use log_query::content_parsers::java_parser::{java_parser, JavaParseError};
use log_query::content_parsers::timestamp::Timestamp;
use log_query::matchers::matcher::Matcher;
use log_query::matchers::thread_matcher::ThreadMatcher;
use log_query::output::output_profile::OutputProfile;
use log_query::parser::decimal::parse_u32;
use log_query::parser::log_line::DefaultLogLine as FieldLogLine;
use log_query::parser::log_line::LogLine as FieldLine;
use log_query::parser::parser_profile::ParserProfile;
use log_query::parser::timestamp::Timestamp as FieldTimestamp;
use log_query::parsers::java_parser::parse_java;
use log_query::parsers::log_line::{DefaultLogLine, LogLine};
use log_query::parsers::verbosity::{UnknownVerbosity, Verbosity};
use log_query::{DefaultLogLineParseResult, FieldMap, LogLineParseResult};

#[test]
fn test_java_log_line_matches_thread() {
    let thread_name = "Thread";
    let matcher = ThreadMatcher::new(thread_name);
    let timestamp = Timestamp::new("2020", "07", "10", "10", "23", "02", "111");
    let log_line = DefaultLogLine::new(
        timestamp.clone(),
        String::from("Class"),
        thread_name.to_string(),
        Verbosity::Debug,
        String::from("test"),
    );
    assert!(matcher.matches(&log_line));

    let log_line = DefaultLogLine::new(
        timestamp.clone(),
        String::from("Class"),
        String::from("Thread2"),
        Verbosity::Debug,
        String::from("test"),
    );
    assert!(!matcher.matches(&log_line));
}

#[test]
fn default_log_line_parse_result_test_default_log_line_construction() {
    let log_line = DefaultLogLineParseResult::new(FieldMap::from_pairs(&vec![(
        String::from("test_field"),
        String::from("test_value"),
    )]));
    assert_eq!(*log_line.get_field("test_field").unwrap(), "test_value");
}

#[test]
fn log_line_test_default_log_line_construction() {
    let log_line = FieldLogLine::new(FieldMap::from_pairs(&vec![(
        String::from("test_field"),
        String::from("test_value"),
    )]));
    assert_eq!(*log_line.get_field("test_field").unwrap(), "test_value");
}

#[test]
fn test_default_log_line_construction() {
    let timestamp = Timestamp::new("2020", "07", "10", "10", "23", "02", "111");
    let log_line = DefaultLogLine::new(
        timestamp.clone(),
        String::from("Class"),
        String::from("Thread"),
        Verbosity::Debug,
        String::from("test content"),
    );
    assert_eq!(*log_line.get_timestamp(), timestamp);
    assert_eq!(*log_line.get_class(), "Class");
    assert_eq!(*log_line.get_thread(), "Thread");
    assert_eq!(*log_line.get_verbosity(), Verbosity::Debug);
    assert_eq!(*log_line.get_content(), "test content");
}

#[test]
fn java_parser_test_java_parse() {
    let log_line = "2020-03-11 07:19:21.542 [kafka-admin-client-thread | admin-adminClient] [] NetworkClient [WARN] [AdminClient clientId=admin-adminClient] Error connecting to node ltx1-app2113.stg.linkedin.com:16637 (id: 2113 rack: 405)";
    let parser = java_parser().unwrap();
    let parsed_log = match parse_java(&parser, &log_line) {
        Ok(log) => log,
        Err(err) => panic!("{:?}", err),
    };
    assert_eq!(parsed_log.timestamp, Timestamp::new("2020", "3", "11", "7", "19", "21", "542"));
    assert_eq!(parsed_log.thread, "kafka-admin-client-thread | admin-adminClient");
    assert_eq!(parsed_log.class, "NetworkClient");
    assert_eq!(parsed_log.verbosity, Verbosity::Warn);
    assert_eq!(
        parsed_log.get_content().raw_content,
        "Error connecting to node ltx1-app2113.stg.linkedin.com:16637 (id: 2113 rack: 405)"
    );
}

#[test]
fn java_line_with_content_as_text() {
    let parser = java_parser().unwrap();
    let line = log_query::content_parsers::java_parser::parse_java(
        &parser,
        "2020-03-11 07:19:21.542 [main] [] Server [INFO] [client] started",
    )
    .unwrap();
    assert_eq!(line.timestamp, Timestamp::new("2020", "03", "11", "07", "19", "21", "542"));
    assert_eq!(line.thread, "main");
    assert_eq!(line.class, "Server");
    assert_eq!(line.verbosity, Verbosity::Info);
    assert_eq!(line.content, "started");
}

#[test]
fn java_line_errors() {
    let parser = java_parser().unwrap();
    assert_eq!(parse_java(&parser, "not a log line").err(), Some(JavaParseError::NoMatch));
    assert_eq!(
        parse_java(&parser, "2020-03-11 07:19:21. [main] [] Server [INFO] [client] started").err(),
        Some(JavaParseError::MalformedTimestamp)
    );
    assert_eq!(
        parse_java(&parser, "2020-03-11 07:19:21.542 [main] [] Server [LOUD] [client] started").err(),
        Some(JavaParseError::UnknownVerbosity)
    );
}

#[test]
fn java_line_from_fields_needs_every_field() {
    let pairs: Vec<(String, String)> = [
        ("year", "2020"),
        ("month", "03"),
        ("day", "11"),
        ("hour", "07"),
        ("minute", "19"),
        ("second", "21"),
        ("millisecond", "542"),
        ("verbosity", "WARN"),
        ("class", "Server"),
        ("thread", "main"),
    ]
    .iter()
    .map(|(k, v)| (String::from(*k), String::from(*v)))
    .collect();
    let fields = FieldMap::from_pairs(&pairs);
    assert_eq!(
        log_query::content_parsers::java_parser::log_line_of_fields(&fields).err(),
        Some(JavaParseError::MissingField)
    );
    let fields = fields.with(String::from("content"), String::from("text"));
    let line = log_query::content_parsers::java_parser::log_line_of_fields(&fields).unwrap();
    assert_eq!(line.content, "text");
    assert_eq!(line.verbosity, Verbosity::Warn);
}

#[test]
fn verbosity_names() {
    assert_eq!(Verbosity::from_str("DEBUG"), Ok(Verbosity::Debug));
    assert_eq!(Verbosity::from_str("INFO"), Ok(Verbosity::Info));
    assert_eq!(Verbosity::from_str("ERROR"), Ok(Verbosity::Error));
    assert_eq!(Verbosity::from_str("WARN"), Ok(Verbosity::Warn));
    assert_eq!(Verbosity::from_str("warn"), Err(UnknownVerbosity));
    assert_eq!(Verbosity::from_str(""), Err(UnknownVerbosity));
    assert_eq!("ERROR".parse::<Verbosity>(), Ok(Verbosity::Error));
    assert_eq!("Error".parse::<Verbosity>(), Err(UnknownVerbosity));
}

#[test]
fn decimal_numbers() {
    assert_eq!(parse_u32("0"), Some(0));
    assert_eq!(parse_u32("007"), Some(7));
    assert_eq!(parse_u32("+42"), Some(42));
    assert_eq!(parse_u32("4294967295"), Some(4294967295));
    assert_eq!(parse_u32("4294967296"), None);
    assert_eq!(parse_u32("99999999999"), None);
    assert_eq!(parse_u32(""), None);
    assert_eq!(parse_u32("+"), None);
    assert_eq!(parse_u32("-1"), None);
    assert_eq!(parse_u32("12a"), None);
    assert_eq!(parse_u32(" 12"), None);
    assert_eq!(parse_u32("１２"), None);
}

#[test]
fn decimal_numbers_agree_with_std() {
    for text in ["0", "1", "+1", "0042", "4294967295", "4294967296", "", "+", "++1", "1+", "x"] {
        assert_eq!(parse_u32(text), text.parse::<u32>().ok());
    }
}

#[test]
fn timestamp_with_optional_milliseconds() {
    let with = FieldTimestamp::new("2020", "07", "17", "23", "12", "30", Some("037"));
    assert_eq!(with.year, 2020);
    assert_eq!(with.month, 7);
    assert_eq!(with.second, 30);
    assert_eq!(with.millisecond, Some(37));
    let without = FieldTimestamp::new("2020", "07", "17", "23", "12", "30", None);
    assert_eq!(without.millisecond, None);
    let unreadable = FieldTimestamp::new("2020", "07", "17", "23", "12", "30", Some(""));
    assert_eq!(unreadable.millisecond, None);
}

#[test]
fn timestamp_from_fields() {
    let pairs: Vec<(String, String)> =
        [("year", "2020"), ("month", "07"), ("day", "17"), ("hour", "23"), ("minute", "12"), ("second", "30")]
            .iter()
            .map(|(k, v)| (String::from(*k), String::from(*v)))
            .collect();
    let fields = FieldMap::from_pairs(&pairs);
    let read = FieldTimestamp::read(&fields).unwrap();
    assert_eq!(read, FieldTimestamp::new("2020", "7", "17", "23", "12", "30", None));
    assert_eq!(FieldTimestamp::from_match(&fields), read);
    assert_eq!(Timestamp::read(&fields), None);
    assert_eq!(FieldTimestamp::read(&FieldMap::new()), None);
    let fields = fields.with(String::from("millisecond"), String::from("5"));
    assert_eq!(Timestamp::from_match(&fields), Timestamp::new("2020", "7", "17", "23", "12", "30", "5"));
}

#[test]
fn profiles_keep_their_texts() {
    let profile = ParserProfile::new("name", "(?P<a>.)");
    assert_eq!(profile.get_name(), "name");
    assert_eq!(profile.line_format, "(?P<a>.)");
    assert_eq!(OutputProfile::from_str("{{a}}").output_template, "{{a}}");
}

#[test]
fn field_map_keeps_one_value_per_name() {
    let mut fields = FieldMap::new();
    assert_eq!(fields.len(), 0);
    fields.insert(String::from("a"), String::from("1"));
    fields.insert(String::from("b"), String::from("2"));
    fields.insert(String::from("a"), String::from("3"));
    assert_eq!(fields.len(), 2);
    assert_eq!(fields.get("a"), Some(&String::from("3")));
    assert_eq!(fields.get("b"), Some(&String::from("2")));
    assert_eq!(fields.get("c"), None);
    assert!(fields.contains_key("a"));
    assert!(!fields.contains_key(""));
    assert_eq!(fields.pairs().len(), 2);
    let line = FieldLogLine::new(fields);
    assert_eq!(line.get_content().len(), 2);
}
