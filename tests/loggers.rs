use log::LevelFilter;
use maidsafe_utilities::loggers::{parse_loggers, ParseLoggerError};

#[test]
fn test_parse_loggers() {
    let (level, loggers) = parse_loggers("").unwrap();
    assert_eq!(level, LevelFilter::Warn);
    assert!(loggers.is_empty());

    let (level, loggers) = parse_loggers("foo").unwrap();
    assert_eq!(level, LevelFilter::Warn);
    assert_eq!(loggers.len(), 1);
    assert_eq!(loggers[0].0, "foo");
    assert_eq!(loggers[0].1, LevelFilter::Warn);

    let (level, loggers) = parse_loggers("info").unwrap();
    assert_eq!(level, LevelFilter::Info);
    assert!(loggers.is_empty());

    let (level, loggers) = parse_loggers("foo::bar=warn").unwrap();
    assert_eq!(level, LevelFilter::Warn);
    assert_eq!(loggers.len(), 1);
    assert_eq!(loggers[0].0, "foo::bar");
    assert_eq!(loggers[0].1, LevelFilter::Warn);

    let (level, loggers) = parse_loggers("foo::bar=error,baz=debug,qux").unwrap();
    assert_eq!(level, LevelFilter::Warn);
    assert_eq!(loggers.len(), 3);

    assert_eq!(loggers[0].0, "foo::bar");
    assert_eq!(loggers[0].1, LevelFilter::Error);

    assert_eq!(loggers[1].0, "baz");
    assert_eq!(loggers[1].1, LevelFilter::Debug);

    assert_eq!(loggers[2].0, "qux");
    assert_eq!(loggers[2].1, LevelFilter::Warn);

    let (level, loggers) = parse_loggers("info,foo::bar,baz=debug,a0,a1, a2 , a3").unwrap();
    assert_eq!(level, LevelFilter::Info);
    assert_eq!(loggers.len(), 6);

    assert_eq!(loggers[0].0, "foo::bar");
    assert_eq!(loggers[0].1, LevelFilter::Debug);

    assert_eq!(loggers[1].0, "baz");
    assert_eq!(loggers[1].1, LevelFilter::Debug);

    assert_eq!(loggers[2].0, "a0");
    assert_eq!(loggers[2].1, LevelFilter::Info);

    assert_eq!(loggers[3].0, "a1");
    assert_eq!(loggers[3].1, LevelFilter::Info);

    assert_eq!(loggers[4].0, "a2");
    assert_eq!(loggers[4].1, LevelFilter::Info);

    assert_eq!(loggers[5].0, "a3");
    assert_eq!(loggers[5].1, LevelFilter::Info);
}

#[test]
fn parse_loggers_rejects_unknown_level() {
    assert_eq!(parse_loggers("foo=loud"), Err(ParseLoggerError));
    assert_eq!(parse_loggers("foo= debug"), Err(ParseLoggerError));
}

#[test]
fn parse_loggers_ignores_case_and_blank_entries() {
    let (level, loggers) = parse_loggers(" ,TRACE,, m=Off ,").unwrap();
    assert_eq!(level, LevelFilter::Trace);
    assert_eq!(loggers, vec![("m".to_string(), LevelFilter::Off)]);
}

#[test]
fn parse_loggers_ignores_parts_after_second_equals() {
    let (_, loggers) = parse_loggers("m=error=whatever").unwrap();
    assert_eq!(loggers, vec![("m".to_string(), LevelFilter::Error)]);
}

#[test]
fn parse_loggers_default_set_after_modules_applies_to_them() {
    let (level, loggers) = parse_loggers("a,debug").unwrap();
    assert_eq!(level, LevelFilter::Debug);
    assert_eq!(loggers, vec![("a".to_string(), LevelFilter::Debug)]);
}
