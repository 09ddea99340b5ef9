use android_logcat_otel::logcat_line::LogcatLine;
use android_logcat_otel::logcat_line::ParseError;

#[test]
fn logcat_line_parse() {
    let source = r#"
                  0.004  logd   151   151 W auditd  : type=2000 audit(0.0:1): state=initialized audit_enabled=0 res=1
         1722132942.768  logd   151   151 W auditd  : type=1403 audit(0.0:2): auid=4294967295 ses=4294967295 lsm=selinux res=1
         1722132942.768  logd   151   151 W auditd  : type=1404 audit(0.0:3): enforcing=1 old_enforcing=0 auid=4294967295 ses=4294967295 enabled=1 old-enabled=1 lsm=selinux res=1
         1722132943.523  1000   158   158 W linker  : Warning: failed to find generated linker configuration from "/linkerconfig/ld.config.txt"
         1722132943.527  1000   159   159 W linker  : Warning: failed to find generated linker configuration from "/linkerconfig/ld.config.txt"
"#;

    let mut lines = source.lines();

    lines.next().unwrap();

    let expected = LogcatLine {
        timestamp: 4,
        uid: "logd".into(),
        pid: 151,
        tid: 151,
        level: "W".into(),
        tag: "auditd".into(),
        msg: "type=2000 audit(0.0:1): state=initialized audit_enabled=0 res=1".into(),
    };
    assert_eq!(lines.next().unwrap().parse::<LogcatLine>().unwrap(), expected,);

    let expected = LogcatLine {
        timestamp: 1722132942768,
        uid: "logd".into(),
        pid: 151,
        tid: 151,
        level: "W".into(),
        tag: "auditd".into(),
        msg: "type=1403 audit(0.0:2): auid=4294967295 ses=4294967295 lsm=selinux res=1".into(),
    };
    assert_eq!(lines.next().unwrap().parse::<LogcatLine>().unwrap(), expected,);

    let expected = LogcatLine {
        timestamp: 1722132942768,
        uid: "logd".into(),
        pid: 151,
        tid: 151,
        level: "W".into(),
        tag: "auditd".into(),
        msg: "type=1404 audit(0.0:3): enforcing=1 old_enforcing=0 auid=4294967295 ses=4294967295 enabled=1 old-enabled=1 lsm=selinux res=1".into(),
    };
    assert_eq!(lines.next().unwrap().parse::<LogcatLine>().unwrap(), expected,);

    let expected = LogcatLine {
        timestamp: 1722132943523,
        uid: "1000".into(),
        pid: 158,
        tid: 158,
        level: "W".into(),
        tag: "linker".into(),
        msg: r#"Warning: failed to find generated linker configuration from "/linkerconfig/ld.config.txt""#.into(),
    };
    assert_eq!(lines.next().unwrap().parse::<LogcatLine>().unwrap(), expected,);

    let expected = LogcatLine {
        timestamp: 1722132943527,
        uid: "1000".into(),
        pid: 159,
        tid: 159,
        level: "W".into(),
        tag: "linker".into(),
        msg: r#"Warning: failed to find generated linker configuration from "/linkerconfig/ld.config.txt""#.into(),
    };
    assert_eq!(lines.next().unwrap().parse::<LogcatLine>().unwrap(), expected,);
}

#[test]
fn parse_epoch_line_with_padded_tag() {
    let line = "         1722132942.768  logd   151   151 W auditd  : type=1403 audit(0.0:2): auid=4294967295";
    let expected = LogcatLine {
        timestamp: 1722132942768,
        uid: "logd".into(),
        pid: 151,
        tid: 151,
        level: "W".into(),
        tag: "auditd".into(),
        msg: "type=1403 audit(0.0:2): auid=4294967295".into(),
    };
    assert_eq!(LogcatLine::from_str(line).unwrap(), expected);
}

#[test]
fn parse_small_epoch_line() {
    let line = "                  0.004  logd   151   151 W auditd  : state=initialized";
    let expected = LogcatLine {
        timestamp: 4,
        uid: "logd".into(),
        pid: 151,
        tid: 151,
        level: "W".into(),
        tag: "auditd".into(),
        msg: "state=initialized".into(),
    };
    assert_eq!(LogcatLine::from_str(line).unwrap(), expected);
}

#[test]
fn parse_is_idempotent() {
    let line = "         1722132942.768  logd   151   151 W auditd  : type=1403 audit(0.0:2): auid=4294967295";
    let first = LogcatLine::from_str(line).unwrap();
    let second = LogcatLine::from_str(line).unwrap();
    assert_eq!(first, second);
    assert!(LogcatLine::from_str("").is_err());
    assert!(LogcatLine::from_str("").is_err());
}

#[test]
fn parse_tag_ending_in_colon() {
    // The tag run itself ends in the separating colon.
    let line = "  1.000  u  1  1 W tag: msg";
    let parsed = LogcatLine::from_str(line).unwrap();
    assert_eq!(parsed.tag, "tag");
    assert_eq!(parsed.msg, "msg");
}

#[test]
fn parse_empty_message() {
    let line = "  1.000  u  1  1 W t : ";
    let parsed = LogcatLine::from_str(line).unwrap();
    assert_eq!(parsed.tag, "t");
    assert_eq!(parsed.msg, "");
    assert_eq!(parsed.timestamp, 1000);
}

#[test]
fn parse_message_is_not_reinterpreted() {
    // A message that looks like another log line stays verbatim.
    let line = "  2.345  u  1  1 W t :   9.876  v  2  2 E x : inner";
    let parsed = LogcatLine::from_str(line).unwrap();
    assert_eq!(parsed.timestamp, 2345);
    assert_eq!(parsed.msg, "  9.876  v  2  2 E x : inner");
}

#[test]
fn reject_empty_and_structureless_lines() {
    assert_eq!(LogcatLine::from_str(""), Err(ParseError));
    assert_eq!(LogcatLine::from_str("   "), Err(ParseError));
    assert_eq!(LogcatLine::from_str("plain text without structure"), Err(ParseError));
}

#[test]
fn reject_missing_leading_space() {
    // The match is anchored: no leading space, no record.
    assert_eq!(LogcatLine::from_str("1.000  u  1  1 W t : m"), Err(ParseError));
    // Leading garbage before the timestamp must not let later fields match.
    assert_eq!(LogcatLine::from_str("x  1.000  u  1  1 W t : m"), Err(ParseError));
}

#[test]
fn reject_bad_timestamp_fields() {
    // Non-digit seconds.
    assert_eq!(LogcatLine::from_str("  a.000  u  1  1 W t : m"), Err(ParseError));
    // Missing dot.
    assert_eq!(LogcatLine::from_str("  1000  u  1  1 W t : m"), Err(ParseError));
    // Millis must be exactly three digits.
    assert_eq!(LogcatLine::from_str("  1.00  u  1  1 W t : m"), Err(ParseError));
    assert_eq!(LogcatLine::from_str("  1.0000  u  1  1 W t : m"), Err(ParseError));
}

#[test]
fn reject_missing_separator() {
    assert_eq!(LogcatLine::from_str("  1.000  u  1  1 W t m"), Err(ParseError));
    // Colon without the single following space.
    assert_eq!(LogcatLine::from_str("  1.000  u  1  1 W t :m"), Err(ParseError));
}

#[test]
fn reject_levels_outside_the_code_set() {
    // A well-formed line except for the level code is still rejected.
    assert!(LogcatLine::from_str("  1.000  u  1  1 W t : m").is_ok());
    assert_eq!(LogcatLine::from_str("  1.000  u  1  1 X t : m"), Err(ParseError));
    assert_eq!(LogcatLine::from_str("  1.000  u  1  1 w t : m"), Err(ParseError));
    // Multi-character level tokens are rejected too.
    assert_eq!(LogcatLine::from_str("  1.000  u  1  1 WW t : m"), Err(ParseError));
}

#[test]
fn reject_out_of_range_pid_tid() {
    assert!(LogcatLine::from_str("  1.000  u  4294967295  1 W t : m").is_ok());
    assert_eq!(LogcatLine::from_str("  1.000  u  4294967296  1 W t : m"), Err(ParseError));
    assert_eq!(LogcatLine::from_str("  1.000  u  1  4294967296 W t : m"), Err(ParseError));
}

#[test]
fn timestamp_overflow_is_an_error() {
    // seconds * 1000 + millis == u128::MAX: the largest accepted timestamp.
    let max_line = "  340282366920938463463374607431768211.455  u  1  1 W t : m";
    assert_eq!(
        LogcatLine::from_str(max_line).unwrap().timestamp,
        340282366920938463463374607431768211455u128,
    );
    // One more millisecond overflows and is rejected, not wrapped.
    let over_line = "  340282366920938463463374607431768211.456  u  1  1 W t : m";
    assert_eq!(LogcatLine::from_str(over_line), Err(ParseError));
    // A seconds field past u128::MAX is rejected as well.
    let huge = "  340282366920938463463374607431768211456.000  u  1  1 W t : m";
    assert_eq!(LogcatLine::from_str(huge), Err(ParseError));
}

#[test]
fn uid_is_kept_as_text() {
    let named = LogcatLine::from_str("  1.000  logd  1  2 I t : m").unwrap();
    assert_eq!(named.uid, "logd");
    let numeric = LogcatLine::from_str("  1.000  1000  1  2 I t : m").unwrap();
    assert_eq!(numeric.uid, "1000");
    assert_eq!(numeric.pid, 1);
    assert_eq!(numeric.tid, 2);
}

#[test]
fn all_five_levels_are_accepted() {
    for level in ["E", "W", "I", "D", "V"] {
        let line = format!("  1.000  u  1  1 {} t : m", level);
        let parsed = LogcatLine::from_str(&line).unwrap();
        assert_eq!(parsed.level, *level);
    }
}
