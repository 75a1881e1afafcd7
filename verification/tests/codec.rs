use mcp_agent::log_codec::{encode_log, parse_log};
use mcp_agent::text::{i64_to_dec, str_eq, u64_to_dec};

#[test]
fn log_round_trip_plain() {
    let log = encode_log("call_1", "[{\"id\":\"call_1\"}]");
    let parsed = parse_log(log.as_str()).expect("encoded log must parse");
    assert_eq!(parsed.0, "call_1");
    assert_eq!(parsed.1, "[{\"id\":\"call_1\"}]");
}

#[test]
fn log_round_trip_hostile_content() {
    let id = "we\"ird\\id\nwith\tcontrol";
    let tools = "[{\"args\":\"a \\\"quoted\\\" value\"}]";
    let log = encode_log(id, tools);
    let parsed = parse_log(log.as_str()).expect("encoded log must parse");
    assert_eq!(parsed.0, id);
    assert_eq!(parsed.1, tools);
}

#[test]
fn log_is_valid_json() {
    let log = encode_log("id-1", "[1, 2, 3]");
    let v: serde_json::Value = serde_json::from_str(&log).expect("log must be valid JSON");
    assert_eq!(v["tool_id"], serde_json::Value::String("id-1".to_string()));
    assert_eq!(v["tools"], serde_json::Value::String("[1, 2, 3]".to_string()));
}

#[test]
fn log_round_trip_empty() {
    let log = encode_log("", "");
    assert_eq!(log, "{\"tool_id\":\"\",\"tools\":\"\"}");
    let parsed = parse_log(log.as_str()).expect("encoded log must parse");
    assert_eq!(parsed.0, "");
    assert_eq!(parsed.1, "");
}

#[test]
fn garbage_log_is_rejected() {
    assert!(parse_log("").is_none());
    assert!(parse_log("not json at all").is_none());
    assert!(parse_log("{\"tool_id\":\"x\"}").is_none());
    assert!(parse_log("{\"tool_id\":\"x\",\"tools\":\"y\"} trailing").is_none());
    assert!(parse_log("{\"tool_id\":\"x\",\"tools\":\"unterminated}").is_none());
}

#[test]
fn decimal_rendering() {
    assert_eq!(u64_to_dec(0), "0");
    assert_eq!(u64_to_dec(7), "7");
    assert_eq!(u64_to_dec(1234567890), "1234567890");
    assert_eq!(u64_to_dec(u64::MAX), "18446744073709551615");
    assert_eq!(i64_to_dec(-1), "-1");
    assert_eq!(i64_to_dec(0), "0");
    assert_eq!(i64_to_dec(i64::MIN), "-9223372036854775808");
    assert_eq!(i64_to_dec(1700000000), "1700000000");
}

#[test]
fn str_eq_agrees_with_equality() {
    assert!(str_eq("", ""));
    assert!(str_eq("héllo", "héllo"));
    assert!(!str_eq("a", "ab"));
    assert!(!str_eq("ab", "ac"));
}
