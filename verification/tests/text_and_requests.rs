use odds_api::config::parse_sport_ids;
use odds_api::snapshot::{fixtures_url, odds_url, retry_step, RequestError, RetryAfter, RetryStep};
use odds_api::stream::{read_message, WsClient};
use odds_api::text::{chars_of, parse_i64, parse_u64, parse_u8, push_decimal, split_chars, trim_chars};

fn chars(s: &str) -> Vec<char> {
    chars_of(s)
}

#[test]
fn integer_reading_agrees_with_std() {
    let samples = [
        "0", "7", "-7", "+7", "007", "-0", "+", "-", "", " 1", "1 ", "1a", "a1", "--1", "+-1", "12345678901234567890",
        "9223372036854775807", "9223372036854775808", "-9223372036854775808", "-9223372036854775809",
        "18446744073709551615", "18446744073709551616", "255", "256", "+255", "-1", "١",
    ];
    for s in samples {
        assert_eq!(parse_i64(&chars(s)), s.parse::<i64>().ok(), "i64 {s:?}");
        assert_eq!(parse_u64(&chars(s)), s.parse::<u64>().ok(), "u64 {s:?}");
        assert_eq!(parse_u8(&chars(s)), s.parse::<u8>().ok(), "u8 {s:?}");
    }
}

#[test]
fn splitting_agrees_with_std() {
    for s in ["", ":", "a", "a:b", "a::b", ":a:", "f1:bk:1:0", "héllo:wörld"] {
        let parts: Vec<String> = split_chars(&chars(s), ':').into_iter().map(|p| p.into_iter().collect()).collect();
        let expected: Vec<String> = s.split(':').map(|p| p.to_string()).collect();
        assert_eq!(parts, expected, "{s:?}");
    }
}

#[test]
fn trimming_agrees_with_std() {
    for s in ["", "  ", " a ", "\t1,\n", "\u{3000}x\u{a0}", "a b", "\u{200b}z"] {
        let t: String = trim_chars(&chars(s)).into_iter().collect();
        assert_eq!(t, s.trim(), "{s:?}");
    }
}

#[test]
fn decimals_of_bytes() {
    for n in [0u8, 5, 9, 10, 42, 99, 100, 199, 255] {
        let mut out = String::from("x");
        push_decimal(&mut out, n);
        assert_eq!(out, format!("x{n}"));
    }
}

#[test]
fn sport_id_lists() {
    assert_eq!(parse_sport_ids("10,4"), Some(vec![10, 4]));
    assert_eq!(parse_sport_ids(" 10 , ,4,"), Some(vec![10, 4]));
    assert_eq!(parse_sport_ids(""), Some(vec![]));
    assert_eq!(parse_sport_ids("10,abc"), None);
    assert_eq!(parse_sport_ids("256"), None);
    assert_eq!(parse_sport_ids("+7"), Some(vec![7]));
    for raw in ["1, 2,3", " ,", "x", "1,,2", "300,1", "-1"] {
        let expected: Result<Vec<u8>, _> =
            raw.split(',').map(str::trim).filter(|p| !p.is_empty()).map(str::parse::<u8>).collect();
        assert_eq!(parse_sport_ids(raw), expected.ok(), "{raw:?}");
    }
}

#[test]
fn snapshot_urls() {
    assert_eq!(fixtures_url("https://api.example", 10, "KEY"), "https://api.example/fixtures?sportId=10&apiKey=KEY");
    let ids = vec!["a".to_string(), "b".to_string(), "c".to_string()];
    assert_eq!(
        odds_url("https://api.example", &ids, "KEY"),
        "https://api.example/fixtures/odds/main?fixtureIds=a,b,c&apiKey=KEY"
    );
    assert_eq!(odds_url("u", &[], "k"), "u/fixtures/odds/main?fixtureIds=&apiKey=k");
    assert_eq!(odds_url("u", &ids[..1], "k"), "u/fixtures/odds/main?fixtureIds=a&apiKey=k");
}

#[test]
fn retry_decisions() {
    assert!(matches!(retry_step(200, RetryAfter::Missing), RetryStep::Done));
    assert!(matches!(retry_step(200, RetryAfter::Text("x".to_string())), RetryStep::Done));
    assert!(matches!(retry_step(429, RetryAfter::Text("5".to_string())), RetryStep::Wait(5)));
    assert!(matches!(retry_step(429, RetryAfter::Text("+0".to_string())), RetryStep::Wait(0)));
    assert!(matches!(retry_step(429, RetryAfter::Missing), RetryStep::Fail(RequestError::MissingRetryAfter)));
    assert!(matches!(retry_step(429, RetryAfter::NotText), RetryStep::Fail(RequestError::RetryAfterNotText)));
    assert!(matches!(
        retry_step(429, RetryAfter::Text("Wed, 21 Oct 2015 07:28:00 GMT".to_string())),
        RetryStep::Fail(RequestError::RetryAfterNotSeconds)
    ));
    assert!(matches!(retry_step(500, RetryAfter::Missing), RetryStep::Fail(RequestError::Status(500))));
    assert!(matches!(retry_step(404, RetryAfter::Text("1".to_string())), RetryStep::Fail(RequestError::Status(404))));
}

#[test]
fn login_message_is_the_subscription_object() {
    let client = WsClient::new("wss://feed.example", "KEY", &[10, 4]);
    assert_eq!(client.url(), "wss://feed.example");
    let expected = {
        let mut m = serde_json::Map::new();
        m.insert("type".to_string(), serde_json::Value::from("login"));
        m.insert("apiKey".to_string(), serde_json::Value::from("KEY"));
        m.insert("receiveType".to_string(), serde_json::Value::from("json"));
        m.insert(
            "channels".to_string(),
            serde_json::Value::from(vec!["fixtures", "odds", "bookmakers"]),
        );
        m.insert("sportIds".to_string(), serde_json::Value::from(vec![10u8, 4u8]));
        serde_json::Value::Object(m).to_string()
    };
    assert_eq!(client.login_message(), expected);
    assert_eq!(
        client.login_message(),
        r#"{"apiKey":"KEY","channels":["fixtures","odds","bookmakers"],"receiveType":"json","sportIds":[10,4],"type":"login"}"#
    );
}

#[test]
fn login_message_escapes_the_key() {
    let client = WsClient::new("wss://x", "a\"b\\c", &[]);
    assert_eq!(
        client.login_message(),
        r#"{"apiKey":"a\"b\\c","channels":["fixtures","odds","bookmakers"],"receiveType":"json","sportIds":[],"type":"login"}"#
    );
}

#[test]
fn login_message_escapes_control_characters() {
    let client = WsClient::new("wss://x", "k\u{1}\n\t\u{1f}\u{7f}é", &[1]);
    let key = serde_json::to_string("k\u{1}\n\t\u{1f}\u{7f}é").unwrap();
    assert_eq!(key, "\"k\\u0001\\n\\t\\u001f\u{7f}é\"");
    assert_eq!(
        client.login_message(),
        format!("{{\"apiKey\":{key},\"channels\":[\"fixtures\",\"odds\",\"bookmakers\"],\"receiveType\":\"json\",\"sportIds\":[1],\"type\":\"login\"}}")
    );
}

#[test]
fn websocket_frames_are_read_into_envelopes() {
    let (env, payload) = read_message(r#"{"type":"UPDATE","channel":"odds","payload":{"fixtureId":"f1","odds":{}}}"#).unwrap();
    assert!(env.is_object);
    assert_eq!(env.kind.as_deref(), Some("UPDATE"));
    assert_eq!(env.channel.as_deref(), Some("odds"));
    assert!(env.has_payload);
    assert_eq!(payload.as_deref(), Some(r#"{"fixtureId":"f1","odds":{}}"#));

    let (env, payload) = read_message(r#"{"type":7,"channel":null}"#).unwrap();
    assert!(env.is_object);
    assert_eq!(env.kind, None);
    assert_eq!(env.channel, None);
    assert!(!env.has_payload);
    assert_eq!(payload, None);

    let (env, _) = read_message("[1,2]").unwrap();
    assert!(!env.is_object);
    let (env, _) = read_message(r#""snapshot_required""#).unwrap();
    assert!(!env.is_object);

    let (env, payload) = read_message(r#"{"type":"UPDATE","channel":"odds","payload":"a\"b"}"#).unwrap();
    assert!(env.has_payload);
    assert_eq!(payload.as_deref(), Some(r#""a\"b""#));
    let (env, payload) = read_message(r#"{"type":"UPDATE","payload":null}"#).unwrap();
    assert!(env.has_payload);
    assert_eq!(env.channel, None);
    assert_eq!(payload.as_deref(), Some("null"));

    assert!(read_message("{not json").is_none());
    assert!(read_message("").is_none());
}
