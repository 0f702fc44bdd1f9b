use codex_island::json::{JsonNumber, JsonValue};
use codex_island::usage::{
    find_expiry, rate_limit_of, response_account_id, serves_cached_usage, status_error_message,
    summarize_usage, weekly_window, window_reset_after_seconds, window_reset_at,
    window_used_percent,
};
use codex_island::clock::{chrono_like_now, timestamp_text};

fn s(text: &str) -> JsonValue {
    JsonValue::Str(text.to_string())
}

fn integer(n: i64) -> JsonValue {
    if n >= 0 {
        JsonValue::Number(JsonNumber::PosInt(n as u64))
    } else {
        JsonValue::Number(JsonNumber::NegInt(n))
    }
}

fn float(x: f64) -> JsonValue {
    JsonValue::Number(JsonNumber::Float(x.to_bits()))
}

fn obj(entries: Vec<(&str, JsonValue)>) -> JsonValue {
    JsonValue::Object(entries.into_iter().map(|(k, v)| (k.to_string(), v)).collect())
}

fn window(seconds: i64, tag: &str) -> JsonValue {
    obj(vec![("limit_window_seconds", integer(seconds)), ("tag", s(tag))])
}

fn tag_of(w: &JsonValue) -> String {
    match w.get("tag") {
        Some(JsonValue::Str(t)) => t.clone(),
        _ => String::new(),
    }
}

#[test]
fn weekly_window_picks_longest_period() {
    let limit = obj(vec![
        ("primary_window", window(18000, "five-hour")),
        ("secondary_window", window(604800, "weekly")),
    ]);
    assert_eq!(tag_of(weekly_window(&limit).unwrap()), "weekly");
    let limit = obj(vec![
        ("primary_window", window(604800, "weekly")),
        ("secondary_window", window(18000, "five-hour")),
    ]);
    assert_eq!(tag_of(weekly_window(&limit).unwrap()), "weekly");
}

#[test]
fn weekly_window_tie_prefers_secondary() {
    let limit = obj(vec![
        ("primary_window", window(100, "p")),
        ("secondary_window", window(100, "s")),
    ]);
    assert_eq!(tag_of(weekly_window(&limit).unwrap()), "s");
}

#[test]
fn weekly_window_skips_null_and_missing() {
    let limit = obj(vec![("primary_window", JsonValue::Null), ("secondary_window", window(5, "s"))]);
    assert_eq!(tag_of(weekly_window(&limit).unwrap()), "s");
    let limit = obj(vec![("primary_window", window(5, "p"))]);
    assert_eq!(tag_of(weekly_window(&limit).unwrap()), "p");
}

#[test]
fn weekly_window_missing_period_counts_as_zero() {
    let limit = obj(vec![
        ("primary_window", window(1, "p")),
        ("secondary_window", obj(vec![("tag", s("s"))])),
    ]);
    assert_eq!(tag_of(weekly_window(&limit).unwrap()), "p");
    let limit = obj(vec![
        ("primary_window", obj(vec![("limit_window_seconds", float(9.5)), ("tag", s("p"))])),
        ("secondary_window", window(0, "s")),
    ]);
    assert_eq!(tag_of(weekly_window(&limit).unwrap()), "s");
}

#[test]
fn weekly_window_error_without_windows() {
    let limit = obj(vec![("primary_window", JsonValue::Null)]);
    assert_eq!(weekly_window(&limit).unwrap_err(), "缺少周额度");
    assert_eq!(weekly_window(&JsonValue::Null).unwrap_err(), "缺少周额度");
}

#[test]
fn window_fields() {
    let w = obj(vec![
        ("used_percent", float(42.5)),
        ("reset_after_seconds", integer(3600)),
        ("reset_at", integer(1700000000)),
    ]);
    assert_eq!(window_reset_after_seconds(&w), 3600);
    assert!(matches!(window_reset_at(&w), Some(JsonValue::Number(JsonNumber::PosInt(1700000000)))));
    match window_used_percent(&w) {
        Some(JsonNumber::Float(bits)) => assert_eq!(f64::from_bits(*bits), 42.5),
        _ => panic!("used_percent should be a number"),
    }
    let empty = obj(vec![("reset_after_seconds", s("soon"))]);
    assert_eq!(window_reset_after_seconds(&empty), 0);
    assert!(window_reset_at(&empty).is_none());
    assert!(window_used_percent(&empty).is_none());
    let huge = obj(vec![("reset_after_seconds", JsonValue::Number(JsonNumber::PosInt(u64::MAX)))]);
    assert_eq!(window_reset_after_seconds(&huge), 0);
    let negative = obj(vec![("reset_after_seconds", integer(-5))]);
    assert_eq!(window_reset_after_seconds(&negative), -5);
}

#[test]
fn find_expiry_direct_keys_in_order() {
    let v = obj(vec![("expires", s("late")), ("expiresAt", s("early"))]);
    assert!(matches!(find_expiry(&v), Some(JsonValue::Str(t)) if t == "early"));
    let v = obj(vec![("expires_at", JsonValue::Null)]);
    assert!(matches!(find_expiry(&v), Some(JsonValue::Null)));
}

#[test]
fn find_expiry_direct_key_beats_nested() {
    let v = obj(vec![
        ("credits", obj(vec![("expires_at", s("nested"))])),
        ("expiration_time", s("direct")),
    ]);
    assert!(matches!(find_expiry(&v), Some(JsonValue::Str(t)) if t == "direct"));
}

#[test]
fn find_expiry_nested_and_arrays() {
    let v = obj(vec![(
        "grants",
        JsonValue::Array(vec![
            integer(1),
            obj(vec![("other", integer(2))]),
            obj(vec![("expirationTime", s("first"))]),
            obj(vec![("expires", s("second"))]),
        ]),
    )]);
    assert!(matches!(find_expiry(&v), Some(JsonValue::Str(t)) if t == "first"));
    let v = obj(vec![
        ("items", obj(vec![("nothing", integer(0))])),
        ("available", obj(vec![("reset_credits", obj(vec![("expires", s("deep"))]))])),
    ]);
    assert!(matches!(find_expiry(&v), Some(JsonValue::Str(t)) if t == "deep"));
}

#[test]
fn find_expiry_none() {
    assert!(find_expiry(&JsonValue::Null).is_none());
    assert!(find_expiry(&s("expires_at")).is_none());
    assert!(find_expiry(&JsonValue::Array(vec![])).is_none());
    let v = obj(vec![("unrelated", obj(vec![("expires_at", s("hidden"))]))]);
    assert!(find_expiry(&v).is_none());
}

fn sample_body() -> JsonValue {
    obj(vec![
        ("plan_type", s("plus")),
        ("rate_limit", obj(vec![
            ("primary_window", window(18000, "five-hour")),
            ("secondary_window", window(604800, "weekly")),
        ])),
        ("credits", obj(vec![("has_credits", JsonValue::Bool(true)), ("balance", float(12.5))])),
        ("rate_limit_reset_credits", obj(vec![
            ("availableCount", s("two")),
            ("remaining", integer(2)),
            ("count", integer(7)),
            ("expires_at", s("from-body")),
        ])),
        ("promo", obj(vec![("rate_limit_multiplier", s("2x"))])),
        ("account_id", s("acct-1")),
    ])
}

#[test]
fn summarize_usage_maps_fields() {
    let body = sample_body();
    let u = summarize_usage(&body, None).unwrap();
    assert_eq!(tag_of(u.weekly), "weekly");
    assert_eq!(u.plan_type, "plus");
    assert_eq!(u.plan_multiplier.as_deref(), Some("2x"));
    assert_eq!(u.reset_credits, Some(2));
    assert!(matches!(u.reset_credit_expires_at, Some(JsonValue::Str(t)) if t == "from-body"));
    assert!(matches!(u.credit_balance, Some(JsonNumber::Float(b)) if f64::from_bits(*b) == 12.5));
    assert!(u.has_credits);
}

#[test]
fn summarize_usage_prefers_detail_expiry() {
    let body = sample_body();
    let detail = obj(vec![("credits", JsonValue::Array(vec![obj(vec![("expires", s("from-detail"))])]))]);
    let u = summarize_usage(&body, Some(&detail)).unwrap();
    assert!(matches!(u.reset_credit_expires_at, Some(JsonValue::Str(t)) if t == "from-detail"));
    let empty_detail = obj(vec![]);
    let u = summarize_usage(&body, Some(&empty_detail)).unwrap();
    assert!(matches!(u.reset_credit_expires_at, Some(JsonValue::Str(t)) if t == "from-body"));
}

#[test]
fn summarize_usage_defaults() {
    let body = obj(vec![
        ("rate_limit", obj(vec![("secondary_window", window(1, "only"))])),
        ("plan_type", integer(3)),
        ("promo", obj(vec![("multiplier", integer(2)), ("rate_limit_multiplier", s("ignored"))])),
        ("credits", obj(vec![("has_credits", s("yes"))])),
    ]);
    let u = summarize_usage(&body, None).unwrap();
    assert_eq!(u.plan_type, "unknown");
    assert_eq!(u.plan_multiplier, None);
    assert_eq!(u.reset_credits, None);
    assert!(u.reset_credit_expires_at.is_none());
    assert!(u.credit_balance.is_none());
    assert!(!u.has_credits);
}

#[test]
fn summarize_usage_errors() {
    let body = obj(vec![("plan_type", s("plus"))]);
    assert_eq!(summarize_usage(&body, None).err().unwrap(), "OpenAI 未返回额度窗口");
    assert_eq!(rate_limit_of(&body).unwrap_err(), "OpenAI 未返回额度窗口");
    let body = obj(vec![("rate_limit", obj(vec![]))]);
    assert_eq!(summarize_usage(&body, None).err().unwrap(), "缺少周额度");
    assert!(rate_limit_of(&body).is_ok());
}

#[test]
fn account_id_and_messages() {
    assert_eq!(response_account_id(&sample_body()).as_deref(), Some("acct-1"));
    assert_eq!(response_account_id(&obj(vec![("account_id", integer(5))])), None);
    assert_eq!(status_error_message(429), "OpenAI 额度接口错误：429");
    assert_eq!(status_error_message(0), "OpenAI 额度接口错误：0");
    assert!(serves_cached_usage("panel", false));
    assert!(!serves_cached_usage("panel", true));
    assert!(!serves_cached_usage("main", false));
    assert!(!serves_cached_usage("main", true));
}

#[test]
fn object_lookup_finds_first_matching_key() {
    let v = obj(vec![("plan_type", s("a")), ("plan_type", s("b"))]);
    assert!(matches!(v.get("plan_type"), Some(JsonValue::Str(t)) if t == "a"));
    assert!(v.get("missing").is_none());
    assert!(s("x").get("x").is_none());
}

#[test]
fn now_is_decimal_seconds() {
    let now = chrono_like_now();
    assert!(!now.is_empty());
    assert!(now.chars().all(|c| c.is_ascii_digit()));
    assert!(now == "0" || !now.starts_with('0'));
    let secs: u64 = now.parse().unwrap();
    assert!(secs > 1_600_000_000);
}

#[test]
fn timestamp_text_renders_seconds_or_zero() {
    assert_eq!(timestamp_text(Some(1700000000)), "1700000000");
    assert_eq!(timestamp_text(Some(0)), "0");
    assert_eq!(timestamp_text(None), "0");
}

#[test]
fn find_expiry_reaches_through_nested_keys_only() {
    let hidden = obj(vec![("meta", obj(vec![("expires", s("x"))]))]);
    assert!(find_expiry(&hidden).is_none());
    let reachable = obj(vec![("reset_credits", JsonValue::Array(vec![obj(vec![("items", obj(vec![("expires", s("y"))]))])]))]);
    assert!(matches!(find_expiry(&reachable), Some(JsonValue::Str(t)) if t == "y"));
}
