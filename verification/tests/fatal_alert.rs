use temperpaw::fatal_alert::{
    alert_post_result, alert_record, alert_signature, build_alert_message, classify_fatal,
    decide_alert, discord_rest_alive, num_field, plan_alert_post, read_alert_fields,
    should_send, str_field, trim_trailing_slashes, usable_config_value, AlertFields,
    DeliveryOutcome, FatalKind, ALERT_COOLDOWN_MS,
};
use temperpaw::json::JsonValue;

fn s(t: &str) -> String {
    t.to_string()
}

fn obj(entries: Vec<(&str, JsonValue)>) -> JsonValue {
    JsonValue::Object(entries.into_iter().map(|(k, v)| (k.to_string(), v)).collect())
}

fn text_at<'a>(v: &'a JsonValue, key: &str) -> Option<&'a str> {
    v.get(key).and_then(|x| x.as_str())
}

#[test]
fn classifies_gateway_close_codes() {
    assert_eq!(
        classify_fatal("Discord gateway closed with a fatal, non-retryable code: code=4004 reason=Authentication failed."),
        FatalKind::BadToken
    );
    assert_eq!(
        classify_fatal("... code=4014 reason=Disallowed intent(s)."),
        FatalKind::DisallowedIntents
    );
    assert_eq!(classify_fatal("... code=4013 ..."), FatalKind::InvalidIntents);
    assert_eq!(classify_fatal("... code=4010 ..."), FatalKind::InvalidShard);
    assert_eq!(classify_fatal("... code=4011 ..."), FatalKind::InvalidShard);
    assert_eq!(
        classify_fatal("... code=4012 ..."),
        FatalKind::InvalidApiVersion
    );
}

#[test]
fn classifies_rest_and_config_failures_as_bad_token() {
    assert_eq!(
        classify_fatal(
            "Gateway bot endpoint returned 401 Unauthorized (fatal auth failure): ... Check the Discord bot token."
        ),
        FatalKind::BadToken
    );
    assert_eq!(
        classify_fatal("discord_bot_token is not configured"),
        FatalKind::BadToken
    );
}

#[test]
fn unknown_error_is_unknown_kind() {
    assert_eq!(
        classify_fatal("some unexpected startup failure"),
        FatalKind::Unknown
    );
}

#[test]
fn rest_is_dead_only_for_bad_token() {
    assert!(!discord_rest_alive(FatalKind::BadToken));
    assert!(discord_rest_alive(FatalKind::DisallowedIntents));
    assert!(discord_rest_alive(FatalKind::InvalidIntents));
    assert!(discord_rest_alive(FatalKind::InvalidShard));
    assert!(discord_rest_alive(FatalKind::InvalidApiVersion));
    assert!(discord_rest_alive(FatalKind::Unknown));
}

#[test]
fn signatures_are_stable_and_distinct_per_kind() {
    assert_eq!(alert_signature(FatalKind::BadToken), "bad_token");
    assert_eq!(
        alert_signature(FatalKind::DisallowedIntents),
        "disallowed_intents"
    );
    assert_ne!(
        alert_signature(FatalKind::BadToken),
        alert_signature(FatalKind::DisallowedIntents)
    );
}

#[test]
fn message_carries_actionable_guidance() {
    let intents = build_alert_message(FatalKind::DisallowedIntents, "code=4014", 2);
    assert!(intents.contains("Message Content"));
    assert!(intents.to_lowercase().contains("developer portal"));

    let token = build_alert_message(FatalKind::BadToken, "code=4004", 1);
    assert!(token.to_lowercase().contains("token"));
    assert!(token.to_lowercase().contains("dashboard"));
}

#[test]
fn should_send_on_new_signature() {
    assert!(should_send(
        1_000,
        Some(900),
        "disallowed_intents",
        "bad_token",
        ALERT_COOLDOWN_MS
    ));
}

#[test]
fn should_send_on_first_alert() {
    assert!(should_send(1_000, None, "bad_token", "", ALERT_COOLDOWN_MS));
}

#[test]
fn suppresses_same_signature_within_cooldown() {
    let last = 1_000_000;
    assert!(!should_send(
        last + ALERT_COOLDOWN_MS - 1,
        Some(last),
        "bad_token",
        "bad_token",
        ALERT_COOLDOWN_MS
    ));
}

#[test]
fn re_alerts_same_signature_after_cooldown() {
    let last = 1_000_000;
    assert!(should_send(
        last + ALERT_COOLDOWN_MS,
        Some(last),
        "bad_token",
        "bad_token",
        ALERT_COOLDOWN_MS
    ));
}

// ---- further cases

#[test]
fn classification_ignores_case_and_prefers_bad_token() {
    assert_eq!(classify_fatal("CODE=4014 and Code=4004"), FatalKind::BadToken);
    assert_eq!(classify_fatal("Code=4013, code=4010"), FatalKind::InvalidIntents);
    assert_eq!(classify_fatal(""), FatalKind::Unknown);
}

#[test]
fn every_kind_has_its_own_signature() {
    let kinds = [
        FatalKind::BadToken,
        FatalKind::DisallowedIntents,
        FatalKind::InvalidIntents,
        FatalKind::InvalidShard,
        FatalKind::InvalidApiVersion,
        FatalKind::Unknown,
    ];
    let sigs: Vec<&str> = kinds.iter().map(|k| alert_signature(*k)).collect();
    assert_eq!(
        sigs,
        vec![
            "bad_token",
            "disallowed_intents",
            "invalid_intents",
            "invalid_shard",
            "invalid_api_version",
            "unknown_fatal"
        ]
    );
}

#[test]
fn alert_message_is_exact() {
    let m = build_alert_message(FatalKind::InvalidApiVersion, "code=4012", -3);
    assert_eq!(
        m,
        "\u{26A0}\u{FE0F} Discord transport stopped (fatal, not retrying) after -3 attempt(s).\n\nDiscord rejected the gateway API version. The transport needs an update.\n\nDetails: code=4012"
    );
    let m = build_alert_message(FatalKind::InvalidShard, "x", i64::MIN);
    assert!(m.contains("after -9223372036854775808 attempt(s)"));
}

#[test]
fn cooldown_is_thirty_minutes() {
    assert_eq!(ALERT_COOLDOWN_MS, 1_800_000);
}

#[test]
fn fields_are_read_under_either_spelling() {
    let state = obj(vec![(
        "fields",
        obj(vec![
            ("LastError", JsonValue::Str(s("code=4014"))),
            ("AttemptCount", JsonValue::Str(s(" 7 "))),
            ("last_alert_at", JsonValue::Int(1234)),
            ("LastAlertSignature", JsonValue::Str(s("bad_token"))),
        ]),
    )]);
    let f = read_alert_fields(&state);
    assert_eq!(f.error, "code=4014");
    assert_eq!(f.attempt, 7);
    assert_eq!(f.last_alert_at, Some(1234));
    assert_eq!(f.last_signature, "bad_token");
}

#[test]
fn missing_fields_read_as_defaults() {
    let f = read_alert_fields(&obj(vec![]));
    assert_eq!(f.error, "");
    assert_eq!(f.attempt, 0);
    assert_eq!(f.last_alert_at, None);
    assert_eq!(f.last_signature, "");
}

#[test]
fn number_fields_accept_integers_and_numeric_text() {
    let v = obj(vec![
        ("a", JsonValue::Str(s("+12"))),
        ("b", JsonValue::Str(s("x12"))),
        ("c", JsonValue::Number(s("1.5"))),
        ("d", JsonValue::Str(s("-9223372036854775808"))),
        ("e", JsonValue::Str(s("9223372036854775808"))),
    ]);
    assert_eq!(num_field(&v, &["a"]), Some(12));
    assert_eq!(num_field(&v, &["b"]), None);
    assert_eq!(num_field(&v, &["c"]), None);
    assert_eq!(num_field(&v, &["b", "c", "d"]), Some(i64::MIN));
    assert_eq!(num_field(&v, &["e"]), None);
    assert_eq!(str_field(&v, &["c", "b"]), Some(s("x12")));
    assert_eq!(str_field(&v, &["zz"]), None);
}

#[test]
fn decision_alerts_on_new_failure_and_suppresses_repeats() {
    let f = AlertFields {
        error: s("code=4004"),
        attempt: 3,
        last_alert_at: Some(1_000),
        last_signature: s("disallowed_intents"),
    };
    let d = decide_alert(&f, 2_000);
    assert_eq!(d.kind, FatalKind::BadToken);
    assert_eq!(d.signature, "bad_token");
    assert_eq!(d.message, Some(build_alert_message(FatalKind::BadToken, "code=4004", 3)));

    let repeat = AlertFields { last_signature: s("bad_token"), ..f };
    assert_eq!(decide_alert(&repeat, 2_000).message, None);
    assert!(decide_alert(&repeat, 1_000 + ALERT_COOLDOWN_MS).message.is_some());
}

#[test]
fn record_reflects_the_delivery_outcome() {
    let r = alert_record(None, Some(55), 99, "bad_token");
    assert_eq!(text_at(&r, "last_alert_at"), Some("55"));
    assert_eq!(text_at(&r, "alert_status"), Some("suppressed"));
    assert_eq!(text_at(&r, "last_alert_signature"), Some("bad_token"));
    let r = alert_record(None, None, 99, "x");
    assert_eq!(text_at(&r, "last_alert_at"), Some("0"));
    for (outcome, status) in [
        (DeliveryOutcome::Delivered, "delivered"),
        (DeliveryOutcome::NoChannel, "no_channel"),
        (DeliveryOutcome::Undeliverable, "undeliverable"),
    ] {
        let r = alert_record(Some(outcome), Some(55), 99, "x");
        assert_eq!(text_at(&r, "alert_status"), Some(status));
        assert_eq!(text_at(&r, "last_alert_at"), Some("99"));
    }
}

#[test]
fn secret_placeholders_do_not_count_as_config() {
    assert_eq!(usable_config_value(Some("{secret:discord_bot_token}")), None);
    assert_eq!(usable_config_value(Some("")), None);
    assert_eq!(usable_config_value(None), None);
    assert_eq!(usable_config_value(Some("abc")), Some(s("abc")));
}

#[test]
fn trailing_slashes_are_dropped() {
    assert_eq!(trim_trailing_slashes("https://x/api//"), "https://x/api");
    assert_eq!(trim_trailing_slashes("///"), "");
    assert_eq!(trim_trailing_slashes("a/b"), "a/b");
}

#[test]
fn alert_post_goes_to_the_feed_channel() {
    assert!(plan_alert_post("m", None, Some("c"), None).is_none());
    assert!(plan_alert_post("m", Some("t"), Some("{secret:x}"), None).is_none());
    let p = plan_alert_post("hello", Some("tok"), Some("123"), Some("https://api.example/v9/"))
        .unwrap();
    assert_eq!(p.url, "https://api.example/v9/channels/123/messages");
    assert_eq!(
        p.headers,
        vec![
            (s("content-type"), s("application/json")),
            (s("authorization"), s("Bot tok"))
        ]
    );
    assert_eq!(text_at(&p.body, "content"), Some("hello"));
    let embeds = p.body.get("embeds").unwrap().as_array().unwrap();
    assert_eq!(embeds.len(), 1);
    assert_eq!(text_at(&embeds[0], "title"), Some("Transport connection failed"));
    assert_eq!(text_at(&embeds[0], "description"), Some("hello"));
    assert_eq!(embeds[0].get("color").unwrap().as_i64(), Some(15_548_997));
    let d = plan_alert_post("m", Some("t"), Some("1"), Some("{secret:base}")).unwrap();
    assert_eq!(d.url, "https://discord.com/api/v10/channels/1/messages");
}

#[test]
fn post_result_names_status_and_body() {
    assert_eq!(alert_post_result(204, ""), Ok(true));
    assert_eq!(alert_post_result(200, "x"), Ok(true));
    assert_eq!(
        alert_post_result(401, "unauthorized"),
        Err(s("Discord channel post failed (HTTP 401): unauthorized"))
    );
    assert!(alert_post_result(300, "").is_err());
}

#[test]
fn recorded_alert_reads_back_on_the_next_run() {
    let now: i64 = 1_700_000_000_000;
    let record = alert_record(Some(DeliveryOutcome::Undeliverable), Some(5), now, "bad_token");
    let mut fields = match record {
        JsonValue::Object(es) => es,
        _ => panic!("record is an object"),
    };
    fields.push((s("last_error"), JsonValue::Str(s("code=4004"))));
    fields.push((s("attempt_count"), JsonValue::Int(7)));
    let state = obj(vec![("fields", JsonValue::Object(fields))]);
    let f = read_alert_fields(&state);
    assert_eq!(f.last_alert_at, Some(now));
    assert_eq!(f.last_signature, "bad_token");
    assert_eq!(decide_alert(&f, now + ALERT_COOLDOWN_MS - 1).message, None);
    assert!(decide_alert(&f, now + ALERT_COOLDOWN_MS).message.is_some());
}
