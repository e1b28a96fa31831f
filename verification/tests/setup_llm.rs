use temperpaw::json::JsonValue;
use temperpaw::jwt::{chatgpt_account_id_from_claims, decode_jwt_payload, jwt_claims_bytes, jwt_payload_segment};
use temperpaw::setup_llm::{
    build_openai_codex_responses_body, codex_sse_payloads, collect_codex_sse_output,
    followup_user_message, normalize_provider_hint, parse_followup_questions,
    parse_generated_soul, parse_openai_codex_response_text, parse_openai_responses_text,
    personalized_soul_user_message, read_codex_reply, refine_soul_user_message,
    response_body_snippet, response_error_message, LlmProvider, SetupError, UserInterview,
    OPENAI_CODEX_RESPONSES_URL,
};

fn s(t: &str) -> String {
    t.to_string()
}

fn obj(entries: Vec<(&str, JsonValue)>) -> JsonValue {
    JsonValue::Object(entries.into_iter().map(|(k, v)| (k.to_string(), v)).collect())
}

fn text_at<'a>(v: &'a JsonValue, key: &str) -> Option<&'a str> {
    v.get(key).and_then(|x| x.as_str())
}

fn message_item(text: &str) -> JsonValue {
    obj(vec![
        ("type", JsonValue::Str(s("message"))),
        (
            "content",
            JsonValue::Array(vec![obj(vec![
                ("type", JsonValue::Str(s("output_text"))),
                ("text", JsonValue::Str(s(text))),
            ])]),
        ),
    ])
}

#[test]
fn codex_provider_hint_cannot_fall_through_to_public_openai() {
    match LlmProvider::detect("chatgpt-oauth-token", "openai_codex", "gpt-5.5") {
        Ok(_) => panic!("Codex OAuth tokens must not be treated as public OpenAI keys"),
        Err(err) => assert!(err.message().contains("openai_codex")),
    }
}

#[test]
fn aliases_normalize_to_codex_provider_hint() {
    assert_eq!(normalize_provider_hint("codex"), "openai_codex");
    assert_eq!(normalize_provider_hint("openai-codex"), "openai_codex");
}

#[test]
fn codex_setup_request_matches_subscription_responses_contract() {
    let body = build_openai_codex_responses_body("gpt-5.5", "system", "hello", 1024);

    assert_eq!(text_at(&body, "model"), Some("gpt-5.5"));
    assert_eq!(text_at(&body, "instructions"), Some("system"));
    assert!(matches!(body.get("stream"), Some(JsonValue::Bool(true))));
    assert!(matches!(body.get("store"), Some(JsonValue::Bool(false))));
    let reasoning = body.get("reasoning").unwrap();
    assert_eq!(text_at(reasoning, "effort"), Some("medium"));
    assert_eq!(text_at(reasoning, "summary"), Some("auto"));
    assert!(
        body.get("max_output_tokens").is_none(),
        "ChatGPT/Codex subscription responses reject the public Responses max_output_tokens field"
    );
}

#[test]
fn codex_error_message_falls_back_to_body_snippet() {
    assert_eq!(
        response_error_message("unsupported field: max_output_tokens", None).as_deref(),
        Some("unsupported field: max_output_tokens")
    );

    let body = r#"{"detail":"bad request"}"#;
    let parsed = obj(vec![("detail", JsonValue::Str(s("bad request")))]);
    let msg = response_error_message(body, Some(&parsed))
        .expect("JSON error without error.message should still be surfaced");
    assert!(msg.contains("bad request"));
}

// ---- further cases

#[test]
fn hints_are_trimmed_and_lowercased() {
    assert_eq!(normalize_provider_hint("  HF "), "huggingface");
    assert_eq!(normalize_provider_hint("Fireworks-AI"), "fireworks");
    assert_eq!(normalize_provider_hint("fugu"), "sakana_fugu");
    assert_eq!(normalize_provider_hint("Ollama"), "local_openai");
    assert_eq!(normalize_provider_hint("custom_openai"), "openai_compatible");
    assert_eq!(normalize_provider_hint(" Anthropic\t"), "anthropic");
    assert_eq!(normalize_provider_hint("ÄB"), "Äb");
    for h in ["codex", " HF", "openai_compat", "Whatever"] {
        let once = normalize_provider_hint(h);
        assert_eq!(normalize_provider_hint(&once), once);
    }
}

#[test]
fn detect_picks_provider_by_key_then_hint() {
    match LlmProvider::detect("sk-ant-123", "", "m") {
        Ok(LlmProvider::Anthropic { api_key, model }) => {
            assert_eq!(api_key, "sk-ant-123");
            assert_eq!(model, "m");
        }
        other => panic!("{other:?}"),
    }
    assert!(matches!(
        LlmProvider::detect("k", "OpenRouter", "m"),
        Ok(LlmProvider::OpenRouter { .. })
    ));
    assert!(matches!(
        LlmProvider::detect("sk-or-1", "anthropic", "m"),
        Ok(LlmProvider::Anthropic { .. })
    ));
    match LlmProvider::detect("k", "hf", "m") {
        Ok(LlmProvider::OpenAiCompatible { provider, api_url, .. }) => {
            assert_eq!(provider, "huggingface");
            assert_eq!(api_url, "https://router.huggingface.co/v1/chat/completions");
        }
        other => panic!("{other:?}"),
    }
    assert!(matches!(
        LlmProvider::detect("k", "something", "m"),
        Ok(LlmProvider::OpenAi { .. })
    ));
    assert!(matches!(
        LlmProvider::detect("sk-ant-1", "", "  "),
        Err(SetupError::ModelRequired)
    ));
    assert!(matches!(
        LlmProvider::detect("k", "Codex", "m"),
        Err(SetupError::CodexNeedsOauthMetadata)
    ));
}

#[test]
fn codex_provider_needs_token_and_account() {
    assert!(matches!(
        LlmProvider::openai_codex("tok", Some("acct"), None, ""),
        Err(SetupError::ModelRequired)
    ));
    assert!(matches!(
        LlmProvider::openai_codex(" ", Some("acct"), None, "m"),
        Err(SetupError::CodexAccessTokenRequired)
    ));
    assert!(matches!(
        LlmProvider::openai_codex("tok", Some("  "), None, "m"),
        Err(SetupError::CodexAccountIdRequired)
    ));
    match LlmProvider::openai_codex("tok", Some(" "), Some("from_token"), "m") {
        Ok(LlmProvider::OpenAiCodex { account_id, api_url, .. }) => {
            assert_eq!(account_id, "from_token");
            assert_eq!(api_url, OPENAI_CODEX_RESPONSES_URL);
        }
        other => panic!("{other:?}"),
    }
    match LlmProvider::openai_codex("tok", Some("given"), Some("from_token"), "m") {
        Ok(LlmProvider::OpenAiCodex { account_id, .. }) => assert_eq!(account_id, "given"),
        other => panic!("{other:?}"),
    }
}

#[test]
fn compatible_provider_needs_url() {
    match LlmProvider::openai_compatible("My-Prov", "k", " ", "m") {
        Err(e) => assert_eq!(e.message(), "My-Prov requires an OpenAI-compatible API URL"),
        Ok(p) => panic!("{p:?}"),
    }
    match LlmProvider::openai_compatible(" Local ", "k", "http://x", "m") {
        Ok(LlmProvider::OpenAiCompatible { provider, api_url, .. }) => {
            assert_eq!(provider, "local_openai");
            assert_eq!(api_url, "http://x");
        }
        other => panic!("{other:?}"),
    }
}

#[test]
fn requests_carry_provider_headers() {
    let p = LlmProvider::OpenAiCompatible {
        provider: s("x"),
        api_key: s(" "),
        api_url: s("http://h/v1"),
        model: s("m"),
    };
    let r = p.request("sys", "hi", 7);
    assert_eq!(r.url, "http://h/v1");
    assert_eq!(r.headers, vec![(s("content-type"), s("application/json"))]);
    assert_eq!(r.body.get("max_tokens").unwrap().as_i64(), Some(7));
    let msgs = r.body.get("messages").unwrap().as_array().unwrap();
    assert_eq!(text_at(&msgs[0], "role"), Some("system"));
    assert_eq!(text_at(&msgs[1], "content"), Some("hi"));

    let a = LlmProvider::Anthropic { api_key: s("key"), model: s("sonnet") };
    let r = a.request("sys", "hi", 9);
    assert_eq!(r.url, "https://api.anthropic.com/v1/messages");
    assert_eq!(r.headers[0], (s("x-api-key"), s("key")));
    assert_eq!(r.headers[1], (s("anthropic-version"), s("2023-06-01")));
    assert_eq!(text_at(&r.body, "system"), Some("sys"));

    let c = LlmProvider::OpenAiCodex {
        access_token: s("tok"),
        account_id: s("acct"),
        api_url: s(OPENAI_CODEX_RESPONSES_URL),
        model: s("gpt"),
    };
    let r = c.request("sys", "hi", 9);
    assert_eq!(r.headers.len(), 7);
    assert_eq!(r.headers[0], (s("authorization"), s("Bearer tok")));
    assert_eq!(r.headers[3], (s("chatgpt-account-id"), s("acct")));
    assert_eq!(r.headers[6], (s("openai-beta"), s("responses=v1")));
}

#[test]
fn json_replies_are_read_per_provider() {
    let a = LlmProvider::Anthropic { api_key: s("k"), model: s("m") };
    let ok = obj(vec![(
        "content",
        JsonValue::Array(vec![obj(vec![("text", JsonValue::Str(s("hi")))])]),
    )]);
    assert_eq!(a.read_json_reply(200, &ok).unwrap(), "hi");
    let err = obj(vec![("error", obj(vec![("message", JsonValue::Str(s("nope")))]))]);
    match a.read_json_reply(429, &err) {
        Err(e) => assert_eq!(e.message(), "Anthropic API error (429 Too Many Requests): nope"),
        Ok(t) => panic!("{t}"),
    }
    match a.read_json_reply(200, &err) {
        Err(e) => assert_eq!(e.message(), "No text in Anthropic response"),
        Ok(t) => panic!("{t}"),
    }
    let o = LlmProvider::OpenAi { api_key: s("k"), model: s("m") };
    let ok = obj(vec![(
        "choices",
        JsonValue::Array(vec![obj(vec![(
            "message",
            obj(vec![("content", JsonValue::Str(s("yo")))]),
        )])]),
    )]);
    assert_eq!(o.read_json_reply(201, &ok).unwrap(), "yo");
    match o.read_json_reply(500, &JsonValue::Null) {
        Err(e) => assert_eq!(e.message(), "OpenAI API error (500 Internal Server Error): Unknown error"),
        Ok(t) => panic!("{t}"),
    }
    match o.read_json_reply(200, &JsonValue::Null) {
        Err(e) => assert_eq!(e.message(), "No content in OpenAI response"),
        Ok(t) => panic!("{t}"),
    }
}

#[test]
fn responses_text_joins_the_first_message_parts() {
    let v = obj(vec![(
        "output",
        JsonValue::Array(vec![
            obj(vec![("type", JsonValue::Str(s("reasoning")))]),
            message_item("   "),
            obj(vec![
                ("type", JsonValue::Str(s("message"))),
                (
                    "content",
                    JsonValue::Array(vec![
                        obj(vec![("text", JsonValue::Str(s("a")))]),
                        obj(vec![("other", JsonValue::Null)]),
                        obj(vec![("text", JsonValue::Str(s("b")))]),
                    ]),
                ),
            ]),
        ]),
    )]);
    assert_eq!(parse_openai_responses_text(&v), Some(s("ab")));
    assert_eq!(parse_openai_responses_text(&JsonValue::Null), None);
}

#[test]
fn sse_lines_are_framed() {
    let body = "event: response.created\r\ndata: {\"a\":1}\n\n[DONE]\n  data: x  \nplain\n";
    assert_eq!(codex_sse_payloads(body), vec![s("{\"a\":1}"), s("x"), s("plain")]);
    assert!(codex_sse_payloads("").is_empty());
}

#[test]
fn streamed_deltas_become_one_message() {
    let ev = |ty: &str, key: &str, val: &str| {
        obj(vec![("type", JsonValue::Str(s(ty))), (key, JsonValue::Str(s(val)))])
    };
    let events = vec![
        ev("response.output_text.delta", "delta", "  Hel"),
        ev("response.output_text.delta", "text", "lo "),
        ev("response.output_text.done", "text", "ignored"),
    ];
    let out = collect_codex_sse_output(events);
    assert_eq!(parse_openai_responses_text(&out), Some(s("Hello")));

    let events = vec![
        ev("response.output_text.done", "text", "first"),
        obj(vec![
            ("type", JsonValue::Str(s("response.output_item.done"))),
            ("item", message_item("from item")),
        ]),
    ];
    assert_eq!(parse_openai_codex_response_text(None, events), Some(s("from item")));

    let events = vec![
        obj(vec![
            ("type", JsonValue::Str(s("response.output_item.done"))),
            ("item", message_item("early")),
        ]),
        obj(vec![
            ("type", JsonValue::Str(s("response.completed"))),
            (
                "response",
                obj(vec![("output", JsonValue::Array(vec![message_item("final")]))]),
            ),
        ]),
    ];
    assert_eq!(parse_openai_codex_response_text(None, events), Some(s("final")));
}

#[test]
fn whole_body_result_wins_over_stream() {
    let whole = obj(vec![("output", JsonValue::Array(vec![message_item("whole")]))]);
    let events = vec![obj(vec![
        ("type", JsonValue::Str(s("response.output_text.delta"))),
        ("delta", JsonValue::Str(s("streamed"))),
    ])];
    assert_eq!(parse_openai_codex_response_text(Some(&whole), events), Some(s("whole")));
}

#[test]
fn codex_reply_errors() {
    match read_codex_reply(400, "  boom ", None, vec![]) {
        Err(e) => assert_eq!(e.message(), "OpenAI Codex API error (400 Bad Request): boom"),
        Ok(t) => panic!("{t}"),
    }
    match read_codex_reply(400, "", None, vec![]) {
        Err(e) => assert_eq!(e.message(), "OpenAI Codex API error (400 Bad Request): Unknown error"),
        Ok(t) => panic!("{t}"),
    }
    let parsed = obj(vec![("message", JsonValue::Str(s("top")))]);
    match read_codex_reply(500, "{}", Some(&parsed), vec![]) {
        Err(e) => assert_eq!(e.message(), "OpenAI Codex API error (500 Internal Server Error): top"),
        Ok(t) => panic!("{t}"),
    }
    match read_codex_reply(200, "", None, vec![]) {
        Err(e) => assert_eq!(e.message(), "No content in OpenAI Codex response"),
        Ok(t) => panic!("{t}"),
    }
}

#[test]
fn snippet_is_cut_at_512_chars() {
    assert_eq!(response_body_snippet("  \n "), None);
    let long = "é".repeat(600);
    let snip = response_body_snippet(&long).unwrap();
    assert_eq!(snip.chars().count(), 513);
    assert!(snip.ends_with('\u{2026}'));
    let exact = "x".repeat(512);
    assert_eq!(response_body_snippet(&exact), Some(exact.clone()));
}

#[test]
fn followup_questions_are_read_from_q_lines() {
    let r = "Intro\nQ: first?\n  Q:   \nq: lower\nQ:second\nQ: third\n";
    assert_eq!(parse_followup_questions(r).unwrap(), vec![s("first?"), s("second")]);
    assert!(matches!(
        parse_followup_questions("no questions here"),
        Err(SetupError::NoFollowupQuestions)
    ));
}

#[test]
fn soul_sections_are_extracted() {
    let r = "junk ---SOUL--- soul\n---STYLE---\nstyle ---USER--- user ---SUMMARY--- sum  ";
    let g = parse_generated_soul(r).unwrap();
    assert_eq!(g.soul_md, "soul");
    assert_eq!(g.style_md, "style");
    assert_eq!(g.user_md, "user");
    assert_eq!(g.summary, "sum");
    let no_style = parse_generated_soul("---SOUL---a---SUMMARY---b").unwrap();
    assert_eq!(no_style.soul_md, "a---SUMMARY---b");
    assert_eq!(no_style.style_md, "");
    assert_eq!(no_style.summary, "b");
    assert!(matches!(
        parse_generated_soul("---SOUL--- x"),
        Err(SetupError::MissingSoulSections)
    ));
}

#[test]
fn interview_messages_are_assembled() {
    assert_eq!(
        followup_user_message("Ana", "builder", "calm"),
        "Name: Ana\n\nAbout themselves:\nbuilder\n\nWhat kind of Paw they want:\ncalm"
    );
    let mut i = UserInterview {
        name: s("Ana"),
        about_you: s("b"),
        ideal_paw: s("c"),
        followup_answers: vec![],
    };
    assert_eq!(
        personalized_soul_user_message(&i),
        "Name: Ana\n\nAbout themselves:\nb\n\nWhat kind of Paw they want:\nc"
    );
    i.followup_answers = vec![(s("q1"), s("a1")), (s("q2"), s("a2"))];
    assert_eq!(
        personalized_soul_user_message(&i),
        "Name: Ana\n\nAbout themselves:\nb\n\nWhat kind of Paw they want:\nc\n\nFollow-up answers:\n\nQ: q1\nA: a1\n\nQ: q2\nA: a2"
    );
    assert_eq!(
        refine_soul_user_message(&i, "prev", "more fun"),
        "Name: Ana\n\nAbout themselves:\nb\n\nWhat kind of Paw they want:\nc\n\nQ: q1\nA: a1\n\nQ: q2\nA: a2\n\n---\nPrevious attempt summary: prev\n\nUser feedback: more fun\n\nRegenerate the soul incorporating this feedback."
    );
}

#[test]
fn jwt_payload_is_decoded() {
    let payload = "eyJodHRwczovL2FwaS5vcGVuYWkuY29tL2F1dGgiOnsiY2hhdGdwdF9hY2NvdW50X2lkIjoiYWNjdF8xMjMifX0";
    let token = format!("hdr.{payload}.sig");
    assert_eq!(jwt_payload_segment(&token), Some(s(payload)));
    assert_eq!(jwt_payload_segment("nodots"), None);
    assert_eq!(jwt_payload_segment("a.b"), Some(s("b")));
    let expected = br#"{"https://api.openai.com/auth":{"chatgpt_account_id":"acct_123"}}"#.to_vec();
    assert_eq!(decode_jwt_payload(payload), Some(expected.clone()));
    // the padded form decodes through the second alphabet
    assert_eq!(decode_jwt_payload(&format!("{payload}=")), Some(expected.clone()));
    assert_eq!(jwt_claims_bytes(&token), Some(expected));
    assert_eq!(decode_jwt_payload("!!!"), None);
}

#[test]
fn account_id_is_read_from_claims() {
    let claims = obj(vec![(
        "https://api.openai.com/auth",
        obj(vec![("chatgpt_account_id", JsonValue::Str(s("acct_123")))]),
    )]);
    assert_eq!(chatgpt_account_id_from_claims(&claims), Some(s("acct_123")));
    let blank = obj(vec![(
        "https://api.openai.com/auth",
        obj(vec![("chatgpt_account_id", JsonValue::Str(s("  ")))]),
    )]);
    assert_eq!(chatgpt_account_id_from_claims(&blank), None);
    assert_eq!(chatgpt_account_id_from_claims(&JsonValue::Null), None);
}

#[test]
fn error_texts() {
    assert_eq!(SetupError::ModelRequired.message(), "LLM model is required for setup LLM calls");
    assert_eq!(
        SetupError::CodexAccountIdRequired.message(),
        "openai_codex requires openai_codex_account_id or a ChatGPT OAuth token containing chatgpt_account_id"
    );
    assert_eq!(
        SetupError::MissingSoulSections.message(),
        "Failed to parse generated soul \u{2014} missing sections"
    );
    assert_eq!(
        SetupError::NoFollowupQuestions.message(),
        "No follow-up questions generated"
    );
}

#[test]
fn hint_ignores_case_and_surrounding_spaces() {
    for hint in ["codex", "Hugging-Face", "fireworks_ai", "ollama", "openai-compat", "anthropic", ""] {
        let padded = format!(" {} ", hint.to_ascii_uppercase());
        assert_eq!(normalize_provider_hint(&padded), normalize_provider_hint(hint));
    }
    assert_eq!(normalize_provider_hint(" CODEX "), "openai_codex");
}

#[test]
fn lines_without_payload_change_no_payloads() {
    let body = "data: {\"a\":1}\nplain\n";
    let padded = "\nevent: ping\ndata: {\"a\":1}\n[DONE]\r\n   \nplain\nevent: done\n";
    assert_eq!(codex_sse_payloads(padded), codex_sse_payloads(body));
}

#[test]
fn unhandled_events_change_nothing() {
    let ev = |ty: &str, key: &str, val: &str| {
        obj(vec![("type", JsonValue::Str(s(ty))), (key, JsonValue::Str(s(val)))])
    };
    let plain = vec![
        ev("response.output_text.delta", "delta", "Hi"),
        ev("response.output_text.done", "text", "ignored"),
    ];
    let padded = vec![
        ev("response.created", "delta", "x"),
        ev("response.output_text.delta", "delta", "Hi"),
        obj(vec![("delta", JsonValue::Str(s("no type")))]),
        ev("response.output_text.done", "text", "ignored"),
        ev("response.in_progress", "text", "y"),
    ];
    let a = format!("{:?}", collect_codex_sse_output(padded));
    let b = format!("{:?}", collect_codex_sse_output(plain));
    assert_eq!(a, b);
    assert!(b.contains("Hi"));
}

#[test]
fn lines_appended_after_an_unended_last_line_change_no_payloads() {
    let body = "data: {\"a\":1}\nplain";
    for appended in ["\nevent: done", "\n[DONE]", "\n   ", "\n", "\nevent: done\n", "\n[DONE]\r\n"] {
        let longer = format!("{}{}", body, appended);
        assert_eq!(codex_sse_payloads(&longer), codex_sse_payloads(body));
    }
    assert_eq!(codex_sse_payloads("plain\r"), codex_sse_payloads("plain\r\n"));
}
