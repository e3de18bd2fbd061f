use konx::ai::{
    gemini_endpoint, is_transient, jpeg_data_url, read_model_reply, rewrite_request, select_key,
    server_endpoint, small_model, trimmed, CallErr, Keys, Service, OPENAI_CHAT_URL,
};

fn err(status: u16, message: &str) -> CallErr {
    CallErr { status, message: message.to_string() }
}

#[test]
fn small_models() {
    assert_eq!(small_model("openai"), "gpt-4o-mini");
    assert_eq!(small_model("gemini"), "gemini-flash-lite-latest");
    assert_eq!(small_model("anything"), "gemini-flash-lite-latest");
}

#[test]
fn transient_failures() {
    assert!(is_transient(&err(503, "")));
    assert!(is_transient(&err(429, "quota")));
    assert!(is_transient(&err(500, "The model is experiencing HIGH DEMAND")));
    assert!(is_transient(&err(500, "Model Overloaded")));
    assert!(is_transient(&err(400, "service unavailable")));
    assert!(is_transient(&err(400, "Resource has been exhausted")));
    assert!(is_transient(&err(400, "Rate limit reached")));
    assert!(is_transient(&err(0, "please try again later")));
    assert!(!is_transient(&err(401, "Invalid API key")));
    assert!(!is_transient(&err(0, "connection refused")));
}

fn keys(openai: &str, gemini: &str) -> Keys {
    Keys { openai: openai.to_string(), gemini: gemini.to_string() }
}

#[test]
fn key_selection() {
    let k = keys("  sk-1 ", "AIza2");
    assert_eq!(select_key(&k, "openai"), Ok("sk-1".to_string()));
    assert_eq!(select_key(&k, "gemini"), Ok("AIza2".to_string()));
    assert_eq!(select_key(&k, "mistral"), Err("Unknown provider: mistral".to_string()));
    assert_eq!(select_key(&keys("", " "), "gemini"), Err("NO_KEY".to_string()));
    assert_eq!(select_key(&keys("", " "), "openai"), Err("NO_KEY".to_string()));
}

#[test]
fn rewrite_message() {
    assert_eq!(
        rewrite_request("  fix grammar \n", "me go home"),
        "Instruction: fix grammar\n\nText:\nme go home"
    );
}

#[test]
fn refused_replies() {
    let e = read_model_reply(Service::OpenAi, 401, false, Some("Incorrect API key".into()), None).unwrap_err();
    assert_eq!((e.status, e.message.as_str()), (401, "Incorrect API key"));
    let e = read_model_reply(Service::Gemini, 500, false, None, Some("x".into())).unwrap_err();
    assert_eq!(e.message, "Gemini request failed");
    let e = read_model_reply(Service::OpenAi, 500, false, None, None).unwrap_err();
    assert_eq!(e.message, "OpenAI request failed");
    let e = read_model_reply(Service::Server, 429, false, Some("limit".into()), None).unwrap_err();
    assert_eq!((e.status, e.message.as_str()), (429, "SERVER_LIMIT"));
    let e = read_model_reply(Service::Server, 401, false, None, None).unwrap_err();
    assert_eq!(e.message, "SERVER_AUTH");
    let e = read_model_reply(Service::Server, 500, false, None, None).unwrap_err();
    assert_eq!(e.message, "Server request failed");
    let e = read_model_reply(Service::Server, 500, false, Some("boom".into()), None).unwrap_err();
    assert_eq!(e.message, "boom");
    // 429 from a provider is not the server's daily limit.
    let e = read_model_reply(Service::Gemini, 429, false, Some("quota".into()), None).unwrap_err();
    assert_eq!(e.message, "quota");
}

#[test]
fn accepted_replies() {
    let out = read_model_reply(Service::Gemini, 200, true, None, Some("  Hello there.\n".into())).unwrap();
    assert_eq!(out, "Hello there.");
    let e = read_model_reply(Service::OpenAi, 200, true, None, Some("  ".into())).unwrap_err();
    assert_eq!((e.status, e.message.as_str()), (200, "OpenAI returned nothing"));
    let e = read_model_reply(Service::Gemini, 200, true, None, None).unwrap_err();
    assert_eq!(e.message, "Gemini returned nothing");
    let e = read_model_reply(Service::Server, 200, true, None, None).unwrap_err();
    assert_eq!(e.message, "Server returned nothing");
}

#[test]
fn endpoints() {
    assert_eq!(server_endpoint("https://abc.supabase.co"), "https://abc.supabase.co/functions/v1/ai");
    assert_eq!(server_endpoint("https://abc.supabase.co//"), "https://abc.supabase.co/functions/v1/ai");
    assert_eq!(server_endpoint(""), "/functions/v1/ai");
    assert_eq!(
        gemini_endpoint("gemini-2.5-pro"),
        "https://generativelanguage.googleapis.com/v1beta/models/gemini-2.5-pro:generateContent"
    );
    assert_eq!(jpeg_data_url("QUJD"), "data:image/jpeg;base64,QUJD");
    assert_eq!(OPENAI_CHAT_URL, "https://api.openai.com/v1/chat/completions");
}

#[test]
fn trimming_matches_std_on_unicode_space() {
    for s in ["", "  a b  ", "\u{3000}x\u{2009}", "\u{85}\u{a0}y\u{1680}", "\t\n\u{b}\u{c}\r", "z\u{200b}", "\u{feff}w"] {
        assert_eq!(trimmed(s), s.trim(), "on {:?}", s);
    }
}

#[test]
fn trimming_twice_is_trimming_once() {
    for s in ["  a  ", "\u{2003}b\u{3000}", "", "c"] {
        assert_eq!(trimmed(&trimmed(s)), trimmed(s));
    }
}

#[test]
fn trailing_slash_does_not_change_endpoint() {
    assert_eq!(server_endpoint("https://p.supabase.co/"), server_endpoint("https://p.supabase.co"));
}

fn path_text(path: &[konx::ai::JsonStep]) -> String {
    path.iter()
        .map(|s| match s {
            konx::ai::JsonStep::Field(f) => f.to_string(),
            konx::ai::JsonStep::Item(i) => format!("[{}]", i),
        })
        .collect::<Vec<_>>()
        .join(".")
}

#[test]
fn reply_field_paths() {
    let (e, t) = konx::ai::reply_paths(Service::OpenAi);
    assert_eq!((path_text(&e), path_text(&t)), ("error.message".to_string(), "choices.[0].message.content".to_string()));
    let (e, t) = konx::ai::reply_paths(Service::Gemini);
    assert_eq!(
        (path_text(&e), path_text(&t)),
        ("error.message".to_string(), "candidates.[0].content.parts.[0].text".to_string())
    );
    let (e, t) = konx::ai::reply_paths(Service::Server);
    assert_eq!((path_text(&e), path_text(&t)), ("message".to_string(), "text".to_string()));
}

#[test]
fn lowercasing_ascii_is_ascii_lowercasing() {
    for s in ["HeLLo", "ABC xyz 123", "", "[Button]"] {
        assert_eq!(konx::text::to_lowercase(s), s.to_ascii_lowercase());
    }
}
