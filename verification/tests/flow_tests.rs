use konx::ai::{CallErr, Keys, Service};
use konx::flow::{use_server, AskAction, AskEvent, AskFlow};

fn keys() -> Keys {
    Keys { openai: "sk-test".to_string(), gemini: " AIza-test ".to_string() }
}

fn fail(status: u16, message: &str) -> Result<String, CallErr> {
    Err(CallErr { status, message: message.to_string() })
}

#[test]
fn server_route_needs_token_url_and_key() {
    let s = |v: &str| Some(v.to_string());
    assert!(use_server(&s("tok"), &s("https://x"), &s("anon")));
    assert!(use_server(&s("tok"), &s("https://x"), &s("")));
    assert!(!use_server(&s(""), &s("https://x"), &s("anon")));
    assert!(!use_server(&s("tok"), &s(""), &s("anon")));
    assert!(!use_server(&None, &s("https://x"), &s("anon")));
    assert!(!use_server(&s("tok"), &s("https://x"), &None));
}

#[test]
fn server_answer_is_the_answer() {
    let (mut f, a) = AskFlow::start("gemini", "gemini-2.5-pro", true);
    match a {
        AskAction::CallServer { provider, model, tier } => {
            assert_eq!((provider.as_str(), model.as_str(), tier.as_str()), ("gemini", "gemini-2.5-pro", "large"))
        }
        other => panic!("unexpected {:?}", other),
    }
    match f.step(AskEvent::ServerReply(Ok("1. Click Forward".into()))) {
        Some(AskAction::Finish(Ok(r))) => {
            assert_eq!(r.text, "1. Click Forward");
            assert_eq!(r.engine, "gemini");
        }
        other => panic!("unexpected {:?}", other),
    }
    assert!(f.step(AskEvent::ModelReply(Ok("late".into()))).is_none());
}

#[test]
fn daily_limit_is_not_bypassed_by_local_key() {
    for refusal in ["SERVER_LIMIT", "SERVER_AUTH"] {
        let (mut f, _) = AskFlow::start("openai", "gpt-4o", true);
        match f.step(AskEvent::ServerReply(fail(429, refusal))) {
            Some(AskAction::Finish(Err(m))) => assert_eq!(m, refusal),
            other => panic!("unexpected {:?}", other),
        }
        assert!(f.step(AskEvent::KeysLoaded(keys())).is_none());
    }
}

#[test]
fn other_server_failure_falls_back_to_local_key() {
    let (mut f, _) = AskFlow::start("gemini", "gemini-2.5-pro", true);
    assert!(matches!(f.step(AskEvent::ServerReply(fail(0, "dns error"))), Some(AskAction::LoadKeys)));
    match f.step(AskEvent::KeysLoaded(keys())) {
        Some(AskAction::CallModel { service, key, model }) => {
            assert_eq!(service, Service::Gemini);
            assert_eq!(key, "AIza-test");
            assert_eq!(model, "gemini-2.5-pro");
        }
        other => panic!("unexpected {:?}", other),
    }
    match f.step(AskEvent::ModelReply(Ok("done".into()))) {
        Some(AskAction::Finish(Ok(r))) => assert_eq!((r.text.as_str(), r.engine.as_str()), ("done", "gemini")),
        other => panic!("unexpected {:?}", other),
    }
}

#[test]
fn transient_failure_retries_once_on_small_model() {
    let (mut f, a) = AskFlow::start("openai", "gpt-4o", false);
    assert!(matches!(a, AskAction::LoadKeys));
    assert!(matches!(f.step(AskEvent::KeysLoaded(keys())), Some(AskAction::CallModel { service: Service::OpenAi, .. })));
    match f.step(AskEvent::ModelReply(fail(503, "overloaded"))) {
        Some(AskAction::CallModel { service, key, model }) => {
            assert_eq!(service, Service::OpenAi);
            assert_eq!(key, "sk-test");
            assert_eq!(model, "gpt-4o-mini");
        }
        other => panic!("unexpected {:?}", other),
    }
    // The fallback also fails: the first error surfaces.
    match f.step(AskEvent::ModelReply(fail(500, "second"))) {
        Some(AskAction::Finish(Err(m))) => assert_eq!(m, "overloaded"),
        other => panic!("unexpected {:?}", other),
    }
}

#[test]
fn retry_success_is_the_answer() {
    let (mut f, _) = AskFlow::start("gemini", "gemini-2.5-pro", false);
    f.step(AskEvent::KeysLoaded(keys()));
    f.step(AskEvent::ModelReply(fail(429, "quota")));
    match f.step(AskEvent::ModelReply(Ok("ok".into()))) {
        Some(AskAction::Finish(Ok(r))) => assert_eq!(r.text, "ok"),
        other => panic!("unexpected {:?}", other),
    }
}

#[test]
fn no_retry_when_already_small_or_not_transient() {
    let (mut f, _) = AskFlow::start("gemini", "gemini-flash-lite-latest", false);
    f.step(AskEvent::KeysLoaded(keys()));
    match f.step(AskEvent::ModelReply(fail(503, "high demand"))) {
        Some(AskAction::Finish(Err(m))) => assert_eq!(m, "high demand"),
        other => panic!("unexpected {:?}", other),
    }
    let (mut f, _) = AskFlow::start("gemini", "gemini-2.5-pro", false);
    f.step(AskEvent::KeysLoaded(keys()));
    match f.step(AskEvent::ModelReply(fail(400, "API key not valid"))) {
        Some(AskAction::Finish(Err(m))) => assert_eq!(m, "API key not valid"),
        other => panic!("unexpected {:?}", other),
    }
}

#[test]
fn missing_key_and_unknown_provider_end_the_request() {
    let (mut f, _) = AskFlow::start("openai", "gpt-4o", false);
    let empty = Keys { openai: " ".into(), gemini: "x".into() };
    match f.step(AskEvent::KeysLoaded(empty)) {
        Some(AskAction::Finish(Err(m))) => assert_eq!(m, "NO_KEY"),
        other => panic!("unexpected {:?}", other),
    }
    let (mut f, _) = AskFlow::start("mistral", "m", false);
    match f.step(AskEvent::KeysLoaded(keys())) {
        Some(AskAction::Finish(Err(m))) => assert_eq!(m, "Unknown provider: mistral"),
        other => panic!("unexpected {:?}", other),
    }
}

#[test]
fn unexpected_events_are_ignored() {
    let (mut f, _) = AskFlow::start("openai", "gpt-4o", false);
    assert!(f.step(AskEvent::ServerReply(Ok("x".into()))).is_none());
    assert!(f.step(AskEvent::ModelReply(Ok("x".into()))).is_none());
    assert!(matches!(f.step(AskEvent::KeysLoaded(keys())), Some(AskAction::CallModel { .. })));
}
