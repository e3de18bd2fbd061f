use konx::guide::{decimal_digits, join_lines, outer_json_object, plan_step, pointer_seconds, step_prompt, RawNext};

#[test]
fn decimal_rendering() {
    for n in [0usize, 7, 10, 42, 100, 12345, usize::MAX] {
        let s: String = decimal_digits(n).into_iter().collect();
        assert_eq!(s, n.to_string());
    }
}

#[test]
fn joining_lines() {
    assert_eq!(join_lines(&vec![]), "");
    assert_eq!(join_lines(&vec!["a".into()]), "a");
    assert_eq!(join_lines(&vec!["a".into(), "".into(), "c".into()]), "a\n\nc");
}

#[test]
fn step_prompt_with_history_and_elements() {
    let p = step_prompt(
        "  forward the email ",
        &vec!["Open the email".into(), "Click Forward".into()],
        &vec!["- Send [Button]".into(), "- To [Edit]".into()],
    );
    assert_eq!(
        p,
        "The user's goal: \"forward the email\"\n\nSteps already done:\n1. Open the email\n2. Click Forward\n\nThe clickable things on the screen RIGHT NOW are:\n- Send [Button]\n- To [Edit]\n\nWhat is the single next step? JSON only."
    );
}

#[test]
fn step_prompt_first_step_nothing_detected() {
    let p = step_prompt("Send", &vec![], &vec![]);
    assert_eq!(
        p,
        "The user's goal: \"Send\"\n\nSteps already done:\nnone yet\n\nThe clickable things on the screen RIGHT NOW are:\n(no clickable items were detected)\n\nWhat is the single next step? JSON only."
    );
}

#[test]
fn outer_object_of_reply() {
    assert_eq!(
        outer_json_object("```json\n{\"say\":\"Click Send\",\"point\":\"Send\",\"done\":false}\n```").as_deref(),
        Some("{\"say\":\"Click Send\",\"point\":\"Send\",\"done\":false}")
    );
    assert_eq!(outer_json_object("a {x} b {y} c").as_deref(), Some("{x} b {y}"));
    assert_eq!(outer_json_object("no json here"), None);
    assert_eq!(outer_json_object("} backwards {"), None);
    assert_eq!(outer_json_object("{ only open"), None);
    assert_eq!(outer_json_object("{}").as_deref(), Some("{}"));
}

#[test]
fn planned_step() {
    let raw = RawNext { say: "  Click Send. ".into(), point: " Send\n".into(), done: false };
    let s = plan_step(Some(raw), "gemini".into()).unwrap();
    assert_eq!((s.say.as_str(), s.point.as_str(), s.done, s.engine.as_str()), ("Click Send.", "Send", false, "gemini"));
    assert_eq!(plan_step(None, "gemini".into()).unwrap_err(), "COULD_NOT_PLAN");
}

#[test]
fn pointer_default_seconds() {
    assert_eq!(pointer_seconds(None), 8);
    assert_eq!(pointer_seconds(Some(3)), 3);
}
