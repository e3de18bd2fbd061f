use konx::orb::{nearest_orb_corner, orb_corner_xy, MonitorRect};
use konx::screen::{encode_screenshot, needs_shrink};
use konx::window::{can_focus, capture_steps, focus_plan, next_target, stream_paste_steps, FocusPlan, InputStep, Key};

const MON: MonitorRect = MonitorRect { x: 0, y: 0, width: 1920, height: 1080 };

#[test]
fn orb_corners() {
    assert_eq!(orb_corner_xy(MON, Some((120, 120)), "top-left"), (10, 10));
    assert_eq!(orb_corner_xy(MON, Some((120, 120)), "top-right"), (1790, 10));
    assert_eq!(orb_corner_xy(MON, Some((120, 120)), "bottom-left"), (10, 950));
    assert_eq!(orb_corner_xy(MON, None, "bottom-right"), (1790, 950));
    assert_eq!(orb_corner_xy(MON, Some((100, 80)), "middle"), (1810, 990));
    let second = MonitorRect { x: -1280, y: 200, width: 1280, height: 1024 };
    assert_eq!(orb_corner_xy(second, None, "top-left"), (-1270, 210));
}

#[test]
fn nearest_corner() {
    assert_eq!(nearest_orb_corner(Some((100, 100)), Some(MON), None), "top-left");
    assert_eq!(nearest_orb_corner(Some((1500, 100)), Some(MON), None), "top-right");
    assert_eq!(nearest_orb_corner(Some((100, 900)), Some(MON), None), "bottom-left");
    assert_eq!(nearest_orb_corner(Some((900, 480)), Some(MON), Some((120, 120))), "bottom-right");
    assert_eq!(nearest_orb_corner(None, Some(MON), None), "bottom-right");
    assert_eq!(nearest_orb_corner(Some((0, 0)), None, None), "bottom-right");
}

#[test]
fn docked_orb_snaps_back_to_its_corner() {
    for c in ["top-left", "top-right", "bottom-left", "bottom-right"] {
        let spot = orb_corner_xy(MON, None, c);
        assert_eq!(nearest_orb_corner(Some(spot), Some(MON), None), c);
    }
}

#[test]
fn focus_attach_plan() {
    assert_eq!(focus_plan(1, 2, 3), FocusPlan { attach_target: true, attach_foreground: true });
    assert_eq!(focus_plan(1, 2, 2), FocusPlan { attach_target: true, attach_foreground: false });
    assert_eq!(focus_plan(1, 1, 1), FocusPlan { attach_target: false, attach_foreground: false });
    assert_eq!(focus_plan(1, 0, 0), FocusPlan { attach_target: false, attach_foreground: false });
    assert!(!can_focus(0));
    assert!(can_focus(77));
}

#[test]
fn remembered_window() {
    let ours = vec![10isize, 11, 12];
    assert_eq!(next_target(5, 7, &ours), 7);
    assert_eq!(next_target(5, 11, &ours), 5);
    assert_eq!(next_target(5, 0, &ours), 5);
}

#[test]
fn capture_sequence() {
    let s = capture_steps(9);
    assert!(matches!(s.as_slice(), [InputStep::FocusTarget, InputStep::Pause(80), InputStep::Copy, InputStep::Pause(130)]));
    let s = capture_steps(0);
    assert!(matches!(s.as_slice(), [InputStep::Copy, InputStep::Pause(130)]));
}

#[test]
fn paste_sequence() {
    let s = stream_paste_steps(true, &vec!["One.".into(), " Two.".into()]);
    assert_eq!(s.len(), 11);
    assert!(matches!(s[3], InputStep::Press(Key::RightArrow)));
    assert!(matches!(s[5], InputStep::Press(Key::Return)));
    match (&s[7], &s[9], &s[10]) {
        (InputStep::PasteText(a), InputStep::PasteText(b), InputStep::Pause(430)) => {
            assert_eq!((a.as_str(), b.as_str()), ("One.", " Two."))
        }
        other => panic!("unexpected {:?}", other),
    }
    let s = stream_paste_steps(false, &vec![]);
    assert!(matches!(s.as_slice(), [InputStep::Pause(60), InputStep::FocusTarget, InputStep::Pause(120)]));
}

#[test]
fn screenshot_encoding() {
    assert_eq!(encode_screenshot(b"hello"), "aGVsbG8=");
    assert_eq!(encode_screenshot(&[0xff, 0xd8, 0xff]), "/9j/");
    assert_eq!(encode_screenshot(&[]), "");
    assert!(needs_shrink(1601));
    assert!(!needs_shrink(1600));
}

#[test]
fn apply_sequence() {
    let s = konx::window::apply_steps();
    assert!(matches!(s.as_slice(), [InputStep::Pause(60), InputStep::FocusTarget, InputStep::Pause(90), InputStep::Paste]));
}
