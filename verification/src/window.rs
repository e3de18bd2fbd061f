//! Working with the window the user was typing in: remembering it, bringing
//! it back to the foreground, and the key and clipboard sequence that copies
//! from it or pastes into it.

use vstd::prelude::*;

verus! {

/// Which input queues are attached while a window is brought to the front.
#[derive(Clone, Copy, Debug, PartialEq, Eq, Structural)]
pub struct FocusPlan {
    /// Attach to the target window's thread.
    pub attach_target: bool,
    /// Attach to the current foreground window's thread.
    pub attach_foreground: bool,
}

/// The queues attached for a focus change: a thread is attached only when it
/// is known (not 0), is not our own, and is not already attached.
pub open spec fn focus_plan_of(current: u32, target_thread: u32, foreground_thread: u32) -> FocusPlan {
    FocusPlan {
        attach_target: target_thread != 0 && target_thread != current,
        attach_foreground: foreground_thread != 0 && foreground_thread != current
            && foreground_thread != target_thread,
    }
}

/// Windows allows a programmatic focus change once the foreground lock is
/// engaged only when our input queue is attached to the target's thread (and
/// to the current foreground thread). A thread is attached only when it is
/// known (not 0), is not our own, and is not already attached.
pub fn focus_plan(current: u32, target_thread: u32, foreground_thread: u32) -> (r: FocusPlan)
    ensures
        r == focus_plan_of(current, target_thread, foreground_thread),
{
    FocusPlan {
        attach_target: target_thread != 0 && target_thread != current,
        attach_foreground: foreground_thread != 0 && foreground_thread != current
            && foreground_thread != target_thread,
    }
}

/// No thread is attached twice, and our own thread is never attached to.
pub proof fn lemma_focus_plan_attaches_distinct_threads(current: u32, target: u32, foreground: u32)
    ensures
        ({
            let plan = focus_plan_of(current, target, foreground);
            &&& plan.attach_target && plan.attach_foreground ==> target != foreground
            &&& plan.attach_target ==> target != current && target != 0
            &&& plan.attach_foreground ==> foreground != current && foreground != 0
        }),
{
}

/// A zero handle names no window: nothing is brought to the front.
pub fn can_focus(handle: isize) -> (r: bool)
    ensures
        r == (handle != 0),
{
    handle != 0
}

/// The window to remember as the user's: the current foreground window when
/// it is a real window (not 0) and not one of ours; otherwise the one
/// remembered before.
pub open spec fn next_target_of(remembered: isize, foreground: isize, ours: Seq<isize>) -> isize {
    if foreground != 0 && !ours.contains(foreground) {
        foreground
    } else {
        remembered
    }
}

/// The window to remember next, as `next_target_of` says.
pub fn next_target(remembered: isize, foreground: isize, ours: &Vec<isize>) -> (r: isize)
    ensures
        r == next_target_of(remembered, foreground, ours@),
{
    if foreground == 0 {
        return remembered;
    }
    let mut k: usize = 0;
    while k < ours.len()
        invariant
            k <= ours@.len(),
            forall|j: int| 0 <= j < k ==> ours@[j] != foreground,
        decreases ours.len() - k,
    {
        if ours[k] == foreground {
            assert(ours@[k as int] == foreground);
            return remembered;
        }
        k = k + 1;
    }
    foreground
}

/// The remembered window is never one of ours: it stays so however the
/// foreground moves.
pub proof fn lemma_target_is_never_ours(remembered: isize, foreground: isize, ours: Seq<isize>)
    requires
        !ours.contains(remembered),
    ensures
        !ours.contains(next_target_of(remembered, foreground, ours)),
{
}

/// A key the paste sequence presses.
#[derive(Clone, Copy, Debug, PartialEq, Eq, Structural)]
pub enum Key {
    RightArrow,
    Return,
}

/// One step of driving the user's application.
#[derive(Clone, Debug)]
pub enum InputStep {
    /// Wait this many milliseconds.
    Pause(u64),
    /// Bring the remembered window to the front.
    FocusTarget,
    /// Press and release a key.
    Press(Key),
    /// Ctrl+C: copy the user's selection.
    Copy,
    /// Put the text on the clipboard and, if that worked, press Ctrl+V.
    PasteText(String),
    /// Ctrl+V: paste what is on the clipboard.
    Paste,
}

/// The step is a pause of `ms` milliseconds.
pub open spec fn is_pause(s: InputStep, ms: u64) -> bool {
    s matches InputStep::Pause(m) && m == ms
}

/// Grabbing the selected text: bring the remembered window back (when there
/// is one) and give it 80 ms, press Ctrl+C, then give the copy 130 ms.
pub fn capture_steps(target: isize) -> (r: Vec<InputStep>)
    ensures
        target != 0 ==> r@.len() == 4 && r@[0] is FocusTarget && is_pause(r@[1], 80) && r@[2] is Copy
            && is_pause(r@[3], 130),
        target == 0 ==> r@.len() == 2 && r@[0] is Copy && is_pause(r@[1], 130),
{
    let mut r = Vec::new();
    if target != 0 {
        r.push(InputStep::FocusTarget);
        r.push(InputStep::Pause(80));
    }
    r.push(InputStep::Copy);
    r.push(InputStep::Pause(130));
    r
}

/// Pasting an accepted rewrite (already on the clipboard) over the user's
/// selection: 60 ms for our window to hide, bring the remembered window back,
/// 90 ms for it to take focus, then Ctrl+V.
pub fn apply_steps() -> (r: Vec<InputStep>)
    ensures
        r@.len() == 4,
        is_pause(r@[0], 60),
        r@[1] is FocusTarget,
        is_pause(r@[2], 90),
        r@[3] is Paste,
{
    let mut r = Vec::new();
    r.push(InputStep::Pause(60));
    r.push(InputStep::FocusTarget);
    r.push(InputStep::Pause(90));
    r.push(InputStep::Paste);
    r
}

/// The steps before the first sentence: focus the user's window; when
/// appending, collapse the selection to its end and start a new line.
pub open spec fn stream_lead(append: bool) -> nat {
    if append { 7 } else { 3 }
}

/// Streaming an answer into the user's application one sentence at a time,
/// by pasting whole sentences through the clipboard: focus the remembered
/// window (60 ms before, 120 ms after); when appending, press Right (30 ms)
/// and Return (40 ms) so the user's selection stays and the answer starts on
/// a new line; then paste each sentence, 430 ms apart, so they appear one by
/// one.
pub fn stream_paste_steps(append: bool, sentences: &Vec<String>) -> (r: Vec<InputStep>)
    requires
        sentences@.len() < usize::MAX / 4,
    ensures
        r@.len() == stream_lead(append) + 2 * sentences@.len(),
        is_pause(r@[0], 60),
        r@[1] is FocusTarget,
        is_pause(r@[2], 120),
        append ==> r@[3] == InputStep::Press(Key::RightArrow) && is_pause(r@[4], 30) && r@[5]
            == InputStep::Press(Key::Return) && is_pause(r@[6], 40),
        forall|i: int|
            0 <= i < sentences@.len() ==> (#[trigger] r@[stream_lead(append) + 2 * i] matches InputStep::PasteText(t)
                && t@ == sentences@[i]@) && is_pause(r@[stream_lead(append) + 2 * i + 1], 430),
{
    let mut r: Vec<InputStep> = Vec::new();
    r.push(InputStep::Pause(60));
    r.push(InputStep::FocusTarget);
    r.push(InputStep::Pause(120));
    if append {
        r.push(InputStep::Press(Key::RightArrow));
        r.push(InputStep::Pause(30));
        r.push(InputStep::Press(Key::Return));
        r.push(InputStep::Pause(40));
    }
    let lead: usize = if append { 7 } else { 3 };
    let mut i: usize = 0;
    while i < sentences.len()
        invariant
            lead == stream_lead(append),
            i <= sentences@.len() < usize::MAX / 4,
            r@.len() == lead + 2 * i,
            is_pause(r@[0], 60),
            r@[1] is FocusTarget,
            is_pause(r@[2], 120),
            append ==> r@[3] == InputStep::Press(Key::RightArrow) && is_pause(r@[4], 30) && r@[5]
                == InputStep::Press(Key::Return) && is_pause(r@[6], 40),
            forall|j: int|
                0 <= j < i ==> (#[trigger] r@[lead + 2 * j] matches InputStep::PasteText(t) && t@
                    == sentences@[j]@) && is_pause(r@[lead + 2 * j + 1], 430),
        decreases sentences.len() - i,
    {
        r.push(InputStep::PasteText(sentences[i].clone()));
        r.push(InputStep::Pause(430));
        i = i + 1;
    }
    r
}

} // verus!
