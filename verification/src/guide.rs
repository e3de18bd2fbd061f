//! Reactive on-screen guidance: the prompt that asks for the single next step,
//! and the reading of the model's reply into that step.

use vstd::prelude::*;
use vstd::string::StringExecFns;
use crate::ai::trimmed;
use crate::text::{chars_of, contains, occurs_at, slice_range, string_of, trim};

verus! {

/// The decimal digits of `n`.
pub open spec fn decimal(n: nat) -> Seq<char>
    decreases n,
{
    if n < 10 {
        seq![digit(n)]
    } else {
        decimal(n / 10).push(digit(n % 10))
    }
}

/// The digit character for `d` (below ten).
pub open spec fn digit(d: nat) -> char {
    if d == 0 { '0' } else if d == 1 { '1' } else if d == 2 { '2' } else if d == 3 { '3' }
    else if d == 4 { '4' } else if d == 5 { '5' } else if d == 6 { '6' } else if d == 7 { '7' }
    else if d == 8 { '8' } else { '9' }
}

fn digit_char(d: usize) -> (c: char)
    requires
        d < 10,
    ensures
        c == digit(d as nat),
{
    if d == 0 { '0' } else if d == 1 { '1' } else if d == 2 { '2' } else if d == 3 { '3' }
    else if d == 4 { '4' } else if d == 5 { '5' } else if d == 6 { '6' } else if d == 7 { '7' }
    else if d == 8 { '8' } else { '9' }
}

/// The decimal digits of `n`, as `usize`'s `Display` writes them.
pub fn decimal_digits(n: usize) -> (r: Vec<char>)
    ensures
        r@ == decimal(n as nat),
    decreases n,
{
    if n < 10 {
        let mut r = Vec::new();
        r.push(digit_char(n));
        assert(r@ =~= seq![digit(n as nat)]);
        r
    } else {
        let mut r = decimal_digits(n / 10);
        r.push(digit_char(n % 10));
        r
    }
}

/// The parts joined with `sep` between them.
pub open spec fn joined(parts: Seq<Seq<char>>, sep: Seq<char>) -> Seq<char>
    decreases parts.len(),
{
    if parts.len() == 0 {
        Seq::empty()
    } else if parts.len() == 1 {
        parts[0]
    } else {
        joined(parts.drop_last(), sep) + sep + parts.last()
    }
}

/// The lines joined with newlines (`[String]::join("\n")`).
pub fn join_lines(lines: &Vec<String>) -> (r: String)
    ensures
        r@ == joined(lines.deep_view(), "\n"@),
{
    let mut r = String::new();
    let mut i: usize = 0;
    while i < lines.len()
        invariant
            i <= lines@.len(),
            r@ == joined(lines.deep_view().take(i as int), "\n"@),
        decreases lines.len() - i,
    {
        proof {
            assert(lines.deep_view().take(i + 1).drop_last() =~= lines.deep_view().take(i as int));
        }
        if i > 0 {
            r.append("\n");
        } else {
            assert(r@ =~= Seq::<char>::empty());
        }
        r.append(lines[i].as_str());
        i = i + 1;
    }
    assert(lines.deep_view().take(lines@.len() as int) =~= lines.deep_view());
    r
}

/// The steps already done, numbered from 1: "1. first", "2. second", ...
pub open spec fn numbered(history: Seq<Seq<char>>) -> Seq<Seq<char>> {
    Seq::new(history.len(), |i: int| decimal((i + 1) as nat) + ". "@ + history[i])
}

/// What the prompt says of the steps already done.
pub open spec fn history_text(history: Seq<Seq<char>>) -> Seq<char> {
    if history.len() == 0 {
        "none yet"@
    } else {
        joined(numbered(history), "\n"@)
    }
}

/// What the prompt says of the clickable things on screen.
pub open spec fn element_list_text(lines: Seq<Seq<char>>) -> Seq<char> {
    if lines.len() == 0 {
        "(no clickable items were detected)"@
    } else {
        joined(lines, "\n"@)
    }
}

/// The prompt for the single next step toward `goal`.
pub open spec fn step_prompt_text(goal: Seq<char>, history: Seq<Seq<char>>, lines: Seq<Seq<char>>) -> Seq<char> {
    "The user's goal: \""@ + trim(goal) + "\"\n\nSteps already done:\n"@ + history_text(history)
        + "\n\nThe clickable things on the screen RIGHT NOW are:\n"@ + element_list_text(lines)
        + "\n\nWhat is the single next step? JSON only."@
}

/// Each part appears in the joined text.
pub proof fn lemma_joined_holds_each_part(parts: Seq<Seq<char>>, sep: Seq<char>, i: int)
    requires
        0 <= i < parts.len(),
    ensures
        contains(joined(parts, sep), parts[i]),
    decreases parts.len(),
{
    let j = joined(parts, sep);
    if parts.len() == 1 {
        assert(j.subrange(0, parts[0].len() as int) =~= parts[0]);
        assert(occurs_at(j, parts[i], 0));
    } else {
        let head = joined(parts.drop_last(), sep) + sep;
        if i == parts.len() - 1 {
            assert(j.subrange(head.len() as int, (head.len() + parts[i].len()) as int) =~= parts[i]);
            assert(occurs_at(j, parts[i], head.len() as int));
        } else {
            lemma_joined_holds_each_part(parts.drop_last(), sep, i);
            let inner = joined(parts.drop_last(), sep);
            let p = choose|p: int| occurs_at(inner, parts.drop_last()[i], p);
            assert(j.subrange(p, p + parts[i].len()) =~= inner.subrange(p, p + parts[i].len()));
            assert(occurs_at(j, parts[i], p));
        }
    }
}

/// What occurs in `x` occurs in `a + x + b`.
pub proof fn lemma_contains_within(a: Seq<char>, x: Seq<char>, b: Seq<char>, t: Seq<char>)
    requires
        contains(x, t),
    ensures
        contains(a + x + b, t),
{
    let p = choose|p: int| occurs_at(x, t, p);
    let s = a + x + b;
    assert(s.subrange(a.len() + p, a.len() + p + t.len()) =~= x.subrange(p, p + t.len()));
    assert(occurs_at(s, t, a.len() + p));
}

/// Every step already done appears in the next-step prompt, numbered from 1
/// in order: step `i` as "{i + 1}. {step}".
pub proof fn lemma_prompt_lists_every_step(
    goal: Seq<char>,
    history: Seq<Seq<char>>,
    lines: Seq<Seq<char>>,
    i: int,
)
    requires
        0 <= i < history.len(),
    ensures
        contains(step_prompt_text(goal, history, lines), decimal((i + 1) as nat) + ". "@ + history[i]),
{
    let nb = numbered(history);
    assert(nb[i] == decimal((i + 1) as nat) + ". "@ + history[i]);
    lemma_joined_holds_each_part(nb, "\n"@, i);
    let a = "The user's goal: \""@ + trim(goal) + "\"\n\nSteps already done:\n"@;
    let b = "\n\nThe clickable things on the screen RIGHT NOW are:\n"@ + element_list_text(lines)
        + "\n\nWhat is the single next step? JSON only."@;
    lemma_contains_within(a, history_text(history), b, nb[i]);
    assert(a + history_text(history) + b =~= step_prompt_text(goal, history, lines));
}

/// The history lines, numbered from 1.
fn numbered_history(history: &Vec<String>) -> (r: Vec<String>)
    requires
        history@.len() < usize::MAX,
    ensures
        r.deep_view() == numbered(history.deep_view()),
{
    let mut r: Vec<String> = Vec::new();
    let mut i: usize = 0;
    while i < history.len()
        invariant
            i <= history@.len() < usize::MAX,
            r.deep_view() == numbered(history.deep_view()).take(i as int),
        decreases history.len() - i,
    {
        let digits = decimal_digits(i + 1);
        let mut line = string_of(digits.as_slice());
        line.append(". ");
        line.append(history[i].as_str());
        let ghost before = r.deep_view();
        assert(history.deep_view()[i as int] == history@[i as int]@);
        assert(line@ == numbered(history.deep_view())[i as int]);
        r.push(line);
        assert(r.deep_view() =~= before.push(numbered(history.deep_view())[i as int]));
        assert(r.deep_view() =~= numbered(history.deep_view()).take(i + 1));
        i = i + 1;
    }
    assert(numbered(history.deep_view()).take(i as int) =~= numbered(history.deep_view()));
    r
}

/// The prompt that asks for the single next step toward `goal`, given the
/// steps already done (`history`) and the clickable things on the screen now
/// (`element_lines`, as `onscreen_element_lines` lists them).
pub fn step_prompt(goal: &str, history: &Vec<String>, element_lines: &Vec<String>) -> (r: String)
    requires
        history@.len() < usize::MAX,
    ensures
        r@ == step_prompt_text(goal@, history.deep_view(), element_lines.deep_view()),
{
    let list = if element_lines.len() == 0 {
        "(no clickable items were detected)".to_owned()
    } else {
        join_lines(element_lines)
    };
    let done_so_far = if history.len() == 0 {
        "none yet".to_owned()
    } else {
        join_lines(&numbered_history(history))
    };
    let mut p = "The user's goal: \"".to_owned();
    p.append(trimmed(goal).as_str());
    p.append("\"\n\nSteps already done:\n");
    p.append(done_so_far.as_str());
    p.append("\n\nThe clickable things on the screen RIGHT NOW are:\n");
    p.append(list.as_str());
    p.append("\n\nWhat is the single next step? JSON only.");
    p
}


/// `i` is the first position of `c` in `s`.
pub open spec fn first_position(s: Seq<char>, c: char, i: int) -> bool {
    &&& 0 <= i < s.len()
    &&& s[i] == c
    &&& forall|j: int| 0 <= j < i ==> s[j] != c
}

/// `i` is the last position of `c` in `s`.
pub open spec fn last_position(s: Seq<char>, c: char, i: int) -> bool {
    &&& 0 <= i < s.len()
    &&& s[i] == c
    &&& forall|j: int| i < j < s.len() ==> s[j] != c
}

/// `c` occurs in `s`.
pub open spec fn has_char(s: Seq<char>, c: char) -> bool {
    exists|i: int| 0 <= i < s.len() && s[i] == c
}

/// The first position of `c` in `s`, if any (`str::find`).
fn find_char(s: &[char], c: char) -> (r: Option<usize>)
    ensures
        r matches Some(i) ==> first_position(s@, c, i as int),
        r is None ==> !has_char(s@, c),
{
    let mut i: usize = 0;
    while i < s.len()
        invariant
            i <= s@.len(),
            forall|j: int| 0 <= j < i ==> s@[j] != c,
        decreases s.len() - i,
    {
        if s[i] == c {
            return Some(i);
        }
        i = i + 1;
    }
    None
}

/// The last position of `c` in `s`, if any (`str::rfind`).
fn rfind_char(s: &[char], c: char) -> (r: Option<usize>)
    ensures
        r matches Some(i) ==> last_position(s@, c, i as int),
        r is None ==> !has_char(s@, c),
{
    let mut i: usize = s.len();
    while i > 0
        invariant
            i <= s@.len(),
            forall|j: int| i <= j < s@.len() ==> s@[j] != c,
        decreases i,
    {
        if s[i - 1] == c {
            return Some(i - 1);
        }
        i = i - 1;
    }
    None
}

/// The outermost `{ ... }` of a reply: from its first '{' to its last '}'.
pub open spec fn outer_object(s: Seq<char>) -> Option<Seq<char>> {
    if has_char(s, '{') && has_char(s, '}') {
        let a = choose|i: int| first_position(s, '{', i);
        let b = choose|i: int| last_position(s, '}', i);
        if b < a {
            None
        } else {
            Some(s.subrange(a, b + 1))
        }
    } else {
        None
    }
}

proof fn lemma_first_position_unique(s: Seq<char>, c: char, i: int, j: int)
    requires
        first_position(s, c, i),
        first_position(s, c, j),
    ensures
        i == j,
{
}

proof fn lemma_last_position_unique(s: Seq<char>, c: char, i: int, j: int)
    requires
        last_position(s, c, i),
        last_position(s, c, j),
    ensures
        i == j,
{
}

proof fn lemma_first_position_from(s: Seq<char>, c: char, w: int)
    requires
        0 <= w < s.len(),
        s[w] == c,
    ensures
        exists|i: int| first_position(s, c, i),
    decreases w,
{
    if exists|j: int| 0 <= j < w && s[j] == c {
        let j = choose|j: int| 0 <= j < w && s[j] == c;
        lemma_first_position_from(s, c, j);
    } else {
        assert(first_position(s, c, w));
    }
}

proof fn lemma_last_position_from(s: Seq<char>, c: char, w: int)
    requires
        0 <= w < s.len(),
        s[w] == c,
    ensures
        exists|i: int| last_position(s, c, i),
    decreases s.len() - w,
{
    if exists|j: int| w < j < s.len() && s[j] == c {
        let j = choose|j: int| w < j < s.len() && s[j] == c;
        lemma_last_position_from(s, c, j);
    } else {
        assert(last_position(s, c, w));
    }
}

/// What is taken from a reply is a piece of it that opens with '{' and closes
/// with '}'.
pub proof fn lemma_outer_object_is_braced(s: Seq<char>)
    ensures
        outer_object(s) matches Some(t) ==> {
            &&& t.len() >= 1
            &&& t[0] == '{'
            &&& t.last() == '}'
            &&& crate::text::contains(s, t)
        },
{
    if outer_object(s) is Some {
        let w1 = choose|i: int| 0 <= i < s.len() && s[i] == '{';
        lemma_first_position_from(s, '{', w1);
        let w2 = choose|i: int| 0 <= i < s.len() && s[i] == '}';
        lemma_last_position_from(s, '}', w2);
        let a = choose|i: int| first_position(s, '{', i);
        let b = choose|i: int| last_position(s, '}', i);
        let t = s.subrange(a, b + 1);
        assert(t[0] == s[a]);
        assert(t.last() == s[b]);
        assert(crate::text::occurs_at(s, t, a));
    }
}

/// Models sometimes wrap the step's JSON in ``` fences or add a stray
/// sentence, so the outermost `{ ... }` of the reply is what is parsed.
/// Nothing when the reply holds no such object.
pub fn outer_json_object(raw: &str) -> (r: Option<String>)
    ensures
        r is Some <==> outer_object(raw@) is Some,
        r matches Some(t) ==> outer_object(raw@) == Some(t@),
{
    let cs = chars_of(raw);
    let start = match find_char(cs.as_slice(), '{') {
        Some(i) => i,
        None => return None,
    };
    let end = match rfind_char(cs.as_slice(), '}') {
        Some(i) => i,
        None => return None,
    };
    proof {
        let a = choose|i: int| first_position(raw@, '{', i);
        let b = choose|i: int| last_position(raw@, '}', i);
        lemma_first_position_unique(raw@, '{', a, start as int);
        lemma_last_position_unique(raw@, '}', b, end as int);
    }
    if end < start {
        return None;
    }
    let n = cs.len();
    assert(end < n);
    Some(string_of(slice_range(cs.as_slice(), start, end + 1).as_slice()))
}

/// The step as the model states it (its JSON object, decoded).
#[derive(Clone, Debug)]
pub struct RawNext {
    pub say: String,
    pub point: String,
    pub done: bool,
}

/// One guidance step for the user interface: what to tell the user, the exact
/// element name to draw the arrow on (empty when there is nothing to point
/// at), whether the goal is finished, and the provider that answered.
#[derive(Clone, Debug)]
pub struct GuideStepOut {
    pub say: String,
    pub point: String,
    pub done: bool,
    pub engine: String,
}

/// The step shown to the user: the model's sentence and target, trimmed.
pub fn step_out(next: &RawNext, engine: String) -> (r: GuideStepOut)
    ensures
        r.say@ == trim(next.say@),
        r.point@ == trim(next.point@),
        r.done == next.done,
        r.engine@ == engine@,
{
    GuideStepOut {
        say: trimmed(next.say.as_str()),
        point: trimmed(next.point.as_str()),
        done: next.done,
        engine,
    }
}

/// The step planned from the model's reply: the decoded step (trimmed) with
/// the provider that answered, or "COULD_NOT_PLAN" when the reply held no
/// step object.
pub fn plan_step(next: Option<RawNext>, engine: String) -> (r: Result<GuideStepOut, String>)
    ensures
        next is None <==> r is Err,
        r matches Err(m) ==> m@ == "COULD_NOT_PLAN"@,
        r matches Ok(out) ==> (next matches Some(n) && out.say@ == trim(n.say@) && out.point@
            == trim(n.point@) && out.done == n.done && out.engine@ == engine@),
{
    match next {
        None => Err("COULD_NOT_PLAN".to_owned()),
        Some(n) => Ok(step_out(&n, engine)),
    }
}

/// How long the pointer arrow stays up: the requested seconds, else 8.
pub fn pointer_seconds(seconds: Option<u64>) -> (r: u64)
    ensures
        r == match seconds {
            Some(s) => s,
            None => 8,
        },
{
    match seconds {
        Some(s) => s,
        None => 8,
    }
}

} // verus!
