//! The on-screen controls of the user's application, as UI Automation reports
//! them, and the choice of the one control a guidance step points at.

use vstd::prelude::*;
use vstd::string::StringExecFns;
use crate::text::{
    alphanumeric, chars_of, contains, is_alphanumeric, lowercase, occurs_at, same_chars, slice_range,
    str_contains, string_of, to_lowercase, trim, trim_chars, trim_end, last_occurrence, rfind_chars,
    lemma_last_occurrence_unique, lemma_last_occurrence_exists, trim_end_len, lemma_trim_end_prefix,
    str_eq, lemma_trim_idempotent, ascii, ascii_upper, all_space, lowercases_as_ascii, lemma_trim_padded,
    lemma_trim_upper, lemma_trim_ascii, lemma_ascii_upper_then_lower,
};

verus! {

/// One on-screen element, with its exact rectangle in physical pixels.
#[derive(Clone, Debug)]
pub struct UiaEl {
    pub name: String,
    pub ctype: String,
    pub x: i32,
    pub y: i32,
    pub w: i32,
    pub h: i32,
}

/// `name[i..j]` is one of the pieces that splitting `name` at every
/// non-alphanumeric character gives (`str::split(|c| !c.is_alphanumeric())`).
pub open spec fn word_at(name: Seq<char>, i: int, j: int) -> bool {
    &&& 0 <= i <= j <= name.len()
    &&& (i == 0 || !alphanumeric(name[i - 1]))
    &&& (j == name.len() || !alphanumeric(name[j]))
    &&& forall|k: int| i <= k < j ==> alphanumeric(#[trigger] name[k])
}

/// `term` is one of the alphanumeric words of `name`.
pub open spec fn has_word(name: Seq<char>, term: Seq<char>) -> bool {
    exists|i: int, j: int| #[trigger] word_at(name, i, j) && name.subrange(i, j) == term
}

/// True if `term_lower` appears as a whole word in `name_lower` (both already
/// lowercased): it is one of the pieces between non-alphanumeric characters.
/// So "bold" matches "bold (ctrl+b)" but "b" does not match "table".
pub fn name_has_word(name_lower: &str, term_lower: &str) -> (r: bool)
    ensures
        r == has_word(name_lower@, term_lower@),
{
    let name = chars_of(name_lower);
    let term = chars_of(term_lower);
    let ghost s = name@;
    let n = name.len();
    let mut start: usize = 0;
    let mut p: usize = 0;
    while p < n
        invariant
            n == s.len(),
            s == name@,
            s == name_lower@,
            term@ == term_lower@,
            start <= p <= n,
            start == 0 || !alphanumeric(s[start - 1]),
            forall|k: int| start <= k < p ==> alphanumeric(#[trigger] s[k]),
            forall|i: int, j: int|
                #![trigger word_at(s, i, j)]
                word_at(s, i, j) && j < p ==> s.subrange(i, j) != term@,
        decreases n - p,
    {
        if !is_alphanumeric(name[p]) {
            let piece = slice_range(name.as_slice(), start, p);
            proof {
                assert(word_at(s, start as int, p as int));
                assert forall|i: int, j: int| word_at(s, i, j) && j == p implies i == start by {
                    if i < start {
                        assert(alphanumeric(s[start - 1]));
                    } else if i > start {
                        assert(alphanumeric(s[i - 1]));
                    }
                }
            }
            if same_chars(piece.as_slice(), term.as_slice()) {
                assert(word_at(s, start as int, p as int));
                return true;
            }
            start = p + 1;
        }
        p = p + 1;
    }
    let piece = slice_range(name.as_slice(), start, n);
    proof {
        assert(word_at(s, start as int, n as int));
        assert forall|i: int, j: int| word_at(s, i, j) && j == n implies i == start by {
            if i < start {
                assert(alphanumeric(s[start - 1]));
            } else if i > start {
                assert(alphanumeric(s[i - 1]));
            }
        }
    }
    same_chars(piece.as_slice(), term.as_slice())
}

/// A whole-word match is also a substring match.
pub proof fn lemma_word_is_substring(name: Seq<char>, term: Seq<char>)
    requires
        has_word(name, term),
    ensures
        contains(name, term),
{
    let (i, j) = choose|i: int, j: int| word_at(name, i, j) && name.subrange(i, j) == term;
    assert(occurs_at(name, term, i));
}


/// The form in which a search term is compared: trimmed, then lowercased.
pub open spec fn search_key(term: Seq<char>) -> Seq<char> {
    lowercase(trim(term))
}

/// The element's trimmed, lowercased name is the search key itself.
pub open spec fn exact_match(e: UiaEl, key: Seq<char>) -> bool {
    lowercase(trim(e.name@)) == key
}

/// The search key is a whole word of the element's lowercased name.
pub open spec fn word_match(e: UiaEl, key: Seq<char>) -> bool {
    has_word(lowercase(e.name@), key)
}

/// The search key occurs inside the element's lowercased name.
pub open spec fn part_match(e: UiaEl, key: Seq<char>) -> bool {
    contains(lowercase(e.name@), key)
}

/// Among the first `n` elements that satisfy `ok`, element `k` is the lowest
/// on screen (largest `y`), and the last one among equally low ones.
pub open spec fn lowest_among(els: Seq<UiaEl>, ok: spec_fn(UiaEl) -> bool, k: int, n: int) -> bool {
    &&& 0 <= k < n <= els.len()
    &&& ok(els[k])
    &&& forall|i: int| 0 <= i < n && #[trigger] ok(els[i]) ==> els[i].y <= els[k].y
    &&& forall|i: int| k < i < n && #[trigger] ok(els[i]) ==> els[i].y < els[k].y
}

/// `a` ranks before `b` among word matches: a shorter name (in characters),
/// or an equally long name lower on screen.
pub open spec fn ranks_before(a: UiaEl, b: UiaEl) -> bool {
    ||| a.name@.len() < b.name@.len()
    ||| a.name@.len() == b.name@.len() && a.y > b.y
}

/// Among the first `n` elements that satisfy `ok`, element `k` ranks first by
/// `ranks_before`, and is the earliest of those that rank equally.
pub open spec fn first_ranked_among(
    els: Seq<UiaEl>,
    ok: spec_fn(UiaEl) -> bool,
    k: int,
    n: int,
) -> bool {
    &&& 0 <= k < n <= els.len()
    &&& ok(els[k])
    &&& forall|i: int| 0 <= i < n && #[trigger] ok(els[i]) ==> !ranks_before(els[i], els[k])
    &&& forall|i: int| 0 <= i < k && #[trigger] ok(els[i]) ==> ranks_before(els[k], els[i])
}

/// No element among the first `n` satisfies `ok`.
pub open spec fn none_among(els: Seq<UiaEl>, ok: spec_fn(UiaEl) -> bool, n: int) -> bool {
    forall|i: int| 0 <= i < n ==> !#[trigger] ok(els[i])
}

/// Element `k` of `els` is the one the tiered search for `term` picks:
/// an exact name match if there is one (the lowest on screen), else a
/// whole-word match (shortest name, then lowest), else, for keys of at least
/// three characters, a substring match (the lowest on screen).
pub open spec fn picked(els: Seq<UiaEl>, term: Seq<char>, k: int) -> bool {
    let key = search_key(term);
    let n = els.len() as int;
    let exact = |e: UiaEl| exact_match(e, key);
    let word = |e: UiaEl| word_match(e, key);
    let part = |e: UiaEl| part_match(e, key);
    &&& key.len() > 0
    &&& if !none_among(els, exact, n) {
        lowest_among(els, exact, k, n)
    } else if !none_among(els, word, n) {
        first_ranked_among(els, word, k, n)
    } else {
        key.len() >= 3 && lowest_among(els, part, k, n)
    }
}

/// The tiered search singles out one element: no two indices are both picked.
pub proof fn lemma_pick_is_unique(els: Seq<UiaEl>, term: Seq<char>, k1: int, k2: int)
    requires
        picked(els, term, k1),
        picked(els, term, k2),
    ensures
        k1 == k2,
{
    let key = search_key(term);
    let n = els.len() as int;
    let exact = |e: UiaEl| exact_match(e, key);
    let word = |e: UiaEl| word_match(e, key);
    let part = |e: UiaEl| part_match(e, key);
    if k1 != k2 {
        let (a, b) = if k1 < k2 { (k1, k2) } else { (k2, k1) };
        if !none_among(els, exact, n) {
            assert(exact(els[b]));
            assert(exact(els[a]));
        } else if !none_among(els, word, n) {
            assert(word(els[b]));
            assert(word(els[a]));
        } else {
            assert(part(els[b]));
            assert(part(els[a]));
        }
    }
}

/// The tiers, in terms of the names themselves: with `key` the trimmed,
/// lowercased term, a picked element has the key as its trimmed, lowercased
/// name when any element does, and is then the lowest such one (the last of
/// equally low ones); else, when any element has the key as a whole word of
/// its lowercased name, it is such an element with the fewest characters, the
/// lowest among those, the first among equals; else the key has at least three
/// characters and occurs in its lowercased name, and it is the lowest such one
/// (the last of equally low ones).
pub proof fn lemma_pick_tiers(els: Seq<UiaEl>, term: Seq<char>, k: int)
    requires
        picked(els, term, k),
    ensures
        ({
            let key = lowercase(trim(term));
            let n = els.len() as int;
            &&& 0 <= k < n
            &&& key.len() > 0
            &&& if exists|m: int| 0 <= m < n && lowercase(trim(#[trigger] els[m].name@)) == key {
                &&& lowercase(trim(els[k].name@)) == key
                &&& forall|m: int| 0 <= m < n && lowercase(trim(#[trigger] els[m].name@)) == key ==> els[m].y <= els[k].y
                &&& forall|m: int| k < m < n && lowercase(trim(#[trigger] els[m].name@)) == key ==> els[m].y < els[k].y
            } else if exists|m: int| 0 <= m < n && has_word(lowercase(#[trigger] els[m].name@), key) {
                &&& has_word(lowercase(els[k].name@), key)
                &&& forall|m: int| 0 <= m < n && has_word(lowercase(#[trigger] els[m].name@), key) ==> (
                    els[k].name@.len() < els[m].name@.len() || (els[k].name@.len() == els[m].name@.len()
                        && els[k].y >= els[m].y))
                &&& forall|m: int| 0 <= m < k && has_word(lowercase(#[trigger] els[m].name@), key) ==> (
                    els[k].name@.len() < els[m].name@.len() || (els[k].name@.len() == els[m].name@.len()
                        && els[k].y > els[m].y))
            } else {
                &&& key.len() >= 3
                &&& contains(lowercase(els[k].name@), key)
                &&& forall|m: int| 0 <= m < n && contains(lowercase(#[trigger] els[m].name@), key) ==> els[m].y <= els[k].y
                &&& forall|m: int| k < m < n && contains(lowercase(#[trigger] els[m].name@), key) ==> els[m].y < els[k].y
            }
        }),
{
    let key = search_key(term);
    let n = els.len() as int;
    let exact = |e: UiaEl| exact_match(e, key);
    let word = |e: UiaEl| word_match(e, key);
    let part = |e: UiaEl| part_match(e, key);
    if exists|m: int| 0 <= m < n && lowercase(trim(#[trigger] els[m].name@)) == key {
        let m0 = choose|m: int| 0 <= m < n && lowercase(trim(#[trigger] els[m].name@)) == key;
        assert(exact(els[m0]));
        assert forall|m: int| 0 <= m < n && lowercase(trim(#[trigger] els[m].name@)) == key implies els[m].y <= els[k].y by {
            assert(exact(els[m]));
        }
        assert forall|m: int| k < m < n && lowercase(trim(#[trigger] els[m].name@)) == key implies els[m].y < els[k].y by {
            assert(exact(els[m]));
        }
    } else {
        assert(none_among(els, exact, n)) by {
            assert forall|m: int| 0 <= m < n implies !#[trigger] exact(els[m]) by {
                if exact(els[m]) {
                    assert(lowercase(trim(els[m].name@)) == key);
                }
            }
        }
        if exists|m: int| 0 <= m < n && has_word(lowercase(#[trigger] els[m].name@), key) {
            let m0 = choose|m: int| 0 <= m < n && has_word(lowercase(#[trigger] els[m].name@), key);
            assert(word(els[m0]));
            assert forall|m: int| 0 <= m < n && has_word(lowercase(#[trigger] els[m].name@), key) implies (
                els[k].name@.len() < els[m].name@.len() || (els[k].name@.len() == els[m].name@.len()
                    && els[k].y >= els[m].y)) by {
                assert(word(els[m]));
            }
            assert forall|m: int| 0 <= m < k && has_word(lowercase(#[trigger] els[m].name@), key) implies (
                els[k].name@.len() < els[m].name@.len() || (els[k].name@.len() == els[m].name@.len()
                    && els[k].y > els[m].y)) by {
                assert(word(els[m]));
            }
        } else {
            assert(none_among(els, word, n)) by {
                assert forall|m: int| 0 <= m < n implies !#[trigger] word(els[m]) by {
                    if word(els[m]) {
                        assert(has_word(lowercase(els[m].name@), key));
                    }
                }
            }
            assert(part(els[k]));
            assert forall|m: int| 0 <= m < n && contains(lowercase(#[trigger] els[m].name@), key) implies els[m].y <= els[k].y by {
                assert(part(els[m]));
            }
            assert forall|m: int| k < m < n && contains(lowercase(#[trigger] els[m].name@), key) implies els[m].y < els[k].y by {
                assert(part(els[m]));
            }
        }
    }
}

/// Nothing is picked exactly when the trimmed, lowercased term is empty, or
/// when no element's trimmed lowercased name is it, no lowercased name has it
/// as a whole word, and (for a term of at least three characters) no
/// lowercased name holds it.
pub proof fn lemma_nothing_picked_exactly(els: Seq<UiaEl>, term: Seq<char>)
    ensures
        ({
            let key = lowercase(trim(term));
            let n = els.len() as int;
            nothing_picked(els, term) <==> (key.len() == 0 || (
                (forall|m: int| 0 <= m < n ==> lowercase(trim(#[trigger] els[m].name@)) != key)
                && (forall|m: int| 0 <= m < n ==> !has_word(lowercase(#[trigger] els[m].name@), key))
                && (key.len() < 3 || forall|m: int| 0 <= m < n ==> !contains(lowercase(#[trigger] els[m].name@), key))))
        }),
{
    let key = search_key(term);
    let n = els.len() as int;
    let exact = |e: UiaEl| exact_match(e, key);
    let word = |e: UiaEl| word_match(e, key);
    let part = |e: UiaEl| part_match(e, key);
    assert(none_among(els, exact, n) <==> (forall|m: int| 0 <= m < n ==> lowercase(trim(#[trigger] els[m].name@)) != key)) by {
        if none_among(els, exact, n) {
            assert forall|m: int| 0 <= m < n implies lowercase(trim(#[trigger] els[m].name@)) != key by {
                assert(!exact(els[m]));
            }
        }
    }
    assert(none_among(els, word, n) <==> (forall|m: int| 0 <= m < n ==> !has_word(lowercase(#[trigger] els[m].name@), key))) by {
        if none_among(els, word, n) {
            assert forall|m: int| 0 <= m < n implies !has_word(lowercase(#[trigger] els[m].name@), key) by {
                assert(!word(els[m]));
            }
        }
    }
    assert(none_among(els, part, n) <==> (forall|m: int| 0 <= m < n ==> !contains(lowercase(#[trigger] els[m].name@), key))) by {
        if none_among(els, part, n) {
            assert forall|m: int| 0 <= m < n implies !contains(lowercase(#[trigger] els[m].name@), key) by {
                assert(!part(els[m]));
            }
        }
    }
}

/// The last tier is substring containment anywhere in the name: for a key of
/// at least three characters that no name equals and no name has as a whole
/// word, an element whose lowercased name holds the key at any position gets
/// something picked, and whatever is picked holds the key somewhere in its
/// lowercased name.
pub proof fn lemma_substring_tier_matches_anywhere(els: Seq<UiaEl>, term: Seq<char>, i: int, at: int)
    requires
        search_key(term).len() >= 3,
        forall|m: int| 0 <= m < els.len() ==> lowercase(trim(#[trigger] els[m].name@)) != search_key(term),
        forall|m: int| 0 <= m < els.len() ==> !has_word(lowercase(#[trigger] els[m].name@), search_key(term)),
        0 <= i < els.len(),
        0 <= at,
        at + search_key(term).len() <= lowercase(els[i].name@).len(),
        lowercase(els[i].name@).subrange(at, at + search_key(term).len()) == search_key(term),
    ensures
        !nothing_picked(els, term),
        forall|k: int|
            picked(els, term, k) ==> exists|p: int|
                0 <= p && p + search_key(term).len() <= lowercase(els[k].name@).len()
                    && #[trigger] lowercase(els[k].name@).subrange(p, p + search_key(term).len())
                    == search_key(term),
{
    let key = search_key(term);
    let n = els.len() as int;
    let exact = |e: UiaEl| exact_match(e, key);
    let word = |e: UiaEl| word_match(e, key);
    let part = |e: UiaEl| part_match(e, key);
    assert(occurs_at(lowercase(els[i].name@), key, at));
    assert(part(els[i]));
    assert(none_among(els, exact, n)) by {
        assert forall|m: int| 0 <= m < n implies !#[trigger] exact(els[m]) by {
            assert(lowercase(trim(els[m].name@)) != key);
        }
    }
    assert(none_among(els, word, n)) by {
        assert forall|m: int| 0 <= m < n implies !#[trigger] word(els[m]) by {
            assert(!has_word(lowercase(els[m].name@), key));
        }
    }
    assert forall|k: int| picked(els, term, k) implies exists|p: int|
        0 <= p && p + key.len() <= lowercase(els[k].name@).len()
            && #[trigger] lowercase(els[k].name@).subrange(p, p + key.len()) == key by {
        assert(part(els[k]));
        let p = choose|p: int| occurs_at(lowercase(els[k].name@), key, p);
        assert(lowercase(els[k].name@).subrange(p, p + key.len()) == key);
    }
}

/// Spaces around the search term change nothing: the term and its trimmed
/// form pick the same element, or both pick nothing.
pub proof fn lemma_pick_ignores_surrounding_space(els: Seq<UiaEl>, term: Seq<char>, k: int)
    ensures
        picked(els, trim(term), k) == picked(els, term, k),
        nothing_picked(els, trim(term)) == nothing_picked(els, term),
{
    lemma_trim_idempotent(term);
    assert(search_key(trim(term)) == search_key(term));
}

/// Matching ignores ASCII case and surrounding white space: for an ASCII
/// term, the term uppercased and padded with white space picks the same
/// element as the term itself, or both pick nothing. The premises are the
/// lowercasing facts that `pick_target` establishes for each term it is given.
pub proof fn lemma_pick_ignores_ascii_case(
    els: Seq<UiaEl>,
    term: Seq<char>,
    before: Seq<char>,
    after: Seq<char>,
    k: int,
)
    requires
        ascii(term),
        all_space(before),
        all_space(after),
        lowercases_as_ascii(trim(term)),
        lowercases_as_ascii(trim(before + ascii_upper(term) + after)),
    ensures
        picked(els, before + ascii_upper(term) + after, k) == picked(els, term, k),
        nothing_picked(els, before + ascii_upper(term) + after) == nothing_picked(els, term),
{
    let shouted = before + ascii_upper(term) + after;
    lemma_trim_padded(before, ascii_upper(term), after);
    lemma_trim_upper(term);
    lemma_trim_ascii(term);
    lemma_ascii_upper_then_lower(trim(term));
    assert(trim(shouted) == ascii_upper(trim(term)));
    assert(search_key(shouted) == search_key(term));
}

/// The tiered search finds nothing: an empty key, or no element in any tier
/// (the substring tier counts only for keys of at least three characters).
pub open spec fn nothing_picked(els: Seq<UiaEl>, term: Seq<char>) -> bool {
    let key = search_key(term);
    let n = els.len() as int;
    ||| key.len() == 0
    ||| none_among(els, |e: UiaEl| exact_match(e, key), n) && none_among(
        els,
        |e: UiaEl| word_match(e, key),
        n,
    ) && (key.len() < 3 || none_among(els, |e: UiaEl| part_match(e, key), n))
}

/// The string `s`, trimmed and lowercased.
fn trimmed_lowercase(s: &str) -> (r: String)
    ensures
        r@ == lowercase(trim(s@)),
        r@.len() >= trim(s@).len(),
        trim(s@).len() == 0 ==> r@.len() == 0,
        lowercases_as_ascii(trim(s@)),
{
    let cs = chars_of(s);
    let t = trim_chars(cs.as_slice());
    let ts = string_of(t.as_slice());
    to_lowercase(ts.as_str())
}

/// Keeps `best` the lowest (last among ties) of the candidates seen so far.
fn keep_lowest(elements: &[UiaEl], best: Option<usize>, i: usize) -> (r: Option<usize>)
    requires
        i < elements@.len(),
        best matches Some(b) ==> b < i,
    ensures
        r == (match best {
            None => Some(i),
            Some(b) => if elements@[i as int].y >= elements@[b as int].y {
                Some(i)
            } else {
                best
            },
        }),
{
    match best {
        None => Some(i),
        Some(b) => if elements[i].y >= elements[b].y {
            Some(i)
        } else {
            best
        },
    }
}

/// The number of characters in `s`.
fn char_count(s: &str) -> (r: usize)
    ensures
        r == s@.len(),
{
    chars_of(s).len()
}

/// The index of the element the tiered search for `term` picks, if any.
pub fn pick_target_index(elements: &[UiaEl], term: &str) -> (r: Option<usize>)
    ensures
        r matches Some(k) ==> picked(elements@, term@, k as int),
        r is None <==> nothing_picked(elements@, term@),
        trim(term@).len() == 0 ==> r is None,
        lowercases_as_ascii(trim(term@)),
{
    let key = trimmed_lowercase(term);
    let ghost kv = key@;
    let ghost els = elements@;
    let ghost exact = |e: UiaEl| exact_match(e, kv);
    let ghost word = |e: UiaEl| word_match(e, kv);
    let ghost part = |e: UiaEl| part_match(e, kv);
    let key_len = char_count(key.as_str());
    if key_len == 0 {
        return None;
    }
    let n = elements.len();
    let mut best_exact: Option<usize> = None;
    let mut best_word: Option<usize> = None;
    let mut best_word_len: usize = 0;
    let mut best_part: Option<usize> = None;
    let mut i: usize = 0;
    while i < n
        invariant
            n == els.len(),
            els == elements@,
            kv == key@,
            kv == search_key(term@),
            exact == (|e: UiaEl| exact_match(e, kv)),
            word == (|e: UiaEl| word_match(e, kv)),
            part == (|e: UiaEl| part_match(e, kv)),
            i <= n,
            best_exact matches Some(k) ==> lowest_among(els, exact, k as int, i as int),
            best_exact is None ==> none_among(els, exact, i as int),
            best_word matches Some(k) ==> first_ranked_among(els, word, k as int, i as int)
                && best_word_len == els[k as int].name@.len(),
            best_word is None ==> none_among(els, word, i as int),
            best_part matches Some(k) ==> lowest_among(els, part, k as int, i as int),
            best_part is None ==> none_among(els, part, i as int),
        decreases n - i,
    {
        let e = &elements[i];
        let lowered = to_lowercase(e.name.as_str());
        if trimmed_lowercase(e.name.as_str()) == key {
            best_exact = keep_lowest(elements, best_exact, i);
        }
        if name_has_word(lowered.as_str(), key.as_str()) {
            let len = char_count(e.name.as_str());
            let better = match best_word {
                None => true,
                Some(b) => len < best_word_len || (len == best_word_len && e.y > elements[b].y),
            };
            if better {
                best_word = Some(i);
                best_word_len = len;
            }
        }
        if str_contains(lowered.as_str(), key.as_str()) {
            best_part = keep_lowest(elements, best_part, i);
        }
        proof {
            assert(exact(els[i as int]) == exact_match(els[i as int], kv));
            assert(word(els[i as int]) == word_match(els[i as int], kv));
            assert(part(els[i as int]) == part_match(els[i as int], kv));
        }
        i = i + 1;
    }
    if best_exact.is_some() {
        return best_exact;
    }
    if best_word.is_some() {
        return best_word;
    }
    if key_len >= 3 {
        return best_part;
    }
    None
}

/// Pick the single best element matching `term` (case-insensitive), in tiers
/// so a vague search cannot grab the wrong control:
///   1. an exact name match; among ties, the lowest on screen (the last of
///      equally low ones);
///   2. a whole-word match; the shortest name wins, then the lowest on screen,
///      then the earliest;
///   3. a substring match, only for terms of at least three characters; the
///      lowest on screen wins, as in tier 1.
/// Otherwise nothing.
pub fn pick_target(elements: &[UiaEl], term: &str) -> (r: Option<UiaEl>)
    ensures
        r is None <==> nothing_picked(elements@, term@),
        r matches Some(e) ==> exists|k: int|
            picked(elements@, term@, k) && #[trigger] elements@[k] == e,
        trim(term@).len() == 0 ==> r is None,
        lowercases_as_ascii(trim(term@)),
{
    match pick_target_index(elements, term) {
        None => None,
        Some(k) => {
            let e = &elements[k];
            let copy = UiaEl {
                name: e.name.clone(),
                ctype: e.ctype.clone(),
                x: e.x,
                y: e.y,
                w: e.w,
                h: e.h,
            };
            assert(elements@[k as int] == copy);
            Some(copy)
        },
    }
}


/// `s` without a trailing annotation that starts at its last `" " + open` and
/// ends with `close`, trailing white space removed; unchanged when it does not
/// end with `close` or holds no `" " + open`.
pub open spec fn without_note(s: Seq<char>, open: char, close: char) -> Seq<char> {
    let marker = seq![' ', open];
    if s.len() > 0 && s.last() == close && contains(s, marker) {
        trim_end(s.subrange(0, choose|i: int| last_occurrence(s, marker, i)))
    } else {
        s
    }
}

/// A model-chosen target name with a copied `" [Type]"` annotation, then a
/// `" (..)"` one, taken off.
pub open spec fn cleaned_name(name: Seq<char>) -> Seq<char> {
    without_note(without_note(trim(name), '[', ']'), '(', ')')
}

/// `without_note` on characters.
fn strip_note(s: Vec<char>, open: char, close: char) -> (r: Vec<char>)
    ensures
        r@ == without_note(s@, open, close),
{
    let n = s.len();
    if n == 0 || s[n - 1] != close {
        return s;
    }
    let marker = vec![' ', open];
    assert(marker@ =~= seq![' ', open]);
    match rfind_chars(s.as_slice(), marker.as_slice()) {
        None => s,
        Some(idx) => {
            proof {
                let c = choose|i: int| last_occurrence(s@, marker@, i);
                lemma_last_occurrence_unique(s@, marker@, c, idx as int);
            }
            let head = slice_range(s.as_slice(), 0, idx);
            let keep = trim_end_len(head.as_slice());
            slice_range(head.as_slice(), 0, keep)
        },
    }
}

/// The plan model is given the element list as "Name [Type]" lines and
/// sometimes copies the whole line (e.g. "Forward [Button]") as its target.
/// Strip a trailing " [..]" or " (..)" annotation so the name matches the
/// real control.
pub fn clean_target_name(name: &str) -> (r: String)
    ensures
        r@ == cleaned_name(name@),
{
    let cs = chars_of(name);
    let t = trim_chars(cs.as_slice());
    let a = strip_note(t, '[', ']');
    let b = strip_note(a, '(', ')');
    string_of(b.as_slice())
}

/// Cleaning only ever takes text off the end: the result is a prefix of `s`.
pub proof fn lemma_without_note_prefix(s: Seq<char>, open: char, close: char)
    ensures
        without_note(s, open, close).len() <= s.len(),
        s.subrange(0, without_note(s, open, close).len() as int) == without_note(s, open, close),
{
    let marker = seq![' ', open];
    if s.len() > 0 && s.last() == close && contains(s, marker) {
        let i = choose|i: int| last_occurrence(s, marker, i);
        lemma_last_occurrence_exists(s, marker);
        let head = s.subrange(0, i);
        lemma_trim_end_prefix(head);
        assert(s.subrange(0, trim_end(head).len() as int) =~= head.subrange(
            0,
            trim_end(head).len() as int,
        ));
    } else {
        assert(s.subrange(0, s.len() as int) =~= s);
    }
}

/// A cleaned target name is a prefix of the trimmed name it came from: the
/// cleaning never invents text.
pub proof fn lemma_cleaned_name_is_prefix(name: Seq<char>)
    ensures
        cleaned_name(name).len() <= trim(name).len(),
        trim(name).subrange(0, cleaned_name(name).len() as int) == cleaned_name(name),
{
    let t = trim(name);
    let a = without_note(t, '[', ']');
    lemma_without_note_prefix(t, '[', ']');
    lemma_without_note_prefix(a, '(', ')');
    let b = without_note(a, '(', ')');
    assert(t.subrange(0, b.len() as int) =~= a.subrange(0, b.len() as int));
}


/// The friendly name of a UI Automation control-type id.
pub open spec fn control_type_name(id: i32) -> Seq<char> {
    if id == 50000 {
        "Button"@
    } else if id == 50004 {
        "Edit"@
    } else if id == 50005 {
        "Hyperlink"@
    } else if id == 50011 {
        "MenuItem"@
    } else if id == 50007 {
        "ComboBox"@
    } else if id == 50002 {
        "CheckBox"@
    } else if id == 50020 {
        "Text"@
    } else if id == 50019 {
        "TabItem"@
    } else if id == 50008 {
        "ListItem"@
    } else {
        "Other"@
    }
}

/// A few common UI Automation control-type ids mapped to friendly names;
/// every other id is "Other".
pub fn ctype_name(id: i32) -> (r: String)
    ensures
        r@ == control_type_name(id),
{
    let name = if id == 50000 {
        "Button"
    } else if id == 50004 {
        "Edit"
    } else if id == 50005 {
        "Hyperlink"
    } else if id == 50011 {
        "MenuItem"
    } else if id == 50007 {
        "ComboBox"
    } else if id == 50002 {
        "CheckBox"
    } else if id == 50020 {
        "Text"
    } else if id == 50019 {
        "TabItem"
    } else if id == 50008 {
        "ListItem"
    } else {
        "Other"
    };
    name.to_owned()
}

/// Reading elements needs a window: a zero handle is refused.
pub fn check_window(hwnd_val: isize) -> (r: Result<(), String>)
    ensures
        r is Ok <==> hwnd_val != 0,
        r matches Err(m) ==> m@ == "No target window to read."@,
{
    if hwnd_val == 0 {
        return Err("No target window to read.".to_owned());
    }
    Ok(())
}

/// What UI Automation reported for one element: its name, its bounding
/// rectangle and its control-type id.
#[derive(Clone, Debug)]
pub struct RawElement {
    pub name: String,
    pub left: i32,
    pub top: i32,
    pub right: i32,
    pub bottom: i32,
    pub control_type: i32,
}

/// The rectangle's width and height can be computed without overflow.
pub open spec fn measurable(raw: RawElement) -> bool {
    &&& i32::MIN <= raw.right - raw.left <= i32::MAX
    &&& i32::MIN <= raw.bottom - raw.top <= i32::MAX
}

/// A reported element is kept when it has a non-blank name and a rectangle
/// of positive width and height.
pub open spec fn keeps(raw: RawElement) -> bool {
    &&& trim(raw.name@).len() > 0
    &&& raw.right - raw.left > 0
    &&& raw.bottom - raw.top > 0
}

/// `e` is the element made from `raw`: the full name, the friendly type
/// name, the rectangle's top-left corner and its size.
pub open spec fn made_from(e: UiaEl, raw: RawElement) -> bool {
    &&& e.name@ == raw.name@
    &&& e.ctype@ == control_type_name(raw.control_type)
    &&& e.x == raw.left
    &&& e.y == raw.top
    &&& e.w == raw.right - raw.left
    &&& e.h == raw.bottom - raw.top
}

/// The element for one report, or nothing when it is blank or empty on screen.
pub fn element_from_parts(raw: &RawElement) -> (r: Option<UiaEl>)
    requires
        measurable(*raw),
    ensures
        r is Some <==> keeps(*raw),
        r matches Some(e) ==> made_from(e, *raw),
{
    let cs = chars_of(raw.name.as_str());
    let t = trim_chars(cs.as_slice());
    if t.len() == 0 {
        return None;
    }
    let w = raw.right - raw.left;
    let h = raw.bottom - raw.top;
    if w <= 0 || h <= 0 {
        return None;
    }
    Some(UiaEl { name: raw.name.clone(), ctype: ctype_name(raw.control_type), x: raw.left, y: raw.top, w, h })
}

/// The reports that are kept, in order; a report that could not be read
/// (`None`) is skipped.
pub open spec fn kept_reports(raws: Seq<Option<RawElement>>) -> Seq<RawElement>
    decreases raws.len(),
{
    if raws.len() == 0 {
        Seq::empty()
    } else {
        let rest = kept_reports(raws.drop_last());
        match raws.last() {
            Some(raw) => if keeps(raw) {
                rest.push(raw)
            } else {
                rest
            },
            None => rest,
        }
    }
}

/// The elements made from the kept reports, in order.
pub fn collect_elements(raws: Vec<Option<RawElement>>) -> (r: Vec<UiaEl>)
    requires
        forall|i: int| 0 <= i < raws@.len() ==> (#[trigger] raws@[i] matches Some(raw) ==> measurable(raw)),
    ensures
        r@.len() == kept_reports(raws@).len(),
        forall|i: int| 0 <= i < r@.len() ==> made_from(#[trigger] r@[i], kept_reports(raws@)[i]),
{
    let mut out: Vec<UiaEl> = Vec::new();
    let mut i: usize = 0;
    while i < raws.len()
        invariant
            i <= raws@.len(),
            forall|j: int| 0 <= j < raws@.len() ==> (#[trigger] raws@[j] matches Some(raw) ==> measurable(raw)),
            out@.len() == kept_reports(raws@.take(i as int)).len(),
            forall|j: int| 0 <= j < out@.len() ==> made_from(#[trigger] out@[j], kept_reports(raws@.take(i as int))[j]),
        decreases raws.len() - i,
    {
        proof {
            assert(raws@.take(i + 1).drop_last() =~= raws@.take(i as int));
        }
        match &raws[i] {
            None => {},
            Some(raw) => {
                if let Some(e) = element_from_parts(raw) {
                    out.push(e);
                }
            },
        }
        i = i + 1;
    }
    assert(raws@.take(raws@.len() as int) =~= raws@);
    out
}

/// One of the interactive control types the guidance model may point at.
pub open spec fn interactive(ctype: Seq<char>) -> bool {
    ||| ctype == "Button"@
    ||| ctype == "Hyperlink"@
    ||| ctype == "MenuItem"@
    ||| ctype == "Edit"@
    ||| ctype == "TabItem"@
    ||| ctype == "CheckBox"@
    ||| ctype == "ComboBox"@
    ||| ctype == "ListItem"@
}

/// The name shown for an element: trimmed, and cut to its first 80 characters.
pub open spec fn shown_name(e: UiaEl) -> Seq<char> {
    let t = trim(e.name@);
    if t.len() > 80 {
        t.take(80)
    } else {
        t
    }
}

/// The line that lists an element: "- Name [Type]".
pub open spec fn listing_line(e: UiaEl) -> Seq<char> {
    "- "@ + shown_name(e) + " ["@ + e.ctype@ + "]"@
}

/// The lines listed, and the lowercased names already listed, after looking
/// at the first `n` elements: only interactive controls with a non-blank
/// name, each lowercased name once, and no more once 120 lines are listed.
pub open spec fn listing(els: Seq<UiaEl>, n: nat) -> (Seq<Seq<char>>, Seq<Seq<char>>)
    decreases n,
{
    if n == 0 || n > els.len() {
        (Seq::empty(), Seq::empty())
    } else {
        let (lines, seen) = listing(els, (n - 1) as nat);
        let e = els[n - 1];
        let key = lowercase(shown_name(e));
        if lines.len() >= 120 || !interactive(e.ctype@) || shown_name(e).len() == 0
            || seen.contains(key) {
            (lines, seen)
        } else {
            (lines.push(listing_line(e)), seen.push(key))
        }
    }
}


/// The listing never exceeds 120 lines; no lowercased name is listed twice;
/// and every line lists an interactive control with a non-blank name, its
/// lowercased shown name being the matching entry of the names seen.
#[verifier::spinoff_prover]
pub proof fn lemma_listing_shape(els: Seq<UiaEl>, n: nat)
    ensures
        listing(els, n).0.len() <= 120,
        listing(els, n).0.len() == listing(els, n).1.len(),
        listing(els, n).1.no_duplicates(),
        forall|j: int|
            0 <= j < listing(els, n).0.len() ==> exists|k: int|
                0 <= k < n && k < els.len() && interactive(els[k].ctype@) && shown_name(els[k]).len()
                    > 0 && #[trigger] listing(els, n).0[j] == listing_line(els[k]) && listing(
                    els,
                    n,
                ).1[j] == lowercase(shown_name(els[k])),
    decreases n,
{
    if n > 0 && n <= els.len() {
        lemma_listing_shape(els, (n - 1) as nat);
        let (lines, seen) = listing(els, (n - 1) as nat);
        let e = els[n - 1];
        let key = lowercase(shown_name(e));
        if lines.len() >= 120 || !interactive(e.ctype@) || shown_name(e).len() == 0
            || seen.contains(key) {
            assert(listing(els, n) == listing(els, (n - 1) as nat));
            let l2 = listing(els, n).0;
            let s2 = listing(els, n).1;
            assert forall|j: int| 0 <= j < l2.len() implies exists|k: int|
                0 <= k < n && k < els.len() && interactive(els[k].ctype@) && shown_name(els[k]).len()
                    > 0 && #[trigger] l2[j] == listing_line(els[k]) && s2[j] == lowercase(
                    shown_name(els[k]),
                ) by {
                assert(l2[j] == lines[j]);
            }
        } else {
            let (l2, s2) = listing(els, n);
            assert(s2 == seen.push(key));
            assert forall|a: int, b: int| 0 <= a < s2.len() && 0 <= b < s2.len() && a != b implies s2[a] != s2[b] by {
                if a == seen.len() as int {
                    assert(s2[b] == seen[b]);
                } else if b == seen.len() as int {
                    assert(s2[a] == seen[a]);
                }
            }
            assert forall|j: int| 0 <= j < l2.len() implies exists|k: int|
                0 <= k < n && k < els.len() && interactive(els[k].ctype@) && shown_name(els[k]).len()
                    > 0 && #[trigger] l2[j] == listing_line(els[k]) && s2[j] == lowercase(
                    shown_name(els[k]),
                ) by {
                if j == lines.len() as int {
                    assert(l2[j] == listing_line(els[n - 1]));
                } else {
                    assert(l2[j] == lines[j]);
                }
            }
        }
    }
}

/// Every button, link, menu item, edit box, tab, check box, combo box or list
/// item with a non-blank name that is not listed yet (by lowercased name) is
/// listed, as "- Name [Type]", while fewer than 120 lines are listed.
pub proof fn lemma_interactive_controls_are_listed(els: Seq<UiaEl>, n: nat)
    requires
        0 < n <= els.len(),
        ({
            let t = els[n - 1].ctype@;
            ||| t == "Button"@
            ||| t == "Hyperlink"@
            ||| t == "MenuItem"@
            ||| t == "Edit"@
            ||| t == "TabItem"@
            ||| t == "CheckBox"@
            ||| t == "ComboBox"@
            ||| t == "ListItem"@
        }),
        trim(els[n - 1].name@).len() > 0,
        listing(els, (n - 1) as nat).0.len() < 120,
        !listing(els, (n - 1) as nat).1.contains(lowercase(shown_name(els[n - 1]))),
    ensures
        listing(els, n).0 == listing(els, (n - 1) as nat).0.push(
            "- "@ + shown_name(els[n - 1]) + " ["@ + els[n - 1].ctype@ + "]"@,
        ),
        listing(els, n).1 == listing(els, (n - 1) as nat).1.push(lowercase(shown_name(els[n - 1]))),
{
    assert(shown_name(els[n - 1]).len() > 0);
}

/// Only interactive controls are listed, each under its shown name: every
/// line is "- Name [Type]" for an element of one of the eight interactive
/// types whose name, trimmed and cut to its first 80 characters, is not blank.
pub proof fn lemma_only_interactive_controls_are_listed(els: Seq<UiaEl>, n: nat, j: int)
    requires
        0 <= j < listing(els, n).0.len(),
    ensures
        exists|k: int|
            0 <= k < els.len() && #[trigger] listing(els, n).0[j] == "- "@ + shown_name(els[k]) + " ["@
                + els[k].ctype@ + "]"@ && ({
                let t = els[k].ctype@;
                ||| t == "Button"@
                ||| t == "Hyperlink"@
                ||| t == "MenuItem"@
                ||| t == "Edit"@
                ||| t == "TabItem"@
                ||| t == "CheckBox"@
                ||| t == "ComboBox"@
                ||| t == "ListItem"@
            }) && shown_name(els[k]).len() > 0,
{
    lemma_listing_shape(els, n);
}

/// The shown name is the trimmed name, whole when it has at most 80
/// characters and otherwise its first 80.
pub proof fn lemma_shown_name_is_trimmed_prefix(e: UiaEl)
    ensures
        shown_name(e).len() == if trim(e.name@).len() <= 80 { trim(e.name@).len() } else { 80 },
        forall|i: int| 0 <= i < shown_name(e).len() ==> #[trigger] shown_name(e)[i] == trim(e.name@)[i],
{
}

/// Once 120 lines are listed, looking at more elements changes nothing.
proof fn lemma_listing_full(els: Seq<UiaEl>, i: nat, n: nat)
    requires
        i <= n <= els.len(),
        listing(els, i).0.len() >= 120,
    ensures
        listing(els, n) == listing(els, i),
    decreases n - i,
{
    if n > i {
        lemma_listing_full(els, i, (n - 1) as nat);
    }
}

/// Whether `ctype` is one of the interactive control types.
fn is_interactive(ctype: &str) -> (r: bool)
    ensures
        r == interactive(ctype@),
{
    str_eq(ctype, "Button") || str_eq(ctype, "Hyperlink") || str_eq(ctype, "MenuItem") || str_eq(
        ctype,
        "Edit",
    ) || str_eq(ctype, "TabItem") || str_eq(ctype, "CheckBox") || str_eq(ctype, "ComboBox")
        || str_eq(ctype, "ListItem")
}

/// Whether `key` is among `seen`.
fn already_seen(seen: &Vec<String>, key: &String) -> (r: bool)
    ensures
        r == seen.deep_view().contains(key@),
{
    let mut k: usize = 0;
    while k < seen.len()
        invariant
            k <= seen@.len(),
            forall|j: int| 0 <= j < k ==> seen.deep_view()[j] != key@,
        decreases seen.len() - k,
    {
        if seen[k] == *key {
            assert(seen.deep_view()[k as int] == key@);
            return true;
        }
        k = k + 1;
    }
    false
}

/// "- Name [Type]".
fn element_line(name: &str, ctype: &str) -> (r: String)
    ensures
        r@ == "- "@ + name@ + " ["@ + ctype@ + "]"@,
{
    let mut line = "- ".to_owned();
    line.append(name);
    line.append(" [");
    line.append(ctype);
    line.append("]");
    line
}

/// The short, de-duplicated list of "- Name [Type]" lines for the
/// interactive controls of the tracked window: the menu of real names the
/// model must copy its pointing targets from. Names are trimmed and cut to 80
/// characters, each (lowercased) name is listed once, and the list stops at
/// 120 lines so the prompt stays small. When the window could not be read,
/// the list is empty.
pub fn onscreen_element_lines(listed: &Result<Vec<UiaEl>, String>) -> (r: Vec<String>)
    ensures
        r.deep_view() == (match listed {
            Ok(els) => listing(els@, els@.len()).0,
            Err(_) => Seq::empty(),
        }),
{
    let els = match listed {
        Ok(e) => e,
        Err(_) => {
            let none: Vec<String> = Vec::new();
            assert(none.deep_view() =~= Seq::<Seq<char>>::empty());
            return none;
        },
    };
    let mut lines: Vec<String> = Vec::new();
    let mut seen: Vec<String> = Vec::new();
    assert(lines.deep_view() =~= Seq::<Seq<char>>::empty());
    assert(seen.deep_view() =~= Seq::<Seq<char>>::empty());
    let mut i: usize = 0;
    while i < els.len() && lines.len() < 120
        invariant
            i <= els@.len(),
            lines.deep_view() == listing(els@, i as nat).0,
            seen.deep_view() == listing(els@, i as nat).1,
        decreases els.len() - i,
    {
        let e = &els[i];
        let ghost key_spec = lowercase(shown_name(*e));
        if is_interactive(e.ctype.as_str()) {
            let cs = chars_of(e.name.as_str());
            let t = trim_chars(cs.as_slice());
            if t.len() > 0 {
                let shown = if t.len() > 80 {
                    slice_range(t.as_slice(), 0, 80)
                } else {
                    t
                };
                assert(shown@ == shown_name(*e));
                let shown_text = string_of(shown.as_slice());
                let key = to_lowercase(shown_text.as_str());
                if !already_seen(&seen, &key) {
                    let line = element_line(shown_text.as_str(), e.ctype.as_str());
                    let ghost old_lines = lines.deep_view();
                    let ghost old_seen = seen.deep_view();
                    lines.push(line);
                    seen.push(key);
                    assert(lines.deep_view() =~= old_lines.push(listing_line(*e)));
                    assert(seen.deep_view() =~= old_seen.push(key_spec));
                }
            }
        }
        i = i + 1;
    }
    proof {
        if i < els@.len() {
            lemma_listing_full(els@, i as nat, els@.len());
        }
    }
    lines
}

} // verus!
