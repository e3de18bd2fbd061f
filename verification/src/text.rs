//! Character-level text operations over `Seq<char>`, the view of `String`.

use vstd::prelude::*;

verus! {

/// Unicode `White_Space`, the set that `char::is_whitespace` and `str::trim` use.
pub open spec fn is_space(c: char) -> bool {
    let u = c as u32;
    ||| 0x09 <= u <= 0x0D
    ||| u == 0x20
    ||| u == 0x85
    ||| u == 0xA0
    ||| u == 0x1680
    ||| 0x2000 <= u <= 0x200A
    ||| u == 0x2028
    ||| u == 0x2029
    ||| u == 0x202F
    ||| u == 0x205F
    ||| u == 0x3000
}

/// Whether `c` is Unicode white space.
pub fn char_is_space(c: char) -> (r: bool)
    ensures
        r == is_space(c),
{
    let u = c as u32;
    (0x09 <= u && u <= 0x0D) || u == 0x20 || u == 0x85 || u == 0xA0 || u == 0x1680 || (0x2000
        <= u && u <= 0x200A) || u == 0x2028 || u == 0x2029 || u == 0x202F || u == 0x205F || u
        == 0x3000
}


/// `s` without its leading white space (`str::trim_start`).
pub open spec fn trim_start(s: Seq<char>) -> Seq<char>
    decreases s.len(),
{
    if s.len() > 0 && is_space(s[0]) {
        trim_start(s.drop_first())
    } else {
        s
    }
}

/// `s` without its trailing white space (`str::trim_end`).
pub open spec fn trim_end(s: Seq<char>) -> Seq<char>
    decreases s.len(),
{
    if s.len() > 0 && is_space(s.last()) {
        trim_end(s.drop_last())
    } else {
        s
    }
}

/// `s` without leading and trailing white space (`str::trim`).
pub open spec fn trim(s: Seq<char>) -> Seq<char> {
    trim_end(trim_start(s))
}

/// Dropping a white-space prefix does not change `trim_start`.
proof fn lemma_trim_start_skip(s: Seq<char>, i: int)
    requires
        0 <= i <= s.len(),
        forall|k: int| 0 <= k < i ==> is_space(#[trigger] s[k]),
    ensures
        trim_start(s) == trim_start(s.subrange(i, s.len() as int)),
    decreases i,
{
    if i > 0 {
        assert(s.drop_first() =~= s.subrange(1, s.len() as int));
        lemma_trim_start_skip(s.drop_first(), i - 1);
        assert(s.drop_first().subrange(i - 1, s.drop_first().len() as int) =~= s.subrange(
            i,
            s.len() as int,
        ));
    } else {
        assert(s.subrange(0, s.len() as int) =~= s);
    }
}

/// Dropping a white-space suffix does not change `trim_end`.
proof fn lemma_trim_end_skip(s: Seq<char>, j: int)
    requires
        0 <= j <= s.len(),
        forall|k: int| j <= k < s.len() ==> is_space(#[trigger] s[k]),
    ensures
        trim_end(s) == trim_end(s.subrange(0, j)),
    decreases s.len() - j,
{
    if j < s.len() {
        assert(s.drop_last() =~= s.subrange(0, s.len() - 1));
        lemma_trim_end_skip(s.drop_last(), j);
        assert(s.drop_last().subrange(0, j) =~= s.subrange(0, j));
    } else {
        assert(s.subrange(0, s.len() as int) =~= s);
    }
}

proof fn lemma_trim_start_shape(s: Seq<char>)
    ensures
        trim_start(s).len() == 0 || !is_space(trim_start(s)[0]),
    decreases s.len(),
{
    if s.len() > 0 && is_space(s[0]) {
        lemma_trim_start_shape(s.drop_first());
    }
}

proof fn lemma_trim_end_shape(s: Seq<char>)
    ensures
        trim_end(s).len() == 0 || !is_space(trim_end(s).last()),
    decreases s.len(),
{
    if s.len() > 0 && is_space(s.last()) {
        lemma_trim_end_shape(s.drop_last());
    }
}

/// Trimming twice is trimming once.
pub proof fn lemma_trim_idempotent(s: Seq<char>)
    ensures
        trim(trim(s)) == trim(s),
{
    let a = trim_start(s);
    let b = trim_end(a);
    lemma_trim_start_shape(s);
    lemma_trim_end_shape(a);
    lemma_trim_end_prefix(a);
    if b.len() > 0 {
        assert(b[0] == a[0]);
    }
    assert(trim_start(b) == b);
    assert(trim_end(b) == b);
}

/// All of `s` is white space.
pub open spec fn all_space(s: Seq<char>) -> bool {
    forall|i: int| 0 <= i < s.len() ==> is_space(#[trigger] s[i])
}

proof fn lemma_trim_start_all_space(s: Seq<char>)
    requires
        all_space(s),
    ensures
        trim_start(s).len() == 0,
    decreases s.len(),
{
    if s.len() > 0 {
        assert(is_space(s[0]));
        lemma_trim_start_all_space(s.drop_first());
    }
}

/// White space after a non-blank string survives `trim_start` untouched.
proof fn lemma_trim_start_append(x: Seq<char>, q: Seq<char>)
    requires
        !all_space(x),
    ensures
        trim_start(x + q) == trim_start(x) + q,
    decreases x.len(),
{
    if is_space(x[0]) {
        assert((x + q).drop_first() =~= x.drop_first() + q);
        assert(!all_space(x.drop_first())) by {
            let w = choose|i: int| 0 <= i < x.len() && !is_space(x[i]);
            assert(x.drop_first()[w - 1] == x[w]);
        }
        lemma_trim_start_append(x.drop_first(), q);
    } else {
        assert((x + q)[0] == x[0]);
    }
}

/// White space around a string changes nothing after trimming.
pub proof fn lemma_trim_padded(p: Seq<char>, x: Seq<char>, q: Seq<char>)
    requires
        all_space(p),
        all_space(q),
    ensures
        trim(p + x + q) == trim(x),
{
    let s = p + x + q;
    lemma_trim_start_skip(s, p.len() as int);
    assert(s.subrange(p.len() as int, s.len() as int) =~= x + q);
    if all_space(x) {
        assert(all_space(x + q));
        lemma_trim_start_all_space(x + q);
        lemma_trim_start_all_space(x);
        assert(trim_start(x + q) =~= trim_start(x));
    } else {
        lemma_trim_start_append(x, q);
        let y = trim_start(x);
        lemma_trim_end_skip(y + q, y.len() as int);
        assert((y + q).subrange(0, y.len() as int) =~= y);
    }
}

proof fn lemma_upper_keeps_space(c: char)
    ensures
        is_space(ascii_upper_char(c)) == is_space(c),
{
}

proof fn lemma_trim_start_upper(s: Seq<char>)
    ensures
        trim_start(ascii_upper(s)) == ascii_upper(trim_start(s)),
    decreases s.len(),
{
    if s.len() > 0 {
        lemma_upper_keeps_space(s[0]);
        assert(ascii_upper(s)[0] == ascii_upper_char(s[0]));
        if is_space(s[0]) {
            assert(ascii_upper(s).drop_first() =~= ascii_upper(s.drop_first()));
            lemma_trim_start_upper(s.drop_first());
        }
    } else {
        assert(ascii_upper(s) =~= s);
    }
}

proof fn lemma_trim_end_upper(s: Seq<char>)
    ensures
        trim_end(ascii_upper(s)) == ascii_upper(trim_end(s)),
    decreases s.len(),
{
    if s.len() > 0 {
        lemma_upper_keeps_space(s.last());
        assert(ascii_upper(s).last() == ascii_upper_char(s.last()));
        if is_space(s.last()) {
            assert(ascii_upper(s).drop_last() =~= ascii_upper(s.drop_last()));
            lemma_trim_end_upper(s.drop_last());
        }
    } else {
        assert(ascii_upper(s) =~= s);
    }
}

/// Trimming and ASCII uppercasing commute: white space is not a letter.
pub proof fn lemma_trim_upper(s: Seq<char>)
    ensures
        trim(ascii_upper(s)) == ascii_upper(trim(s)),
{
    lemma_trim_start_upper(s);
    lemma_trim_end_upper(trim_start(s));
}

proof fn lemma_trim_start_ascii(s: Seq<char>)
    requires
        ascii(s),
    ensures
        ascii(trim_start(s)),
    decreases s.len(),
{
    if s.len() > 0 && is_space(s[0]) {
        assert forall|i: int| 0 <= i < s.drop_first().len() implies (#[trigger] s.drop_first()[i] as u32) < 128 by {
            assert(s.drop_first()[i] == s[i + 1]);
        }
        lemma_trim_start_ascii(s.drop_first());
    }
}

proof fn lemma_trim_end_ascii(s: Seq<char>)
    requires
        ascii(s),
    ensures
        ascii(trim_end(s)),
    decreases s.len(),
{
    if s.len() > 0 && is_space(s.last()) {
        assert forall|i: int| 0 <= i < s.drop_last().len() implies (#[trigger] s.drop_last()[i] as u32) < 128 by {
            assert(s.drop_last()[i] == s[i]);
        }
        lemma_trim_end_ascii(s.drop_last());
    }
}

/// Trimming keeps a string ASCII.
pub proof fn lemma_trim_ascii(s: Seq<char>)
    requires
        ascii(s),
    ensures
        ascii(trim(s)),
{
    lemma_trim_start_ascii(s);
    lemma_trim_end_ascii(trim_start(s));
}

/// ASCII-uppercasing keeps a string ASCII, and lowercasing afterwards undoes it.
pub proof fn lemma_ascii_upper_then_lower(s: Seq<char>)
    requires
        ascii(s),
    ensures
        ascii(ascii_upper(s)),
        ascii_lower(ascii_upper(s)) == ascii_lower(s),
{
    assert forall|i: int| 0 <= i < s.len() implies (#[trigger] ascii_upper(s)[i] as u32) < 128 by {
        assert((s[i] as u32) < 128);
    }
    assert(ascii_lower(ascii_upper(s)) =~= ascii_lower(s));
}

/// The bounds `(start, end)` of `trim(s)` inside `s`.
pub fn trim_bounds(s: &[char]) -> (r: (usize, usize))
    ensures
        r.0 <= r.1 <= s@.len(),
        s@.subrange(r.0 as int, r.1 as int) == trim(s@),
{
    let n = s.len();
    let mut i: usize = 0;
    while i < n && char_is_space(s[i])
        invariant
            i <= n == s@.len(),
            forall|k: int| 0 <= k < i ==> is_space(#[trigger] s@[k]),
        decreases n - i,
    {
        i = i + 1;
    }
    proof {
        lemma_trim_start_skip(s@, i as int);
        let t = s@.subrange(i as int, n as int);
        if t.len() > 0 {
            assert(t[0] == s@[i as int]);
        }
    }
    let mut j: usize = n;
    while j > i && char_is_space(s[j - 1])
        invariant
            i <= j <= n == s@.len(),
            forall|k: int| j <= k < n ==> is_space(#[trigger] s@[k]),
        decreases j,
    {
        j = j - 1;
    }
    proof {
        let t = s@.subrange(i as int, n as int);
        lemma_trim_end_skip(t, j - i);
        assert(t.subrange(0, j - i) =~= s@.subrange(i as int, j as int));
        let u = s@.subrange(i as int, j as int);
        if u.len() > 0 {
            assert(u.last() == s@[j - 1]);
        }
    }
    (i, j)
}

/// `trim(s)` as a vector.
pub fn trim_chars(s: &[char]) -> (r: Vec<char>)
    ensures
        r@ == trim(s@),
{
    let (a, b) = trim_bounds(s);
    slice_range(s, a, b)
}

/// The characters `s[from..to]`.
pub fn slice_range(s: &[char], from: usize, to: usize) -> (r: Vec<char>)
    requires
        from <= to <= s@.len(),
    ensures
        r@ == s@.subrange(from as int, to as int),
{
    let mut r: Vec<char> = Vec::new();
    let mut k = from;
    while k < to
        invariant
            from <= k <= to <= s@.len(),
            r@ == s@.subrange(from as int, k as int),
        decreases to - k,
    {
        r.push(s[k]);
        assert(r@ =~= s@.subrange(from as int, k + 1));
        k = k + 1;
    }
    r
}


/// The characters of `s`, in order.
pub fn chars_of(s: &str) -> (r: Vec<char>)
    ensures
        r@ == s@,
{
    broadcast use vstd::string::group_string_axioms;

    let mut r: Vec<char> = Vec::new();
    assert(s@.take(s@.len() as int) =~= s@);
    for c in it: s.chars()
        invariant
            it.seq() == s@,
            r@ == s@.take(it.index() as int),
    {
        assert(r@.push(c) =~= s@.take(it.index() + 1));
        r.push(c);
    }
    r
}


/// A `String` holding exactly the characters `cs`.
///
/// Trusted: `String`'s `FromIterator<&char>` appends each character in order,
/// so the new string's characters are `cs`.
#[verifier::external_body]
pub fn string_of(cs: &[char]) -> (r: String)
    ensures
        r@ == cs@,
{
    String::from_iter(cs.iter())
}

/// Every character is ASCII.
pub open spec fn ascii(s: Seq<char>) -> bool {
    forall|i: int| 0 <= i < s.len() ==> (#[trigger] s[i] as u32) < 128
}

/// The ASCII lowercase of a character: 'A'..='Z' become 'a'..='z', every
/// other character stays.
pub open spec fn ascii_lower_char(c: char) -> char {
    if 'A' <= c <= 'Z' {
        ((c as u32) + 32) as char
    } else {
        c
    }
}

/// The ASCII uppercase of a character: 'a'..='z' become 'A'..='Z', every
/// other character stays.
pub open spec fn ascii_upper_char(c: char) -> char {
    if 'a' <= c <= 'z' {
        ((c as u32) - 32) as char
    } else {
        c
    }
}

/// `s` with each character ASCII-lowercased (`str::to_ascii_lowercase`).
pub open spec fn ascii_lower(s: Seq<char>) -> Seq<char> {
    Seq::new(s.len(), |i: int| ascii_lower_char(s[i]))
}

/// `s` with each character ASCII-uppercased (`str::to_ascii_uppercase`).
pub open spec fn ascii_upper(s: Seq<char>) -> Seq<char> {
    Seq::new(s.len(), |i: int| ascii_upper_char(s[i]))
}

/// What `str::to_lowercase` gives for a string with these characters.
pub uninterp spec fn lowercase(s: Seq<char>) -> Seq<char>;

/// Lowercasing an all-ASCII string is ASCII lowercasing.
pub open spec fn lowercases_as_ascii(s: Seq<char>) -> bool {
    ascii(s) ==> lowercase(s) == ascii_lower(s)
}

/// Trusted: std's `str::to_lowercase`, which replaces each character by its
/// Unicode lowercase mapping (`char::to_lowercase`, one or more characters).
/// Its result depends on the string alone and is named `lowercase` here. The
/// contract states three facts of it: the mapping never shortens the string
/// (so the empty string stays empty), and on an all-ASCII string it is ASCII
/// lowercasing ('A'..='Z' to 'a'..='z', all else unchanged), which is what
/// Unicode's mapping does on ASCII.
#[verifier::external_body]
pub fn to_lowercase(s: &str) -> (r: String)
    ensures
        r@ == lowercase(s@),
        r@.len() >= s@.len(),
        s@.len() == 0 ==> r@.len() == 0,
        ascii(s@) ==> r@ == ascii_lower(s@),
{
    s.to_lowercase()
}

/// Whether `char::is_alphanumeric` holds of a character.
pub uninterp spec fn alphanumeric(c: char) -> bool;

/// Trusted: std's `char::is_alphanumeric` (Unicode `Alphabetic` or `Numeric`),
/// a function of the character alone, named `alphanumeric` here.
#[verifier::external_body]
pub fn is_alphanumeric(c: char) -> (r: bool)
    ensures
        r == alphanumeric(c),
{
    c.is_alphanumeric()
}

/// `needle` occurs in `hay` at position `i`.
pub open spec fn occurs_at(hay: Seq<char>, needle: Seq<char>, i: int) -> bool {
    0 <= i && i + needle.len() <= hay.len() && hay.subrange(i, i + needle.len()) == needle
}

/// `needle` occurs somewhere in `hay` (`str::contains` with a string pattern).
pub open spec fn contains(hay: Seq<char>, needle: Seq<char>) -> bool {
    exists|i: int| occurs_at(hay, needle, i)
}

/// Whether `a` and `b` hold the same characters.
pub fn same_chars(a: &[char], b: &[char]) -> (r: bool)
    ensures
        r == (a@ == b@),
{
    if a.len() != b.len() {
        return false;
    }
    let mut k: usize = 0;
    while k < a.len()
        invariant
            a@.len() == b@.len(),
            k <= a@.len(),
            forall|m: int| 0 <= m < k ==> a@[m] == b@[m],
        decreases a.len() - k,
    {
        if a[k] != b[k] {
            return false;
        }
        k = k + 1;
    }
    assert(a@ =~= b@);
    true
}

/// Whether `needle` occurs in `hay` at position `at`.
pub fn chars_occur_at(hay: &[char], needle: &[char], at: usize) -> (r: bool)
    ensures
        r == occurs_at(hay@, needle@, at as int),
{
    if needle.len() > hay.len() || at > hay.len() - needle.len() {
        return false;
    }
    let mut k: usize = 0;
    while k < needle.len()
        invariant
            at + needle@.len() <= hay@.len(),
            hay@.len() == hay.len(),
            k <= needle@.len(),
            forall|m: int| 0 <= m < k ==> hay@[at + m] == needle@[m],
        decreases needle.len() - k,
    {
        if hay[at + k] != needle[k] {
            assert(hay@.subrange(at as int, at + needle@.len())[k as int] != needle@[k as int]);
            return false;
        }
        k = k + 1;
    }
    assert(hay@.subrange(at as int, at + needle@.len()) =~= needle@);
    true
}

/// Whether `needle` occurs anywhere in `hay`.
pub fn chars_contain(hay: &[char], needle: &[char]) -> (r: bool)
    ensures
        r == contains(hay@, needle@),
{
    if needle.len() > hay.len() {
        return false;
    }
    let last = hay.len() - needle.len();
    let mut i: usize = 0;
    loop
        invariant
            last + needle@.len() == hay@.len(),
            i <= last,
            forall|j: int| 0 <= j < i ==> !occurs_at(hay@, needle@, j),
        decreases last - i,
    {
        if chars_occur_at(hay, needle, i) {
            return true;
        }
        if i == last {
            return false;
        }
        i = i + 1;
    }
}

/// Whether `needle` occurs anywhere in the string `hay`.
pub fn str_contains(hay: &str, needle: &str) -> (r: bool)
    ensures
        r == contains(hay@, needle@),
{
    let h = chars_of(hay);
    let n = chars_of(needle);
    chars_contain(h.as_slice(), n.as_slice())
}

/// Whether two strings hold the same characters.
pub fn str_eq(a: &str, b: &str) -> (r: bool)
    ensures
        r == (a@ == b@),
{
    let x = chars_of(a);
    let y = chars_of(b);
    same_chars(x.as_slice(), y.as_slice())
}


/// `i` is the last position at which `needle` occurs in `hay` (`str::rfind`).
pub open spec fn last_occurrence(hay: Seq<char>, needle: Seq<char>, i: int) -> bool {
    &&& occurs_at(hay, needle, i)
    &&& forall|j: int| i < j ==> !#[trigger] occurs_at(hay, needle, j)
}

/// At most one position is the last occurrence.
pub proof fn lemma_last_occurrence_unique(hay: Seq<char>, needle: Seq<char>, i: int, j: int)
    requires
        last_occurrence(hay, needle, i),
        last_occurrence(hay, needle, j),
    ensures
        i == j,
{
    if i < j {
        assert(!occurs_at(hay, needle, j));
    } else if j < i {
        assert(!occurs_at(hay, needle, i));
    }
}

/// Where `needle` occurs in `hay`, it has a last occurrence.
pub proof fn lemma_last_occurrence_exists(hay: Seq<char>, needle: Seq<char>)
    requires
        contains(hay, needle),
    ensures
        exists|i: int| last_occurrence(hay, needle, i),
{
    let w = choose|i: int| occurs_at(hay, needle, i);
    lemma_last_occurrence_from(hay, needle, w, hay.len() as int);
}

proof fn lemma_last_occurrence_from(hay: Seq<char>, needle: Seq<char>, w: int, top: int)
    requires
        occurs_at(hay, needle, w),
        w <= top,
        forall|j: int| top < j ==> !#[trigger] occurs_at(hay, needle, j),
    ensures
        exists|i: int| last_occurrence(hay, needle, i),
    decreases top - w,
{
    if occurs_at(hay, needle, top) {
        assert(last_occurrence(hay, needle, top));
    } else {
        lemma_last_occurrence_from(hay, needle, w, top - 1);
    }
}

/// The last position at which `needle` occurs in `hay`, if it occurs.
pub fn rfind_chars(hay: &[char], needle: &[char]) -> (r: Option<usize>)
    ensures
        r matches Some(i) ==> last_occurrence(hay@, needle@, i as int),
        r is None ==> !contains(hay@, needle@),
{
    if needle.len() > hay.len() {
        return None;
    }
    let mut i: usize = hay.len() - needle.len();
    loop
        invariant
            i + needle@.len() <= hay@.len(),
            forall|j: int| i < j ==> !#[trigger] occurs_at(hay@, needle@, j),
        decreases i,
    {
        if chars_occur_at(hay, needle, i) {
            return Some(i);
        }
        if i == 0 {
            return None;
        }
        i = i - 1;
    }
}

/// The length of `trim_end(s)`, which is a prefix of `s`.
pub fn trim_end_len(s: &[char]) -> (r: usize)
    ensures
        r <= s@.len(),
        s@.subrange(0, r as int) == trim_end(s@),
{
    let mut j: usize = s.len();
    while j > 0 && char_is_space(s[j - 1])
        invariant
            j <= s@.len(),
            forall|k: int| j <= k < s@.len() ==> is_space(#[trigger] s@[k]),
        decreases j,
    {
        j = j - 1;
    }
    proof {
        lemma_trim_end_skip(s@, j as int);
        let u = s@.subrange(0, j as int);
        if u.len() > 0 {
            assert(u.last() == s@[j - 1]);
        }
    }
    j
}

/// `trim_end(s)` is a prefix of `s`.
pub proof fn lemma_trim_end_prefix(s: Seq<char>)
    ensures
        trim_end(s).len() <= s.len(),
        s.subrange(0, trim_end(s).len() as int) == trim_end(s),
    decreases s.len(),
{
    if s.len() > 0 && is_space(s.last()) {
        lemma_trim_end_prefix(s.drop_last());
        assert(s.subrange(0, trim_end(s).len() as int) =~= s.drop_last().subrange(
            0,
            trim_end(s).len() as int,
        ));
    } else {
        assert(s.subrange(0, s.len() as int) =~= s);
    }
}

} // verus!
