//! Character-level text handling: the model of strings as sequences of
//! characters, and the verified operations the parsers are built from
//! (trimming, line splitting, searching, prefix and suffix tests).
use vstd::prelude::*;

verus! {

/// The Unicode `White_Space` characters, as `char::is_whitespace` classifies them.
pub open spec fn is_ws(c: char) -> bool {
    ||| c == '\t' || c == '\n' || c == '\u{0B}' || c == '\u{0C}' || c == '\r' || c == ' '
    ||| c == '\u{85}' || c == '\u{A0}' || c == '\u{1680}'
    ||| ('\u{2000}' <= c && c <= '\u{200A}')
    ||| c == '\u{2028}' || c == '\u{2029}' || c == '\u{202F}' || c == '\u{205F}' || c == '\u{3000}'
}

/// Leading whitespace removed.
pub open spec fn trim_start(s: Seq<char>) -> Seq<char>
    decreases s.len(),
{
    if s.len() > 0 && is_ws(s[0]) {
        trim_start(s.drop_first())
    } else {
        s
    }
}

/// Trailing whitespace removed.
pub open spec fn trim_end(s: Seq<char>) -> Seq<char>
    decreases s.len(),
{
    if s.len() > 0 && is_ws(s.last()) {
        trim_end(s.drop_last())
    } else {
        s
    }
}

/// Leading and trailing whitespace removed, as `str::trim` does.
pub open spec fn trim(s: Seq<char>) -> Seq<char> {
    trim_end(trim_start(s))
}

/// `p` occurs in `s` starting at position `i`.
pub open spec fn occurs_at(s: Seq<char>, p: Seq<char>, i: int) -> bool {
    0 <= i && i + p.len() <= s.len() && s.subrange(i, i + p.len()) =~= p
}

/// `p` occurs somewhere in `s`.
pub open spec fn contains(s: Seq<char>, p: Seq<char>) -> bool {
    exists|i: int| #[trigger] occurs_at(s, p, i)
}

pub open spec fn starts_with(s: Seq<char>, p: Seq<char>) -> bool {
    occurs_at(s, p, 0)
}

pub open spec fn ends_with(s: Seq<char>, p: Seq<char>) -> bool {
    occurs_at(s, p, s.len() - p.len())
}

/// The first position at or after `start` where `p` occurs.
pub open spec fn find_from(s: Seq<char>, p: Seq<char>, start: int) -> Option<int>
    decreases s.len() - start,
{
    if start < 0 || start + p.len() > s.len() {
        None
    } else if occurs_at(s, p, start) {
        Some(start)
    } else {
        find_from(s, p, start + 1)
    }
}

/// The first position where `p` occurs, as `str::find` gives it (counted in characters).
pub open spec fn find(s: Seq<char>, p: Seq<char>) -> Option<int> {
    find_from(s, p, 0)
}

/// The last position at or before `end` where `p` occurs.
pub open spec fn rfind_to(s: Seq<char>, p: Seq<char>, end: int) -> Option<int>
    decreases end + 1,
{
    if end < 0 {
        None
    } else if occurs_at(s, p, end) {
        Some(end)
    } else {
        rfind_to(s, p, end - 1)
    }
}

/// The last position where `p` occurs, as `str::rfind` gives it (counted in characters).
pub open spec fn rfind(s: Seq<char>, p: Seq<char>) -> Option<int> {
    rfind_to(s, p, s.len() - p.len())
}

/// One line with its `\r` removed when it stood before the `\n`.
pub open spec fn strip_cr(line: Seq<char>) -> Seq<char> {
    if line.len() > 0 && line.last() == '\r' {
        line.drop_last()
    } else {
        line
    }
}

/// The lines of `s`, as `str::lines` yields them: split at `\n`, a `\r` before the
/// `\n` dropped, and no empty last line after a final `\n`.
pub open spec fn lines(s: Seq<char>) -> Seq<Seq<char>>
    decreases s.len(),
{
    if s.len() == 0 {
        Seq::empty()
    } else {
        match find(s, seq!['\n']) {
            None => seq![s],
            Some(i) => {
                proof {
                    lemma_find_spec(s, seq!['\n']);
                }
                seq![strip_cr(s.take(i))] + lines(s.skip(i + 1))
            },
        }
    }
}

/// The pieces of `s` between occurrences of the character `sep`, as `str::split` with a
/// single character yields them (empty pieces included).
pub open spec fn split_char(s: Seq<char>, sep: char) -> Seq<Seq<char>>
    decreases s.len(),
{
    match find(s, seq![sep]) {
        None => seq![s],
        Some(i) => {
            proof {
                lemma_find_spec(s, seq![sep]);
            }
            seq![s.take(i)] + split_char(s.skip(i + 1), sep)
        },
    }
}

/// The maximal runs of non-whitespace characters, as `str::split_whitespace` yields them.
pub open spec fn words(s: Seq<char>) -> Seq<Seq<char>>
    decreases s.len(),
{
    let t = trim_start(s);
    if t.len() == 0 {
        Seq::empty()
    } else {
        let n = word_len(t, 0);
        proof {
            lemma_trim_start_facts(s);
            lemma_word_len(t, 0);
        }
        seq![t.take(n)] + words(t.skip(n))
    }
}

/// The length of the run of non-whitespace characters of `t` that starts at `i`, plus `i`.
pub open spec fn word_len(t: Seq<char>, i: int) -> int
    decreases t.len() - i,
{
    if i < 0 || i >= t.len() || is_ws(t[i]) {
        if i < 0 { 0 } else { i }
    } else {
        word_len(t, i + 1)
    }
}

// ---------------------------------------------------------------------------
// Lemmas
// ---------------------------------------------------------------------------

/// `trim_start` leaves a suffix of its argument that starts with no whitespace.
pub proof fn lemma_trim_start_facts(s: Seq<char>)
    ensures
        trim_start(s).len() <= s.len(),
        trim_start(s) == s.skip(s.len() - trim_start(s).len()),
        trim_start(s).len() > 0 ==> !is_ws(trim_start(s)[0]),
        forall|j: int| 0 <= j < s.len() - trim_start(s).len() ==> is_ws(s[j]),
    decreases s.len(),
{
    if s.len() > 0 && is_ws(s[0]) {
        lemma_trim_start_facts(s.drop_first());
        let t = trim_start(s.drop_first());
        assert(s.drop_first().skip(s.drop_first().len() - t.len()) =~= s.skip(s.len() - t.len()));
        assert forall|j: int| 0 <= j < s.len() - t.len() implies is_ws(s[j]) by {
            if j > 0 {
                assert(s[j] == s.drop_first()[j - 1]);
            }
        }
    } else {
        assert(s.skip(0) =~= s);
    }
}

/// `word_len` ends the run of non-whitespace characters that starts at `i`.
pub proof fn lemma_word_len(t: Seq<char>, i: int)
    requires
        0 <= i <= t.len(),
    ensures
        i <= word_len(t, i) <= t.len(),
        i < t.len() && !is_ws(t[i]) ==> i < word_len(t, i),
        forall|j: int| i <= j < word_len(t, i) ==> !is_ws(t[j]),
        word_len(t, i) < t.len() ==> is_ws(t[word_len(t, i)]),
    decreases t.len() - i,
{
    if i < t.len() && !is_ws(t[i]) {
        lemma_word_len(t, i + 1);
    }
}

pub proof fn lemma_find_from_none(s: Seq<char>, p: Seq<char>, start: int)
    requires
        0 <= start,
        forall|j: int| start <= j ==> !occurs_at(s, p, j),
    ensures
        find_from(s, p, start) is None,
    decreases s.len() - start,
{
    if start + p.len() <= s.len() {
        lemma_find_from_none(s, p, start + 1);
    }
}

pub proof fn lemma_find_from_some(s: Seq<char>, p: Seq<char>, start: int, k: int)
    requires
        0 <= start <= k,
        occurs_at(s, p, k),
        forall|j: int| start <= j < k ==> !occurs_at(s, p, j),
    ensures
        find_from(s, p, start) == Some(k),
    decreases k - start,
{
    if start < k {
        lemma_find_from_some(s, p, start + 1, k);
    }
}

/// What `find` gives: the first occurrence, or none at all.
pub proof fn lemma_find_spec(s: Seq<char>, p: Seq<char>)
    ensures
        match find(s, p) {
            Some(i) => occurs_at(s, p, i) && forall|j: int| 0 <= j < i ==> !occurs_at(s, p, j),
            None => forall|j: int| !occurs_at(s, p, j),
        },
{
    lemma_find_from_facts(s, p, 0);
}

proof fn lemma_find_from_facts(s: Seq<char>, p: Seq<char>, start: int)
    requires
        0 <= start,
    ensures
        match find_from(s, p, start) {
            Some(i) => start <= i && occurs_at(s, p, i) && forall|j: int|
                start <= j < i ==> !occurs_at(s, p, j),
            None => forall|j: int| start <= j ==> !occurs_at(s, p, j),
        },
    decreases s.len() - start,
{
    if start + p.len() > s.len() {
    } else if occurs_at(s, p, start) {
    } else {
        lemma_find_from_facts(s, p, start + 1);
    }
}

pub proof fn lemma_rfind_to_facts(s: Seq<char>, p: Seq<char>, end: int)
    ensures
        match rfind_to(s, p, end) {
            Some(i) => 0 <= i <= end && occurs_at(s, p, i) && forall|j: int|
                i < j <= end ==> !occurs_at(s, p, j),
            None => forall|j: int| j <= end ==> !occurs_at(s, p, j),
        },
    decreases end + 1,
{
    if end < 0 {
    } else if occurs_at(s, p, end) {
    } else {
        lemma_rfind_to_facts(s, p, end - 1);
    }
}

pub proof fn lemma_rfind_to_some(s: Seq<char>, p: Seq<char>, end: int, k: int)
    requires
        0 <= k <= end,
        occurs_at(s, p, k),
        forall|j: int| k < j <= end ==> !occurs_at(s, p, j),
    ensures
        rfind_to(s, p, end) == Some(k),
    decreases end - k,
{
    if k < end {
        lemma_rfind_to_some(s, p, end - 1, k);
    }
}

pub proof fn lemma_rfind_to_none(s: Seq<char>, p: Seq<char>, end: int)
    requires
        forall|j: int| 0 <= j <= end ==> !occurs_at(s, p, j),
    ensures
        rfind_to(s, p, end) is None,
    decreases end + 1,
{
    if end >= 0 {
        lemma_rfind_to_none(s, p, end - 1);
    }
}

/// A single character occurs at `i` exactly when it is the character there.
pub proof fn lemma_occurs_char(s: Seq<char>, c: char, i: int)
    ensures
        occurs_at(s, seq![c], i) <==> (0 <= i < s.len() && s[i] == c),
{
    if 0 <= i < s.len() && s[i] == c {
        assert(s.subrange(i, i + 1) =~= seq![c]);
    }
    if occurs_at(s, seq![c], i) {
        assert(s.subrange(i, i + 1)[0] == s[i]);
    }
}

/// `find` of a character: the first position holding it.
pub proof fn lemma_find_char(s: Seq<char>, c: char)
    ensures
        match find(s, seq![c]) {
            Some(i) => 0 <= i < s.len() && s[i] == c && forall|j: int| 0 <= j < i ==> s[j] != c,
            None => forall|j: int| 0 <= j < s.len() ==> s[j] != c,
        },
{
    lemma_find_spec(s, seq![c]);
    match find(s, seq![c]) {
        Some(i) => {
            lemma_occurs_char(s, c, i);
            assert forall|j: int| 0 <= j < i implies s[j] != c by {
                lemma_occurs_char(s, c, j);
            }
        },
        None => {
            assert forall|j: int| 0 <= j < s.len() implies s[j] != c by {
                lemma_occurs_char(s, c, j);
            }
        },
    }
}

/// The position of the first `c` in `s`, given one is known.
pub proof fn lemma_find_char_at(s: Seq<char>, c: char, k: int)
    requires
        0 <= k < s.len(),
        s[k] == c,
        forall|j: int| 0 <= j < k ==> s[j] != c,
    ensures
        find(s, seq![c]) == Some(k),
{
    lemma_occurs_char(s, c, k);
    assert forall|j: int| 0 <= j < k implies !occurs_at(s, seq![c], j) by {
        lemma_occurs_char(s, c, j);
    }
    lemma_find_from_some(s, seq![c], 0, k);
}

/// `find` of a character that does not occur.
pub proof fn lemma_find_char_none(s: Seq<char>, c: char)
    requires
        forall|j: int| 0 <= j < s.len() ==> s[j] != c,
    ensures
        find(s, seq![c]) is None,
{
    assert forall|j: int| 0 <= j implies !occurs_at(s, seq![c], j) by {
        lemma_occurs_char(s, c, j);
    }
    lemma_find_from_none(s, seq![c], 0);
}

pub proof fn lemma_trim_start_skip(s: Seq<char>, i: int)
    requires
        0 <= i <= s.len(),
        forall|j: int| 0 <= j < i ==> is_ws(s[j]),
    ensures
        trim_start(s) == trim_start(s.skip(i)),
    decreases i,
{
    if i > 0 {
        assert(s.drop_first().skip(i - 1) =~= s.skip(i));
        lemma_trim_start_skip(s.drop_first(), i - 1);
    } else {
        assert(s.skip(0) =~= s);
    }
}

pub proof fn lemma_trim_end_take(s: Seq<char>, k: int)
    requires
        0 <= k <= s.len(),
        forall|j: int| k <= j < s.len() ==> is_ws(s[j]),
    ensures
        trim_end(s) == trim_end(s.take(k)),
    decreases s.len() - k,
{
    if k < s.len() {
        assert(s.drop_last().take(k) =~= s.take(k));
        lemma_trim_end_take(s.drop_last(), k);
    } else {
        assert(s.take(k) =~= s);
    }
}

// ---------------------------------------------------------------------------
// Executable operations
// ---------------------------------------------------------------------------

/// `String::push`: appends one character at the end of the string.
#[verifier::external_body]
pub(crate) fn push_char(s: &mut String, c: char)
    ensures
        final(s)@ == old(s)@.push(c),
{
    s.push(c);
}

/// The characters of a string, in order.
pub fn chars_of(s: &str) -> (r: Vec<char>)
    ensures
        r@ == s@,
{
    let mut v: Vec<char> = Vec::new();
    for c in it: s.chars()
        invariant
            v@ == it.seq().take(it.index() as int),
    {
        v.push(c);
    }
    v
}

/// A string holding the characters `v[from..to]`.
pub fn string_of(v: &Vec<char>, from: usize, to: usize) -> (r: String)
    requires
        from <= to <= v@.len(),
    ensures
        r@ == v@.subrange(from as int, to as int),
{
    let mut r = String::new();
    let mut i = from;
    while i < to
        invariant
            from <= i <= to <= v@.len(),
            r@ == v@.subrange(from as int, i as int),
        decreases to - i,
    {
        push_char(&mut r, v[i]);
        i = i + 1;
        assert(r@ =~= v@.subrange(from as int, i as int));
    }
    r
}

/// A string holding all the characters of `v`.
pub fn string_of_all(v: &Vec<char>) -> (r: String)
    ensures
        r@ == v@,
{
    let r = string_of(v, 0, v.len());
    assert(v@.subrange(0, v@.len() as int) =~= v@);
    r
}

/// A copy of a string slice as an owned `String`.
pub fn owned(s: &str) -> (r: String)
    ensures
        r@ == s@,
{
    s.to_owned()
}

pub fn is_whitespace(c: char) -> (b: bool)
    ensures
        b == is_ws(c),
{
    c == '\t' || c == '\n' || c == '\u{0B}' || c == '\u{0C}' || c == '\r' || c == ' ' || c
        == '\u{85}' || c == '\u{A0}' || c == '\u{1680}' || ('\u{2000}' <= c && c <= '\u{200A}')
        || c == '\u{2028}' || c == '\u{2029}' || c == '\u{202F}' || c == '\u{205F}' || c
        == '\u{3000}'
}

/// The bounds `(a, b)` of `v` with leading and trailing whitespace cut off.
pub fn trim_bounds(v: &Vec<char>, from: usize, to: usize) -> (r: (usize, usize))
    requires
        from <= to <= v@.len(),
    ensures
        from <= r.0 <= r.1 <= to,
        v@.subrange(r.0 as int, r.1 as int) == trim(v@.subrange(from as int, to as int)),
{
    let ghost s = v@.subrange(from as int, to as int);
    let mut a = from;
    while a < to && is_whitespace(v[a])
        invariant
            from <= a <= to <= v@.len(),
            s == v@.subrange(from as int, to as int),
            forall|j: int| from <= j < a ==> is_ws(v@[j]),
        decreases to - a,
    {
        a = a + 1;
    }
    proof {
        lemma_trim_start_skip(s, a - from);
        assert(s.skip(a - from) =~= v@.subrange(a as int, to as int));
        let t = v@.subrange(a as int, to as int);
        if t.len() > 0 {
            assert(t[0] == v@[a as int]);
        }
    }
    let ghost t = v@.subrange(a as int, to as int);
    assert(trim_start(s) == t);
    let mut b = to;
    while b > a && is_whitespace(v[b - 1])
        invariant
            from <= a <= b <= to <= v@.len(),
            t == v@.subrange(a as int, to as int),
            forall|j: int| b <= j < to ==> is_ws(v@[j]),
        decreases b - a,
    {
        b = b - 1;
    }
    proof {
        assert forall|j: int| b - a <= j < t.len() implies is_ws(t[j]) by {
            assert(t[j] == v@[a + j]);
        }
        lemma_trim_end_take(t, b - a);
        assert(t.take(b - a) =~= v@.subrange(a as int, b as int));
        let u = v@.subrange(a as int, b as int);
        if u.len() > 0 {
            assert(u.last() == v@[b - 1]);
        }
    }
    (a, b)
}

/// The string with leading and trailing whitespace removed, as `str::trim` gives it.
pub fn trimmed(s: &str) -> (r: String)
    ensures
        r@ == trim(s@),
{
    let v = chars_of(s);
    let (a, b) = trim_bounds(&v, 0, v.len());
    assert(v@.subrange(0, v@.len() as int) =~= v@);
    string_of(&v, a, b)
}

/// Whether `p` occurs in `v` at position `i`.
pub fn occurs_at_exec(v: &Vec<char>, p: &Vec<char>, i: usize) -> (b: bool)
    ensures
        b == occurs_at(v@, p@, i as int),
{
    let n = v.len();
    if i > n || p.len() > n - i {
        return false;
    }
    let mut k: usize = 0;
    while k < p.len()
        invariant
            i + p@.len() <= v@.len(),
            v@.len() == n,
            k <= p@.len(),
            forall|j: int| 0 <= j < k ==> v@[i + j] == p@[j],
        decreases p@.len() - k,
    {
        if v[i + k] != p[k] {
            assert(v@.subrange(i as int, i + p@.len())[k as int] != p@[k as int]);
            return false;
        }
        k = k + 1;
    }
    assert(v@.subrange(i as int, i + p@.len()) =~= p@);
    true
}

/// The first position at or after `start` where `p` occurs in `v`.
pub fn find_from_exec(v: &Vec<char>, p: &Vec<char>, start: usize) -> (r: Option<usize>)
    ensures
        match r {
            Some(i) => find_from(v@, p@, start as int) == Some(i as int),
            None => find_from(v@, p@, start as int) is None,
        },
{
    let n = v.len();
    let m = p.len();
    if m > n || start > n - m {
        proof {
            assert forall|j: int| start <= j implies !occurs_at(v@, p@, j) by {}
            lemma_find_from_none(v@, p@, start as int);
        }
        return None;
    }
    let mut i = start;
    while i <= n - m
        invariant
            start <= i,
            n == v@.len(),
            m == p@.len(),
            m <= n,
            forall|j: int| start <= j < i ==> !occurs_at(v@, p@, j),
        decreases n - m + 1 - i,
    {
        if occurs_at_exec(v, p, i) {
            proof {
                lemma_find_from_some(v@, p@, start as int, i as int);
            }
            return Some(i);
        }
        i = i + 1;
    }
    proof {
        lemma_find_from_none(v@, p@, start as int);
    }
    None
}

/// The first position where `p` occurs in `v`.
pub fn find_exec(v: &Vec<char>, p: &Vec<char>) -> (r: Option<usize>)
    ensures
        match r {
            Some(i) => find(v@, p@) == Some(i as int),
            None => find(v@, p@) is None,
        },
{
    find_from_exec(v, p, 0)
}

/// The last position where `p` occurs in `v`.
pub fn rfind_exec(v: &Vec<char>, p: &Vec<char>) -> (r: Option<usize>)
    ensures
        match r {
            Some(i) => rfind(v@, p@) == Some(i as int),
            None => rfind(v@, p@) is None,
        },
{
    let n = v.len();
    let m = p.len();
    if m > n {
        proof {
            lemma_rfind_to_none(v@, p@, v@.len() - p@.len());
        }
        return None;
    }
    let mut i = n - m;
    loop
        invariant
            n == v@.len(),
            m == p@.len(),
            m <= n,
            i <= n - m,
            forall|j: int| i < j <= n - m ==> !occurs_at(v@, p@, j),
        ensures
            forall|j: int| 0 <= j <= n - m ==> !occurs_at(v@, p@, j),
        decreases i,
    {
        if occurs_at_exec(v, p, i) {
            proof {
                lemma_rfind_to_some(v@, p@, v@.len() - p@.len(), i as int);
            }
            return Some(i);
        }
        if i == 0 {
            break;
        }
        i = i - 1;
    }
    proof {
        lemma_rfind_to_none(v@, p@, v@.len() - p@.len());
    }
    None
}

/// Whether `p` occurs anywhere in `v`.
pub fn contains_exec(v: &Vec<char>, p: &Vec<char>) -> (b: bool)
    ensures
        b == contains(v@, p@),
{
    let r = find_exec(v, p);
    proof {
        lemma_find_spec(v@, p@);
    }
    r.is_some()
}

/// Whether the string `s` contains the string `p`.
pub fn str_contains(s: &str, p: &str) -> (b: bool)
    ensures
        b == contains(s@, p@),
{
    let v = chars_of(s);
    let q = chars_of(p);
    contains_exec(&v, &q)
}

/// Whether `s` starts with `p`.
pub fn str_starts_with(s: &str, p: &str) -> (b: bool)
    ensures
        b == starts_with(s@, p@),
{
    let v = chars_of(s);
    let q = chars_of(p);
    occurs_at_exec(&v, &q, 0)
}

/// Whether `s` ends with `p`.
pub fn str_ends_with(s: &str, p: &str) -> (b: bool)
    ensures
        b == ends_with(s@, p@),
{
    let v = chars_of(s);
    let q = chars_of(p);
    if q.len() > v.len() {
        return false;
    }
    occurs_at_exec(&v, &q, v.len() - q.len())
}

/// The position of the first `c` in `v[from..]`, if any.
pub fn find_char_from(v: &Vec<char>, c: char, from: usize) -> (r: Option<usize>)
    requires
        from <= v@.len(),
    ensures
        match r {
            Some(i) => from <= i < v@.len() && v@[i as int] == c && forall|j: int|
                from <= j < i ==> v@[j] != c,
            None => forall|j: int| from <= j < v@.len() ==> v@[j] != c,
        },
{
    let mut i = from;
    while i < v.len()
        invariant
            from <= i <= v@.len(),
            forall|j: int| from <= j < i ==> v@[j] != c,
        decreases v@.len() - i,
    {
        if v[i] == c {
            return Some(i);
        }
        i = i + 1;
    }
    None
}

pub proof fn lemma_find_char_shift(s: Seq<char>, from: int, c: char)
    requires
        0 <= from <= s.len(),
    ensures
        match find(s.skip(from), seq![c]) {
            Some(k) => 0 <= k && from + k < s.len() && s[from + k] == c && forall|j: int|
                from <= j < from + k ==> s[j] != c,
            None => forall|j: int| from <= j < s.len() ==> s[j] != c,
        },
{
    let t = s.skip(from);
    lemma_find_char(t, c);
    match find(t, seq![c]) {
        Some(k) => {
            assert(t[k] == s[from + k]);
            assert forall|j: int| from <= j < from + k implies s[j] != c by {
                assert(t[j - from] == s[j]);
            }
        },
        None => {
            assert forall|j: int| from <= j < s.len() implies s[j] != c by {
                assert(t[j - from] == s[j]);
            }
        },
    }
}

/// The lines of `s`, each as a `String`, as `str::lines` yields them.
pub fn split_lines(s: &str) -> (r: Vec<String>)
    ensures
        r@.map_values(|x: String| x@) == lines(s@),
{
    let v = chars_of(s);
    let mut out: Vec<String> = Vec::new();
    let mut start: usize = 0;
    assert(v@.skip(0) =~= v@);
    assert(out@.map_values(|x: String| x@) =~= Seq::<Seq<char>>::empty());
    assert(Seq::<Seq<char>>::empty() + lines(v@) =~= lines(v@));
    while start < v.len()
        invariant
            start <= v@.len(),
            v@ == s@,
            out@.map_values(|x: String| x@) + lines(v@.skip(start as int)) == lines(v@),
        decreases v@.len() - start,
    {
        let ghost t = v@.skip(start as int);
        match find_char_from(&v, '\n', start) {
            None => {
                proof {
                    assert forall|j: int| 0 <= j < t.len() implies t[j] != '\n' by {
                        assert(t[j] == v@[start + j]);
                    }
                    lemma_find_char_none(t, '\n');
                    assert(lines(t) == seq![t]);
                }
                let line = string_of(&v, start, v.len());
                let ghost before = out@.map_values(|x: String| x@);
                out.push(line);
                proof {
                    assert(t =~= v@.subrange(start as int, v@.len() as int));
                    assert(out@.map_values(|x: String| x@) =~= before.push(t));
                    assert(v@.skip(v@.len() as int) =~= Seq::<char>::empty());
                    assert(lines(Seq::<char>::empty()) =~= Seq::<Seq<char>>::empty());
                    assert(before + lines(t) =~= before.push(t));
                }
                start = v.len();
            },
            Some(i) => {
                proof {
                    assert(t[i - start] == v@[i as int]);
                    assert forall|j: int| 0 <= j < i - start implies t[j] != '\n' by {
                        assert(t[j] == v@[start + j]);
                    }
                    lemma_find_char_at(t, '\n', i - start);
                    assert(t.skip(i - start + 1) =~= v@.skip(i + 1));
                    assert(t.take(i - start) =~= v@.subrange(start as int, i as int));
                }
                let mut end = i;
                if end > start && v[end - 1] == '\r' {
                    end = end - 1;
                }
                let line = string_of(&v, start, end);
                proof {
                    let raw = v@.subrange(start as int, i as int);
                    if i > start && v@[i - 1] == '\r' {
                        assert(raw.last() == v@[i - 1]);
                        assert(raw.drop_last() =~= v@.subrange(start as int, end as int));
                    } else if i > start {
                        assert(raw.last() == v@[i - 1]);
                    }
                    assert(line@ == strip_cr(raw));
                }
                let ghost before = out@.map_values(|x: String| x@);
                out.push(line);
                proof {
                    assert(out@.map_values(|x: String| x@) =~= before.push(line@));
                    assert(before.push(line@) + lines(v@.skip(i + 1)) =~= before + (seq![line@]
                        + lines(v@.skip(i + 1))));
                }
                start = i + 1;
            },
        }
    }
    proof {
        assert(v@.skip(start as int) =~= Seq::<char>::empty());
        assert(out@.map_values(|x: String| x@) + Seq::<Seq<char>>::empty() =~= out@.map_values(
            |x: String| x@,
        ));
    }
    out
}

} // verus!

verus! {

/// The concatenation of two strings.
pub fn concat(a: &str, b: &str) -> (r: String)
    ensures
        r@ == a@ + b@,
{
    let mut r = a.to_owned();
    r.append(b);
    r
}

} // verus!

verus! {

/// Whether two strings hold the same characters.
pub fn str_eq(a: &str, b: &str) -> (r: bool)
    ensures
        r == (a@ == b@),
{
    a.to_owned() == b.to_owned()
}

} // verus!

verus! {

/// `s` with every leading `c` removed.
pub open spec fn strip_leading(s: Seq<char>, c: char) -> Seq<char>
    decreases s.len(),
{
    if s.len() > 0 && s[0] == c {
        strip_leading(s.drop_first(), c)
    } else {
        s
    }
}

/// `s` with every trailing `c` removed.
pub open spec fn strip_trailing(s: Seq<char>, c: char) -> Seq<char>
    decreases s.len(),
{
    if s.len() > 0 && s.last() == c {
        strip_trailing(s.drop_last(), c)
    } else {
        s
    }
}

/// `s` with every leading and trailing `c` removed, as `str::trim_matches(c)` gives it.
pub open spec fn trim_matches(s: Seq<char>, c: char) -> Seq<char> {
    strip_trailing(strip_leading(s, c), c)
}

proof fn lemma_strip_leading_skip(s: Seq<char>, c: char, i: int)
    requires
        0 <= i <= s.len(),
        forall|j: int| 0 <= j < i ==> s[j] == c,
    ensures
        strip_leading(s, c) == strip_leading(s.skip(i), c),
    decreases i,
{
    if i > 0 {
        assert(s.drop_first().skip(i - 1) =~= s.skip(i));
        lemma_strip_leading_skip(s.drop_first(), c, i - 1);
    } else {
        assert(s.skip(0) =~= s);
    }
}

proof fn lemma_strip_trailing_take(s: Seq<char>, c: char, k: int)
    requires
        0 <= k <= s.len(),
        forall|j: int| k <= j < s.len() ==> s[j] == c,
    ensures
        strip_trailing(s, c) == strip_trailing(s.take(k), c),
    decreases s.len() - k,
{
    if k < s.len() {
        assert(s.drop_last().take(k) =~= s.take(k));
        lemma_strip_trailing_take(s.drop_last(), c, k);
    } else {
        assert(s.take(k) =~= s);
    }
}

/// The bounds of `v[from..to]` with every leading and trailing `c` cut off.
pub fn trim_matches_bounds(v: &Vec<char>, from: usize, to: usize, c: char) -> (r: (usize, usize))
    requires
        from <= to <= v@.len(),
    ensures
        from <= r.0 <= r.1 <= to,
        v@.subrange(r.0 as int, r.1 as int) == trim_matches(v@.subrange(from as int, to as int), c),
{
    let ghost s = v@.subrange(from as int, to as int);
    let mut a = from;
    while a < to && v[a] == c
        invariant
            from <= a <= to <= v@.len(),
            forall|j: int| from <= j < a ==> v@[j] == c,
        decreases to - a,
    {
        a = a + 1;
    }
    proof {
        assert forall|j: int| 0 <= j < a - from implies s[j] == c by {
            assert(s[j] == v@[from + j]);
        }
        lemma_strip_leading_skip(s, c, a - from);
        assert(s.skip(a - from) =~= v@.subrange(a as int, to as int));
        let t = v@.subrange(a as int, to as int);
        if t.len() > 0 {
            assert(t[0] == v@[a as int]);
        }
    }
    let ghost t = v@.subrange(a as int, to as int);
    assert(strip_leading(s, c) == t);
    let mut b = to;
    while b > a && v[b - 1] == c
        invariant
            from <= a <= b <= to <= v@.len(),
            forall|j: int| b <= j < to ==> v@[j] == c,
        decreases b - a,
    {
        b = b - 1;
    }
    proof {
        assert forall|j: int| b - a <= j < t.len() implies t[j] == c by {
            assert(t[j] == v@[a + j]);
        }
        lemma_strip_trailing_take(t, c, b - a);
        assert(t.take(b - a) =~= v@.subrange(a as int, b as int));
        let u = v@.subrange(a as int, b as int);
        if u.len() > 0 {
            assert(u.last() == v@[b - 1]);
        }
    }
    (a, b)
}

} // verus!

verus! {

proof fn lemma_word_len_exact(t: Seq<char>, i: int, k: int)
    requires
        0 <= i <= k <= t.len(),
        forall|j: int| i <= j < k ==> !is_ws(t[j]),
        k == t.len() || is_ws(t[k]),
    ensures
        word_len(t, i) == k,
    decreases k - i,
{
    if i < k {
        lemma_word_len_exact(t, i + 1, k);
    }
}

/// The words of `s`: its maximal runs of non-whitespace characters, as
/// `str::split_whitespace` yields them.
pub fn split_words(s: &str) -> (r: Vec<String>)
    ensures
        r@.map_values(|x: String| x@) == words(s@),
{
    let v = chars_of(s);
    let n = v.len();
    let mut out: Vec<String> = Vec::new();
    let mut i: usize = 0;
    assert(v@.skip(0) =~= v@);
    assert(out@.map_values(|x: String| x@) + words(v@) =~= words(v@));
    while i < n
        invariant
            i <= n == v@.len(),
            v@ == s@,
            out@.map_values(|x: String| x@) + words(v@.skip(i as int)) == words(v@),
        decreases n - i,
    {
        let ghost u = v@.skip(i as int);
        let mut a = i;
        while a < n && is_whitespace(v[a])
            invariant
                i <= a <= n == v@.len(),
                forall|j: int| i <= j < a ==> is_ws(v@[j]),
            decreases n - a,
        {
            a = a + 1;
        }
        proof {
            assert forall|j: int| 0 <= j < a - i implies is_ws(u[j]) by {
                assert(u[j] == v@[i + j]);
            }
            lemma_trim_start_skip(u, a - i);
            assert(u.skip(a - i) =~= v@.skip(a as int));
            let w = v@.skip(a as int);
            if w.len() > 0 {
                assert(w[0] == v@[a as int]);
                assert(trim_start(w) == w);
            } else {
                assert(trim_start(w) == w);
            }
        }
        if a == n {
            proof {
                assert(v@.skip(a as int) =~= Seq::<char>::empty());
                assert(out@.map_values(|x: String| x@) + Seq::<Seq<char>>::empty() =~= out@.map_values(
                    |x: String| x@,
                ));
            }
            i = n;
        } else {
            let mut b = a;
            while b < n && !is_whitespace(v[b])
                invariant
                    a <= b <= n == v@.len(),
                    forall|j: int| a <= j < b ==> !is_ws(v@[j]),
                decreases n - b,
            {
                b = b + 1;
            }
            let ghost t = v@.skip(a as int);
            proof {
                assert forall|j: int| 0 <= j < b - a implies !is_ws(t[j]) by {
                    assert(t[j] == v@[a + j]);
                }
                if b < n {
                    assert(t[b - a] == v@[b as int]);
                }
                lemma_word_len_exact(t, 0, b - a);
                assert(t[0] == v@[a as int]);
                assert(t.take(b - a) =~= v@.subrange(a as int, b as int));
                assert(t.skip(b - a) =~= v@.skip(b as int));
            }
            let word = string_of(&v, a, b);
            let ghost before = out@.map_values(|x: String| x@);
            out.push(word);
            proof {
                assert(out@.map_values(|x: String| x@) =~= before.push(word@));
                assert(before.push(word@) + words(v@.skip(b as int)) =~= before + (seq![word@]
                    + words(v@.skip(b as int))));
            }
            i = b;
        }
    }
    proof {
        assert(v@.skip(i as int) =~= Seq::<char>::empty());
        assert(out@.map_values(|x: String| x@) + Seq::<Seq<char>>::empty() =~= out@.map_values(
            |x: String| x@,
        ));
    }
    out
}

/// The characters of `s` before the first `c`, or all of them when `c` does not occur:
/// the first piece that `str::split(c)` yields.
pub open spec fn before_char(s: Seq<char>, c: char) -> Seq<char> {
    match find(s, seq![c]) {
        Some(i) => s.take(i),
        None => s,
    }
}

/// The first piece that `s.split(c)` yields.
pub fn first_piece(s: &str, c: char) -> (r: String)
    ensures
        r@ == before_char(s@, c),
{
    let v = chars_of(s);
    match find_char_from(&v, c, 0) {
        Some(i) => {
            proof {
                lemma_find_char_at(v@, c, i as int);
            }
            string_of(&v, 0, i)
        },
        None => {
            proof {
                lemma_find_char_none(v@, c);
            }
            string_of_all(&v)
        },
    }
}

} // verus!

verus! {

/// `s` with every trailing `c` removed, as `str::trim_end_matches(c)` gives it.
pub fn without_trailing(s: &str, c: char) -> (r: String)
    ensures
        r@ == strip_trailing(s@, c),
{
    let v = chars_of(s);
    let mut b = v.len();
    while b > 0 && v[b - 1] == c
        invariant
            b <= v@.len(),
            forall|j: int| b <= j < v@.len() ==> v@[j] == c,
        decreases b,
    {
        b = b - 1;
    }
    proof {
        lemma_strip_trailing_take(v@, c, b as int);
        if b > 0 {
            assert(v@.take(b as int).last() == v@[b - 1]);
        }
        assert(v@.take(b as int) =~= v@.subrange(0, b as int));
    }
    string_of(&v, 0, b)
}

/// `s` with every leading `c` removed, as `str::trim_start_matches(c)` gives it.
pub fn without_leading(s: &str, c: char) -> (r: String)
    ensures
        r@ == strip_leading(s@, c),
{
    let v = chars_of(s);
    let mut a: usize = 0;
    while a < v.len() && v[a] == c
        invariant
            a <= v@.len(),
            forall|j: int| 0 <= j < a ==> v@[j] == c,
        decreases v@.len() - a,
    {
        a = a + 1;
    }
    proof {
        lemma_strip_leading_skip(v@, c, a as int);
        if a < v@.len() {
            assert(v@.skip(a as int)[0] == v@[a as int]);
        }
        assert(v@.skip(a as int) =~= v@.subrange(a as int, v@.len() as int));
    }
    string_of(&v, a, v.len())
}

} // verus!

verus! {

/// What `str::to_lowercase` gives for a text.
pub uninterp spec fn lowercase(s: Seq<char>) -> Seq<char>;

/// What `str::to_uppercase` gives for a text.
pub uninterp spec fn uppercase(s: Seq<char>) -> Seq<char>;

/// `str::to_lowercase`: the text with every character mapped to its Unicode lowercase.
/// The mapping is left unstated; the result is claimed to be a function of the text.
#[verifier::external_body]
pub(crate) fn to_lowercase(s: &str) -> (r: String)
    ensures
        r@ == lowercase(s@),
{
    s.to_lowercase()
}

/// `str::to_uppercase`: the text with every character mapped to its Unicode uppercase.
/// The mapping is left unstated; the result is claimed to be a function of the text.
#[verifier::external_body]
pub(crate) fn to_uppercase(s: &str) -> (r: String)
    ensures
        r@ == uppercase(s@),
{
    s.to_uppercase()
}

/// Every non-overlapping occurrence of the non-empty `pat` replaced by `rep`, scanning
/// from the left, as `str::replace` does.
pub open spec fn replace_all(s: Seq<char>, pat: Seq<char>, rep: Seq<char>) -> Seq<char>
    decreases s.len(),
{
    if pat.len() == 0 || s.len() == 0 {
        s
    } else if starts_with(s, pat) {
        rep + replace_all(s.skip(pat.len() as int), pat, rep)
    } else {
        seq![s[0]] + replace_all(s.drop_first(), pat, rep)
    }
}

proof fn lemma_occurs_skip(s: Seq<char>, p: Seq<char>, i: int)
    requires
        0 <= i <= s.len(),
    ensures
        occurs_at(s, p, i) == starts_with(s.skip(i), p),
{
    if occurs_at(s, p, i) {
        assert(s.skip(i).subrange(0, p.len() as int) =~= s.subrange(i, i + p.len()));
    }
    if starts_with(s.skip(i), p) {
        assert(s.skip(i).subrange(0, p.len() as int) =~= s.subrange(i, i + p.len()));
    }
}

/// `s` with every occurrence of `pat` replaced by `rep`, as `str::replace` gives it.
pub fn replace_str(s: &str, pat: &str, rep: &str) -> (r: String)
    requires
        pat@.len() > 0,
    ensures
        r@ == replace_all(s@, pat@, rep@),
{
    let v = chars_of(s);
    let p = chars_of(pat);
    let n = v.len();
    let mut out = String::new();
    let mut i: usize = 0;
    assert(v@.skip(0) =~= v@);
    while i < n
        invariant
            i <= n == v@.len(),
            v@ == s@,
            p@ == pat@,
            p@.len() > 0,
            out@ + replace_all(v@.skip(i as int), p@, rep@) == replace_all(v@, p@, rep@),
        decreases n - i,
    {
        let ghost u = v@.skip(i as int);
        proof {
            lemma_occurs_skip(v@, p@, i as int);
        }
        if occurs_at_exec(&v, &p, i) {
            let ghost before = out@;
            out.append(rep);
            proof {
                assert(u.skip(p@.len() as int) =~= v@.skip(i + p@.len()));
                assert(before + (rep@ + replace_all(u.skip(p@.len() as int), p@, rep@)) =~= out@
                    + replace_all(v@.skip(i + p@.len()), p@, rep@));
            }
            i = i + p.len();
        } else {
            let ghost before = out@;
            push_char(&mut out, v[i]);
            proof {
                assert(u[0] == v@[i as int]);
                assert(u.drop_first() =~= v@.skip(i + 1));
                assert(before + (seq![u[0]] + replace_all(u.drop_first(), p@, rep@)) =~= out@
                    + replace_all(v@.skip(i + 1), p@, rep@));
            }
            i = i + 1;
        }
    }
    proof {
        assert(v@.skip(i as int) =~= Seq::<char>::empty());
        assert(out@ + Seq::<char>::empty() =~= out@);
    }
    out
}

/// What `Path::file_name` gives for a path: its last component, if it has one.
pub uninterp spec fn file_name_of(path: Seq<char>) -> Option<Seq<char>>;

/// `Path::file_name`: the final component of the path, none when the path ends in `..`.
/// The component rules are left unstated; the result is claimed to be a function of the
/// path.
#[verifier::external_body]
pub(crate) fn path_file_name(path: &str) -> (r: Option<String>)
    ensures
        match r {
            Some(f) => file_name_of(path@) == Some(f@),
            None => file_name_of(path@) is None,
        },
{
    std::path::Path::new(path).file_name().map(|f| f.to_string_lossy().into_owned())
}

} // verus!

verus! {

/// The text before and after the first `c`, when `c` occurs.
pub open spec fn split_once(s: Seq<char>, c: char) -> Option<(Seq<char>, Seq<char>)> {
    match find(s, seq![c]) {
        Some(i) => Some((s.take(i), s.skip(i + 1))),
        None => None,
    }
}

/// The text before and after the first `c` in `s`, as `str::split_once(c)` gives it.
pub fn split_once_char(s: &str, c: char) -> (r: Option<(String, String)>)
    ensures
        match r {
            Some((a, b)) => split_once(s@, c) == Some((a@, b@)),
            None => split_once(s@, c) is None,
        },
{
    let v = chars_of(s);
    match find_char_from(&v, c, 0) {
        Some(i) => {
            proof {
                lemma_find_char_at(v@, c, i as int);
                assert(v@.take(i as int) =~= v@.subrange(0, i as int));
                assert(v@.skip(i + 1) =~= v@.subrange(i + 1, v@.len() as int));
            }
            let n = v.len();
            let a = string_of(&v, 0, i);
            let b = string_of(&v, i + 1, n);
            Some((a, b))
        },
        None => {
            proof {
                lemma_find_char_none(v@, c);
            }
            None
        },
    }
}

/// The characters of `s` from position `n` on.
pub fn skip_str(s: &str, n: usize) -> (r: String)
    requires
        n <= s@.len(),
    ensures
        r@ == s@.skip(n as int),
{
    let v = chars_of(s);
    assert(v@.skip(n as int) =~= v@.subrange(n as int, v@.len() as int));
    string_of(&v, n, v.len())
}

/// The first position where `p` occurs in `s`, counted in characters.
pub fn find_str(s: &str, p: &str) -> (r: Option<usize>)
    ensures
        match r {
            Some(i) => find(s@, p@) == Some(i as int),
            None => find(s@, p@) is None,
        },
{
    let v = chars_of(s);
    let q = chars_of(p);
    find_exec(&v, &q)
}

/// The string with every leading and trailing `c` removed, as `str::trim_matches(c)`
/// gives it.
pub fn trimmed_matches(s: &str, c: char) -> (r: String)
    ensures
        r@ == trim_matches(s@, c),
{
    let v = chars_of(s);
    let (a, b) = trim_matches_bounds(&v, 0, v.len(), c);
    assert(v@.subrange(0, v@.len() as int) =~= v@);
    string_of(&v, a, b)
}

} // verus!

verus! {

/// An optional string taken as optional text.
pub open spec fn opt_text(o: Option<String>) -> Option<Seq<char>> {
    match o {
        Some(s) => Some(s@),
        None => None,
    }
}

} // verus!

verus! {

/// Splitting at a character always gives at least one piece.
pub proof fn lemma_split_char_nonempty(s: Seq<char>, c: char)
    ensures
        split_char(s, c).len() >= 1,
    decreases s.len(),
{
    match find(s, seq![c]) {
        None => {},
        Some(i) => {
            lemma_find_spec(s, seq![c]);
            lemma_split_char_nonempty(s.skip(i + 1), c);
        },
    }
}

/// The text with every trailing occurrence of `p` removed, as `str::trim_end_matches`
/// with a string pattern leaves it.
pub open spec fn trim_end_str_spec(s: Seq<char>, p: Seq<char>) -> Seq<char>
    decreases s.len(),
{
    if p.len() > 0 && p.len() <= s.len() && ends_with(s, p) {
        trim_end_str_spec(s.subrange(0, s.len() - p.len()), p)
    } else {
        s
    }
}

/// `s` with every trailing occurrence of `p` removed.
pub fn trim_end_str(s: &str, p: &str) -> (r: String)
    ensures
        r@ == trim_end_str_spec(s@, p@),
{
    let v = chars_of(s);
    let pv = chars_of(p);
    let m = pv.len();
    if m == 0 {
        return owned(s);
    }
    let mut end = v.len();
    assert(v@.subrange(0, end as int) =~= v@);
    loop
        invariant
            end <= v@.len(),
            m == pv@.len() > 0,
            trim_end_str_spec(v@.subrange(0, end as int), pv@) == trim_end_str_spec(v@, pv@),
        ensures
            end <= v@.len(),
            trim_end_str_spec(v@, pv@) == v@.subrange(0, end as int),
        decreases end,
    {
        let ghost t = v@.subrange(0, end as int);
        if end >= m && occurs_at_exec(&v, &pv, end - m) {
            assert(t.subrange(end - m, end as int) =~= v@.subrange(end - m, end as int));
            assert(t.subrange(0, t.len() - m) =~= v@.subrange(0, end - m));
            end = end - m;
        } else {
            proof {
                if m <= t.len() && ends_with(t, pv@) {
                    assert(t.subrange(end - m, end as int) =~= v@.subrange(end - m, end as int));
                }
            }
            break;
        }
    }
    string_of(&v, 0, end)
}

} // verus!
