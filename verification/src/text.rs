//! Text: joining, searching, trimming and decoding.
//!
//! Text is specified as a sequence of characters.
use vstd::prelude::*;
use vstd::utf8::{decode_utf8, valid_utf8};

verus! {

/// The text of each string in a list.
pub open spec fn texts(list: Seq<String>) -> Seq<Seq<char>> {
    Seq::new(list.len(), |i: int| list[i]@)
}

/// The text of an optional string.
pub open spec fn opt_text(s: Option<String>) -> Option<Seq<char>> {
    match s {
        Some(t) => Some(t@),
        None => None,
    }
}

/// The text of an optional string slice.
pub open spec fn opt_str(s: Option<&str>) -> Option<Seq<char>> {
    match s {
        Some(t) => Some(t@),
        None => None,
    }
}

/// The characters of a string as a vector.
pub fn chars_of(s: &str) -> (r: Vec<char>)
    ensures
        r@ == s@,
{
    let mut out: Vec<char> = Vec::new();
    for c in it: s.chars()
        invariant
            out@ == it.seq().take(it.index() as int),
            it.seq() == s@,
    {
        out.push(c);
    }
    out
}

/// Two texts joined end to end.
pub fn glue(a: &str, b: &str) -> (r: String)
    ensures
        r@ == a@ + b@,
{
    let mut out: String = a.to_owned();
    out.append(b);
    out
}

// ---------------------------------------------------------------------------------------------
// Decoding
// ---------------------------------------------------------------------------------------------
/// The text that bytes stand for, with a replacement character for what is not UTF-8.
pub uninterp spec fn lossy_text(bytes: Seq<u8>) -> Seq<char>;

/// `String::from_utf8_lossy`: a function of the bytes alone, and the decoded text where the bytes
/// are valid UTF-8. Where replacement characters stand for bytes that are not is left unsaid.
#[verifier::external_body]
pub(crate) fn decode_lossy(bytes: &[u8]) -> (r: String)
    ensures
        r@ == lossy_text(bytes@),
        valid_utf8(bytes@) ==> r@ == decode_utf8(bytes@),
{
    String::from_utf8_lossy(bytes).into_owned()
}

// ---------------------------------------------------------------------------------------------
// Searching
// ---------------------------------------------------------------------------------------------
/// `pat` stands in `s` at position `i`.
pub open spec fn occurs_at(s: Seq<char>, pat: Seq<char>, i: int) -> bool {
    0 <= i && i + pat.len() <= s.len() && s.subrange(i, i + pat.len()) == pat
}

/// `pat` stands somewhere in `s`.
pub open spec fn contains_text(s: Seq<char>, pat: Seq<char>) -> bool {
    exists|i: int| occurs_at(s, pat, i)
}

/// Position `i` is the leftmost at which `pat` stands in `s`.
pub open spec fn is_first(s: Seq<char>, pat: Seq<char>, i: int) -> bool {
    occurs_at(s, pat, i) && forall|j: int| 0 <= j < i ==> !#[trigger] occurs_at(s, pat, j)
}

/// What stands before and behind the leftmost `pat` in `s`.
pub open spec fn split_first(s: Seq<char>, pat: Seq<char>) -> Option<(Seq<char>, Seq<char>)> {
    if contains_text(s, pat) {
        let i = choose|i: int| is_first(s, pat, i);
        Some((s.take(i), s.skip(i + pat.len())))
    } else {
        None
    }
}

/// Only one position is leftmost, so a split found at one is the split.
pub proof fn lemma_split_first_at(s: Seq<char>, pat: Seq<char>, i: int)
    requires
        is_first(s, pat, i),
    ensures
        split_first(s, pat) == Some((s.take(i), s.skip(i + pat.len()))),
{
    let k = choose|k: int| is_first(s, pat, k);
    assert(is_first(s, pat, k));
    assert(k == i) by {
        if k < i {
            assert(!occurs_at(s, pat, k));
        } else if i < k {
            assert(!occurs_at(s, pat, i));
        }
    }
}

/// Whether `pat` stands in `s` at position `at`.
fn matches_at(s: &Vec<char>, pat: &Vec<char>, at: usize) -> (r: bool)
    requires
        at + pat@.len() <= s@.len(),
    ensures
        r == occurs_at(s@, pat@, at as int),
{
    let total: usize = s.len();
    let mut k: usize = 0;
    while k < pat.len()
        invariant
            total == s@.len(),
            at + pat@.len() <= total,
            k <= pat@.len(),
            forall|j: int| 0 <= j < k ==> s@[at + j] == #[trigger] pat@[j],
        decreases pat@.len() - k,
    {
        if s[at + k] != pat[k] {
            assert(s@.subrange(at as int, at + pat@.len())[k as int] != pat@[k as int]);
            return false;
        }
        k += 1;
    }
    assert(s@.subrange(at as int, at + pat@.len()) =~= pat@);
    true
}

/// The leftmost position of `pat` in `s`.
pub fn find_in(s: &Vec<char>, pat: &Vec<char>) -> (r: Option<usize>)
    ensures
        match r {
            Some(i) => is_first(s@, pat@, i as int),
            None => !contains_text(s@, pat@),
        },
{
    if pat.len() > s.len() {
        return None;
    }
    let last: usize = s.len() - pat.len();
    let mut i: usize = 0;
    loop
        invariant
            pat@.len() <= s@.len(),
            last == s@.len() - pat@.len(),
            i <= last,
            forall|j: int| 0 <= j < i ==> !#[trigger] occurs_at(s@, pat@, j),
        decreases last - i,
    {
        if matches_at(s, pat, i) {
            return Some(i);
        }
        if i == last {
            return None;
        }
        i += 1;
    }
}

/// Whether `pat` stands anywhere in `s`.
pub fn contains(s: &str, pat: &str) -> (r: bool)
    ensures
        r == contains_text(s@, pat@),
{
    let sc: Vec<char> = chars_of(s);
    let pc: Vec<char> = chars_of(pat);
    match find_in(&sc, &pc) {
        Some(i) => {
            assert(occurs_at(s@, pat@, i as int));
            true
        },
        None => false,
    }
}

/// What stands before and behind the leftmost `pat` in `s`.
pub fn split_once_at(s: &str, pat: &str) -> (r: Option<(String, String)>)
    ensures
        match r {
            Some((a, b)) => split_first(s@, pat@) == Some((a@, b@)),
            None => split_first(s@, pat@) is None,
        },
{
    let sc: Vec<char> = chars_of(s);
    let pc: Vec<char> = chars_of(pat);
    match find_in(&sc, &pc) {
        Some(i) => {
            proof {
                assert(occurs_at(s@, pat@, i as int));
                lemma_split_first_at(s@, pat@, i as int);
            }
            let end: usize = sc.len();
            let a: String = part_of(s, 0, i);
            let b: String = part_of(s, i + pc.len(), end);
            assert(a@ =~= s@.take(i as int));
            assert(b@ =~= s@.skip(i + pat@.len()));
            Some((a, b))
        },
        None => None,
    }
}

/// Whether `s` ends in `suffix`.
pub fn has_suffix(s: &str, suffix: &str) -> (r: bool)
    ensures
        r == suffix@.is_suffix_of(s@),
{
    let sc: Vec<char> = chars_of(s);
    let pc: Vec<char> = chars_of(suffix);
    if pc.len() > sc.len() {
        return false;
    }
    matches_at(&sc, &pc, sc.len() - pc.len())
}

/// Whether two texts are equal.
pub fn same_text(a: &str, b: &str) -> (r: bool)
    ensures
        r == (a@ == b@),
{
    let ac: Vec<char> = chars_of(a);
    let bc: Vec<char> = chars_of(b);
    same_chars(&ac, &bc)
}

/// Whether two character vectors are equal.
pub fn same_chars(a: &Vec<char>, b: &Vec<char>) -> (r: bool)
    ensures
        r == (a@ == b@),
{
    if a.len() != b.len() {
        return false;
    }
    let r: bool = matches_at(a, b, 0);
    assert(a@.subrange(0, a@.len() as int) =~= a@);
    r
}

/// The characters of `s` from position `from` up to, not including, `to`.
pub fn part_of(s: &str, from: usize, to: usize) -> (r: String)
    requires
        from <= to <= s@.len(),
    ensures
        r@ == s@.subrange(from as int, to as int),
{
    s.substring_char(from, to).to_owned()
}

// ---------------------------------------------------------------------------------------------
// Trimming
// ---------------------------------------------------------------------------------------------
/// `c` has the Unicode property `White_Space`.
pub open spec fn is_space(c: char) -> bool {
    let u = c as u32;
    ||| 0x9 <= u <= 0xd
    ||| u == 0x20
    ||| u == 0x85
    ||| u == 0xa0
    ||| u == 0x1680
    ||| 0x2000 <= u <= 0x200a
    ||| u == 0x2028
    ||| u == 0x2029
    ||| u == 0x202f
    ||| u == 0x205f
    ||| u == 0x3000
}

/// `s` without the white space at its front.
pub open spec fn trim_front(s: Seq<char>) -> Seq<char>
    decreases s.len(),
{
    if s.len() > 0 && is_space(s[0]) {
        trim_front(s.skip(1))
    } else {
        s
    }
}

/// `s` without the white space at its back.
pub open spec fn trim_back(s: Seq<char>) -> Seq<char>
    decreases s.len(),
{
    if s.len() > 0 && is_space(s.last()) {
        trim_back(s.drop_last())
    } else {
        s
    }
}

/// `s` without the white space around it.
pub open spec fn trimmed(s: Seq<char>) -> Seq<char> {
    trim_back(trim_front(s))
}

/// Whether a character is white space.
pub fn is_white(c: char) -> (r: bool)
    ensures
        r == is_space(c),
{
    let u: u32 = c as u32;
    (0x9 <= u && u <= 0xd) || u == 0x20 || u == 0x85 || u == 0xa0 || u == 0x1680 || (0x2000 <= u
        && u <= 0x200a) || u == 0x2028 || u == 0x2029 || u == 0x202f || u == 0x205f || u == 0x3000
}

/// `s` without the white space around it.
pub fn trim(s: &str) -> (r: String)
    ensures
        r@ == trimmed(s@),
{
    let c: Vec<char> = chars_of(s);
    let mut from: usize = 0;
    assert(s@.skip(0) =~= s@);
    while from < c.len() && is_white(c[from])
        invariant
            c@ == s@,
            from <= c@.len(),
            trim_front(s@) == trim_front(s@.skip(from as int)),
        decreases c@.len() - from,
    {
        assert(s@.skip(from as int).skip(1) =~= s@.skip(from + 1));
        from += 1;
    }
    let ghost mid = s@.skip(from as int);
    assert(trim_front(s@) == mid);
    let mut to: usize = c.len();
    assert(s@.subrange(from as int, to as int) =~= mid);
    while from < to && is_white(c[to - 1])
        invariant
            c@ == s@,
            from <= to <= c@.len(),
            trim_back(mid) == trim_back(s@.subrange(from as int, to as int)),
        decreases to,
    {
        assert(s@.subrange(from as int, to as int).drop_last() =~= s@.subrange(
            from as int,
            to - 1,
        ));
        to -= 1;
    }
    part_of(s, from, to)
}

// ---------------------------------------------------------------------------------------------
// What the searches and cuts mean
// ---------------------------------------------------------------------------------------------
/// The character stands nowhere in the text.
pub open spec fn without(s: Seq<char>, c: char) -> bool {
    forall|i: int| 0 <= i < s.len() ==> s[i] != c
}

/// A text stands in another exactly where the other can be cut into a front, the text, and a back.
pub proof fn found_texts_stand_between(s: Seq<char>, pat: Seq<char>)
    ensures
        contains_text(s, pat) <==> exists|a: Seq<char>, b: Seq<char>| s == #[trigger] (a + pat + b),
{
    if contains_text(s, pat) {
        let i = choose|i: int| occurs_at(s, pat, i);
        let a = s.take(i);
        let b = s.skip(i + pat.len());
        assert(s =~= a + pat + b);
    }
    if exists|a: Seq<char>, b: Seq<char>| s == #[trigger] (a + pat + b) {
        let (a, b) = choose|a: Seq<char>, b: Seq<char>| s == #[trigger] (a + pat + b);
        assert(s.subrange(a.len() as int, (a.len() + pat.len()) as int) =~= pat);
        assert(occurs_at(s, pat, a.len() as int));
    }
}

/// Cutting at a text gives the two sides around its first place: put together they are the whole,
/// and the text does not stand any earlier. A text that stands nowhere cuts nothing.
pub proof fn cuts_are_around_the_first_place(s: Seq<char>, pat: Seq<char>)
    ensures
        match split_first(s, pat) {
            Some((a, b)) => {
                &&& s == a + pat + b
                &&& forall|c: Seq<char>, d: Seq<char>|
                    s == #[trigger] (c + pat + d) ==> a.len() <= c.len()
            },
            None => forall|c: Seq<char>, d: Seq<char>| s != #[trigger] (c + pat + d),
        },
{
    found_texts_stand_between(s, pat);
    if contains_text(s, pat) {
        let k = choose|k: int| occurs_at(s, pat, k);
        lemma_has_first(s, pat, k);
        let i = choose|i: int| is_first(s, pat, i);
        lemma_split_first_at(s, pat, i);
        let a = s.take(i);
        let b = s.skip(i + pat.len());
        assert(s =~= a + pat + b);
        assert forall|c: Seq<char>, d: Seq<char>| s == #[trigger] (c + pat + d) implies a.len()
            <= c.len() by {
            assert(s.subrange(c.len() as int, (c.len() + pat.len()) as int) =~= pat);
            assert(occurs_at(s, pat, c.len() as int));
        }
    }
}

proof fn lemma_has_first(s: Seq<char>, pat: Seq<char>, k: int)
    requires
        occurs_at(s, pat, k),
    ensures
        exists|i: int| is_first(s, pat, i),
    decreases k,
{
    if exists|j: int| 0 <= j < k && occurs_at(s, pat, j) {
        let j = choose|j: int| 0 <= j < k && occurs_at(s, pat, j);
        lemma_has_first(s, pat, j);
    } else {
        assert(is_first(s, pat, k));
    }
}

/// A text that stands in the joined text only between the two sides is found there.
pub proof fn a_single_place_is_the_cut(a: Seq<char>, pat: Seq<char>, b: Seq<char>)
    requires
        pat.len() > 0,
        forall|c: Seq<char>, d: Seq<char>| a + pat + b == #[trigger] (c + pat + d) ==> c == a,
    ensures
        split_first(a + pat + b, pat) == Some((a, b)),
        !contains_text(b, pat),
{
    let s = a + pat + b;
    assert(s == a + pat + b);
    cuts_are_around_the_first_place(s, pat);
    let (x, y) = split_first(s, pat)->0;
    assert(split_first(s, pat) is Some);
    assert(s == x + pat + y);
    assert(x == a);
    assert(y =~= s.skip((x.len() + pat.len()) as int));
    assert(b =~= s.skip((a.len() + pat.len()) as int));
    if contains_text(b, pat) {
        found_texts_stand_between(b, pat);
        let (u, v) = choose|u: Seq<char>, v: Seq<char>| b == #[trigger] (u + pat + v);
        let c = a + pat + u;
        assert(s =~= c + pat + v);
        assert(c == a);
        assert(c.len() == a.len() + pat.len() + u.len());
    }
}

proof fn lemma_trim_front(s: Seq<char>)
    ensures
        exists|l: Seq<char>|
            s == #[trigger] (l + trim_front(s)) && forall|i: int|
                0 <= i < l.len() ==> is_space(#[trigger] l[i]),
        trim_front(s).len() > 0 ==> !is_space(trim_front(s)[0]),
    decreases s.len(),
{
    if s.len() > 0 && is_space(s[0]) {
        lemma_trim_front(s.skip(1));
        let l = choose|l: Seq<char>|
            s.skip(1) == #[trigger] (l + trim_front(s.skip(1))) && forall|i: int|
                0 <= i < l.len() ==> is_space(#[trigger] l[i]);
        let m = seq![s[0]] + l;
        assert(s =~= seq![s[0]] + s.skip(1));
        assert(s =~= m + trim_front(s));
        assert forall|i: int| 0 <= i < m.len() implies is_space(#[trigger] m[i]) by {
            if i > 0 {
                assert(m[i] == l[i - 1]);
            }
        }
    } else {
        assert(s =~= Seq::<char>::empty() + trim_front(s));
    }
}

proof fn lemma_trim_back(s: Seq<char>)
    ensures
        exists|r: Seq<char>|
            s == #[trigger] (trim_back(s) + r) && forall|i: int|
                0 <= i < r.len() ==> is_space(#[trigger] r[i]),
        trim_back(s).len() > 0 ==> !is_space(trim_back(s).last()) && trim_back(s)[0] == s[0],
    decreases s.len(),
{
    if s.len() > 0 && is_space(s.last()) {
        lemma_trim_back(s.drop_last());
        let r = choose|r: Seq<char>|
            s.drop_last() == #[trigger] (trim_back(s.drop_last()) + r) && forall|i: int|
                0 <= i < r.len() ==> is_space(#[trigger] r[i]);
        let m = r.push(s.last());
        assert(s =~= s.drop_last().push(s.last()));
        assert(s =~= trim_back(s) + m);
    } else {
        assert(s =~= trim_back(s) + Seq::<char>::empty());
    }
}

/// Trimming takes white space off both ends, all of it and nothing else.
pub proof fn trimming_takes_white_space_off(s: Seq<char>)
    ensures
        exists|l: Seq<char>, r: Seq<char>|
            {
                &&& s == #[trigger] (l + trimmed(s) + r)
                &&& forall|i: int| 0 <= i < l.len() ==> is_space(#[trigger] l[i])
                &&& forall|i: int| 0 <= i < r.len() ==> is_space(#[trigger] r[i])
            },
        trimmed(s).len() > 0 ==> !is_space(trimmed(s)[0]) && !is_space(trimmed(s).last()),
{
    let m = trim_front(s);
    lemma_trim_front(s);
    lemma_trim_back(m);
    let l = choose|l: Seq<char>|
        s == #[trigger] (l + m) && forall|i: int| 0 <= i < l.len() ==> is_space(#[trigger] l[i]);
    let r = choose|r: Seq<char>|
        m == #[trigger] (trim_back(m) + r) && forall|i: int|
            0 <= i < r.len() ==> is_space(#[trigger] r[i]);
    assert(s =~= l + trimmed(s) + r);
}

/// White space around a text is all that trimming takes off it.
pub proof fn trimming_leaves_the_text(l: Seq<char>, t: Seq<char>, r: Seq<char>)
    requires
        forall|i: int| 0 <= i < l.len() ==> is_space(#[trigger] l[i]),
        forall|i: int| 0 <= i < r.len() ==> is_space(#[trigger] r[i]),
        t.len() > 0 ==> !is_space(t[0]) && !is_space(t.last()),
    ensures
        trimmed(l + t + r) == t,
{
    lemma_trim_off_front(l, t + r);
    assert(l + t + r =~= l + (t + r));
    if t.len() > 0 {
        assert((t + r)[0] == t[0]);
        lemma_trim_off_back(t, r);
    } else {
        lemma_trim_off_front(r, Seq::empty());
        assert(t + r =~= r + Seq::<char>::empty());
        assert(trim_front(t + r) =~= t);
    }
}

proof fn lemma_trim_off_front(l: Seq<char>, s: Seq<char>)
    requires
        forall|i: int| 0 <= i < l.len() ==> is_space(#[trigger] l[i]),
    ensures
        trim_front(l + s) == trim_front(s),
    decreases l.len(),
{
    if l.len() == 0 {
        assert(l + s =~= s);
    } else {
        assert((l + s)[0] == l[0]);
        assert((l + s).skip(1) =~= l.skip(1) + s);
        assert forall|i: int| 0 <= i < l.skip(1).len() implies is_space(#[trigger] l.skip(1)[i]) by {
            assert(l.skip(1)[i] == l[i + 1]);
        }
        lemma_trim_off_front(l.skip(1), s);
    }
}

proof fn lemma_trim_off_back(t: Seq<char>, r: Seq<char>)
    requires
        t.len() > 0,
        !is_space(t.last()),
        forall|i: int| 0 <= i < r.len() ==> is_space(#[trigger] r[i]),
    ensures
        trim_back(t + r) == t,
    decreases r.len(),
{
    if r.len() == 0 {
        assert(t + r =~= t);
    } else {
        assert((t + r).last() == r[r.len() - 1]);
        assert((t + r).drop_last() =~= t + r.drop_last());
        assert forall|i: int| 0 <= i < r.drop_last().len() implies is_space(
            #[trigger] r.drop_last()[i],
        ) by {
            assert(r.drop_last()[i] == r[i]);
        }
        lemma_trim_off_back(t, r.drop_last());
    }
}

/// The characters that Unicode calls white space: of ASCII the tab, the line feed, the vertical
/// tab, the form feed, the carriage return and the space; of the others no letter or digit.
pub proof fn white_space_is_that_of_unicode(c: char)
    ensures
        (c as u32) < 0x80 ==> (is_space(c) <==> c == '\t' || c == '\n' || c == '\u{b}' || c
            == '\u{c}' || c == '\r' || c == ' '),
        (c as u32) >= 0x80 ==> (is_space(c) <==> c == '\u{85}' || c == '\u{a0}' || c == '\u{1680}'
            || ('\u{2000}' <= c && c <= '\u{200a}') || c == '\u{2028}' || c == '\u{2029}' || c
            == '\u{202f}' || c == '\u{205f}' || c == '\u{3000}'),
{
}

} // verus!
