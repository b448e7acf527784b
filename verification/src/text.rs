//! Text primitives over `char` sequences.
use vstd::prelude::*;

verus! {

/// The Unicode `White_Space` property, which `char::is_whitespace`,
/// `str::trim` and `str::split_whitespace` use.
pub open spec fn is_ws(c: char) -> bool {
    let u = c as u32;
    ||| 0x09 <= u <= 0x0d
    ||| u == 0x20
    ||| u == 0x85
    ||| u == 0xa0
    ||| u == 0x1680
    ||| 0x2000 <= u <= 0x200a
    ||| u == 0x2028
    ||| u == 0x2029
    ||| u == 0x202f
    ||| u == 0x205f
    ||| u == 0x3000
}

/// Whether `c` is Unicode `White_Space`, as `char::is_whitespace`.
pub fn is_whitespace(c: char) -> (r: bool)
    ensures
        r == is_ws(c),
{
    let u = c as u32;
    (0x09 <= u && u <= 0x0d) || u == 0x20 || u == 0x85 || u == 0xa0 || u == 0x1680 || (0x2000
        <= u && u <= 0x200a) || u == 0x2028 || u == 0x2029 || u == 0x202f || u == 0x205f || u
        == 0x3000
}

/// The characters of a string slice, in order.
pub fn chars_of(s: &str) -> (r: Vec<char>)
    ensures
        r@ == s@,
{
    let mut v: Vec<char> = Vec::new();
    for c in it: s.chars()
        invariant
            v@ == it.seq().take(it.index()),
    {
        v.push(c);
    }
    v
}


/// Appends one character to a `String`.
///
/// Calls std's `String::push`, which its documentation describes as appending
/// the given `char` to the end of the string; the contract says exactly that.
#[verifier::external_body]
pub(crate) fn push_char(s: &mut String, c: char)
    ensures
        final(s)@ == old(s)@.push(c),
{
    s.push(c);
}

/// The lowercase form of a string, as `str::to_lowercase` computes it from
/// the Unicode case tables.
pub uninterp spec fn lowercase(s: Seq<char>) -> Seq<char>;

/// An ASCII character: below 128.
pub open spec fn is_ascii_char(c: char) -> bool {
    (c as u32) < 0x80
}

/// An ASCII character lowercased: `A` to `Z` become `a` to `z`, every other
/// character stays.
pub open spec fn ascii_lower(c: char) -> char {
    if 0x41 <= (c as u32) <= 0x5a {
        ((c as u32) + 0x20) as char
    } else {
        c
    }
}

/// Lowercases a string slice.
///
/// Calls std's `str::to_lowercase`. The contract names the result, which is
/// a function of the argument's characters, and states what the documented
/// mapping gives on ASCII text: each capital letter becomes its small
/// letter and every other ASCII character stays (so the empty string stays
/// empty). What it gives on other characters (the Unicode case tables) is
/// left unstated.
#[verifier::external_body]
pub(crate) fn to_lowercase(s: &str) -> (r: String)
    ensures
        r@ == lowercase(s@),
        (forall|i: int| 0 <= i < s@.len() ==> is_ascii_char(#[trigger] s@[i])) ==> r@ == s@.map_values(
            |c: char| ascii_lower(c),
        ),
{
    s.to_lowercase()
}

/// Whether `char::is_alphanumeric` holds of a character (Unicode `Alphabetic`
/// or `Numeric`).
pub uninterp spec fn alphanumeric(c: char) -> bool;

/// An ASCII letter or digit.
pub open spec fn ascii_alnum(c: char) -> bool {
    let u = c as u32;
    (0x30 <= u <= 0x39) || (0x41 <= u <= 0x5a) || (0x61 <= u <= 0x7a)
}

/// Calls std's `char::is_alphanumeric`; the contract names the result, which
/// depends on the character alone, and states the ASCII cases, where
/// `Alphabetic` and `Numeric` are the letters and the digits. Which other
/// characters are alphanumeric is left unstated.
#[verifier::external_body]
pub(crate) fn is_alphanumeric(c: char) -> (r: bool)
    ensures
        r == alphanumeric(c),
        is_ascii_char(c) ==> r == ascii_alnum(c),
{
    c.is_alphanumeric()
}

/// `s` without its last character, if it has one.
pub open spec fn popped(s: Seq<char>) -> Seq<char> {
    if s.len() > 0 {
        s.drop_last()
    } else {
        s
    }
}

/// Removes the last character of a `String`, as `String::pop`.
pub fn pop_char(s: &mut String)
    ensures
        final(s)@ == popped(old(s)@),
{
    let mut cs = chars_of(s.as_str());
    if cs.len() > 0 {
        cs.pop();
    }
    *s = string_of(&cs);
}

/// A `String` holding exactly the given characters.
pub fn string_of(cs: &[char]) -> (r: String)
    ensures
        r@ == cs@,
{
    let mut s = String::new();
    let mut i: usize = 0;
    while i < cs.len()
        invariant
            i <= cs@.len(),
            s@ == cs@.take(i as int),
        decreases cs@.len() - i,
    {
        push_char(&mut s, cs[i]);
        i = i + 1;
        assert(s@ =~= cs@.take(i as int));
    }
    assert(cs@.take(cs@.len() as int) =~= cs@);
    s
}

/// `a` followed by `b`.
pub fn concat(a: &str, b: &str) -> (r: String)
    ensures
        r@ == a@ + b@,
{
    let mut cs = chars_of(a);
    let bs = chars_of(b);
    let mut i: usize = 0;
    while i < bs.len()
        invariant
            i <= bs@.len(),
            cs@ == a@ + bs@.take(i as int),
            bs@ == b@,
        decreases bs@.len() - i,
    {
        cs.push(bs[i]);
        i = i + 1;
        assert(cs@ =~= a@ + bs@.take(i as int));
    }
    assert(bs@.take(bs@.len() as int) =~= bs@);
    string_of(&cs)
}

/// Whether two string slices hold the same characters.
pub fn str_eq(a: &str, b: &str) -> (r: bool)
    ensures
        r == (a@ == b@),
{
    let x = chars_of(a);
    let y = chars_of(b);
    seq_eq(&x, &y)
}

/// Whether two character slices are equal.
pub fn seq_eq(x: &[char], y: &[char]) -> (r: bool)
    ensures
        r == (x@ == y@),
{
    if x.len() != y.len() {
        return false;
    }
    let mut i: usize = 0;
    while i < x.len()
        invariant
            x@.len() == y@.len(),
            i <= x@.len(),
            forall|j: int| 0 <= j < i ==> x@[j] == y@[j],
        decreases x@.len() - i,
    {
        if x[i] != y[i] {
            return false;
        }
        i = i + 1;
    }
    assert(x@ =~= y@);
    true
}

/// `q` occurs in `s` starting at position `i`.
pub open spec fn occurs_at(s: Seq<char>, q: Seq<char>, i: int) -> bool {
    0 <= i && i + q.len() <= s.len() && s.subrange(i, i + q.len()) == q
}

/// `q` occurs somewhere in `s` (the empty sequence occurs everywhere).
pub open spec fn seq_contains(s: Seq<char>, q: Seq<char>) -> bool {
    exists|i: int| occurs_at(s, q, i)
}

/// Whether `q` occurs in `s` at position `i`.
pub fn matches_at(s: &[char], q: &[char], i: usize) -> (r: bool)
    ensures
        r == occurs_at(s@, q@, i as int),
{
    let sl = s.len();
    if i > sl || q.len() > sl - i {
        return false;
    }
    let mut k: usize = 0;
    while k < q.len()
        invariant
            sl == s@.len(),
            i + q@.len() <= s@.len(),
            k <= q@.len(),
            forall|j: int| 0 <= j < k ==> s@[i + j] == q@[j],
        decreases q@.len() - k,
    {
        if s[i + k] != q[k] {
            assert(s@.subrange(i as int, i + q@.len())[k as int] != q@[k as int]);
            return false;
        }
        k = k + 1;
    }
    assert(s@.subrange(i as int, i + q@.len()) =~= q@);
    true
}

/// Whether `q` occurs in `s`, as `str::contains` with a string pattern.
pub fn contains_seq(s: &[char], q: &[char]) -> (r: bool)
    ensures
        r == seq_contains(s@, q@),
{
    if q.len() > s.len() {
        assert forall|i: int| !occurs_at(s@, q@, i) by {}
        return false;
    }
    let last = s.len() - q.len();
    let mut i: usize = 0;
    while i < last
        invariant
            last == s@.len() - q@.len(),
            i <= last,
            forall|j: int| 0 <= j < i ==> !occurs_at(s@, q@, j),
        decreases last - i,
    {
        if matches_at(s, q, i) {
            return true;
        }
        i = i + 1;
    }
    if matches_at(s, q, last) {
        return true;
    }
    assert forall|j: int| !occurs_at(s@, q@, j) by {}
    false
}

/// Whether `q` is a prefix of `s`, as `str::starts_with`.
pub fn starts_with_seq(s: &[char], q: &[char]) -> (r: bool)
    ensures
        r == q@.is_prefix_of(s@),
{
    let r = matches_at(s, q, 0);
    proof {
        if r {
            assert forall|j: int| 0 <= j < q@.len() implies q@[j] == s@[j] by {
                assert(s@.subrange(0, q@.len() as int)[j] == s@[j]);
            }
        } else if q@.len() <= s@.len() {
            if q@.is_prefix_of(s@) {
                assert(s@.subrange(0, q@.len() as int) =~= q@);
            }
        }
    }
    r
}

/// `s` with leading `White_Space` removed.
pub open spec fn trim_start(s: Seq<char>) -> Seq<char>
    decreases s.len(),
{
    if s.len() > 0 && is_ws(s[0]) {
        trim_start(s.drop_first())
    } else {
        s
    }
}

/// `s` with trailing `White_Space` removed.
pub open spec fn trim_end(s: Seq<char>) -> Seq<char>
    decreases s.len(),
{
    if s.len() > 0 && is_ws(s.last()) {
        trim_end(s.drop_last())
    } else {
        s
    }
}

/// `s` with leading and trailing `White_Space` removed, as `str::trim`.
pub open spec fn trim(s: Seq<char>) -> Seq<char> {
    trim_end(trim_start(s))
}

/// Trims leading and trailing whitespace, as `str::trim`.
pub fn trim_chars(s: &[char]) -> (r: Vec<char>)
    ensures
        r@ == trim(s@),
{
    let n = s.len();
    let mut i: usize = 0;
    assert(s@.subrange(0, n as int) =~= s@);
    while i < n && is_whitespace(s[i])
        invariant
            n == s@.len(),
            i <= n,
            trim_start(s@) == trim_start(s@.subrange(i as int, n as int)),
        decreases n - i,
    {
        assert(s@.subrange(i as int, n as int).drop_first() =~= s@.subrange(i + 1, n as int));
        i = i + 1;
    }
    assert(trim_start(s@) == s@.subrange(i as int, n as int));
    let mut j: usize = n;
    while j > i && is_whitespace(s[j - 1])
        invariant
            n == s@.len(),
            i <= j <= n,
            trim(s@) == trim_end(s@.subrange(i as int, j as int)),
        decreases j,
    {
        assert(s@.subrange(i as int, j as int).drop_last() =~= s@.subrange(i as int, j - 1));
        j = j - 1;
    }
    let mut r: Vec<char> = Vec::new();
    let mut k: usize = i;
    while k < j
        invariant
            n == s@.len(),
            i <= k <= j <= n,
            r@ == s@.subrange(i as int, k as int),
        decreases j - k,
    {
        r.push(s[k]);
        k = k + 1;
        assert(r@ =~= s@.subrange(i as int, k as int));
    }
    r
}

/// The maximal runs of non-`White_Space` characters of `s`, in order, as
/// `str::split_whitespace` yields them.
pub open spec fn words(s: Seq<char>) -> Seq<Seq<char>>
    decreases s.len(),
{
    if s.len() == 0 {
        Seq::empty()
    } else {
        let w = words(s.drop_last());
        if is_ws(s.last()) {
            w
        } else if s.len() >= 2 && !is_ws(s[s.len() - 2]) {
            w.update(w.len() - 1, w.last().push(s.last()))
        } else {
            w.push(seq![s.last()])
        }
    }
}

/// `s` holds no `White_Space`.
pub open spec fn no_ws(s: Seq<char>) -> bool {
    forall|k: int| 0 <= k < s.len() ==> !is_ws(#[trigger] s[k])
}

/// A non-empty text without `White_Space` is its own trim and its only word.
pub proof fn lemma_single_word(s: Seq<char>)
    requires
        s.len() > 0,
        no_ws(s),
    ensures
        trim(s) == s,
        words(s) == seq![s],
    decreases s.len(),
{
    assert(!is_ws(s[0]));
    assert(!is_ws(s[s.len() - 1]));
    assert(trim_start(s) == s);
    assert(trim_end(s) == s);
    if s.len() == 1 {
        assert(s.drop_last() =~= Seq::<char>::empty());
        assert(words(s.drop_last()) == Seq::<Seq<char>>::empty());
        assert(seq![s.last()] =~= s);
        assert(words(s) == Seq::<Seq<char>>::empty().push(seq![s.last()]));
        assert(Seq::<Seq<char>>::empty().push(seq![s.last()]) =~= seq![s]);
    } else {
        let d = s.drop_last();
        assert(no_ws(d)) by {
            assert forall|k: int| 0 <= k < d.len() implies !is_ws(#[trigger] d[k]) by {
                assert(d[k] == s[k]);
            }
        }
        lemma_single_word(d);
        assert(!is_ws(s[s.len() - 2]));
        assert(d.push(s.last()) =~= s);
        let w = words(d);
        assert(w.last() == d);
        assert(words(s) == w.update(w.len() - 1, w.last().push(s.last())));
        assert(w.update(0, d.push(s.last())) =~= seq![s]);
    }
}

/// Two non-empty texts without `White_Space`, joined by a space, are their
/// own trim and have those two words.
pub proof fn lemma_two_words(a: Seq<char>, b: Seq<char>)
    requires
        a.len() > 0,
        b.len() > 0,
        no_ws(a),
        no_ws(b),
    ensures
        trim(a + seq![' '] + b) == a + seq![' '] + b,
        words(a + seq![' '] + b) == seq![a, b],
    decreases b.len(),
{
    let s = a + seq![' '] + b;
    assert(is_ws(' '));
    assert(s[0] == a[0]);
    assert(!is_ws(a[0]));
    assert(s.last() == b.last());
    assert(!is_ws(b[b.len() - 1]));
    assert(trim_start(s) == s);
    assert(trim_end(s) == s);
    lemma_single_word(a);
    if b.len() == 1 {
        let d = s.drop_last();
        assert(d =~= a + seq![' ']);
        assert(d.drop_last() =~= a);
        assert(words(d) == words(a));
        assert(s[s.len() - 2] == ' ');
        assert(seq![s.last()] =~= b);
        assert(words(s) == words(d).push(seq![s.last()]));
        assert(seq![a].push(b) =~= seq![a, b]);
    } else {
        let e = b.drop_last();
        assert(no_ws(e)) by {
            assert forall|k: int| 0 <= k < e.len() implies !is_ws(#[trigger] e[k]) by {
                assert(e[k] == b[k]);
            }
        }
        lemma_two_words(a, e);
        assert(s.drop_last() =~= a + seq![' '] + e);
        assert(s[s.len() - 2] == b[b.len() - 2]);
        assert(!is_ws(b[b.len() - 2]));
        assert(e.push(b.last()) =~= b);
        let w = words(s.drop_last());
        assert(w == seq![a, e]);
        assert(words(s) == w.update(w.len() - 1, w.last().push(s.last())));
        assert(w.update(1, e.push(b.last())) =~= seq![a, b]);
    }
}

/// A text ending in a non-blank has a word.
pub proof fn lemma_words_nonempty(s: Seq<char>)
    requires
        s.len() > 0,
        !is_ws(s.last()),
    ensures
        words(s).len() > 0,
    decreases s.len(),
{
    if s.len() >= 2 && !is_ws(s[s.len() - 2]) {
        assert(s.drop_last().last() == s[s.len() - 2]);
        lemma_words_nonempty(s.drop_last());
    }
}

proof fn lemma_trim_end_last(s: Seq<char>)
    ensures
        trim_end(s).len() > 0 ==> !is_ws(trim_end(s).last()),
    decreases s.len(),
{
    if s.len() > 0 && is_ws(s.last()) {
        lemma_trim_end_last(s.drop_last());
    }
}

/// A string that is not blank once trimmed has a first word.
pub proof fn lemma_trim_words(s: Seq<char>)
    ensures
        trim(s).len() > 0 ==> words(trim(s)).len() > 0,
{
    lemma_trim_end_last(trim_start(s));
    if trim(s).len() > 0 {
        lemma_words_nonempty(trim(s));
    }
}

/// The characters of each word.
pub open spec fn views_of(ws: Seq<Vec<char>>) -> Seq<Seq<char>> {
    ws.map_values(|w: Vec<char>| w@)
}

/// Splits on `White_Space`, as `str::split_whitespace`.
pub fn split_words(s: &[char]) -> (r: Vec<Vec<char>>)
    ensures
        views_of(r@) == words(s@),
{
    let mut done: Vec<Vec<char>> = Vec::new();
    let mut cur: Vec<char> = Vec::new();
    let n = s.len();
    let mut i: usize = 0;
    while i < n
        invariant
            n == s@.len(),
            i <= n,
            cur@.len() > 0 <==> (i > 0 && !is_ws(s@[i - 1])),
            cur@.len() > 0 ==> words(s@.take(i as int)) == views_of(done@).push(cur@),
            cur@.len() == 0 ==> words(s@.take(i as int)) == views_of(done@),
        decreases n - i,
    {
        let c = s[i];
        proof {
            assert(s@.take(i + 1).drop_last() =~= s@.take(i as int));
            assert(s@.take(i + 1).last() == c);
            if i > 0 {
                assert(s@.take(i + 1)[i - 1] == s@[i - 1]);
            }
        }
        if is_whitespace(c) {
            if cur.len() > 0 {
                let w = cur;
                cur = Vec::new();
                done.push(w);
                assert(views_of(done@) =~= views_of(done@.drop_last()).push(w@));
            }
        } else {
            let ghost old_cur = cur@;
            cur.push(c);
            proof {
                if old_cur.len() > 0 {
                    let w = words(s@.take(i as int));
                    assert(w.update(w.len() - 1, w.last().push(c)) =~= views_of(done@).push(cur@));
                } else {
                    assert(cur@ =~= seq![c]);
                }
            }
        }
        i = i + 1;
    }
    assert(s@.take(n as int) =~= s@);
    if cur.len() > 0 {
        let w = cur;
        done.push(w);
        assert(views_of(done@) =~= views_of(done@.drop_last()).push(w@));
    }
    done
}

/// The words of `ws` separated by `sep`, as `[&str]::join`.
pub open spec fn join(ws: Seq<Seq<char>>, sep: Seq<char>) -> Seq<char>
    decreases ws.len(),
{
    if ws.len() == 0 {
        Seq::empty()
    } else if ws.len() == 1 {
        ws[0]
    } else {
        join(ws.drop_last(), sep) + sep + ws.last()
    }
}

/// Joins `ws[from..]` with single spaces.
pub fn join_spaces(ws: &Vec<Vec<char>>, from: usize) -> (r: Vec<char>)
    requires
        from <= ws@.len(),
    ensures
        r@ == join(views_of(ws@).skip(from as int), seq![' ']),
{
    let mut r: Vec<char> = Vec::new();
    let mut i: usize = from;
    while i < ws.len()
        invariant
            from <= i <= ws@.len(),
            r@ == join(views_of(ws@).subrange(from as int, i as int), seq![' ']),
        decreases ws@.len() - i,
    {
        let ghost before = r@;
        if i > from {
            r.push(' ');
        }
        let w = &ws[i];
        let mut k: usize = 0;
        let ghost mid = r@;
        while k < w.len()
            invariant
                k <= w@.len(),
                r@ == mid + w@.take(k as int),
            decreases w@.len() - k,
        {
            r.push(w[k]);
            k = k + 1;
            assert(r@ =~= mid + w@.take(k as int));
        }
        proof {
            assert(w@.take(w@.len() as int) =~= w@);
            let vs = views_of(ws@).subrange(from as int, i + 1);
            assert(vs.drop_last() =~= views_of(ws@).subrange(from as int, i as int));
            assert(vs.last() == w@);
            if i == from {
                assert(vs.len() == 1);
                assert(r@ =~= vs[0]);
            } else {
                assert(r@ =~= join(vs.drop_last(), seq![' ']) + seq![' '] + vs.last());
            }
        }
        i = i + 1;
    }
    assert(views_of(ws@).subrange(from as int, ws@.len() as int) =~= views_of(ws@).skip(from as int));
    r
}

} // verus!
