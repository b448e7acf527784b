//! Turning opencode's stored rows into sessions: model names, message
//! previews, conversation messages, project names and directories.
use vstd::prelude::*;
use crate::commands::{utf8_len, utf8_width};
use crate::json::{Json, json_parse, json_get, json_str, json_get_str, parse_json, get, as_str, get_str};
use crate::model::{Project, Session, opt_view};
use crate::text::{chars_of, concat, string_of, str_eq};

verus! {

/// The model name stored for a session: the `id` of the model column's JSON
/// object when it has a string one, else the column itself; nothing for an
/// empty or missing column. `parsed` is the column parsed as JSON.
pub open spec fn model_name_of(raw: Seq<char>, parsed: Option<Json>) -> Option<Seq<char>> {
    if raw.len() == 0 {
        None
    } else {
        match parsed {
            Some(v) => match json_get_str(v, "id"@) {
                Some(id) => Some(id),
                None => Some(raw),
            },
            None => Some(raw),
        }
    }
}

/// The model name of a non-missing model column, given its JSON parse.
pub fn model_name_from(raw: &str, parsed: &Option<Json>) -> (r: Option<String>)
    ensures
        opt_view(r) == model_name_of(raw@, *parsed),
{
    if raw.is_empty() {
        return None;
    }
    match parsed {
        Some(v) => match get_str(v, "id") {
            Some(id) => Some(id.to_owned()),
            None => Some(raw.to_owned()),
        },
        None => Some(raw.to_owned()),
    }
}

/// The model name of the model column `raw`.
pub fn parse_model_name(raw: Option<String>) -> (r: Option<String>)
    ensures
        opt_view(r) == match raw {
            Some(s) => model_name_of(s@, json_parse(s@)),
            None => None,
        },
{
    match raw {
        Some(s) => {
            if s.as_str().is_empty() {
                return None;
            }
            let parsed = parse_json(s.as_str());
            model_name_from(s.as_str(), &parsed)
        },
        None => None,
    }
}

/// The largest number of bytes a preview keeps.
pub const PREVIEW_BYTES: usize = 300;

/// The longest prefix of `t` that has at most `n` bytes: `&s[..m]` for the
/// last character boundary `m` at or before byte `n` (all of `t` if it is
/// no longer).
pub open spec fn byte_prefix_of(t: Seq<char>, n: int) -> Seq<char>
    decreases t.len(),
{
    if utf8_len(t) <= n || t.len() == 0 {
        t
    } else {
        byte_prefix_of(t.drop_last(), n)
    }
}

/// A preview of `t`: `t` itself if it has at most 300 bytes, else its
/// longest prefix of at most 300 bytes and `...`.
pub open spec fn truncated(t: Seq<char>) -> Seq<char> {
    if utf8_len(t) <= 300 {
        t
    } else {
        byte_prefix_of(t, 300) + "..."@
    }
}

proof fn lemma_utf8_len_take(t: Seq<char>, i: int)
    requires
        0 <= i < t.len(),
    ensures
        utf8_len(t.take(i + 1)) == utf8_len(t.take(i)) + utf8_width(t[i]),
        utf8_width(t[i]) >= 1,
{
    assert(t.take(i + 1).drop_last() =~= t.take(i));
}

proof fn lemma_utf8_len_mono(t: Seq<char>, i: int, j: int)
    requires
        0 <= i < j <= t.len(),
    ensures
        utf8_len(t.take(i)) < utf8_len(t.take(j)),
    decreases j - i,
{
    lemma_utf8_len_take(t, j - 1);
    if i < j - 1 {
        lemma_utf8_len_mono(t, i, j - 1);
    }
}

proof fn lemma_utf8_len_concat(a: Seq<char>, b: Seq<char>)
    ensures
        utf8_len(a + b) == utf8_len(a) + utf8_len(b),
    decreases b.len(),
{
    if b.len() == 0 {
        assert(a + b =~= a);
    } else {
        assert((a + b).drop_last() =~= a + b.drop_last());
        lemma_utf8_len_concat(a, b.drop_last());
    }
}

/// The longest prefix of at most `n` bytes is the prefix of `k` characters
/// when those have at most `n` bytes and one more character would pass `n`.
proof fn lemma_byte_prefix(t: Seq<char>, n: int, k: int)
    requires
        0 <= k <= t.len(),
        utf8_len(t.take(k)) <= n,
        k == t.len() || utf8_len(t.take(k + 1)) > n,
    ensures
        byte_prefix_of(t, n) == t.take(k),
    decreases t.len(),
{
    assert(t.take(t.len() as int) =~= t);
    if utf8_len(t) <= n || t.len() == 0 {
        if k + 1 < t.len() {
            lemma_utf8_len_mono(t, k + 1, t.len() as int);
        }
    } else {
        let u = t.drop_last();
        assert(u.take(k) =~= t.take(k));
        if k < u.len() {
            assert(u.take(k + 1) =~= t.take(k + 1));
        }
        lemma_byte_prefix(u, n, k);
    }
}

/// The number of characters of the longest prefix of `t.take(j)` that has
/// at most `n` bytes.
proof fn longest_fitting(t: Seq<char>, n: int, j: int) -> (k: int)
    requires
        0 <= j <= t.len(),
        n >= 0,
    ensures
        0 <= k <= j,
        utf8_len(t.take(k)) <= n,
        k == j || utf8_len(t.take(k + 1)) > n,
    decreases j,
{
    if utf8_len(t.take(j)) <= n {
        j
    } else {
        if j == 0 {
            assert(t.take(0) =~= Seq::<char>::empty());
        }
        longest_fitting(t, n, j - 1)
    }
}

/// A preview is at most 303 bytes long: the whole text when it has at most
/// 300 bytes, else the longest start of it that has at most 300 bytes,
/// followed by `...`.
pub proof fn law_preview_size(t: Seq<char>)
    ensures
        utf8_len(truncated(t)) <= 303,
        utf8_len(t) <= 300 ==> truncated(t) == t,
        utf8_len(t) > 300 ==> exists|k: int|
            0 <= k < t.len() && truncated(t) == t.take(k) + "..."@ && utf8_len(#[trigger] t.take(k))
                <= 300 < utf8_len(t.take(k + 1)),
{
    if utf8_len(t) > 300 {
        assert(t.take(t.len() as int) =~= t);
        let k = longest_fitting(t, 300, t.len() as int);
        lemma_byte_prefix(t, 300, k);
        reveal_strlit("...");
        assert("..."@ =~= seq!['.', '.', '.']);
        assert(utf8_len(seq!['.', '.', '.']) == 3) by {
            reveal_with_fuel(utf8_len, 4);
        }
        lemma_utf8_len_concat(t.take(k), "..."@);
    }
}

/// Scans `cs` for the first position where at least `n` bytes have been
/// passed (or its end): the position and the bytes up to it.
fn scan_bytes(cs: &Vec<char>, n: usize) -> (r: (usize, usize))
    requires
        n < usize::MAX - 4,
    ensures
        r.0 <= cs@.len(),
        r.1 == utf8_len(cs@.take(r.0 as int)),
        r.1 < n ==> r.0 == cs@.len(),
        r.0 > 0 ==> utf8_len(cs@.take(r.0 - 1)) < n,
{
    let len = cs.len();
    let mut bytes: usize = 0;
    let mut i: usize = 0;
    assert(cs@.take(0) =~= Seq::<char>::empty());
    while i < len && bytes < n
        invariant
            n < usize::MAX - 4,
            len == cs@.len(),
            i <= len,
            bytes == utf8_len(cs@.take(i as int)),
            bytes < n + 4,
            i > 0 ==> utf8_len(cs@.take(i - 1)) < n,
        decreases len - i,
    {
        proof {
            lemma_utf8_len_take(cs@, i as int);
        }
        let u = cs[i] as u32;
        let w: usize = if u < 0x80 {
            1
        } else if u < 0x800 {
            2
        } else if u < 0x10000 {
            3
        } else {
            4
        };
        bytes = bytes + w;
        i = i + 1;
    }
    (i, bytes)
}

/// The longest prefix of `text` that has at most `n` bytes.
pub fn byte_prefix(text: &str, n: usize) -> (r: String)
    requires
        n < usize::MAX - 4,
    ensures
        r@ == byte_prefix_of(text@, n as int),
{
    let mut cs = chars_of(text);
    let (i, bytes) = scan_bytes(&cs, n);
    let ghost t = cs@;
    if bytes <= n {
        proof {
            if i < t.len() {
                lemma_utf8_len_take(t, i as int);
            }
            lemma_byte_prefix(t, n as int, i as int);
        }
        cs.truncate(i);
    } else {
        proof {
            if i == 0 {
                assert(t.take(0) =~= Seq::<char>::empty());
            }
            lemma_byte_prefix(t, n as int, i - 1);
        }
        cs.truncate(i - 1);
    }
    proof {
        assert(cs@ =~= byte_prefix_of(t, n as int));
    }
    string_of(&cs)
}

/// Cuts a preview down to `PREVIEW_BYTES` bytes, marking the cut with `...`.
pub fn truncate(text: &str) -> (r: String)
    ensures
        r@ == truncated(text@),
{
    let cs = chars_of(text);
    let (i, bytes) = scan_bytes(&cs, PREVIEW_BYTES);
    if bytes <= PREVIEW_BYTES && i == cs.len() {
        assert(cs@.take(i as int) =~= cs@);
        return text.to_owned();
    }
    proof {
        let t = cs@;
        if i < t.len() {
            lemma_utf8_len_mono(t, i as int, t.len() as int);
        }
        assert(t.take(t.len() as int) =~= t);
    }
    let head = byte_prefix(text, PREVIEW_BYTES);
    concat(head.as_str(), "...")
}

/// The text a stored message part shows: its string `text` member, else its
/// string `content` member.
pub open spec fn preview_text(parsed: Option<Json>) -> Option<Seq<char>> {
    match parsed {
        Some(v) => match json_get_str(v, "text"@) {
            Some(t) => Some(t),
            None => json_get_str(v, "content"@),
        },
        None => None,
    }
}

/// The preview of a message part, given its JSON parse: its text, cut to
/// 300 bytes.
pub fn text_preview_from(parsed: &Option<Json>) -> (r: Option<String>)
    ensures
        opt_view(r) == match preview_text(*parsed) {
            Some(t) => Some(truncated(t)),
            None => None,
        },
{
    match parsed {
        Some(v) => match get_str(v, "text") {
            Some(t) => Some(truncate(t)),
            None => match get_str(v, "content") {
                Some(c) => Some(truncate(c)),
                None => None,
            },
        },
        None => None,
    }
}

/// The preview of the message part stored as the JSON text `data`.
pub fn extract_text_preview(data: &str) -> (r: Option<String>)
    ensures
        opt_view(r) == match preview_text(json_parse(data@)) {
            Some(t) => Some(truncated(t)),
            None => None,
        },
{
    let parsed = parse_json(data);
    text_preview_from(&parsed)
}

/// The text of the first of the parts `ds` that has one.
pub open spec fn first_text(ds: Seq<Seq<char>>) -> Option<Seq<char>>
    decreases ds.len(),
{
    if ds.len() == 0 {
        None
    } else {
        match preview_text(json_parse(ds[0])) {
            Some(t) => Some(t),
            None => first_text(ds.drop_first()),
        }
    }
}

/// The preview of a session's first message: that of the first of its parts
/// (stored as the JSON texts `parts`) that has a text.
pub fn first_text_preview(parts: &Vec<String>) -> (r: Option<String>)
    ensures
        opt_view(r) == match first_text(string_views(parts@)) {
            Some(t) => Some(truncated(t)),
            None => None,
        },
{
    let ghost ds = string_views(parts@);
    let mut i: usize = 0;
    assert(ds.skip(0) =~= ds);
    while i < parts.len()
        invariant
            ds == string_views(parts@),
            i <= parts@.len(),
            first_text(ds) == first_text(ds.skip(i as int)),
        decreases parts@.len() - i,
    {
        assert(ds.skip(i as int)[0] == parts@[i as int]@);
        assert(ds.skip(i as int).drop_first() =~= ds.skip(i + 1));
        match extract_text_preview(parts[i].as_str()) {
            Some(p) => {
                return Some(p);
            },
            None => {},
        }
        i = i + 1;
    }
    assert(ds.skip(i as int) =~= Seq::<Seq<char>>::empty());
    None
}

/// The role and text of a stored message part: its `role` (or `unknown`),
/// and its `text` member (or, without one, its `content` member) when that
/// is a non-empty string.
pub open spec fn message_of(parsed: Option<Json>) -> Option<(Seq<char>, Seq<char>)> {
    match parsed {
        None => None,
        Some(v) => {
            let role = match json_get_str(v, "role"@) {
                Some(r) => r,
                None => "unknown"@,
            };
            let text = match json_get(v, "text"@) {
                Some(t) => json_str(t),
                None => json_get_str(v, "content"@),
            };
            match text {
                Some(t) => if t.len() > 0 {
                    Some((role, t))
                } else {
                    None
                },
                None => None,
            }
        },
    }
}

/// The characters of a pair of strings.
pub open spec fn pair_view(p: (String, String)) -> (Seq<char>, Seq<char>) {
    (p.0@, p.1@)
}

/// The message of a part, given its JSON parse.
pub fn message_from(parsed: &Option<Json>) -> (r: Option<(String, String)>)
    ensures
        match r {
            Some(p) => message_of(*parsed) == Some(pair_view(p)),
            None => message_of(*parsed) is None,
        },
{
    match parsed {
        None => None,
        Some(v) => {
            let role: String = match get_str(v, "role") {
                Some(r) => r.to_owned(),
                None => "unknown".to_owned(),
            };
            let text: Option<&str> = match get(v, "text") {
                Some(t) => as_str(t),
                None => get_str(v, "content"),
            };
            match text {
                Some(t) => if t.is_empty() {
                    None
                } else {
                    Some((role, t.to_owned()))
                },
                None => None,
            }
        },
    }
}

/// The message of the part stored as `data`.
pub fn message_from_part(data: &str) -> (r: Option<(String, String)>)
    ensures
        match r {
            Some(p) => message_of(json_parse(data@)) == Some(pair_view(p)),
            None => message_of(json_parse(data@)) is None,
        },
{
    let parsed = parse_json(data);
    message_from(&parsed)
}

/// The messages of the parts `ds`, in order, skipping parts without one.
pub open spec fn messages_of(ds: Seq<Seq<char>>) -> Seq<(Seq<char>, Seq<char>)>
    decreases ds.len(),
{
    if ds.len() == 0 {
        Seq::empty()
    } else {
        let prev = messages_of(ds.drop_last());
        match message_of(json_parse(ds.last())) {
            Some(m) => prev.push(m),
            None => prev,
        }
    }
}

/// The characters of each string.
pub open spec fn string_views(v: Seq<String>) -> Seq<Seq<char>> {
    v.map_values(|s: String| s@)
}

/// The characters of each pair of strings.
pub open spec fn pair_views(v: Seq<(String, String)>) -> Seq<(Seq<char>, Seq<char>)> {
    v.map_values(|p: (String, String)| pair_view(p))
}

/// The messages of a session's parts, stored as the JSON texts `parts`.
pub fn messages_from_parts(parts: &Vec<String>) -> (r: Vec<(String, String)>)
    ensures
        pair_views(r@) == messages_of(string_views(parts@)),
{
    let ghost ds = string_views(parts@);
    let mut out: Vec<(String, String)> = Vec::new();
    let mut i: usize = 0;
    assert(ds.take(0) =~= Seq::<Seq<char>>::empty());
    while i < parts.len()
        invariant
            ds == string_views(parts@),
            i <= parts@.len(),
            pair_views(out@) == messages_of(ds.take(i as int)),
        decreases parts@.len() - i,
    {
        assert(ds.take(i + 1).drop_last() =~= ds.take(i as int));
        assert(ds.take(i + 1).last() == parts@[i as int]@);
        match message_from_part(parts[i].as_str()) {
            Some(m) => {
                let ghost before = pair_views(out@);
                out.push(m);
                assert(pair_views(out@) =~= before.push(pair_view(m)));
            },
            None => {},
        }
        i = i + 1;
    }
    assert(ds.take(i as int) =~= ds);
    out
}


/// The project stored last with id `id`, as the keyed map built from the
/// rows in order holds it.
pub open spec fn project_entry(ps: Seq<Project>, id: Seq<char>) -> Option<Project>
    decreases ps.len(),
{
    if ps.len() == 0 {
        None
    } else if ps.last().id@ == id {
        Some(ps.last())
    } else {
        project_entry(ps.drop_last(), id)
    }
}

/// The name shown for project `id`: its name, or empty when it has none or
/// is unknown.
pub open spec fn project_name_of(ps: Seq<Project>, id: Seq<char>) -> Seq<char> {
    match project_entry(ps, id) {
        Some(p) => match p.name {
            Some(n) => n@,
            None => Seq::empty(),
        },
        None => Seq::empty(),
    }
}

/// The name shown for project `id`.
pub fn project_name_for(projects: &Vec<Project>, id: &str) -> (r: String)
    ensures
        r@ == project_name_of(projects@, id@),
{
    let mut i: usize = projects.len();
    assert(projects@.take(projects@.len() as int) =~= projects@);
    while i > 0
        invariant
            i <= projects@.len(),
            project_entry(projects@, id@) == project_entry(projects@.take(i as int), id@),
        decreases i,
    {
        assert(projects@.take(i as int).drop_last() =~= projects@.take(i - 1));
        let p = &projects[i - 1];
        if str_eq(p.id.as_str(), id) {
            return match &p.name {
                Some(n) => n.clone(),
                None => String::new(),
            };
        }
        i = i - 1;
    }
    String::new()
}

/// The directory stored last for project `id`.
pub open spec fn directory_of(ds: Seq<(String, String)>, id: Seq<char>) -> Option<Seq<char>>
    decreases ds.len(),
{
    if ds.len() == 0 {
        None
    } else if ds.last().0@ == id {
        Some(ds.last().1@)
    } else {
        directory_of(ds.drop_last(), id)
    }
}

/// The directory of project `id`, from the `(project, directory)` rows.
pub fn project_directory_for(dirs: &Vec<(String, String)>, id: &str) -> (r: Option<String>)
    ensures
        opt_view(r) == directory_of(dirs@, id@),
{
    let mut i: usize = dirs.len();
    assert(dirs@.take(dirs@.len() as int) =~= dirs@);
    while i > 0
        invariant
            i <= dirs@.len(),
            directory_of(dirs@, id@) == directory_of(dirs@.take(i as int), id@),
        decreases i,
    {
        assert(dirs@.take(i as int).drop_last() =~= dirs@.take(i - 1));
        if str_eq(dirs[i - 1].0.as_str(), id) {
            return Some(dirs[i - 1].1.clone());
        }
        i = i - 1;
    }
    None
}

/// `p` is `target` or one of its ancestors: its components begin the
/// target's.
pub open spec fn path_contains(p: Seq<Seq<char>>, target: Seq<Seq<char>>) -> bool {
    p.len() <= target.len() && target.take(p.len() as int) == p
}

/// The deepest project directory that is the target or contains it, with
/// its depth; of equally deep ones the first. A candidate without a
/// directory (one that could not be resolved) is passed over.
pub open spec fn best_match(target: Seq<Seq<char>>, cs: Seq<(Seq<char>, Option<Seq<Seq<char>>>)>) -> Option<(Seq<char>, int)>
    decreases cs.len(),
{
    if cs.len() == 0 {
        None
    } else {
        let prev = best_match(target, cs.drop_last());
        match cs.last().1 {
            Some(p) => if path_contains(p, target) && match prev {
                Some(b) => p.len() > b.1,
                None => true,
            } {
                Some((cs.last().0, p.len() as int))
            } else {
                prev
            },
            None => prev,
        }
    }
}

/// Directory `d` is `target` itself or one of its ancestors: it has no more
/// components than `target`, and they are `target`'s first ones.
pub open spec fn leads_to(d: Seq<Seq<char>>, target: Seq<Seq<char>>) -> bool {
    d.len() <= target.len() && forall|j: int| 0 <= j < d.len() ==> d[j] == target[j]
}

/// Candidate `k` has a directory that leads to `target`.
pub open spec fn candidate_hits(cs: Seq<(Seq<char>, Option<Seq<Seq<char>>>)>, k: int, target: Seq<Seq<char>>) -> bool {
    cs[k].1 matches Some(d) && leads_to(d, target)
}

/// The number of components of candidate `k`'s directory (0 without one).
pub open spec fn candidate_depth(cs: Seq<(Seq<char>, Option<Seq<Seq<char>>>)>, k: int) -> int {
    match cs[k].1 {
        Some(d) => d.len() as int,
        None => 0,
    }
}

proof fn lemma_contains_leads(d: Seq<Seq<char>>, target: Seq<Seq<char>>)
    ensures
        path_contains(d, target) <==> leads_to(d, target),
{
    if leads_to(d, target) {
        assert(target.take(d.len() as int) =~= d);
    }
    if path_contains(d, target) {
        assert forall|j: int| 0 <= j < d.len() implies d[j] == target[j] by {
            assert(target.take(d.len() as int)[j] == target[j]);
        }
    }
}

/// The project found for a directory: there is one exactly when some
/// candidate's directory is that directory or one of its ancestors (the
/// directory itself counts); and then it is such a candidate, at least as
/// deep as every other, and deeper than every such candidate before it.
pub proof fn law_best_match(target: Seq<Seq<char>>, cs: Seq<(Seq<char>, Option<Seq<Seq<char>>>)>)
    ensures
        (exists|k: int| 0 <= k < cs.len() && #[trigger] candidate_hits(cs, k, target)) <==> best_match(
            target,
            cs,
        ) is Some,
        best_match(target, cs) matches Some(b) ==> exists|k: int|
            0 <= k < cs.len() && #[trigger] candidate_hits(cs, k, target) && cs[k].0 == b.0
                && candidate_depth(cs, k) == b.1 && forall|m: int|
                0 <= m < cs.len() && #[trigger] candidate_hits(cs, m, target) ==> candidate_depth(cs, m)
                    <= b.1 && (m < k ==> candidate_depth(cs, m) < b.1),
    decreases cs.len(),
{
    if cs.len() > 0 {
        let q = cs.drop_last();
        let n = cs.len() - 1;
        law_best_match(target, q);
        assert forall|m: int| 0 <= m < n implies (#[trigger] candidate_hits(cs, m, target) == candidate_hits(
            q,
            m,
            target,
        ) && candidate_depth(cs, m) == candidate_depth(q, m) && cs[m] == q[m]) by {
            assert(cs[m] == q[m]);
        }
        let prev = best_match(target, q);
        match cs.last().1 {
            Some(d) => {
                lemma_contains_leads(d, target);
                assert(cs[n] == cs.last());
            },
            None => {
                assert(cs[n] == cs.last());
                assert(!candidate_hits(cs, n, target));
            },
        }
        if exists|k: int| 0 <= k < cs.len() && #[trigger] candidate_hits(cs, k, target) {
            let k = choose|k: int| 0 <= k < cs.len() && #[trigger] candidate_hits(cs, k, target);
            if k < n {
                assert(candidate_hits(q, k, target));
            }
        }
        if let Some(b) = best_match(target, cs) {
            if best_match(target, cs) == prev {
                if let Some(pb) = prev {
                    let k = choose|k: int|
                        0 <= k < q.len() && #[trigger] candidate_hits(q, k, target) && q[k].0 == pb.0
                            && candidate_depth(q, k) == pb.1 && forall|m: int|
                            0 <= m < q.len() && #[trigger] candidate_hits(q, m, target) ==> candidate_depth(q, m)
                                <= pb.1 && (m < k ==> candidate_depth(q, m) < pb.1);
                    assert(candidate_hits(cs, k, target));
                    assert forall|m: int|
                        0 <= m < cs.len() && #[trigger] candidate_hits(cs, m, target) implies candidate_depth(cs, m)
                            <= b.1 && (m < k ==> candidate_depth(cs, m) < b.1) by {
                        if m < n {
                            assert(candidate_hits(q, m, target));
                        }
                    }
                }
            } else {
                assert(candidate_hits(cs, n, target));
                assert forall|m: int|
                    0 <= m < cs.len() && #[trigger] candidate_hits(cs, m, target) implies candidate_depth(cs, m)
                        <= b.1 && (m < n ==> candidate_depth(cs, m) < b.1) by {
                    if m < n {
                        assert(candidate_hits(q, m, target));
                    }
                }
            }
        }
    }
}

/// The characters of each path component.
pub open spec fn path_view(p: Vec<String>) -> Seq<Seq<char>> {
    p@.map_values(|c: String| c@)
}

/// The characters of each candidate project and its directory.
pub open spec fn candidate_views(cs: Seq<(String, Option<Vec<String>>)>) -> Seq<(Seq<char>, Option<Seq<Seq<char>>>)> {
    cs.map_values(|c: (String, Option<Vec<String>>)| (c.0@, match c.1 {
        Some(p) => Some(path_view(p)),
        None => None,
    }))
}

/// Whether the path `p` is `target` or contains it, component by component.
fn contains_path(p: &Vec<String>, target: &Vec<String>) -> (r: bool)
    ensures
        r == path_contains(path_view(*p), path_view(*target)),
{
    if p.len() > target.len() {
        return false;
    }
    let mut i: usize = 0;
    while i < p.len()
        invariant
            p@.len() <= target@.len(),
            i <= p@.len(),
            forall|k: int| 0 <= k < i ==> p@[k]@ == target@[k]@,
        decreases p@.len() - i,
    {
        if !str_eq(p[i].as_str(), target[i].as_str()) {
            assert(path_view(*target).take(p@.len() as int)[i as int] != path_view(*p)[i as int]);
            return false;
        }
        i = i + 1;
    }
    assert(path_view(*target).take(p@.len() as int) =~= path_view(*p));
    true
}

/// The project whose directory best contains `target`: the deepest of the
/// candidates' directories that is `target` or an ancestor of it, the first
/// of equally deep ones. Paths are given as their components.
pub fn best_project_match(target: &Vec<String>, candidates: &Vec<(String, Option<Vec<String>>)>) -> (r: Option<String>)
    ensures
        opt_view(r) == match best_match(path_view(*target), candidate_views(candidates@)) {
            Some(b) => Some(b.0),
            None => None,
        },
{
    let ghost cv = candidate_views(candidates@);
    let ghost tv = path_view(*target);
    let mut best: Option<(String, usize)> = None;
    let mut i: usize = 0;
    assert(cv.take(0) =~= Seq::<(Seq<char>, Option<Seq<Seq<char>>>)>::empty());
    while i < candidates.len()
        invariant
            cv == candidate_views(candidates@),
            tv == path_view(*target),
            i <= candidates@.len(),
            match best_match(tv, cv.take(i as int)) {
                Some(b) => best matches Some(x) && x.0@ == b.0 && x.1 as int == b.1,
                None => best is None,
            },
        decreases candidates@.len() - i,
    {
        assert(cv.take(i + 1).drop_last() =~= cv.take(i as int));
        assert(cv.take(i + 1).last() == cv[i as int]);
        let c = &candidates[i];
        match &c.1 {
            Some(p) => {
                if contains_path(p, target) {
                    let deeper = match &best {
                        Some(b) => p.len() > b.1,
                        None => true,
                    };
                    if deeper {
                        best = Some((c.0.clone(), p.len()));
                    }
                }
            },
            None => {},
        }
        i = i + 1;
    }
    assert(cv.take(i as int) =~= cv);
    match best {
        Some(b) => Some(b.0),
        None => None,
    }
}

/// A session row as opencode's database stores it.
#[derive(Debug, Clone)]
pub struct SessionRow {
    pub id: String,
    pub project_id: String,
    pub slug: String,
    pub title: String,
    pub agent: Option<String>,
    pub model: Option<String>,
    pub time_created: i64,
    pub time_updated: i64,
    pub summary_files: i64,
}

/// The session a row describes: the project's name and directory looked up,
/// the model name read from the model column, and the preview and messages
/// as given.
pub fn build_session(
    row: SessionRow,
    projects: &Vec<Project>,
    dirs: &Vec<(String, String)>,
    first_message_preview: Option<String>,
    messages: Vec<(String, String)>,
) -> (r: Session)
    ensures
        r.id == row.id,
        r.project_id == row.project_id,
        r.slug == row.slug,
        r.title == row.title,
        r.agent == row.agent,
        r.project_name@ == project_name_of(projects@, row.project_id@),
        opt_view(r.project_directory) == directory_of(dirs@, row.project_id@),
        opt_view(r.model_name) == match row.model {
            Some(s) => model_name_of(s@, json_parse(s@)),
            None => None,
        },
        r.created_at == row.time_created,
        r.updated_at == row.time_updated,
        r.summary_files == row.summary_files,
        r.first_message_preview == first_message_preview,
        r.messages == messages,
{
    let project_name = project_name_for(projects, row.project_id.as_str());
    let project_directory = project_directory_for(dirs, row.project_id.as_str());
    let model_name = parse_model_name(row.model);
    Session {
        id: row.id,
        title: row.title,
        slug: row.slug,
        project_id: row.project_id,
        project_name,
        project_directory,
        agent: row.agent,
        model_name,
        created_at: row.time_created,
        updated_at: row.time_updated,
        summary_files: row.summary_files,
        first_message_preview,
        messages,
    }
}

} // verus!
