//! The `:` command line: the command table, fuzzy completion and the
//! commands themselves.
use vstd::prelude::*;
use crate::text::{trim, trim_chars, lemma_trim_words, push_char, concat, string_of, split_words, join_spaces, views_of, chars_of, to_lowercase, lowercase, seq_contains, contains_seq, seq_eq, starts_with_seq, str_eq, words, join, no_ws, lemma_single_word, lemma_two_words};
use crate::app::{lemma_refreshed_status, App, Suggestion, CommandResult, SortBy, Screen, clamped, refreshed, same_but_listing, status_is, next_sort, sort_name, sort_label};
use crate::number::{dec_usize, dec_string, parse_usize, fmt_decimal};
use crate::sort::{Keyed, KeyView, key_lt, key_of, keys_of, sort_keyed, lemma_seq_lt_irrefl};

verus! {

/// The number of bytes of `c` in UTF-8.
pub open spec fn utf8_width(c: char) -> int {
    let u = c as u32;
    if u < 0x80 {
        1
    } else if u < 0x800 {
        2
    } else if u < 0x10000 {
        3
    } else {
        4
    }
}

/// The number of bytes of `s` in UTF-8, which `str::len` returns.
pub open spec fn utf8_len(s: Seq<char>) -> int
    decreases s.len(),
{
    if s.len() == 0 {
        0
    } else {
        utf8_len(s.drop_last()) + utf8_width(s.last())
    }
}

/// `q` is a subsequence of `c`: its characters occur in `c` in order, not
/// necessarily next to each other.
pub open spec fn is_subseq(q: Seq<char>, c: Seq<char>) -> bool
    decreases c.len(),
{
    if q.len() == 0 {
        true
    } else if c.len() == 0 {
        false
    } else if c[0] == q[0] {
        is_subseq(q.drop_first(), c.drop_first())
    } else {
        is_subseq(q, c.drop_first())
    }
}

/// How well the (lowercased) query `q` matches the (lowercased) candidate
/// `c`; `None` when it does not match at all. An empty query matches with 0,
/// an exact match scores 1000, a prefix 500 plus the candidate's byte
/// length, a substring 200 plus it, a subsequence 100 minus it.
pub open spec fn fuzzy(q: Seq<char>, c: Seq<char>) -> Option<int> {
    if q.len() == 0 {
        Some(0)
    } else if c == q {
        Some(1000)
    } else if q.is_prefix_of(c) {
        Some(500 + utf8_len(c))
    } else if seq_contains(c, q) {
        Some(200 + utf8_len(c))
    } else if is_subseq(q, c) {
        Some(100 - utf8_len(c))
    } else {
        None
    }
}

/// The byte length of the characters `s`, as `str::len` of their string.
fn byte_len(s: &[char]) -> (r: i128)
    ensures
        r == utf8_len(s@),
        0 <= r <= 4 * (usize::MAX as int),
{
    let mut n: i128 = 0;
    let mut i: usize = 0;
    while i < s.len()
        invariant
            i <= s@.len(),
            n == utf8_len(s@.take(i as int)),
            0 <= n <= 4 * i,
        decreases s@.len() - i,
    {
        let u = s[i] as u32;
        let w: i128 = if u < 0x80 {
            1
        } else if u < 0x800 {
            2
        } else if u < 0x10000 {
            3
        } else {
            4
        };
        assert(s@.take(i + 1).drop_last() =~= s@.take(i as int));
        n = n + w;
        i = i + 1;
    }
    assert(s@.take(s@.len() as int) =~= s@);
    n
}

/// Whether `q` is a subsequence of `c`, matching greedily from the left.
fn subsequence(q: &[char], c: &[char]) -> (r: bool)
    ensures
        r == is_subseq(q@, c@),
{
    let mut qi: usize = 0;
    let mut ci: usize = 0;
    assert(q@.skip(0) =~= q@);
    assert(c@.skip(0) =~= c@);
    while ci < c.len()
        invariant
            qi <= q@.len(),
            ci <= c@.len(),
            is_subseq(q@, c@) == is_subseq(q@.skip(qi as int), c@.skip(ci as int)),
        decreases c@.len() - ci,
    {
        assert(c@.skip(ci as int).drop_first() =~= c@.skip(ci + 1));
        if qi < q.len() && c[ci] == q[qi] {
            assert(q@.skip(qi as int).drop_first() =~= q@.skip(qi + 1));
            qi = qi + 1;
        }
        ci = ci + 1;
    }
    qi == q.len()
}

/// Scores the lowercased candidate `c` against the lowercased query `q`.
///
/// Scores are `i128` so that adding a byte length to them cannot overflow.
pub fn score_lowered(q: &[char], c: &[char]) -> (r: Option<i128>)
    ensures
        match r {
            Some(x) => fuzzy(q@, c@) == Some(x as int),
            None => fuzzy(q@, c@) is None,
        },
        r matches Some(x) ==> x >= -4 * (usize::MAX as int),
{
    if q.len() == 0 {
        return Some(0);
    }
    if seq_eq(c, q) {
        return Some(1000);
    }
    let n = byte_len(c);
    if starts_with_seq(c, q) {
        return Some(500 + n);
    }
    if contains_seq(c, q) {
        return Some(200 + n);
    }
    if subsequence(q, c) {
        Some(100 - n)
    } else {
        None
    }
}

/// Scores `candidate` against `query` for completion, both lowercased first.
pub fn fuzzy_score(query: &str, candidate: &str) -> (r: Option<i128>)
    ensures
        match r {
            Some(x) => fuzzy(lowercase(query@), lowercase(candidate@)) == Some(x as int),
            None => fuzzy(lowercase(query@), lowercase(candidate@)) is None,
        },
        r matches Some(x) ==> x >= -4 * (usize::MAX as int),
{
    let ql = to_lowercase(query);
    let cl = to_lowercase(candidate);
    let q = chars_of(ql.as_str());
    let c = chars_of(cl.as_str());
    score_lowered(&q, &c)
}

/// An argument a command takes, with the values offered for completion.
#[derive(Debug, Clone)]
pub struct ArgSpec {
    pub name: &'static str,
    pub values: Vec<&'static str>,
}

/// A `:` command: its name, its aliases, what it does and its arguments.
#[derive(Debug, Clone)]
pub struct CommandSpec {
    pub name: &'static str,
    pub aliases: Vec<&'static str>,
    pub description: &'static str,
    pub args: Vec<ArgSpec>,
}

/// The characters of an argument's name and values.
pub struct ArgView {
    pub name: Seq<char>,
    pub values: Seq<Seq<char>>,
}

/// The characters of a command's fields.
pub struct CommandView {
    pub name: Seq<char>,
    pub aliases: Seq<Seq<char>>,
    pub description: Seq<char>,
    pub args: Seq<ArgView>,
}

/// The characters of each string.
pub open spec fn str_views(v: Seq<&'static str>) -> Seq<Seq<char>> {
    v.map_values(|s: &'static str| s@)
}

impl View for ArgSpec {
    type V = ArgView;

    open spec fn view(&self) -> ArgView {
        ArgView { name: self.name@, values: str_views(self.values@) }
    }
}

impl View for CommandSpec {
    type V = CommandView;

    open spec fn view(&self) -> CommandView {
        CommandView {
            name: self.name@,
            aliases: str_views(self.aliases@),
            description: self.description@,
            args: self.args@.map_values(|a: ArgSpec| a@),
        }
    }
}

/// The characters of each command.
pub open spec fn table_view(t: Seq<CommandSpec>) -> Seq<CommandView> {
    t.map_values(|c: CommandSpec| c@)
}

/// A command with the given fields.
pub open spec fn cmd(
    name: Seq<char>,
    aliases: Seq<Seq<char>>,
    description: Seq<char>,
    args: Seq<ArgView>,
) -> CommandView {
    CommandView { name, aliases, description, args }
}

/// The commands, in the order in which they are listed and completed.
pub open spec fn command_table() -> Seq<CommandView> {
    seq![
        cmd("quit"@, seq!["q"@, "exit"@], "Exit the application"@, seq![]),
        cmd("sort"@, seq![], "Change session sort order"@,
            seq![ArgView { name: "order"@, values: seq!["updated"@, "created"@, "title"@] }]),
        cmd("filter"@, seq!["f"@], "Filter sessions by project"@,
            seq![ArgView { name: "project"@, values: seq![] }]),
        cmd("help"@, seq!["?"@], "Show help screen"@, seq![]),
        cmd("search"@, seq!["/"@], "Search sessions"@,
            seq![ArgView { name: "query"@, values: seq![] }]),
        cmd("folders"@, seq!["fs"@], "Toggle or set folders panel"@,
            seq![ArgView { name: "state"@, values: seq!["on"@, "off"@, "toggle"@] }]),
        cmd("goto"@, seq!["g"@], "Go to session by number or position"@,
            seq![ArgView { name: "target"@, values: seq!["top"@, "first"@, "bottom"@, "last"@] }]),
        cmd("global"@, seq!["G"@], "Show all projects (global mode)"@, seq![]),
        cmd("cwd"@, seq![], "Show only current project (CWD mode)"@, seq![]),
        cmd("clear"@, seq!["cls"@], "Clear search query"@, seq![]),
    ]
}

fn strs1(a: &'static str) -> (r: Vec<&'static str>)
    ensures
        str_views(r@) == seq![a@],
{
    let mut v: Vec<&'static str> = Vec::new();
    v.push(a);
    assert(str_views(v@) =~= seq![a@]);
    v
}

fn strs2(a: &'static str, b: &'static str) -> (r: Vec<&'static str>)
    ensures
        str_views(r@) == seq![a@, b@],
{
    let mut v: Vec<&'static str> = Vec::new();
    v.push(a);
    v.push(b);
    assert(str_views(v@) =~= seq![a@, b@]);
    v
}

fn strs3(a: &'static str, b: &'static str, c: &'static str) -> (r: Vec<&'static str>)
    ensures
        str_views(r@) == seq![a@, b@, c@],
{
    let mut v: Vec<&'static str> = Vec::new();
    v.push(a);
    v.push(b);
    v.push(c);
    assert(str_views(v@) =~= seq![a@, b@, c@]);
    v
}

fn strs4(a: &'static str, b: &'static str, c: &'static str, d: &'static str) -> (r: Vec<&'static str>)
    ensures
        str_views(r@) == seq![a@, b@, c@, d@],
{
    let mut v: Vec<&'static str> = Vec::new();
    v.push(a);
    v.push(b);
    v.push(c);
    v.push(d);
    assert(str_views(v@) =~= seq![a@, b@, c@, d@]);
    v
}

fn no_strs() -> (r: Vec<&'static str>)
    ensures
        str_views(r@) == Seq::<Seq<char>>::empty(),
{
    let v: Vec<&'static str> = Vec::new();
    assert(str_views(v@) =~= Seq::<Seq<char>>::empty());
    v
}

fn no_args() -> (r: Vec<ArgSpec>)
    ensures
        r@.map_values(|a: ArgSpec| a@) == Seq::<ArgView>::empty(),
{
    let v: Vec<ArgSpec> = Vec::new();
    assert(v@.map_values(|a: ArgSpec| a@) =~= Seq::<ArgView>::empty());
    v
}

fn one_arg(name: &'static str, values: Vec<&'static str>) -> (r: Vec<ArgSpec>)
    ensures
        r@.map_values(|a: ArgSpec| a@) == seq![ArgView { name: name@, values: str_views(values@) }],
{
    let mut v: Vec<ArgSpec> = Vec::new();
    v.push(ArgSpec { name, values });
    assert(v@.map_values(|a: ArgSpec| a@) =~= seq![ArgView { name: name@, values: str_views(v@[0].values@) }]);
    v
}

fn command(
    name: &'static str,
    aliases: Vec<&'static str>,
    description: &'static str,
    args: Vec<ArgSpec>,
) -> (r: CommandSpec)
    ensures
        r@ == cmd(name@, str_views(aliases@), description@, args@.map_values(|a: ArgSpec| a@)),
{
    CommandSpec { name, aliases, description, args }
}

/// The command table.
pub fn commands() -> (r: Vec<CommandSpec>)
    ensures
        table_view(r@) == command_table(),
{
    let mut t: Vec<CommandSpec> = Vec::new();
    let c0 = command("quit", strs2("q", "exit"), "Exit the application", no_args());
    let c1 = command("sort", no_strs(), "Change session sort order",
        one_arg("order", strs3("updated", "created", "title")));
    let c2 = command("filter", strs1("f"), "Filter sessions by project", one_arg("project", no_strs()));
    let c3 = command("help", strs1("?"), "Show help screen", no_args());
    let c4 = command("search", strs1("/"), "Search sessions", one_arg("query", no_strs()));
    let c5 = command("folders", strs1("fs"), "Toggle or set folders panel",
        one_arg("state", strs3("on", "off", "toggle")));
    let c6 = command("goto", strs1("g"), "Go to session by number or position",
        one_arg("target", strs4("top", "first", "bottom", "last")));
    let c7 = command("global", strs1("G"), "Show all projects (global mode)", no_args());
    let c8 = command("cwd", no_strs(), "Show only current project (CWD mode)", no_args());
    let c9 = command("clear", strs1("cls"), "Clear search query", no_args());
    let ghost views = seq![c0@, c1@, c2@, c3@, c4@, c5@, c6@, c7@, c8@, c9@];
    t.push(c0);
    t.push(c1);
    t.push(c2);
    t.push(c3);
    t.push(c4);
    t.push(c5);
    t.push(c6);
    t.push(c7);
    t.push(c8);
    t.push(c9);
    proof {
        assert(table_view(t@) =~= views);
        assert(views =~= command_table());
    }
    t
}


/// A completion candidate: the text matched against, the text offered and
/// its description.
pub type CandView = (Seq<char>, Seq<char>, Seq<char>);

/// The characters of each candidate.
pub open spec fn cand_views(v: Seq<(String, String, String)>) -> Seq<CandView> {
    v.map_values(|c: (String, String, String)| (c.0@, c.1@, c.2@))
}

/// A command's own candidates: its name, then its aliases, each offered as
/// itself with the command's description.
pub open spec fn entry_candidates(c: CommandView) -> Seq<CandView> {
    seq![c.name].add(c.aliases).map_values(|n: Seq<char>| (n, n, c.description))
}

/// The candidates for a command name, command by command.
pub open spec fn name_candidates(t: Seq<CommandView>) -> Seq<CandView>
    decreases t.len(),
{
    if t.len() == 0 {
        Seq::empty()
    } else {
        name_candidates(t.drop_last()) + entry_candidates(t.last())
    }
}

/// The candidates for the argument of command `c`: each value of its first
/// argument, offered as the command's name, a space and the value.
pub open spec fn value_candidates(c: CommandView) -> Seq<CandView> {
    c.args[0].values.map_values(|v: Seq<char>| (v, c.name + seq![' '] + v, Seq::<char>::empty()))
}

/// `w` names command `c`, by its name or an alias.
pub open spec fn names_command(c: CommandView, w: Seq<char>) -> bool {
    c.name == w || c.aliases.contains(w)
}

/// The first command of `t` that `w` names.
pub open spec fn find_cmd(t: Seq<CommandView>, w: Seq<char>) -> Option<int>
    decreases t.len(),
{
    if t.len() == 0 {
        None
    } else {
        match find_cmd(t.drop_last(), w) {
            Some(i) => Some(i),
            None => if names_command(t.last(), w) {
                Some(t.len() - 1)
            } else {
                None
            },
        }
    }
}

/// A scored completion: score, offered text, description.
pub type ScoredView = (int, Seq<char>, Seq<char>);

/// The candidates that the query `q` matches, in order, with their scores.
pub open spec fn scored_list(q: Seq<char>, cs: Seq<CandView>) -> Seq<ScoredView>
    decreases cs.len(),
{
    if cs.len() == 0 {
        Seq::empty()
    } else {
        let prev = scored_list(q, cs.drop_last());
        match fuzzy(lowercase(q), lowercase(cs.last().0)) {
            Some(sc) => prev.push((sc, cs.last().1, cs.last().2)),
            None => prev,
        }
    }
}

/// The scored completions for the non-empty lowercased buffer `b`: with one
/// word, the command names and aliases; with more, the values of the named
/// command's first argument, matched against the rest of the line.
pub open spec fn scored_completions(b: Seq<char>) -> Seq<ScoredView> {
    let ws = words(b);
    if ws.len() == 0 {
        Seq::empty()
    } else if ws.len() == 1 {
        scored_list(ws[0], name_candidates(command_table()))
    } else {
        match find_cmd(command_table(), ws[0]) {
            Some(i) => {
                let c = command_table()[i];
                if c.args.len() > 0 && c.args[0].values.len() > 0 {
                    scored_list(lowercase(join(ws.skip(1), seq![' '])), value_candidates(c))
                } else {
                    Seq::empty()
                }
            },
            None => Seq::empty(),
        }
    }
}

/// `r` lists the entries of `s` in the order `p`: from the highest score
/// down, entries with equal scores in the order they have in `s`.
pub open spec fn ranked_by(s: Seq<ScoredView>, r: Seq<(Seq<char>, Seq<char>)>, p: Seq<int>) -> bool {
    &&& r.len() == s.len()
    &&& p.len() == s.len()
    &&& forall|k: int| 0 <= k < p.len() ==> 0 <= #[trigger] p[k] < s.len() && r[k] == (s[p[k]].1, s[p[k]].2)
    &&& forall|a: int, b: int| 0 <= a < b < p.len() ==> s[p[a]].0 > s[p[b]].0 || (s[p[a]].0 == s[p[b]].0 && p[a] < p[b])
}

/// `r` lists the entries of `s` from the highest score down, entries with
/// equal scores in the order they have in `s`.
pub open spec fn ranked(s: Seq<ScoredView>, r: Seq<(Seq<char>, Seq<char>)>) -> bool {
    exists|p: Seq<int>| ranked_by(s, r, p)
}

/// The text and description of each suggestion.
pub open spec fn suggestion_views(v: Seq<Suggestion>) -> Seq<(Seq<char>, Seq<char>)> {
    v.map_values(|s: Suggestion| (s.text@, s.description@))
}

/// The score, text and description of each scored suggestion.
pub open spec fn scored_views(v: Seq<(i128, Suggestion)>) -> Seq<ScoredView> {
    v.map_values(|e: (i128, Suggestion)| (e.0 as int, e.1.text@, e.1.description@))
}

/// Every command, named and described, as offered for an empty line.
pub open spec fn all_command_suggestions() -> Seq<(Seq<char>, Seq<char>)> {
    command_table().map_values(|c: CommandView| (c.name, c.description))
}

proof fn lemma_name_candidates_step(t: Seq<CommandView>, i: int)
    requires
        0 <= i < t.len(),
    ensures
        name_candidates(t.take(i + 1)) == name_candidates(t.take(i)) + entry_candidates(t[i]),
{
    assert(t.take(i + 1).drop_last() =~= t.take(i));
}

proof fn lemma_find_cmd_prefix(t: Seq<CommandView>, w: Seq<char>, n: int)
    requires
        0 <= n <= t.len(),
        find_cmd(t.take(n), w) is Some,
    ensures
        find_cmd(t, w) == find_cmd(t.take(n), w),
    decreases t.len() - n,
{
    if n < t.len() {
        assert(t.take(n + 1).drop_last() =~= t.take(n));
        lemma_find_cmd_prefix(t, w, n + 1);
    } else {
        assert(t.take(n) =~= t);
    }
}

/// The candidates for a command name, from the table.
fn name_candidate_list(table: &Vec<CommandSpec>) -> (r: Vec<(String, String, String)>)
    ensures
        cand_views(r@) == name_candidates(table_view(table@)),
{
    let ghost tv = table_view(table@);
    let mut out: Vec<(String, String, String)> = Vec::new();
    let mut i: usize = 0;
    assert(tv.take(0) =~= Seq::<CommandView>::empty());
    while i < table.len()
        invariant
            tv == table_view(table@),
            i <= table@.len(),
            cand_views(out@) == name_candidates(tv.take(i as int)),
        decreases table@.len() - i,
    {
        let c = &table[i];
        let ghost before = cand_views(out@);
        let ghost e = entry_candidates(tv[i as int]);
        out.push((c.name.to_owned(), c.name.to_owned(), c.description.to_owned()));
        assert(tv[i as int] == c@);
        assert(cand_views(out@) =~= before + e.take(1));
        let mut j: usize = 0;
        while j < c.aliases.len()
            invariant
                tv == table_view(table@),
                i < table@.len(),
                c == table@[i as int],
                e == entry_candidates(tv[i as int]),
                j <= c.aliases@.len(),
                cand_views(out@) == before + e.take(j + 1),
            decreases c.aliases@.len() - j,
        {
            let a = c.aliases[j];
            let ghost ol = cand_views(out@);
            out.push((a.to_owned(), a.to_owned(), c.description.to_owned()));
            assert(cand_views(out@) =~= ol.push((a@, a@, c.description@)));
            assert(tv[i as int] == c@);
            assert((seq![c.name@].add(str_views(c.aliases@)))[j + 1] == c.aliases@[j as int]@);
            assert(e[j + 1] == (a@, a@, c.description@));
            assert(cand_views(out@) =~= before + e.take(j + 2));
            j = j + 1;
        }
        assert(e.take(j + 1) =~= e);
        proof {
            lemma_name_candidates_step(tv, i as int);
        }
        i = i + 1;
    }
    assert(tv.take(i as int) =~= tv);
    out
}

/// The first command of the table that `w` names.
fn find_command(table: &Vec<CommandSpec>, w: &str) -> (r: Option<usize>)
    ensures
        match r {
            Some(i) => find_cmd(table_view(table@), w@) == Some(i as int),
            None => find_cmd(table_view(table@), w@) is None,
        },
        r matches Some(i) ==> i < table@.len(),
{
    let ghost tv = table_view(table@);
    let mut i: usize = 0;
    assert(tv.take(0) =~= Seq::<CommandView>::empty());
    while i < table.len()
        invariant
            tv == table_view(table@),
            i <= table@.len(),
            find_cmd(tv.take(i as int), w@) is None,
        decreases table@.len() - i,
    {
        let c = &table[i];
        assert(tv.take(i + 1).drop_last() =~= tv.take(i as int));
        let mut hit = str_eq(c.name, w);
        let mut j: usize = 0;
        while j < c.aliases.len() && !hit
            invariant
                c == table@[i as int],
                j <= c.aliases@.len(),
                hit ==> names_command(tv[i as int], w@),
                !hit ==> tv[i as int].name != w@ && forall|k: int| 0 <= k < j ==> str_views(c.aliases@)[k] != w@,
                tv == table_view(table@),
                i < table@.len(),
            decreases c.aliases@.len() - j,
        {
            if str_eq(c.aliases[j], w) {
                hit = true;
                assert(str_views(c.aliases@)[j as int] == w@);
            }
            j = j + 1;
        }
        if hit {
            proof {
                lemma_find_cmd_prefix(tv, w@, i + 1);
            }
            return Some(i);
        }
        assert(!tv[i as int].aliases.contains(w@));
        assert(tv.take(i + 1).last() == tv[i as int]);
        i = i + 1;
    }
    assert(tv.take(i as int) =~= tv);
    None
}


/// The candidates for the argument of `c`.
fn value_candidate_list(c: &CommandSpec) -> (r: Vec<(String, String, String)>)
    requires
        c.args@.len() > 0,
    ensures
        cand_views(r@) == value_candidates(c@),
{
    let values = &c.args[0].values;
    let ghost vc = value_candidates(c@);
    let mut out: Vec<(String, String, String)> = Vec::new();
    let mut j: usize = 0;
    while j < values.len()
        invariant
            values == c.args@[0].values,
            vc == value_candidates(c@),
            c.args@.len() > 0,
            j <= values@.len(),
            cand_views(out@) == vc.take(j as int),
        decreases values@.len() - j,
    {
        let v = values[j];
        let mut text = c.name.to_owned();
        push_char(&mut text, ' ');
        let text = concat(text.as_str(), v);
        assert(text@ =~= c.name@ + seq![' '] + v@);
        let ghost ol = cand_views(out@);
        out.push((v.to_owned(), text, String::new()));
        proof {
            assert(cand_views(out@) =~= ol.push((v@, c.name@ + seq![' '] + v@, Seq::<char>::empty())));
            assert(c@.args[0] == c.args@[0]@);
            assert(vc[j as int] == (v@, c.name@ + seq![' '] + v@, Seq::<char>::empty()));
            assert(cand_views(out@) =~= vc.take(j + 1));
        }
        j = j + 1;
    }
    assert(vc.take(j as int) =~= vc);
    out
}

/// The candidates that `query` matches, in order, with their scores.
fn score_candidates(query: &str, cands: &Vec<(String, String, String)>) -> (r: Vec<(i128, Suggestion)>)
    ensures
        scored_views(r@) == scored_list(query@, cand_views(cands@)),
        forall|k: int| 0 <= k < r@.len() ==> #[trigger] r@[k].0 > i128::MIN,
{
    let ghost cv = cand_views(cands@);
    let mut out: Vec<(i128, Suggestion)> = Vec::new();
    let mut i: usize = 0;
    assert(cv.take(0) =~= Seq::<CandView>::empty());
    while i < cands.len()
        invariant
            cv == cand_views(cands@),
            i <= cands@.len(),
            scored_views(out@) == scored_list(query@, cv.take(i as int)),
            forall|k: int| 0 <= k < out@.len() ==> #[trigger] out@[k].0 > i128::MIN,
        decreases cands@.len() - i,
    {
        let c = &cands[i];
        assert(cv.take(i + 1).drop_last() =~= cv.take(i as int));
        assert(cv.take(i + 1).last() == cv[i as int]);
        assert(cv[i as int] == (c.0@, c.1@, c.2@));
        match fuzzy_score(query, c.0.as_str()) {
            Some(sc) => {
                let ghost ol = scored_views(out@);
                out.push((sc, Suggestion { text: c.1.clone(), description: c.2.clone() }));
                assert(scored_views(out@) =~= ol.push((sc as int, c.1@, c.2@)));
                assert(fuzzy(lowercase(query@), lowercase(c.0@)) == Some(sc as int));
                assert(scored_list(query@, cv.take(i + 1)) == scored_list(query@, cv.take(i as int)).push(
                    (sc as int, c.1@, c.2@),
                ));
            },
            None => {
                assert(fuzzy(lowercase(query@), lowercase(c.0@)) is None);
            },
        }
        i = i + 1;
    }
    assert(cv.take(i as int) =~= cv);
    out
}

/// The suggestions of `scored`, from the highest score down; equal scores
/// keep their order.
fn rank(scored: Vec<(i128, Suggestion)>) -> (r: Vec<Suggestion>)
    requires
        forall|k: int| 0 <= k < scored@.len() ==> #[trigger] scored@[k].0 > i128::MIN,
    ensures
        ranked(scored_views(scored@), suggestion_views(r@)),
{
    let ghost sv = scored_views(scored@);
    let n = scored.len();
    let mut keyed: Vec<Keyed> = Vec::new();
    let mut i: usize = 0;
    while i < n
        invariant
            n == scored@.len(),
            i <= n,
            keyed@.len() == i,
            forall|k: int| 0 <= k < scored@.len() ==> #[trigger] scored@[k].0 > i128::MIN,
            forall|k: int| 0 <= k < i ==> #[trigger] key_of(keyed@[k]) == (KeyView {
                primary: -(scored@[k].0 as int),
                text: Seq::empty(),
                index: k,
            }),
        decreases n - i,
    {
        let sc = scored[i].0;
        keyed.push(Keyed { primary: -sc, text: Vec::new(), index: i });
        i = i + 1;
    }
    let ghost ks = keys_of(keyed@);
    assert forall|a: int, b: int| 0 <= a < b < keyed@.len() implies keyed@[a].index != keyed@[b].index by {
        assert(key_of(keyed@[a]).index == a);
        assert(key_of(keyed@[b]).index == b);
    }
    let sorted = sort_keyed(keyed);
    let ghost ss = keys_of(sorted@);
    let mut out: Vec<Suggestion> = Vec::new();
    let mut k: usize = 0;
    while k < sorted.len()
        invariant
            n == scored@.len(),
            sv == scored_views(scored@),
            ss == keys_of(sorted@),
            sorted@.len() == n,
            ks == keys_of(keyed@),
            keyed@.len() == n,
            forall|x: KeyView| ss.contains(x) <==> ks.contains(x),
            forall|m: int| 0 <= m < n ==> #[trigger] ks[m] == (KeyView {
                primary: -(scored@[m].0 as int),
                text: Seq::empty(),
                index: m,
            }),
            k <= n,
            out@.len() == k,
            forall|m: int| 0 <= m < k ==> 0 <= #[trigger] ss[m].index < n && suggestion_views(out@)[m] == (
                sv[ss[m].index].1,
                sv[ss[m].index].2,
            ),
        decreases n - k,
    {
        let idx = sorted[k].index;
        proof {
            assert(ss.contains(ss[k as int]));
            let j = choose|j: int| 0 <= j < ks.len() && ks[j] == ss[k as int];
            assert(ks[j] == ss[k as int]);
        }
        let s = &scored[idx].1;
        let ghost ol = suggestion_views(out@);
        out.push(Suggestion { text: s.text.clone(), description: s.description.clone() });
        assert(suggestion_views(out@) =~= ol.push((s.text@, s.description@)));
        k = k + 1;
    }
    proof {
        let p = Seq::new(n as nat, |m: int| ss[m].index);
        assert forall|m: int| 0 <= m < n implies ss[m].primary == -sv[ss[m].index].0 by {
            assert(ss.contains(ss[m]));
            let j = choose|j: int| 0 <= j < ks.len() && ks[j] == ss[m];
            assert(ks[j] == ss[m]);
        }
        assert forall|m: int| 0 <= m < n implies ss[m].text == Seq::<char>::empty() by {
            assert(ss.contains(ss[m]));
            let j = choose|j: int| 0 <= j < ks.len() && ks[j] == ss[m];
            assert(ks[j] == ss[m]);
        }
        assert forall|a: int, b: int| 0 <= a < b < p.len() implies sv[p[a]].0 > sv[p[b]].0 || (
            sv[p[a]].0 == sv[p[b]].0 && p[a] < p[b]) by {
            assert(key_lt(ss[a], ss[b]));
            lemma_seq_lt_irrefl(Seq::<char>::empty());
        }
        assert(ranked_by(sv, suggestion_views(out@), p));
    }
    out
}


/// `b` is `a` with the completions recomputed for its command line: every
/// command for an empty line, else the scored completions ranked, with the
/// selection kept in range.
pub open spec fn suggestions_recomputed(a: App, b: App) -> bool {
    let line = lowercase(a.command_buffer@);
    &&& b == (App {
        command_suggestions: b.command_suggestions,
        selected_suggestion: b.selected_suggestion,
        ..a
    })
    &&& line.len() == 0 ==> suggestion_views(b.command_suggestions@) == all_command_suggestions()
        && b.selected_suggestion == 0
    &&& line.len() > 0 ==> ranked(scored_completions(line), suggestion_views(b.command_suggestions@))
        && b.selected_suggestion == clamped(a.selected_suggestion, b.command_suggestions@.len())
}

impl App {
    /// Recompute the completions offered for the command line.
    pub fn compute_suggestions(&mut self)
        ensures
            suggestions_recomputed(*old(self), *final(self)),
    {
        let buffer = to_lowercase(self.command_buffer.as_str());
        let table = commands();
        if buffer.as_str().is_empty() {
            let mut out: Vec<Suggestion> = Vec::new();
            let mut i: usize = 0;
            while i < table.len()
                invariant
                    table_view(table@) == command_table(),
                    i <= table@.len(),
                    suggestion_views(out@) == all_command_suggestions().take(i as int),
                decreases table@.len() - i,
            {
                let ghost ol = suggestion_views(out@);
                out.push(Suggestion { text: table[i].name.to_owned(), description: table[i].description.to_owned() });
                proof {
                    assert(table_view(table@)[i as int] == table@[i as int]@);
                    assert(all_command_suggestions()[i as int] == (table@[i as int].name@, table@[i as int].description@));
                    assert(suggestion_views(out@) =~= ol.push((table@[i as int].name@, table@[i as int].description@)));
                    assert(suggestion_views(out@) =~= all_command_suggestions().take(i + 1));
                }
                i = i + 1;
            }
            assert(all_command_suggestions().take(i as int) =~= all_command_suggestions());
            self.command_suggestions = out;
            self.selected_suggestion = 0;
            return;
        }
        let bc = chars_of(buffer.as_str());
        let parts = split_words(&bc);
        let ghost ws = words(buffer@);
        assert(ws == views_of(parts@));
        let mut scored: Vec<(i128, Suggestion)> = Vec::new();
        if parts.len() == 0 {
            assert(scored_views(scored@) =~= Seq::<ScoredView>::empty());
        } else {
            assert(views_of(parts@)[0] == parts@[0]@);
            let first = string_of(&parts[0]);
            assert(ws[0] == first@);
            if parts.len() == 1 {
                let cands = name_candidate_list(&table);
                scored = score_candidates(first.as_str(), &cands);
            } else {
                match find_command(&table, first.as_str()) {
                    Some(ci) => {
                        let c = &table[ci];
                        assert(table_view(table@)[ci as int] == c@);
                        if c.args.len() > 0 && c.args[0].values.len() > 0 {
                            assert(c@.args[0] == c.args@[0]@);
                            let rest = string_of(&join_spaces(&parts, 1));
                            let arg_part = to_lowercase(rest.as_str());
                            let cands = value_candidate_list(c);
                            scored = score_candidates(arg_part.as_str(), &cands);
                        } else {
                            assert(scored_views(scored@) =~= Seq::<ScoredView>::empty());
                        }
                    },
                    None => {
                        assert(scored_views(scored@) =~= Seq::<ScoredView>::empty());
                    },
                }
            }
        }
        assert(scored_views(scored@) == scored_completions(buffer@));
        let ranked = rank(scored);
        let n = ranked.len();
        self.command_suggestions = ranked;
        if self.selected_suggestion >= n {
            self.selected_suggestion = if n == 0 {
                0
            } else {
                n - 1
            };
        }
    }
}


/// The command failed with message `m`.
pub open spec fn is_error(r: CommandResult, m: Seq<char>) -> bool {
    r matches CommandResult::Error(x) && x@ == m
}

/// The words of a command line after its first.
pub open spec fn rest_of(ws: Seq<Seq<char>>) -> Seq<char> {
    join(ws.skip(1), seq![' '])
}

/// `:sort` with the words `ws`, from state `h` to `b`.
pub open spec fn sort_done(h: App, ws: Seq<Seq<char>>, b: App, r: CommandResult) -> bool {
    if ws.len() > 1 {
        let w = ws[1];
        if w == "updated"@ || w == "created"@ || w == "title"@ {
            let by = if w == "updated"@ {
                SortBy::Updated
            } else if w == "created"@ {
                SortBy::Created
            } else {
                SortBy::Title
            };
            &&& r == CommandResult::Executed
            &&& same_but_listing(App { sort_by: by, status_message: b.status_message, ..h }, b)
            &&& refreshed(b, h.selected_session)
            &&& status_is(b, "Sorted by "@ + sort_name(by))
        } else {
            is_error(r, "Unknown sort: "@ + w) && b == h
        }
    } else {
        &&& r == CommandResult::Executed
        &&& same_but_listing(App { sort_by: next_sort(h.sort_by), ..h }, b)
        &&& refreshed(b, h.selected_session)
    }
}

/// `:filter`: filter on the project named by the rest of the line, or on
/// none.
pub open spec fn filter_done(h: App, ws: Seq<Seq<char>>, b: App, r: CommandResult) -> bool {
    &&& r == CommandResult::Executed
    &&& same_but_listing(
        App { project_filter: b.project_filter, status_message: b.status_message, ..h },
        b,
    )
    &&& refreshed(b, h.selected_session)
    &&& if ws.len() > 1 {
        &&& b.project_filter matches Some(p) && p@ == rest_of(ws)
        &&& status_is(b, "Filtered to project '"@ + rest_of(ws) + "'"@)
    } else {
        &&& b.project_filter is None
        &&& status_is(b, "Showing all projects"@)
    }
}

/// `:search`: search for the rest of the line (nothing when it is empty).
pub open spec fn search_done(h: App, ws: Seq<Seq<char>>, b: App, r: CommandResult) -> bool {
    &&& r == CommandResult::Executed
    &&& b.search_query@ == if ws.len() > 1 {
        rest_of(ws)
    } else {
        Seq::<char>::empty()
    }
    &&& same_but_listing(App { search_query: b.search_query, ..h }, b)
    &&& refreshed(b, h.selected_session)
}

/// The folder panel set to `on`, with the matching status.
pub open spec fn folders_set(h: App, b: App, on: bool) -> bool {
    &&& b == (App { folders_enabled: on, status_message: b.status_message, ..h })
    &&& status_is(
        b,
        if on {
            "Folders enabled"@
        } else {
            "Folders disabled"@
        },
    )
}

/// `:folders`: turn the panel on, off, or over.
pub open spec fn folders_done(h: App, ws: Seq<Seq<char>>, b: App, r: CommandResult) -> bool {
    if ws.len() > 1 {
        let w = ws[1];
        if w == "on"@ || w == "enable"@ {
            r == CommandResult::Executed && folders_set(h, b, true)
        } else if w == "off"@ || w == "disable"@ {
            r == CommandResult::Executed && folders_set(h, b, false)
        } else if w == "toggle"@ || w == "t"@ {
            r == CommandResult::Executed && folders_set(h, b, !h.folders_enabled)
        } else {
            is_error(r, "Unknown: "@ + w) && b == h
        }
    } else {
        r == CommandResult::Executed && folders_set(h, b, !h.folders_enabled)
    }
}

/// Where `:goto w` moves the cursor: the top, the last entry, or entry
/// number `w` (counted from 1, kept in range); `None` if `w` is no number.
pub open spec fn goto_target(h: App, w: Seq<char>) -> Option<int> {
    let n = h.filtered_indices@.len();
    let last = if n == 0 {
        0
    } else {
        n - 1
    };
    if w == "top"@ || w == "first"@ {
        Some(0)
    } else if w == "bottom"@ || w == "last"@ {
        Some(last)
    } else {
        match dec_usize(w) {
            Some(k) => {
                let idx = if k > 0 {
                    k - 1
                } else {
                    0
                };
                Some(
                    if idx < last {
                        idx
                    } else {
                        last
                    },
                )
            },
            None => None,
        }
    }
}

/// The cursor at `sel`, with the status "Session sel+1 of n".
pub open spec fn goto_set(h: App, b: App, sel: int) -> bool {
    &&& b == (App { selected_session: sel as usize, status_message: b.status_message, ..h })
    &&& status_is(
        b,
        "Session "@ + dec_string((sel + 1) as nat) + " of "@ + dec_string(h.filtered_indices@.len()),
    )
}

/// `:goto`: move the cursor and report where it is.
pub open spec fn goto_done(h: App, ws: Seq<Seq<char>>, b: App, r: CommandResult) -> bool {
    if ws.len() > 1 {
        match goto_target(h, ws[1]) {
            Some(sel) => r == CommandResult::Executed && goto_set(h, b, sel),
            None => is_error(r, "Invalid number: "@ + ws[1]) && b == h,
        }
    } else {
        r == CommandResult::Executed && goto_set(h, b, h.selected_session as int)
    }
}

/// The listing refreshed for `h` with `global_mode` and `project_filter`
/// changed, and the status `msg`.
pub open spec fn mode_set(h: App, b: App, global: bool, filter: Option<String>, msg: Seq<char>) -> bool {
    &&& same_but_listing(
        App { global_mode: global, project_filter: filter, status_message: b.status_message, ..h },
        b,
    )
    &&& refreshed(b, h.selected_session)
    &&& status_is(b, msg)
}

/// What the command words `ws` do to state `h`, giving `b` and `r`.
pub open spec fn dispatch_done(h: App, ws: Seq<Seq<char>>, b: App, r: CommandResult) -> bool {
    let w = ws[0];
    if w == "q"@ || w == "quit"@ || w == "exit"@ {
        r == CommandResult::Quit && b == h
    } else if w == "sort"@ {
        sort_done(h, ws, b, r)
    } else if w == "filter"@ || w == "f"@ {
        filter_done(h, ws, b, r)
    } else if w == "help"@ || w == "?"@ {
        r == CommandResult::Executed && b == (App { screen: Screen::Help, ..h })
    } else if w == "search"@ || w == "/"@ {
        search_done(h, ws, b, r)
    } else if w == "folders"@ || w == "fs"@ {
        folders_done(h, ws, b, r)
    } else if w == "goto"@ || w == "g"@ {
        goto_done(h, ws, b, r)
    } else if w == "global"@ || w == "G"@ {
        r == CommandResult::Executed && mode_set(h, b, true, None, "Global mode: all projects"@)
    } else if w == "cwd"@ {
        r == CommandResult::Executed && mode_set(
            h,
            b,
            false,
            h.current_project,
            "CWD mode: current project only"@,
        )
    } else if w == "clear"@ || w == "cls"@ {
        &&& r == CommandResult::Executed
        &&& b.search_query@.len() == 0
        &&& same_but_listing(
            App { search_query: b.search_query, status_message: b.status_message, ..h },
            b,
        )
        &&& refreshed(b, h.selected_session)
        &&& status_is(b, "Search cleared"@)
    } else {
        r matches CommandResult::Unknown(x) && x@ == w && b == h
    }
}

/// Running the command line `input` on `a` gives `b` and `r`: a blank line
/// does nothing; any other is trimmed, recorded in the history, and its
/// words dispatched.
pub open spec fn command_done(a: App, input: Seq<char>, b: App, r: CommandResult) -> bool {
    let t = trim(input);
    if t.len() == 0 {
        b == a && r == CommandResult::Executed
    } else {
        &&& b.command_history@.len() == a.command_history@.len() + 1
        &&& b.command_history@.drop_last() == a.command_history@
        &&& b.command_history@.last()@ == t
        &&& dispatch_done(
            App { command_history: b.command_history, command_history_pos: None, ..a },
            words(t),
            b,
            r,
        )
    }
}

/// The lines the table offers for command `c`: its name, each of its
/// aliases, and its name, a space and one of the values of its first
/// argument.
pub open spec fn offered_line(c: CommandView, line: Seq<char>) -> bool {
    ||| line == c.name
    ||| c.aliases.contains(line)
    ||| c.args.len() > 0 && exists|k: int|
        0 <= k < c.args[0].values.len() && line == c.name + seq![' '] + #[trigger] c.args[0].values[k]
}

proof fn lemma_table_words()
    ensures
        forall|i: int| 0 <= i < command_table().len() ==> {
            let c = #[trigger] command_table()[i];
            &&& c.name.len() > 0 && no_ws(c.name)
            &&& forall|k: int| 0 <= k < c.aliases.len() ==> (#[trigger] c.aliases[k]).len() > 0 && no_ws(c.aliases[k])
            &&& c.args.len() > 0 ==> forall|m: int|
                0 <= m < c.args[0].values.len() ==> (#[trigger] c.args[0].values[m]).len() > 0 && no_ws(
                    c.args[0].values[m],
                )
        },
{
    reveal_strlit("quit");
    reveal_strlit("q");
    reveal_strlit("exit");
    reveal_strlit("sort");
    reveal_strlit("updated");
    reveal_strlit("created");
    reveal_strlit("title");
    reveal_strlit("filter");
    reveal_strlit("f");
    reveal_strlit("help");
    reveal_strlit("?");
    reveal_strlit("search");
    reveal_strlit("/");
    reveal_strlit("folders");
    reveal_strlit("fs");
    reveal_strlit("on");
    reveal_strlit("off");
    reveal_strlit("toggle");
    reveal_strlit("goto");
    reveal_strlit("g");
    reveal_strlit("top");
    reveal_strlit("first");
    reveal_strlit("bottom");
    reveal_strlit("last");
    reveal_strlit("global");
    reveal_strlit("G");
    reveal_strlit("cwd");
    reveal_strlit("clear");
    reveal_strlit("cls");
    let t = command_table();
    assert forall|i: int| 0 <= i < t.len() implies {
        let c = #[trigger] t[i];
        &&& c.name.len() > 0 && no_ws(c.name)
        &&& forall|k: int| 0 <= k < c.aliases.len() ==> (#[trigger] c.aliases[k]).len() > 0 && no_ws(c.aliases[k])
        &&& c.args.len() > 0 ==> forall|m: int|
            0 <= m < c.args[0].values.len() ==> (#[trigger] c.args[0].values[m]).len() > 0 && no_ws(
                c.args[0].values[m],
            )
    } by {
        assert(i == 0 || i == 1 || i == 2 || i == 3 || i == 4 || i == 5 || i == 6 || i == 7 || i == 8
            || i == 9);
    }
}

/// Every line the table offers runs: the quit command and its aliases give
/// `Quit`, every other name, alias and offered value gives `Executed`; none
/// gives `Unknown` or `Error`.
pub proof fn law_offered_commands_run(a: App, i: int, line: Seq<char>, b: App, r: CommandResult)
    requires
        0 <= i < command_table().len(),
        offered_line(command_table()[i], line),
        command_done(a, line, b, r),
    ensures
        r == if command_table()[i].name == "quit"@ {
            CommandResult::Quit
        } else {
            CommandResult::Executed
        },
{
    lemma_table_words();
    let c = command_table()[i];
    let ghost w: Seq<char>;
    let ghost v: Option<Seq<char>>;
    if line == c.name || c.aliases.contains(line) {
        if !(line == c.name) {
            let k = choose|k: int| 0 <= k < c.aliases.len() && c.aliases[k] == line;
            assert(c.aliases[k].len() > 0);
        }
        lemma_single_word(line);
        w = line;
        v = None;
    } else {
        let k = choose|k: int|
            0 <= k < c.args[0].values.len() && line == c.name + seq![' '] + #[trigger] c.args[0].values[k];
        assert(c.args[0].values[k].len() > 0);
        lemma_two_words(c.name, c.args[0].values[k]);
        w = c.name;
        v = Some(c.args[0].values[k]);
    }
    assert(trim(line) == line);
    assert(line.len() > 0);
    let ws = words(line);
    assert(ws[0] == w);
    assert(v is None ==> ws.len() == 1);
    assert(v matches Some(x) ==> ws.len() == 2 && ws[1] == x && c.args.len() > 0 && c.args[0].values.contains(x));
    assert(v is None ==> w == c.name || c.aliases.contains(w));
    let h = App { command_history: b.command_history, command_history_pos: None, ..a };
    assert(dispatch_done(h, ws, b, r));
    reveal_strlit("quit");
    reveal_strlit("q");
    reveal_strlit("exit");
    reveal_strlit("sort");
    reveal_strlit("updated");
    reveal_strlit("created");
    reveal_strlit("title");
    reveal_strlit("filter");
    reveal_strlit("f");
    reveal_strlit("help");
    reveal_strlit("?");
    reveal_strlit("search");
    reveal_strlit("/");
    reveal_strlit("folders");
    reveal_strlit("fs");
    reveal_strlit("on");
    reveal_strlit("off");
    reveal_strlit("toggle");
    reveal_strlit("goto");
    reveal_strlit("g");
    reveal_strlit("top");
    reveal_strlit("first");
    reveal_strlit("bottom");
    reveal_strlit("last");
    reveal_strlit("global");
    reveal_strlit("G");
    reveal_strlit("cwd");
    reveal_strlit("clear");
    reveal_strlit("cls");
    if i == 0 {
        assert(v is None);
        assert(w == "quit"@ || w == "q"@ || w == "exit"@);
        assert(r == CommandResult::Quit);
        assert(c.name == "quit"@);
    } else if i == 1 {
        assert(w == "sort"@);
        assert(c.name != "quit"@);
        assert(sort_done(h, ws, b, r));
        assert(v matches Some(x) ==> x == "updated"@ || x == "created"@ || x == "title"@);
        assert(r == CommandResult::Executed);
    } else if i == 2 {
        assert(v is None);
        assert(w == "filter"@ || w == "f"@);
        assert(c.name != "quit"@);
        assert(filter_done(h, ws, b, r));
        assert(r == CommandResult::Executed);
    } else if i == 3 {
        assert(v is None);
        assert(w == "help"@ || w == "?"@);
        assert(c.name == "help"@ && "help"@[0] != "quit"@[0]);
        assert(c.name != "quit"@);
        assert(r == CommandResult::Executed);
    } else if i == 4 {
        assert(v is None);
        assert(w == "search"@ || w == "/"@);
        assert(c.name != "quit"@);
        assert(search_done(h, ws, b, r));
        assert(r == CommandResult::Executed);
    } else if i == 5 {
        assert(w == "folders"@ || w == "fs"@);
        assert(c.name != "quit"@);
        assert(folders_done(h, ws, b, r));
        assert(v matches Some(x) ==> x == "on"@ || x == "off"@ || x == "toggle"@);
        assert(r == CommandResult::Executed);
    } else if i == 6 {
        assert(w == "goto"@ || w == "g"@);
        assert(c.name == "goto"@ && "goto"@[0] != "quit"@[0]);
        assert(c.name != "quit"@);
        assert(goto_done(h, ws, b, r));
        assert(v matches Some(x) ==> x == "top"@ || x == "first"@ || x == "bottom"@ || x == "last"@);
        if let Some(x) = v {
            assert(goto_target(h, x) is Some);
        }
        assert(r == CommandResult::Executed);
    } else if i == 7 {
        assert(v is None);
        assert(w == "global"@ || w == "G"@);
        assert(c.name != "quit"@);
        assert(r == CommandResult::Executed);
    } else if i == 8 {
        assert(v is None);
        assert(w == "cwd"@);
        assert(c.name != "quit"@);
        assert(r == CommandResult::Executed);
    } else {
        assert(v is None);
        assert(w == "clear"@ || w == "cls"@);
        assert(c.name != "quit"@);
        assert(r == CommandResult::Executed);
    }
}

/// `:search` (or `/`) searches for the rest of the line: the words after
/// the command, joined by single spaces; and `:filter` (or `f`) filters on
/// the project they name. Neither fails.
pub proof fn law_search_and_filter_take_the_rest(a: App, input: Seq<char>, b: App, r: CommandResult)
    requires
        command_done(a, input, b, r),
        words(trim(input)).len() > 1,
    ensures
        ({
            let ws = words(trim(input));
            &&& (ws[0] == "search"@ || ws[0] == "/"@) ==> r == CommandResult::Executed
                && b.search_query@ == join(ws.skip(1), seq![' '])
            &&& (ws[0] == "filter"@ || ws[0] == "f"@) ==> (r == CommandResult::Executed
                && (b.project_filter matches Some(p) && p@ == join(ws.skip(1), seq![' '])))
        }),
{
    let ws = words(trim(input));
    if trim(input).len() == 0 {
        assert(words(trim(input)) == Seq::<Seq<char>>::empty());
    }
    reveal_strlit("q");
    reveal_strlit("quit");
    reveal_strlit("exit");
    reveal_strlit("sort");
    reveal_strlit("filter");
    reveal_strlit("f");
    reveal_strlit("help");
    reveal_strlit("?");
    reveal_strlit("search");
    reveal_strlit("/");
    assert("search"@[0] != "filter"@[0]);
    assert("/"@[0] != "q"@[0] && "/"@[0] != "f"@[0] && "/"@[0] != "?"@[0]);
    assert("f"@[0] != "q"@[0] && "f"@[0] != "?"@[0]);
    let h = App { command_history: b.command_history, command_history_pos: None, ..a };
    assert(dispatch_done(h, ws, b, r));
    if ws[0] == "search"@ {
        assert("search"@.len() == 6 && "sort"@.len() == 4 && "help"@.len() == 4);
        assert(ws[0] != "help"@ && ws[0] != "?"@ && ws[0] != "sort"@);
        assert(search_done(h, ws, b, r));
    }
    if ws[0] == "/"@ {
        assert(ws[0] != "help"@ && ws[0] != "?"@ && ws[0] != "sort"@ && ws[0] != "q"@);
        assert(search_done(h, ws, b, r));
    }
    if ws[0] == "filter"@ || ws[0] == "f"@ {
        assert(filter_done(h, ws, b, r));
    }
}

/// Whether the word `w` is `lit`.
fn is_word(w: &Vec<char>, lit: &str) -> (r: bool)
    ensures
        r == (w@ == lit@),
{
    let l = chars_of(lit);
    seq_eq(w, &l)
}

impl App {
    fn cmd_sort(&mut self, parts: &Vec<Vec<char>>) -> (r: CommandResult)
        ensures
            sort_done(*old(self), views_of(parts@), *final(self), r),
    {
        if parts.len() > 1 {
            let w = &parts[1];
            assert(views_of(parts@)[1] == w@);
            let by = if is_word(w, "updated") {
                SortBy::Updated
            } else if is_word(w, "created") {
                SortBy::Created
            } else if is_word(w, "title") {
                SortBy::Title
            } else {
                let m = concat("Unknown sort: ", string_of(w).as_str());
                return CommandResult::Error(m);
            };
            self.sort_by = by;
            self.apply_filter_and_sort();
            let ghost mid = *self;
            let m = concat("Sorted by ", sort_label(self.sort_by));
            self.set_status(m.as_str());
            proof {
                lemma_refreshed_status(mid, *self, old(self).selected_session);
            }
        } else {
            self.cycle_sort();
        }
        CommandResult::Executed
    }

    fn cmd_filter(&mut self, parts: &Vec<Vec<char>>) -> (r: CommandResult)
        ensures
            filter_done(*old(self), views_of(parts@), *final(self), r),
    {
        if parts.len() > 1 {
            let project = string_of(&join_spaces(parts, 1));
            let m = concat(concat("Filtered to project '", project.as_str()).as_str(), "'");
            self.project_filter = Some(project);
            self.apply_filter_and_sort();
            let ghost mid = *self;
            self.set_status(m.as_str());
            proof {
                lemma_refreshed_status(mid, *self, old(self).selected_session);
            }
        } else {
            self.project_filter = None;
            self.apply_filter_and_sort();
            let ghost mid = *self;
            self.set_status("Showing all projects");
            proof {
                lemma_refreshed_status(mid, *self, old(self).selected_session);
            }
        }
        CommandResult::Executed
    }

    fn cmd_search(&mut self, parts: &Vec<Vec<char>>) -> (r: CommandResult)
        ensures
            search_done(*old(self), views_of(parts@), *final(self), r),
    {
        let query = if parts.len() > 1 {
            string_of(&join_spaces(parts, 1))
        } else {
            String::new()
        };
        self.search_query = query;
        self.apply_filter_and_sort();
        CommandResult::Executed
    }

    fn cmd_folders(&mut self, parts: &Vec<Vec<char>>) -> (r: CommandResult)
        ensures
            folders_done(*old(self), views_of(parts@), *final(self), r),
    {
        if parts.len() > 1 {
            let w = &parts[1];
            assert(views_of(parts@)[1] == w@);
            if is_word(w, "on") || is_word(w, "enable") {
                self.folders_enabled = true;
                self.set_status("Folders enabled");
            } else if is_word(w, "off") || is_word(w, "disable") {
                self.folders_enabled = false;
                self.set_status("Folders disabled");
            } else if is_word(w, "toggle") || is_word(w, "t") {
                self.toggle_folders();
            } else {
                let m = concat("Unknown: ", string_of(w).as_str());
                return CommandResult::Error(m);
            }
        } else {
            self.toggle_folders();
        }
        CommandResult::Executed
    }

    fn cmd_goto(&mut self, parts: &Vec<Vec<char>>) -> (r: CommandResult)
        ensures
            goto_done(*old(self), views_of(parts@), *final(self), r),
    {
        let n = self.filtered_indices.len();
        if parts.len() > 1 {
            let w = &parts[1];
            assert(views_of(parts@)[1] == w@);
            let last = if n == 0 {
                0
            } else {
                n - 1
            };
            let sel = if is_word(w, "top") || is_word(w, "first") {
                0
            } else if is_word(w, "bottom") || is_word(w, "last") {
                last
            } else {
                match parse_usize(w.as_slice()) {
                    Some(k) => {
                        let idx = if k > 0 {
                            k - 1
                        } else {
                            0
                        };
                        if idx < last {
                            idx
                        } else {
                            last
                        }
                    },
                    None => {
                        let m = concat("Invalid number: ", string_of(w).as_str());
                        return CommandResult::Error(m);
                    },
                }
            };
            self.selected_session = sel;
        }
        let pos = fmt_decimal(self.selected_session as u128 + 1);
        let total = fmt_decimal(n as u128);
        let m1 = concat("Session ", pos.as_str());
        let m2 = concat(m1.as_str(), " of ");
        let m = concat(m2.as_str(), total.as_str());
        self.set_status(m.as_str());
        CommandResult::Executed
    }

    /// Run the command line `input`.
    pub fn execute_command(&mut self, input: &str) -> (r: CommandResult)
        ensures
            command_done(*old(self), input@, *final(self), r),
    {
        let tc = trim_chars(&chars_of(input));
        if tc.len() == 0 {
            return CommandResult::Executed;
        }
        self.command_history.push(string_of(&tc));
        self.command_history_pos = None;
        let ghost h = *self;
        assert(self.command_history@.drop_last() =~= old(self).command_history@);
        proof {
            lemma_trim_words(input@);
        }
        let parts = split_words(&tc);
        let w = &parts[0];
        assert(views_of(parts@)[0] == w@);
        if is_word(w, "q") || is_word(w, "quit") || is_word(w, "exit") {
            CommandResult::Quit
        } else if is_word(w, "sort") {
            self.cmd_sort(&parts)
        } else if is_word(w, "filter") || is_word(w, "f") {
            self.cmd_filter(&parts)
        } else if is_word(w, "help") || is_word(w, "?") {
            self.screen = Screen::Help;
            CommandResult::Executed
        } else if is_word(w, "search") || is_word(w, "/") {
            self.cmd_search(&parts)
        } else if is_word(w, "folders") || is_word(w, "fs") {
            self.cmd_folders(&parts)
        } else if is_word(w, "goto") || is_word(w, "g") {
            self.cmd_goto(&parts)
        } else if is_word(w, "global") || is_word(w, "G") {
            self.global_mode = true;
            self.project_filter = None;
            self.apply_filter_and_sort();
            let ghost mid = *self;
            self.set_status("Global mode: all projects");
            proof {
                lemma_refreshed_status(mid, *self, h.selected_session);
            }
            CommandResult::Executed
        } else if is_word(w, "cwd") {
            self.global_mode = false;
            self.project_filter = match &self.current_project {
                Some(p) => Some(p.clone()),
                None => None,
            };
            self.apply_filter_and_sort();
            let ghost mid = *self;
            self.set_status("CWD mode: current project only");
            proof {
                lemma_refreshed_status(mid, *self, h.selected_session);
            }
            CommandResult::Executed
        } else if is_word(w, "clear") || is_word(w, "cls") {
            self.search_query = String::new();
            self.apply_filter_and_sort();
            let ghost mid = *self;
            self.set_status("Search cleared");
            proof {
                lemma_refreshed_status(mid, *self, h.selected_session);
            }
            CommandResult::Executed
        } else {
            CommandResult::Unknown(string_of(w))
        }
    }
}

} // verus!
