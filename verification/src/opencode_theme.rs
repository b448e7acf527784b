//! Reading opencode's own theme files: resolving their colour definitions
//! into terminal colours.
use vstd::prelude::*;
use crate::color::{Color, hex_color, parse_hex_color};
use crate::json::{Json, json_get, json_get_str, entry_lookup, get, get_str, parse_json, json_parse};
use crate::text::{chars_of, string_of, trim, trim_chars, str_eq, concat, is_ws};
use crate::config::join_path;
use crate::config::join_path_str;

verus! {

/// A subset of an opencode theme resolved to terminal colours. `None` means
/// "fall back to the terminal-adaptive default".
#[derive(Debug, Default, Clone, Copy, PartialEq, Eq)]
pub struct OpencodeTheme {
    pub background: Option<Color>,
    pub foreground: Option<Color>,
    pub accent: Option<Color>,
    pub accent_dim: Option<Color>,
    pub border: Option<Color>,
    pub highlight: Option<Color>,
    pub highlight_dim: Option<Color>,
    pub error: Option<Color>,
    pub warning: Option<Color>,
    pub success: Option<Color>,
    pub muted: Option<Color>,
}

/// The named colours resolved so far, by name.
pub open spec fn defs_view(ds: Seq<(String, Color)>) -> Seq<(Seq<char>, Color)> {
    ds.map_values(|e: (String, Color)| (e.0@, e.1))
}

/// The colour defined for `k`: that of its first entry.
pub open spec fn defs_get(ds: Seq<(Seq<char>, Color)>, k: Seq<char>) -> Option<Color>
    decreases ds.len(),
{
    if ds.len() == 0 {
        None
    } else {
        match defs_get(ds.drop_last(), k) {
            Some(c) => Some(c),
            None => if ds.last().0 == k {
                Some(ds.last().1)
            } else {
                None
            },
        }
    }
}

/// `s.eq_ignore_ascii_case("none")`.
pub open spec fn is_none_word(s: Seq<char>) -> bool {
    &&& s.len() == 4
    &&& s[0] == 'n' || s[0] == 'N'
    &&& s[1] == 'o' || s[1] == 'O'
    &&& s[2] == 'n' || s[2] == 'N'
    &&& s[3] == 'e' || s[3] == 'E'
}

/// The value of a sequence of decimal digits.
pub open spec fn decimal(d: Seq<char>) -> int
    decreases d.len(),
{
    if d.len() == 0 {
        0
    } else {
        10 * decimal(d.drop_last()) + (d.last() as u32 - 0x30)
    }
}

/// `c` is an ASCII decimal digit.
pub open spec fn is_dec_digit(c: char) -> bool {
    0x30 <= c as u32 <= 0x39
}

/// `s` without one leading `+`.
pub open spec fn unsigned_digits(s: Seq<char>) -> Seq<char> {
    if s.len() > 0 && s[0] == '+' {
        s.drop_first()
    } else {
        s
    }
}

/// `s.parse::<u8>()`: an optional `+` followed by at least one decimal digit
/// and nothing else, of value at most 255.
pub open spec fn dec_u8(s: Seq<char>) -> Option<int> {
    let d = unsigned_digits(s);
    if d.len() > 0 && (forall|i: int| 0 <= i < d.len() ==> is_dec_digit(d[i])) && decimal(d)
        <= 255 {
        Some(decimal(d))
    } else {
        None
    }
}

/// The colour a string in a theme denotes: `none` (any case) resets, `#…` is
/// a hex colour, a number is a palette index, and anything else names a
/// definition.
pub open spec fn string_color(s: Seq<char>, ds: Seq<(Seq<char>, Color)>) -> Option<Color> {
    let v = trim(s);
    if is_none_word(v) {
        Some(Color::Reset)
    } else if v.len() > 0 && v[0] == '#' {
        hex_color(v)
    } else {
        match dec_u8(v) {
            Some(n) => Some(Color::Indexed(n as u8)),
            None => defs_get(ds, v),
        }
    }
}

/// The colour a theme value denotes in the given variant: a string as
/// `string_color`, an object by its member named after the variant, a number
/// up to 255 as a palette index.
pub open spec fn value_color(j: Json, variant: Seq<char>, ds: Seq<(Seq<char>, Color)>) -> Option<Color>
    decreases j, 1nat,
{
    match j {
        Json::Str(s) => string_color(s@, ds),
        Json::Object(es) => member_color(es@, variant, ds),
        Json::Number(n) => match n {
            Some(v) => if v <= 255 {
                Some(Color::Indexed(v as u8))
            } else {
                None
            },
            None => None,
        },
        _ => None,
    }
}

/// The colour of the first member named `variant` of an object's entries.
pub open spec fn member_color(es: Seq<(String, Json)>, variant: Seq<char>, ds: Seq<(Seq<char>, Color)>) -> Option<Color>
    decreases es, 0nat,
{
    if es.len() == 0 {
        None
    } else {
        match entry_lookup(es.drop_last(), variant) {
            Some(_) => member_color(es.drop_last(), variant, ds),
            None => if es.last().0@ == variant {
                value_color(es.last().1, variant, ds)
            } else {
                None
            },
        }
    }
}

proof fn lemma_member_color(es: Seq<(String, Json)>, variant: Seq<char>, ds: Seq<(Seq<char>, Color)>)
    ensures
        member_color(es, variant, ds) == match entry_lookup(es, variant) {
            Some(v) => value_color(v, variant, ds),
            None => None,
        },
    decreases es.len(),
{
    if es.len() > 0 {
        lemma_member_color(es.drop_last(), variant, ds);
    }
}

/// One pass over a theme's definitions: each name not yet defined whose
/// value resolves against the definitions so far is added.
pub open spec fn defs_pass(es: Seq<(String, Json)>, m: Seq<(Seq<char>, Color)>) -> Seq<(Seq<char>, Color)>
    decreases es.len(),
{
    if es.len() == 0 {
        m
    } else {
        let m1 = defs_pass(es.drop_last(), m);
        let k = es.last().0@;
        if defs_get(m1, k) is Some {
            m1
        } else {
            match value_color(es.last().1, "dark"@, m1) {
                Some(c) => m1.push((k, c)),
                None => m1,
            }
        }
    }
}

/// `n` passes over the definitions.
pub open spec fn defs_passes(es: Seq<(String, Json)>, m: Seq<(Seq<char>, Color)>, n: nat) -> Seq<(Seq<char>, Color)>
    decreases n,
{
    if n == 0 {
        m
    } else {
        defs_passes(es, defs_pass(es, m), (n - 1) as nat)
    }
}

/// The resolved definitions of a theme: as many passes as there are entries,
/// so that definitions may refer to one another.
pub open spec fn resolved_defs(defs: Option<Json>) -> Seq<(Seq<char>, Color)> {
    match defs {
        Some(Json::Object(es)) => defs_passes(es@, Seq::empty(), es@.len()),
        _ => Seq::empty(),
    }
}

/// The colour of member `key` of the theme object.
pub open spec fn theme_color(theme: Option<Json>, key: Seq<char>, ds: Seq<(Seq<char>, Color)>) -> Option<Color> {
    match theme {
        Some(t) => match json_get(t, key) {
            Some(v) => value_color(v, "dark"@, ds),
            None => None,
        },
        None => None,
    }
}

/// The theme a parsed theme file describes.
pub open spec fn theme_of(value: Json) -> OpencodeTheme {
    let ds = resolved_defs(json_get(value, "defs"@));
    let t = json_get(value, "theme"@);
    OpencodeTheme {
        background: theme_color(t, "background"@, ds),
        foreground: theme_color(t, "text"@, ds),
        accent: theme_color(t, "accent"@, ds),
        accent_dim: theme_color(t, "textMuted"@, ds),
        border: theme_color(t, "border"@, ds),
        highlight: theme_color(t, "primary"@, ds),
        highlight_dim: theme_color(t, "secondary"@, ds),
        error: theme_color(t, "error"@, ds),
        warning: theme_color(t, "warning"@, ds),
        success: theme_color(t, "success"@, ds),
        muted: theme_color(t, "textMuted"@, ds),
    }
}

/// Each colour of a theme file comes from its own member of the `theme`
/// object, resolved in the dark variant against the definitions: the
/// background from `background`, the foreground from `text`, the accent
/// from `accent`, the dimmed accent and the muted colour from `textMuted`,
/// the border from `border`, the highlight from `primary`, the dimmed
/// highlight from `secondary`, and error, warning and success from the
/// members of those names.
pub proof fn law_theme_members(value: Json)
    ensures
        ({
            let ds = resolved_defs(json_get(value, "defs"@));
            let c = |k: Seq<char>|
                match json_get(value, "theme"@) {
                    Some(th) => match json_get(th, k) {
                        Some(v) => value_color(v, "dark"@, ds),
                        None => None,
                    },
                    None => None,
                };
            let t = theme_of(value);
            &&& t.background == c("background"@)
            &&& t.foreground == c("text"@)
            &&& t.accent == c("accent"@)
            &&& t.accent_dim == c("textMuted"@)
            &&& t.border == c("border"@)
            &&& t.highlight == c("primary"@)
            &&& t.highlight_dim == c("secondary"@)
            &&& t.error == c("error"@)
            &&& t.warning == c("warning"@)
            &&& t.success == c("success"@)
            &&& t.muted == c("textMuted"@)
        }),
{
}

/// Looks a name up among the resolved definitions.
pub fn defs_lookup(ds: &Vec<(String, Color)>, k: &str) -> (r: Option<Color>)
    ensures
        r == defs_get(defs_view(ds@), k@),
{
    let ghost dv = defs_view(ds@);
    let mut i: usize = 0;
    while i < ds.len()
        invariant
            dv == defs_view(ds@),
            i <= ds@.len(),
            defs_get(dv.take(i as int), k@) is None,
        decreases ds@.len() - i,
    {
        proof {
            assert(dv.take(i + 1).drop_last() =~= dv.take(i as int));
        }
        if str_eq(ds[i].0.as_str(), k) {
            proof {
                lemma_defs_get_prefix(dv, i + 1, k@);
            }
            return Some(ds[i].1);
        }
        i = i + 1;
    }
    proof {
        assert(dv.take(dv.len() as int) =~= dv);
    }
    None
}

proof fn lemma_defs_get_prefix(ds: Seq<(Seq<char>, Color)>, n: int, k: Seq<char>)
    requires
        0 <= n <= ds.len(),
        defs_get(ds.take(n), k) is Some,
    ensures
        defs_get(ds, k) == defs_get(ds.take(n), k),
    decreases ds.len() - n,
{
    if n < ds.len() {
        assert(ds.take(n + 1).drop_last() =~= ds.take(n));
        lemma_defs_get_prefix(ds, n + 1, k);
    } else {
        assert(ds.take(n) =~= ds);
    }
}

/// `s.parse::<u8>()`.
pub fn parse_u8(s: &[char]) -> (r: Option<u8>)
    ensures
        match dec_u8(s@) {
            Some(n) => r == Some(n as u8) && n <= 255,
            None => r is None,
        },
{
    let start: usize = if s.len() > 0 && s[0] == '+' {
        1
    } else {
        0
    };
    let ghost d = unsigned_digits(s@);
    proof {
        assert(d =~= s@.subrange(start as int, s@.len() as int));
    }
    if s.len() == start {
        return None;
    }
    let mut acc: u32 = 0;
    let mut i: usize = start;
    while i < s.len()
        invariant
            start <= i <= s@.len(),
            d == s@.subrange(start as int, s@.len() as int),
            d == unsigned_digits(s@),
            forall|j: int| start <= j < i ==> is_dec_digit(s@[j]),
            acc == if decimal(s@.subrange(start as int, i as int)) <= 255 {
                decimal(s@.subrange(start as int, i as int))
            } else {
                256
            },
        decreases s@.len() - i,
    {
        let u = s[i] as u32;
        if u < 0x30 || u > 0x39 {
            proof {
                assert(d[i - start] == s@[i as int]);
                assert(!is_dec_digit(d[i - start]));
                assert(0 <= i - start < d.len());
                assert(!(forall|j: int| 0 <= j < d.len() ==> is_dec_digit(d[j])));
                assert(dec_u8(s@) is None);
            }
            return None;
        }
        proof {
            let p = s@.subrange(start as int, i + 1);
            assert(p.drop_last() =~= s@.subrange(start as int, i as int));
            assert(decimal(s@.subrange(start as int, i as int)) >= 0) by {
                let q = s@.subrange(start as int, i as int);
                assert forall|j: int| 0 <= j < q.len() implies is_dec_digit(q[j]) by {
                    assert(q[j] == s@[start + j]);
                }
                lemma_decimal_nonneg(q);
            }
        }
        let next = acc * 10 + (u - 0x30);
        acc = if next > 255 {
            256
        } else {
            next
        };
        i = i + 1;
    }
    proof {
        assert(s@.subrange(start as int, s@.len() as int) == d);
        assert forall|j: int| 0 <= j < d.len() implies is_dec_digit(d[j]) by {
            assert(d[j] == s@[start + j]);
        }
    }
    if acc > 255 {
        None
    } else {
        Some(acc as u8)
    }
}

/// Digits have a non-negative value.
pub proof fn lemma_decimal_nonneg(d: Seq<char>)
    requires
        forall|i: int| 0 <= i < d.len() ==> is_dec_digit(d[i]),
    ensures
        decimal(d) >= 0,
    decreases d.len(),
{
    if d.len() > 0 {
        assert(is_dec_digit(d[d.len() - 1]));
        lemma_decimal_nonneg(d.drop_last());
    }
}

/// Resolve a theme string to a colour.
pub fn resolve_string(value: &str, defs: &Vec<(String, Color)>, variant: &str) -> (r: Option<Color>)
    ensures
        r == string_color(value@, defs_view(defs@)),
{
    let all = chars_of(value);
    let v = trim_chars(&all);
    if v.len() == 4 && (v[0] == 'n' || v[0] == 'N') && (v[1] == 'o' || v[1] == 'O') && (v[2]
        == 'n' || v[2] == 'N') && (v[3] == 'e' || v[3] == 'E') {
        return Some(Color::Reset);
    }
    let trimmed = string_of(&v);
    if v.len() > 0 && v[0] == '#' {
        return parse_hex_color(trimmed.as_str());
    }
    match parse_u8(&v) {
        Some(n) => Some(Color::Indexed(n)),
        None => defs_lookup(defs, trimmed.as_str()),
    }
}

/// Resolve a theme value (string, variant object or palette number).
pub fn resolve_value(value: &Json, defs: &Vec<(String, Color)>, variant: &str) -> (r: Option<Color>)
    ensures
        r == value_color(*value, variant@, defs_view(defs@)),
    decreases *value,
{
    match value {
        Json::Str(s) => resolve_string(s.as_str(), defs, variant),
        Json::Object(es) => {
            proof {
                lemma_member_color(es@, variant@, defs_view(defs@));
            }
            match get(value, variant) {
                Some(v) => {
                    proof {
                        lemma_lookup_member(es@, variant@);
                        let i = choose|i: int| 0 <= i < es@.len() && es@[i].1 == *v;
                        assert(decreases_to!(*value => *es));
                        assert(decreases_to!(*es => es@));
                        assert(decreases_to!(es@ => es@[i]));
                        assert(decreases_to!(es@[i] => es@[i].1));
                    }
                    resolve_value(v, defs, variant)
                },
                None => None,
            }
        },
        Json::Number(n) => match n {
            Some(v) => if *v <= 255 {
                Some(Color::Indexed(*v as u8))
            } else {
                None
            },
            None => None,
        },
        _ => None,
    }
}

proof fn lemma_lookup_member(es: Seq<(String, Json)>, key: Seq<char>)
    ensures
        entry_lookup(es, key) matches Some(v) ==> exists|i: int| 0 <= i < es.len() && es[i].1 == v,
    decreases es.len(),
{
    if es.len() > 0 {
        lemma_lookup_member(es.drop_last(), key);
        if let Some(v) = entry_lookup(es.drop_last(), key) {
            let i = choose|i: int| 0 <= i < es.drop_last().len() && es.drop_last()[i].1 == v;
            assert(es[i] == es.drop_last()[i]);
        } else if es.last().0@ == key {
            assert(es[es.len() - 1].1 == es.last().1);
        }
    }
}


proof fn lemma_pass_extends(es: Seq<(String, Json)>, m: Seq<(Seq<char>, Color)>)
    ensures
        defs_pass(es, m).len() >= m.len(),
        defs_pass(es, m).take(m.len() as int) == m,
    decreases es.len(),
{
    if es.len() > 0 {
        lemma_pass_extends(es.drop_last(), m);
        let m1 = defs_pass(es.drop_last(), m);
        assert(m1.push(m1[0]).take(m.len() as int) =~= m1.take(m.len() as int)) by {
            assert forall|j: int| 0 <= j < m.len() implies m1.push(m1[0])[j] == m1[j] by {}
        };
        let k = es.last().0@;
        if defs_get(m1, k) is None {
            if let Some(c) = value_color(es.last().1, "dark"@, m1) {
                assert(m1.push((k, c)).take(m.len() as int) =~= m1.take(m.len() as int));
            }
        }
    }
}

proof fn lemma_passes_fixed(es: Seq<(String, Json)>, m: Seq<(Seq<char>, Color)>, n: nat)
    requires
        defs_pass(es, m) == m,
    ensures
        defs_passes(es, m, n) == m,
    decreases n,
{
    if n > 0 {
        lemma_passes_fixed(es, m, (n - 1) as nat);
    }
}

/// One pass over the definitions; says whether anything was added.
fn run_pass(es: &Vec<(String, Json)>, map: &mut Vec<(String, Color)>) -> (changed: bool)
    ensures
        defs_view(final(map)@) == defs_pass(es@, defs_view(old(map)@)),
        changed == (final(map)@.len() > old(map)@.len()),
{
    let ghost m0 = defs_view(map@);
    let ghost len0 = map@.len();
    let mut changed = false;
    let mut i: usize = 0;
    proof {
        assert(es@.take(0) =~= Seq::<(String, Json)>::empty());
    }
    while i < es.len()
        invariant
            i <= es@.len(),
            defs_view(map@) == defs_pass(es@.take(i as int), m0),
            map@.len() >= len0,
            changed == (map@.len() > len0),
        decreases es@.len() - i,
    {
        proof {
            assert(es@.take(i + 1).drop_last() =~= es@.take(i as int));
            assert(es@.take(i + 1).last() == es@[i as int]);
        }
        let key = es[i].0.as_str();
        if defs_lookup(map, key).is_none() {
            let c = resolve_value(&es[i].1, map, "dark");
            match c {
                Some(col) => {
                    let ghost before = defs_view(map@);
                    map.push((es[i].0.clone(), col));
                    changed = true;
                    proof {
                        assert(defs_view(map@) =~= before.push((es@[i as int].0@, col)));
                    }
                },
                None => {},
            }
        }
        i = i + 1;
    }
    proof {
        assert(es@.take(es@.len() as int) =~= es@);
    }
    changed
}

/// The definitions of a theme, resolved against one another.
pub fn resolve_defs(defs: Option<&Json>) -> (r: Vec<(String, Color)>)
    ensures
        defs_view(r@) == resolved_defs(
            match defs {
                Some(j) => Some(*j),
                None => None,
            },
        ),
{
    let mut map: Vec<(String, Color)> = Vec::new();
    match defs {
        Some(Json::Object(es)) => {
            let n = es.len();
            let mut pass: usize = 0;
            let mut done = false;
            proof {
                assert(defs_view(map@) =~= Seq::<(Seq<char>, Color)>::empty());
            }
            while pass < n && !done
                invariant
                    n == es@.len(),
                    pass <= n,
                    !done ==> defs_passes(es@, defs_view(map@), (n - pass) as nat) == defs_passes(
                        es@,
                        Seq::empty(),
                        n as nat,
                    ),
                    done ==> defs_view(map@) == defs_passes(es@, Seq::empty(), n as nat),
                decreases (n - pass) + (if done { 0int } else { 1int }),
            {
                let ghost before = defs_view(map@);
                let ghost blen = map@.len();
                let changed = run_pass(es, &mut map);
                proof {
                    lemma_pass_extends(es@, before);
                }
                if !changed {
                    proof {
                        assert(defs_view(map@).len() == before.len());
                        assert(defs_view(map@) =~= defs_view(map@).take(before.len() as int));
                        lemma_passes_fixed(es@, before, (n - pass) as nat);
                    }
                    done = true;
                } else {
                    pass = pass + 1;
                }
            }
            map
        },
        _ => map,
    }
}

/// The colour of member `key` of the theme object.
pub fn color(theme: Option<&Json>, key: &str, defs: &Vec<(String, Color)>) -> (r: Option<Color>)
    ensures
        r == theme_color(
            match theme {
                Some(j) => Some(*j),
                None => None,
            },
            key@,
            defs_view(defs@),
        ),
{
    match theme {
        Some(t) => match get(t, key) {
            Some(v) => resolve_value(v, defs, "dark"),
            None => None,
        },
        None => None,
    }
}

/// The theme a parsed theme file describes.
pub fn resolve_opencode_theme(value: &Json) -> (r: OpencodeTheme)
    ensures
        r == theme_of(*value),
{
    let d = get(value, "defs");
    let defs = resolve_defs(d);
    let theme = get(value, "theme");
    OpencodeTheme {
        background: color(theme, "background", &defs),
        foreground: color(theme, "text", &defs),
        accent: color(theme, "accent", &defs),
        accent_dim: color(theme, "textMuted", &defs),
        border: color(theme, "border", &defs),
        highlight: color(theme, "primary", &defs),
        highlight_dim: color(theme, "secondary", &defs),
        error: color(theme, "error", &defs),
        warning: color(theme, "warning", &defs),
        success: color(theme, "success", &defs),
        muted: color(theme, "textMuted", &defs),
    }
}

/// The theme a theme file's text describes, or `None` when it is not JSON.
pub fn theme_from_text(content: &str) -> (r: Option<OpencodeTheme>)
    ensures
        r == match json_parse(content@) {
            Some(v) => Some(theme_of(v)),
            None => None,
        },
{
    match parse_json(content) {
        Some(v) => Some(resolve_opencode_theme(&v)),
        None => None,
    }
}

/// The name of the active theme in a parsed `tui.json`: its `theme` string,
/// `opencode` when there is none, and `None` for the runtime-generated
/// `system` theme, which has no file.
pub open spec fn active_name(tui: Json) -> Option<Seq<char>> {
    let name = match json_get_str(tui, "theme"@) {
        Some(n) => n,
        None => "opencode"@,
    };
    if name == "system"@ {
        None
    } else {
        Some(name)
    }
}

/// The name of the theme that `tui.json` selects.
pub fn active_theme_name(tui: &Json) -> (r: Option<String>)
    ensures
        match r {
            Some(n) => active_name(*tui) == Some(n@),
            None => active_name(*tui) is None,
        },
{
    let name: String = match get_str(tui, "theme") {
        Some(n) => n.to_owned(),
        None => "opencode".to_owned(),
    };
    if str_eq(name.as_str(), "system") {
        None
    } else {
        Some(name)
    }
}

/// The name of the theme that the text of a `tui.json` selects; `None`
/// when the text is not JSON or selects the `system` theme.
pub fn active_theme_from_text(content: &str) -> (r: Option<String>)
    ensures
        match json_parse(content@) {
            Some(v) => match r {
                Some(n) => active_name(v) == Some(n@),
                None => active_name(v) is None,
            },
            None => r is None,
        },
{
    match parse_json(content) {
        Some(v) => active_theme_name(&v),
        None => None,
    }
}

/// `name.json`.
pub open spec fn theme_file_name(name: Seq<char>) -> Seq<char> {
    name + ".json"@
}

/// Where a theme file may be, in the order they are tried: opencode's config
/// directory, the project root's `.opencode`, then the working directory's.
pub open spec fn candidate_paths(config_dir: Seq<char>, cwd: Option<Seq<char>>, root: Option<Seq<char>>, name: Seq<char>) -> Seq<Seq<char>> {
    let first = seq![join_path(join_path(config_dir, "themes"@), theme_file_name(name))];
    match cwd {
        Some(c) => {
            let with_root = match root {
                Some(r) => first.push(
                    join_path(join_path(join_path(r, ".opencode"@), "themes"@), theme_file_name(name)),
                ),
                None => first,
            };
            with_root.push(join_path(join_path(join_path(c, ".opencode"@), "themes"@), theme_file_name(name)))
        },
        None => first,
    }
}

fn theme_path_under(dir: &str, name: &str) -> (r: String)
    ensures
        r@ == join_path(join_path(dir@, "themes"@), theme_file_name(name@)),
{
    let file = concat(name, ".json");
    let themes = join_path_str(dir, "themes");
    join_path_str(themes.as_str(), file.as_str())
}

/// The paths at which a theme file named `name` is looked for; `root` is the
/// nearest directory above `cwd` that holds `.git`.
pub fn theme_file_candidates(config_dir: &str, cwd: Option<&str>, root: Option<&str>, name: &str) -> (r: Vec<String>)
    ensures
        r@.map_values(|p: String| p@) == candidate_paths(
            config_dir@,
            match cwd {
                Some(c) => Some(c@),
                None => None,
            },
            match root {
                Some(x) => Some(x@),
                None => None,
            },
            name@,
        ),
{
    let mut out: Vec<String> = Vec::new();
    out.push(theme_path_under(config_dir, name));
    match cwd {
        Some(c) => {
            match root {
                Some(r) => {
                    let base = join_path_str(r, ".opencode");
                    out.push(theme_path_under(base.as_str(), name));
                },
                None => {},
            }
            let base = join_path_str(c, ".opencode");
            out.push(theme_path_under(base.as_str(), name));
        },
        None => {},
    }
    proof {
        let cv = match cwd {
            Some(c) => Some(c@),
            None => None,
        };
        let rv = match root {
            Some(x) => Some(x@),
            None => None,
        };
        assert(out@.map_values(|p: String| p@) =~= candidate_paths(config_dir@, cv, rv, name@));
    }
    out
}

/// Where opencode publishes its built-in theme `name`.
pub fn builtin_theme_url(name: &str) -> (r: String)
    ensures
        r@ == "https://raw.githubusercontent.com/anomalyco/opencode/dev/packages/tui/src/theme/assets/"@
            + name@ + ".json"@,
{
    let a = concat("https://raw.githubusercontent.com/anomalyco/opencode/dev/packages/tui/src/theme/assets/", name);
    concat(a.as_str(), ".json")
}

} // verus!
