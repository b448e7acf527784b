//! Self-upgrade decisions: which release is newest, whether it is the one
//! running, and which asset to fetch.
use vstd::prelude::*;
use crate::json::{Json, json_get_str, json_parse, get_str, parse_json};
use crate::model::opt_view;
use crate::text::{concat, str_eq, chars_of, contains_seq, seq_contains};

verus! {

/// The GitHub repository releases come from.
pub const REPO: &'static str = "fzaca/opencode-selector";

/// The running binary at `exe` is a development build: its path runs
/// through `target/debug`. Such a build is not upgraded.
pub fn is_dev_build(exe: &str) -> (r: bool)
    ensures
        r == seq_contains(exe@, "target/debug"@),
{
    let e = chars_of(exe);
    let d = chars_of("target/debug");
    contains_seq(e.as_slice(), d.as_slice())
}

/// The tag of the newest release, from GitHub's parsed release description:
/// its string `tag_name`.
pub fn release_tag(parsed: &Json) -> (r: Option<String>)
    ensures
        opt_view(r) == json_get_str(*parsed, "tag_name"@),
{
    match get_str(parsed, "tag_name") {
        Some(t) => Some(t.to_owned()),
        None => None,
    }
}

/// The tag of the newest release, from the text of GitHub's release
/// description; `None` when it is not JSON or has no string `tag_name`.
pub fn release_tag_from_text(content: &str) -> (r: Option<String>)
    ensures
        opt_view(r) == match json_parse(content@) {
            Some(v) => json_get_str(v, "tag_name"@),
            None => None,
        },
{
    match parse_json(content) {
        Some(v) => release_tag(&v),
        None => None,
    }
}

/// The release `latest` is the running version `current`: it is tagged
/// `v` and the version.
pub fn is_current(latest: &str, current: &str) -> (r: bool)
    ensures
        r == (latest@ == "v"@ + current@),
{
    let tagged = concat("v", current);
    str_eq(latest, tagged.as_str())
}

/// The suffix of the release asset for the machine architecture `arch`
/// (as `std::env::consts::ARCH` names it): ARM64 gets its own build, any
/// other machine the x86-64 one.
pub fn arch_suffix(arch: &str) -> (r: &'static str)
    ensures
        r@ == if arch@ == "aarch64"@ {
            "aarch64-linux"@
        } else {
            "x86_64-linux"@
        },
{
    proof {
        reveal_strlit("x86_64");
        reveal_strlit("aarch64");
        assert("x86_64"@.len() != "aarch64"@.len());
    }
    if str_eq(arch, "x86_64") {
        "x86_64-linux"
    } else if str_eq(arch, "aarch64") {
        "aarch64-linux"
    } else {
        "x86_64-linux"
    }
}

/// The name of the release asset for an architecture suffix.
pub fn asset_name(suffix: &str) -> (r: String)
    ensures
        r@ == "opcs-"@ + suffix@,
{
    concat("opcs-", suffix)
}

/// Where to download asset `asset` of release `tag`.
pub fn download_url(tag: &str, asset: &str) -> (r: String)
    ensures
        r@ == "https://github.com/"@ + REPO@ + "/releases/download/"@ + tag@ + "/"@ + asset@,
{
    let a = concat("https://github.com/", REPO);
    let b = concat(a.as_str(), "/releases/download/");
    let c = concat(b.as_str(), tag);
    let d = concat(c.as_str(), "/");
    concat(d.as_str(), asset)
}

/// Where GitHub describes the newest release.
pub fn latest_release_url() -> (r: String)
    ensures
        r@ == "https://api.github.com/repos/"@ + REPO@ + "/releases/latest"@,
{
    let a = concat("https://api.github.com/repos/", REPO);
    concat(a.as_str(), "/releases/latest")
}

} // verus!
