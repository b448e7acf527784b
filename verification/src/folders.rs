//! Folder metadata kept beside opencode's database: folders, and which
//! session sits in which folder.
use vstd::prelude::*;
use crate::model::{Folder, FolderMapping, FolderView, MappingView, opt_view};
use crate::strmap::{StrMap, map_of, pair_views};
use crate::text::{str_eq, concat};

verus! {

/// The characters of each folder.
pub open spec fn fviews(fs: Seq<Folder>) -> Seq<FolderView> {
    fs.map_values(|f: Folder| f@)
}

/// The characters of each mapping.
pub open spec fn mviews(ms: Seq<FolderMapping>) -> Seq<MappingView> {
    ms.map_values(|m: FolderMapping| m@)
}

/// Some folder of `fs` has the id `id`.
pub open spec fn has_folder(fs: Seq<FolderView>, id: Seq<char>) -> bool {
    exists|i: int| 0 <= i < fs.len() && fs[i].id == id
}

/// The position of the first folder of `fs` with the id `id`.
pub open spec fn find_index(fs: Seq<FolderView>, id: Seq<char>) -> Option<int>
    decreases fs.len(),
{
    if fs.len() == 0 {
        None
    } else {
        match find_index(fs.drop_last(), id) {
            Some(i) => Some(i),
            None => if fs.last().id == id {
                Some(fs.len() - 1)
            } else {
                None
            },
        }
    }
}

/// The first folder of `fs` with the id `id`.
pub open spec fn find_folder(fs: Seq<FolderView>, id: Seq<char>) -> Option<FolderView> {
    match find_index(fs, id) {
        Some(i) => Some(fs[i]),
        None => None,
    }
}

/// The ids of the folders that always exist and cannot be renamed or deleted.
pub open spec fn is_system_id(id: Seq<char>) -> bool {
    id == "all"@ || id == "inbox"@ || id == "archive"@
}

/// `fs` with a folder `id` named `name` appended when none has that id.
pub open spec fn with_default(fs: Seq<FolderView>, id: Seq<char>, name: Seq<char>) -> Seq<
    FolderView,
> {
    if has_folder(fs, id) {
        fs
    } else {
        fs.push(FolderView { id, name, parent_id: None })
    }
}

/// `fs` with the default folders All, Inbox and Archive added where missing,
/// in that order.
pub open spec fn with_defaults(fs: Seq<FolderView>) -> Seq<FolderView> {
    with_default(
        with_default(with_default(fs, "all"@, "All"@), "inbox"@, "Inbox"@),
        "archive"@,
        "Archive"@,
    )
}

/// All three default folders are present.
pub open spec fn has_defaults(fs: Seq<FolderView>) -> bool {
    has_folder(fs, "all"@) && has_folder(fs, "inbox"@) && has_folder(fs, "archive"@)
}

/// `fs` with the first folder `id` renamed to `name`.
pub open spec fn renamed(fs: Seq<FolderView>, id: Seq<char>, name: Seq<char>) -> Seq<FolderView> {
    match find_index(fs, id) {
        Some(i) => fs.update(i, FolderView { name, ..fs[i] }),
        None => fs,
    }
}

/// The folder is not `id`.
pub open spec fn folder_id_not(id: Seq<char>) -> spec_fn(FolderView) -> bool {
    |f: FolderView| f.id != id
}

/// The mapping is not for session `s`.
pub open spec fn session_not(s: Seq<char>) -> spec_fn(MappingView) -> bool {
    |m: MappingView| m.session_id != s
}

/// The mapping is not into folder `id`.
pub open spec fn target_not(id: Seq<char>) -> spec_fn(MappingView) -> bool {
    |m: MappingView| m.folder_id != id
}

/// The mapping is into folder `id`.
pub open spec fn target_is(id: Seq<char>) -> spec_fn(MappingView) -> bool {
    |m: MappingView| m.folder_id == id
}

/// `ms` after moving session `s` into folder `f`: its old mappings go and a
/// new one is appended.
pub open spec fn moved(ms: Seq<MappingView>, s: Seq<char>, f: Seq<char>) -> Seq<MappingView> {
    ms.filter(session_not(s)).push(MappingView { session_id: s, folder_id: f })
}

/// The folder of the first mapping of `ms` for session `s`.
pub open spec fn find_mapping(ms: Seq<MappingView>, s: Seq<char>) -> Option<Seq<char>>
    decreases ms.len(),
{
    if ms.len() == 0 {
        None
    } else {
        match find_mapping(ms.drop_last(), s) {
            Some(f) => Some(f),
            None => if ms.last().session_id == s {
                Some(ms.last().folder_id)
            } else {
                None
            },
        }
    }
}

/// The sessions of the mappings of `ms` into folder `f`, in order.
pub open spec fn sessions_in(ms: Seq<MappingView>, f: Seq<char>) -> Seq<Seq<char>> {
    ms.filter(target_is(f)).map_values(|m: MappingView| m.session_id)
}

/// `find_index` gives the first folder with the id, if any.
pub proof fn lemma_find_index(fs: Seq<FolderView>, id: Seq<char>)
    ensures
        find_index(fs, id) matches Some(i) ==> 0 <= i < fs.len() && fs[i].id == id && forall|j: int|
            0 <= j < i ==> fs[j].id != id,
        find_index(fs, id) is None ==> forall|j: int| 0 <= j < fs.len() ==> fs[j].id != id,
        find_index(fs, id) is Some <==> has_folder(fs, id),
    decreases fs.len(),
{
    if fs.len() > 0 {
        lemma_find_index(fs.drop_last(), id);
        assert forall|j: int| 0 <= j < fs.len() - 1 implies fs.drop_last()[j] == fs[j] by {}
    }
}

/// `find_mapping` gives the folder of the first mapping of the session.
pub proof fn lemma_find_mapping(ms: Seq<MappingView>, s: Seq<char>)
    ensures
        find_mapping(ms, s) matches Some(f) ==> exists|i: int|
            0 <= i < ms.len() && ms[i].session_id == s && ms[i].folder_id == f && forall|j: int|
                0 <= j < i ==> ms[j].session_id != s,
        find_mapping(ms, s) is None <==> forall|j: int|
            0 <= j < ms.len() ==> ms[j].session_id != s,
    decreases ms.len(),
{
    if ms.len() > 0 {
        lemma_find_mapping(ms.drop_last(), s);
        assert forall|j: int| 0 <= j < ms.len() - 1 implies ms.drop_last()[j] == ms[j] by {}
        if find_mapping(ms.drop_last(), s) is None && ms.last().session_id == s {
            assert(ms[ms.len() - 1].session_id == s);
        }
    }
}

/// Moving session `s` into folder `f` and then looking `s` up gives `f`.
pub proof fn law_move_then_lookup(ms: Seq<MappingView>, s: Seq<char>, f: Seq<char>)
    ensures
        find_mapping(moved(ms, s, f), s) == Some(f),
{
    let kept = ms.filter(session_not(s));
    lemma_no_mapping_after_filter(ms, s);
    assert(moved(ms, s, f).drop_last() =~= kept);
}

/// No mapping for `s` survives removing the mappings of `s`.
pub proof fn lemma_no_mapping_after_filter(ms: Seq<MappingView>, s: Seq<char>)
    ensures
        find_mapping(ms.filter(session_not(s)), s) is None,
    decreases ms.len(),
{
    reveal_with_fuel(Seq::filter, 1);
    if ms.len() > 0 {
        lemma_no_mapping_after_filter(ms.drop_last(), s);
        let k = ms.drop_last().filter(session_not(s));
        if ms.last().session_id != s {
            assert(ms.filter(session_not(s)).drop_last() =~= k);
        }
    }
}

/// Moving session `s` leaves the folder of every other session as it was.
pub proof fn law_move_keeps_others(ms: Seq<MappingView>, s: Seq<char>, f: Seq<char>, t: Seq<char>)
    requires
        t != s,
    ensures
        find_mapping(moved(ms, s, f), t) == find_mapping(ms, t),
{
    lemma_filter_keeps_lookup(ms, s, t);
    assert(moved(ms, s, f).drop_last() =~= ms.filter(session_not(s)));
    if find_mapping(ms.filter(session_not(s)), t) is None {
        assert(moved(ms, s, f).last().session_id == s);
    }
}

/// Dropping the mappings of `s` leaves the lookup of another session alone.
pub proof fn lemma_filter_keeps_lookup(ms: Seq<MappingView>, s: Seq<char>, t: Seq<char>)
    requires
        t != s,
    ensures
        find_mapping(ms.filter(session_not(s)), t) == find_mapping(ms, t),
    decreases ms.len(),
{
    reveal_with_fuel(Seq::filter, 1);
    if ms.len() > 0 {
        lemma_filter_keeps_lookup(ms.drop_last(), s, t);
        let k = ms.drop_last().filter(session_not(s));
        if ms.last().session_id != s {
            assert(ms.filter(session_not(s)).drop_last() =~= k);
        }
    }
}

/// Unassigning session `s` leaves it in no folder.
pub proof fn law_unassign_then_lookup(ms: Seq<MappingView>, s: Seq<char>)
    ensures
        find_mapping(ms.filter(session_not(s)), s) is None,
{
    lemma_no_mapping_after_filter(ms, s);
}

/// A folder added under a new id is found under that id.
pub proof fn law_add_then_find(fs: Seq<FolderView>, f: FolderView)
    requires
        !has_folder(fs, f.id),
    ensures
        find_folder(fs.push(f), f.id) == Some(f),
{
    lemma_find_index(fs, f.id);
    assert(fs.push(f).drop_last() =~= fs);
}

/// A renamed folder is found under its id with the new name and nothing
/// else changed.
pub proof fn law_rename_then_find(fs: Seq<FolderView>, id: Seq<char>, name: Seq<char>)
    requires
        has_folder(fs, id),
    ensures
        find_folder(renamed(fs, id, name), id) matches Some(g) && g == (FolderView {
            name,
            ..find_folder(fs, id)->0
        }),
{
    lemma_find_index(fs, id);
    let i = find_index(fs, id)->0;
    let r = renamed(fs, id, name);
    lemma_find_index(r, id);
    assert(r[i].id == id);
    if find_index(r, id) != Some(i) {
        let k = find_index(r, id)->0;
        assert(k < i);
        assert(r[k] == fs[k]);
    }
}

/// A deleted folder is gone.
pub proof fn law_delete_then_gone(fs: Seq<FolderView>, id: Seq<char>)
    ensures
        !has_folder(fs.filter(folder_id_not(id)), id),
{
    fs.filter_lemma(folder_id_not(id));
}

/// No session is mapped twice.
pub open spec fn sessions_unique(ms: Seq<MappingView>) -> bool {
    forall|i: int, j: int| 0 <= i < j < ms.len() ==> ms[i].session_id != ms[j].session_id
}

/// The (session, folder) pairs of the mappings.
pub open spec fn mapping_pairs(ms: Seq<MappingView>) -> Seq<(Seq<char>, Seq<char>)> {
    ms.map_values(|m: MappingView| (m.session_id, m.folder_id))
}

proof fn lemma_filter_sessions_unique(ms: Seq<MappingView>, p: spec_fn(MappingView) -> bool)
    requires
        sessions_unique(ms),
    ensures
        sessions_unique(ms.filter(p)),
        forall|i: int| 0 <= i < ms.filter(p).len() ==> ms.contains(#[trigger] ms.filter(p)[i]),
    decreases ms.len(),
{
    reveal_with_fuel(Seq::filter, 1);
    if ms.len() > 0 {
        let q = ms.drop_last();
        assert(sessions_unique(q));
        lemma_filter_sessions_unique(q, p);
        let fq = q.filter(p);
        assert forall|i: int| 0 <= i < ms.filter(p).len() implies ms.contains(#[trigger] ms.filter(p)[i]) by {
            if i < fq.len() {
                assert(q.contains(fq[i]));
                let k = choose|k: int| 0 <= k < q.len() && q[k] == fq[i];
                assert(ms[k] == q[k]);
            } else {
                assert(ms[ms.len() - 1] == ms.last());
            }
        }
        if p(ms.last()) {
            assert forall|i: int| 0 <= i < fq.len() implies fq[i].session_id != ms.last().session_id by {
                assert(q.contains(fq[i]));
                let k = choose|k: int| 0 <= k < q.len() && q[k] == fq[i];
                assert(ms[k] == q[k]);
            }
        }
    }
}

/// Moving a session keeps every session in at most one folder.
pub proof fn law_move_keeps_sessions_unique(ms: Seq<MappingView>, s: Seq<char>, f: Seq<char>)
    requires
        sessions_unique(ms),
    ensures
        sessions_unique(moved(ms, s, f)),
{
    lemma_filter_sessions_unique(ms, session_not(s));
    let kept = ms.filter(session_not(s));
    kept.filter_lemma(session_not(s));
    assert forall|i: int, j: int| 0 <= i < j < moved(ms, s, f).len() implies moved(ms, s, f)[i].session_id
        != moved(ms, s, f)[j].session_id by {
        if j == kept.len() {
            assert(session_not(s)(kept[i]));
        }
    }
}

/// Removing a session from its folder keeps every session in at most one
/// folder.
pub proof fn law_unassign_keeps_sessions_unique(ms: Seq<MappingView>, s: Seq<char>)
    requires
        sessions_unique(ms),
    ensures
        sessions_unique(ms.filter(session_not(s))),
{
    lemma_filter_sessions_unique(ms, session_not(s));
}

/// While no session is mapped twice, the session-to-folder map the list
/// filters by and the store's lookup of a session's folder agree.
pub proof fn law_folder_map_agrees(ms: Seq<MappingView>, s: Seq<char>)
    requires
        sessions_unique(ms),
    ensures
        map_of(mapping_pairs(ms)).dom().contains(s) <==> find_mapping(ms, s) is Some,
        find_mapping(ms, s) matches Some(f) ==> map_of(mapping_pairs(ms))[s] == f,
    decreases ms.len(),
{
    if ms.len() > 0 {
        let q = ms.drop_last();
        assert(sessions_unique(q));
        law_folder_map_agrees(q, s);
        assert(mapping_pairs(ms).drop_last() =~= mapping_pairs(q));
        assert(mapping_pairs(ms).last() == (ms.last().session_id, ms.last().folder_id));
        if ms.last().session_id == s {
            lemma_find_mapping(q, s);
            if find_mapping(q, s) is Some {
                let i = choose|i: int| 0 <= i < q.len() && q[i].session_id == s && q[i].folder_id == find_mapping(q, s)->0
                    && forall|j: int| 0 <= j < i ==> q[j].session_id != s;
                assert(ms[i] == q[i]);
                assert(ms[ms.len() - 1].session_id == s);
            }
        }
    }
}

/// Adding the defaults yields a folder list that has them.
pub proof fn law_defaults_present(fs: Seq<FolderView>)
    ensures
        has_defaults(with_defaults(fs)),
        forall|i: int| 0 <= i < fs.len() ==> with_defaults(fs)[i] == fs[i],
{
    let a = with_default(fs, "all"@, "All"@);
    let b = with_default(a, "inbox"@, "Inbox"@);
    let c = with_default(b, "archive"@, "Archive"@);
    assert(has_folder(a, "all"@)) by {
        if !has_folder(fs, "all"@) {
            assert(a[a.len() - 1].id == "all"@);
        }
    }
    assert(has_folder(b, "all"@)) by {
        let i = choose|i: int| 0 <= i < a.len() && a[i].id == "all"@;
        assert(b[i] == a[i]);
    }
    assert(has_folder(b, "inbox"@)) by {
        if !has_folder(a, "inbox"@) {
            assert(b[b.len() - 1].id == "inbox"@);
        }
    }
    assert(has_folder(c, "all"@)) by {
        let i = choose|i: int| 0 <= i < b.len() && b[i].id == "all"@;
        assert(c[i] == b[i]);
    }
    assert(has_folder(c, "inbox"@)) by {
        let i = choose|i: int| 0 <= i < b.len() && b[i].id == "inbox"@;
        assert(c[i] == b[i]);
    }
    assert(has_folder(c, "archive"@)) by {
        if !has_folder(b, "archive"@) {
            assert(c[c.len() - 1].id == "archive"@);
        }
    }
}

/// A default folder: the id and name given, and no parent.
pub open spec fn default_folder(id: Seq<char>, name: Seq<char>) -> FolderView {
    FolderView { id, name, parent_id: None }
}

/// No two folders share an id.
pub open spec fn ids_distinct(fs: Seq<FolderView>) -> bool {
    forall|i: int, j: int| 0 <= i < j < fs.len() ==> fs[i].id != fs[j].id
}

/// The mapping points into an existing folder other than All.
pub open spec fn target_ok(fs: Seq<FolderView>, m: MappingView) -> bool {
    m.folder_id != "all"@ && has_folder(fs, m.folder_id)
}

/// Every mapping points into an existing folder other than All.
pub open spec fn targets_exist(fs: Seq<FolderView>, ms: Seq<MappingView>) -> bool {
    forall|i: int| 0 <= i < ms.len() ==> target_ok(fs, #[trigger] ms[i])
}

/// What a folder store keeps true from its creation in memory on: folder
/// ids are distinct, the folders All, Inbox and Archive are there as made,
/// every session is in at most one folder, and every mapping points into an
/// existing folder other than All.
pub open spec fn store_ok(fs: Seq<FolderView>, ms: Seq<MappingView>) -> bool {
    &&& ids_distinct(fs)
    &&& fs.contains(default_folder("all"@, "All"@))
    &&& fs.contains(default_folder("inbox"@, "Inbox"@))
    &&& fs.contains(default_folder("archive"@, "Archive"@))
    &&& sessions_unique(ms)
    &&& targets_exist(fs, ms)
}

proof fn lemma_system_ids()
    ensures
        "all"@ != "inbox"@,
        "all"@ != "archive"@,
        "inbox"@ != "archive"@,
        is_system_id("all"@),
        is_system_id("inbox"@),
        is_system_id("archive"@),
{
    reveal_strlit("all");
    reveal_strlit("inbox");
    reveal_strlit("archive");
    assert("all"@.len() == 3);
    assert("inbox"@.len() == 5);
    assert("archive"@.len() == 7);
}

/// The defaults alone make a sound store.
proof fn lemma_ok_in_memory()
    ensures
        store_ok(with_defaults(Seq::empty()), Seq::empty()),
{
    lemma_system_ids();
    let a = with_default(Seq::<FolderView>::empty(), "all"@, "All"@);
    assert(a =~= seq![default_folder("all"@, "All"@)]);
    assert(!has_folder(a, "inbox"@)) by {
        assert forall|i: int| 0 <= i < a.len() implies a[i].id != "inbox"@ by {}
    }
    let b = with_default(a, "inbox"@, "Inbox"@);
    assert(b =~= seq![default_folder("all"@, "All"@), default_folder("inbox"@, "Inbox"@)]);
    assert(!has_folder(b, "archive"@)) by {
        assert forall|i: int| 0 <= i < b.len() implies b[i].id != "archive"@ by {}
    }
    let c = with_default(b, "archive"@, "Archive"@);
    assert(c =~= seq![
        default_folder("all"@, "All"@),
        default_folder("inbox"@, "Inbox"@),
        default_folder("archive"@, "Archive"@),
    ]);
    assert(c[0] == default_folder("all"@, "All"@));
    assert(c[1] == default_folder("inbox"@, "Inbox"@));
    assert(c[2] == default_folder("archive"@, "Archive"@));
}

/// Adding a folder under a new id keeps the store sound.
proof fn lemma_ok_add(fs: Seq<FolderView>, ms: Seq<MappingView>, f: FolderView)
    requires
        store_ok(fs, ms),
        !has_folder(fs, f.id),
    ensures
        store_ok(fs.push(f), ms),
{
    let g = fs.push(f);
    assert forall|i: int, j: int| 0 <= i < j < g.len() implies g[i].id != g[j].id by {
        if j == fs.len() {
            assert(fs[i].id != f.id);
        }
    }
    assert forall|x: FolderView| fs.contains(x) implies g.contains(x) by {
        let k = choose|k: int| 0 <= k < fs.len() && fs[k] == x;
        assert(g[k] == x);
    }
    assert forall|i: int| 0 <= i < ms.len() implies target_ok(g, #[trigger] ms[i]) by {
        assert(target_ok(fs, ms[i]));
        let k = choose|k: int| 0 <= k < fs.len() && fs[k].id == ms[i].folder_id;
        assert(g[k] == fs[k]);
    }
}

/// Renaming a folder that is not a system folder keeps the store sound.
proof fn lemma_ok_rename(fs: Seq<FolderView>, ms: Seq<MappingView>, id: Seq<char>, name: Seq<char>)
    requires
        store_ok(fs, ms),
        !is_system_id(id),
    ensures
        store_ok(renamed(fs, id, name), ms),
{
    lemma_find_index(fs, id);
    lemma_system_ids();
    if let Some(i) = find_index(fs, id) {
        let r = renamed(fs, id, name);
        assert(forall|k: int| 0 <= k < fs.len() ==> #[trigger] r[k].id == fs[k].id);
        assert forall|x: FolderView| fs.contains(x) && is_system_id(x.id) implies r.contains(x) by {
            let k = choose|k: int| 0 <= k < fs.len() && fs[k] == x;
            assert(k != i);
            assert(r[k] == x);
        }
        assert(is_system_id(default_folder("all"@, "All"@).id));
        assert(is_system_id(default_folder("inbox"@, "Inbox"@).id));
        assert(is_system_id(default_folder("archive"@, "Archive"@).id));
        assert forall|j: int| 0 <= j < ms.len() implies target_ok(r, #[trigger] ms[j]) by {
            assert(target_ok(fs, ms[j]));
            let k = choose|k: int| 0 <= k < fs.len() && fs[k].id == ms[j].folder_id;
            assert(r[k].id == fs[k].id);
        }
    }
}

proof fn lemma_filter_ids_distinct(fs: Seq<FolderView>, p: spec_fn(FolderView) -> bool)
    requires
        ids_distinct(fs),
    ensures
        ids_distinct(fs.filter(p)),
    decreases fs.len(),
{
    reveal_with_fuel(Seq::filter, 1);
    if fs.len() > 0 {
        let q = fs.drop_last();
        assert(ids_distinct(q));
        lemma_filter_ids_distinct(q, p);
        let fq = q.filter(p);
        q.filter_lemma(p);
        if p(fs.last()) {
            assert forall|i: int| 0 <= i < fq.len() implies fq[i].id != fs.last().id by {
                assert(fq.contains(fq[i]));
                q.lemma_filter_contains_rev(p, fq[i]);
                let k = choose|k: int| 0 <= k < q.len() && q[k] == fq[i];
                assert(fs[k] == q[k]);
            }
        }
    }
}

/// Deleting a folder that is not a system folder, with its mappings, keeps
/// the store sound.
proof fn lemma_ok_delete(fs: Seq<FolderView>, ms: Seq<MappingView>, id: Seq<char>)
    requires
        store_ok(fs, ms),
        !is_system_id(id),
    ensures
        store_ok(fs.filter(folder_id_not(id)), ms.filter(target_not(id))),
{
    lemma_system_ids();
    let ffs = fs.filter(folder_id_not(id));
    let fms = ms.filter(target_not(id));
    lemma_filter_ids_distinct(fs, folder_id_not(id));
    fs.filter_lemma(folder_id_not(id));
    ms.filter_lemma(target_not(id));
    lemma_filter_sessions_unique(ms, target_not(id));
    assert forall|x: FolderView| fs.contains(x) && is_system_id(x.id) implies ffs.contains(x) by {
        let k = choose|k: int| 0 <= k < fs.len() && fs[k] == x;
        assert(folder_id_not(id)(fs[k]));
    }
    assert(is_system_id(default_folder("all"@, "All"@).id));
    assert(is_system_id(default_folder("inbox"@, "Inbox"@).id));
    assert(is_system_id(default_folder("archive"@, "Archive"@).id));
    assert forall|i: int| 0 <= i < fms.len() implies target_ok(ffs, #[trigger] fms[i]) by {
        assert(ms.contains(fms[i]));
        assert(target_not(id)(fms[i]));
        let j = choose|j: int| 0 <= j < ms.len() && ms[j] == fms[i];
        assert(target_ok(fs, ms[j]));
        let k = choose|k: int| 0 <= k < fs.len() && fs[k].id == ms[j].folder_id;
        assert(folder_id_not(id)(fs[k]));
        assert(ffs.contains(fs[k]));
        let m = choose|m: int| 0 <= m < ffs.len() && ffs[m] == fs[k];
        assert(ffs[m].id == fms[i].folder_id);
    }
}

/// Moving a session into an existing folder other than All keeps the store
/// sound.
proof fn lemma_ok_move(fs: Seq<FolderView>, ms: Seq<MappingView>, s: Seq<char>, f: Seq<char>)
    requires
        store_ok(fs, ms),
        f != "all"@,
        has_folder(fs, f),
    ensures
        store_ok(fs, moved(ms, s, f)),
{
    law_move_keeps_sessions_unique(ms, s, f);
    lemma_filter_sessions_unique(ms, session_not(s));
    let kept = ms.filter(session_not(s));
    let mv = moved(ms, s, f);
    assert forall|i: int| 0 <= i < mv.len() implies target_ok(fs, #[trigger] mv[i]) by {
        if i < kept.len() {
            assert(ms.contains(kept[i]));
            let j = choose|j: int| 0 <= j < ms.len() && ms[j] == kept[i];
            assert(target_ok(fs, ms[j]));
        }
    }
}

/// Removing a session from its folder keeps the store sound.
proof fn lemma_ok_unassign(fs: Seq<FolderView>, ms: Seq<MappingView>, s: Seq<char>)
    requires
        store_ok(fs, ms),
    ensures
        store_ok(fs, ms.filter(session_not(s))),
{
    lemma_filter_sessions_unique(ms, session_not(s));
    let kept = ms.filter(session_not(s));
    assert forall|i: int| 0 <= i < kept.len() implies target_ok(fs, #[trigger] kept[i]) by {
        assert(ms.contains(kept[i]));
        let j = choose|j: int| 0 <= j < ms.len() && ms[j] == kept[i];
        assert(target_ok(fs, ms[j]));
    }
}

proof fn lemma_filter_keeps_all(ms: Seq<MappingView>, s: Seq<char>)
    requires
        forall|j: int| 0 <= j < ms.len() ==> ms[j].session_id != s,
    ensures
        ms.filter(session_not(s)) == ms,
    decreases ms.len(),
{
    reveal_with_fuel(Seq::filter, 1);
    if ms.len() > 0 {
        lemma_filter_keeps_all(ms.drop_last(), s);
        assert(ms.drop_last().push(ms.last()) =~= ms);
    } else {
        assert(ms.filter(session_not(s)) =~= ms);
    }
}

/// Unassigning a session that was in no folder after moving it into one
/// gives back the mappings as they were before the move.
pub proof fn law_unassign_undoes_move(ms: Seq<MappingView>, s: Seq<char>, f: Seq<char>)
    requires
        find_mapping(ms, s) is None,
    ensures
        moved(ms, s, f).filter(session_not(s)) == ms,
{
    reveal_with_fuel(Seq::filter, 1);
    lemma_find_mapping(ms, s);
    lemma_filter_keeps_all(ms, s);
    let mv = moved(ms, s, f);
    assert(mv.drop_last() =~= ms);
}

/// Why a folder operation was refused.
#[derive(Debug, Clone, PartialEq, Eq)]
pub enum FolderError {
    /// A folder with this id exists already.
    AlreadyExists(String),
    /// The folder is one of All, Inbox and Archive, which keep their names.
    CannotRenameSystem(String),
    /// The folder is one of All, Inbox and Archive, which cannot be deleted.
    CannotDeleteSystem(String),
    /// No folder has this id.
    NotFound(String),
    /// Sessions are never assigned to the All folder.
    CannotMoveToAll,
}

impl FolderError {
    /// The error's message.
    pub fn message(&self) -> (r: String)
        ensures
            r@ == match self {
                FolderError::AlreadyExists(id) => "folder with id "@ + id@ + " already exists"@,
                FolderError::CannotRenameSystem(id) => "cannot rename system folder "@ + id@,
                FolderError::CannotDeleteSystem(id) => "cannot delete system folder "@ + id@,
                FolderError::NotFound(id) => "folder "@ + id@ + " not found"@,
                FolderError::CannotMoveToAll => "cannot move sessions to the All folder"@,
            },
    {
        match self {
            FolderError::AlreadyExists(id) => {
                let a = concat("folder with id ", id.as_str());
                concat(a.as_str(), " already exists")
            },
            FolderError::CannotRenameSystem(id) => concat("cannot rename system folder ", id.as_str()),
            FolderError::CannotDeleteSystem(id) => concat("cannot delete system folder ", id.as_str()),
            FolderError::NotFound(id) => {
                let a = concat("folder ", id.as_str());
                concat(a.as_str(), " not found")
            },
            FolderError::CannotMoveToAll => "cannot move sessions to the All folder".to_owned(),
        }
    }
}

/// Whether `id` names one of the folders All, Inbox and Archive.
pub fn is_system_folder(id: &str) -> (r: bool)
    ensures
        r == is_system_id(id@),
{
    str_eq(id, "all") || str_eq(id, "inbox") || str_eq(id, "archive")
}

/// Manages folder metadata stored outside of opencode's database.
///
/// The store holds the folders and mappings in memory; writing them to the
/// sidecar file is left to the caller after each change.
#[derive(Debug)]
pub struct FolderStore {
    path: String,
    folders: Vec<Folder>,
    mappings: Vec<FolderMapping>,
}

impl FolderStore {
    /// The sidecar file's path (empty for a store that lives in memory only).
    pub closed spec fn path_view(&self) -> Seq<char> {
        self.path@
    }

    /// The folders, in order.
    pub closed spec fn folders_view(&self) -> Seq<FolderView> {
        fviews(self.folders@)
    }

    /// The session-to-folder mappings, in order.
    pub closed spec fn mappings_view(&self) -> Seq<MappingView> {
        mviews(self.mappings@)
    }

    /// The store is sound (see `store_ok`).
    pub open spec fn well_kept(&self) -> bool {
        store_ok(self.folders_view(), self.mappings_view())
    }

    /// Create the store in memory without touching disk.
    pub fn in_memory() -> (r: FolderStore)
        ensures
            r.well_kept(),
            r.path_view() == Seq::<char>::empty(),
            r.folders_view() == with_defaults(Seq::empty()),
            r.mappings_view() == Seq::<MappingView>::empty(),
    {
        let mut store = FolderStore { path: String::new(), folders: Vec::new(), mappings: Vec::new() };
        proof {
            assert(fviews(store.folders@) =~= Seq::<FolderView>::empty());
            assert(mviews(store.mappings@) =~= Seq::<MappingView>::empty());
        }
        store.ensure_defaults();
        proof {
            lemma_ok_in_memory();
        }
        store
    }

    /// A store for the sidecar file at `path` holding what was read from it;
    /// the default folders are added where missing.
    pub fn from_parts(path: String, folders: Vec<Folder>, mappings: Vec<FolderMapping>) -> (r:
        FolderStore)
        ensures
            r.path_view() == path@,
            r.folders_view() == with_defaults(fviews(folders@)),
            r.mappings_view() == mviews(mappings@),
    {
        let mut store = FolderStore { path, folders, mappings };
        store.ensure_defaults();
        store
    }

    /// The sidecar file's path.
    pub fn path(&self) -> (r: &str)
        ensures
            r@ == self.path_view(),
    {
        self.path.as_str()
    }

    /// List all folders.
    pub fn folders(&self) -> (r: &[Folder])
        ensures
            fviews(r@) == self.folders_view(),
    {
        self.folders.as_slice()
    }

    /// All session-to-folder mappings.
    pub fn mappings(&self) -> (r: &[FolderMapping])
        ensures
            mviews(r@) == self.mappings_view(),
    {
        self.mappings.as_slice()
    }

    /// Position of the first folder with id `id`.
    fn folder_index(&self, id: &str) -> (r: Option<usize>)
        ensures
            r matches Some(i) ==> i < self.folders@.len() && find_index(self.folders_view(), id@)
                == Some(i as int),
            r is None ==> find_index(self.folders_view(), id@) is None,
    {
        let ghost fs = self.folders_view();
        proof {
            lemma_find_index(fs, id@);
        }
        let mut i: usize = 0;
        while i < self.folders.len()
            invariant
                fs == fviews(self.folders@),
                i <= self.folders@.len(),
                forall|j: int| 0 <= j < i ==> fs[j].id != id@,
            decreases self.folders@.len() - i,
        {
            if str_eq(self.folders[i].id.as_str(), id) {
                proof {
                    lemma_find_index(fs, id@);
                    assert(fs[i as int].id == id@);
                    if let Some(k) = find_index(fs, id@) {
                        assert(k == i);
                    }
                }
                return Some(i);
            }
            i = i + 1;
        }
        None
    }

    /// Find a folder by ID.
    pub fn folder(&self, id: &str) -> (r: Option<&Folder>)
        ensures
            r matches Some(f) ==> find_folder(self.folders_view(), id@) == Some(f@),
            r is None ==> find_folder(self.folders_view(), id@) is None,
    {
        match self.folder_index(id) {
            Some(i) => Some(&self.folders[i]),
            None => None,
        }
    }

    fn ensure_one(&mut self, id: &str, name: &str)
        ensures
            final(self).folders_view() == with_default(old(self).folders_view(), id@, name@),
            final(self).mappings_view() == old(self).mappings_view(),
            final(self).path_view() == old(self).path_view(),
    {
        proof {
            lemma_find_index(self.folders_view(), id@);
        }
        if self.folder_index(id).is_none() {
            let ghost before = self.folders_view();
            self.folders.push(Folder::new(id, name));
            proof {
                assert(fviews(self.folders@) =~= before.push(
                    FolderView { id: id@, name: name@, parent_id: None },
                ));
            }
        }
    }

    /// Add the default folders All, Inbox and Archive where missing.
    pub fn ensure_defaults(&mut self)
        ensures
            final(self).folders_view() == with_defaults(old(self).folders_view()),
            final(self).mappings_view() == old(self).mappings_view(),
            final(self).path_view() == old(self).path_view(),
    {
        self.ensure_one("all", "All");
        self.ensure_one("inbox", "Inbox");
        self.ensure_one("archive", "Archive");
    }

    /// Add a new folder.
    pub fn add_folder(&mut self, folder: Folder) -> (r: Result<(), FolderError>)
        ensures
            has_folder(old(self).folders_view(), folder@.id) ==> {
                &&& r matches Err(FolderError::AlreadyExists(id)) && id@ == folder@.id
                &&& final(self).folders_view() == old(self).folders_view()
            },
            !has_folder(old(self).folders_view(), folder@.id) ==> {
                &&& r is Ok
                &&& final(self).folders_view() == old(self).folders_view().push(folder@)
            },
            final(self).mappings_view() == old(self).mappings_view(),
            final(self).path_view() == old(self).path_view(),
            old(self).well_kept() ==> final(self).well_kept(),
    {
        proof {
            lemma_find_index(self.folders_view(), folder@.id);
        }
        if self.folder_index(folder.id.as_str()).is_some() {
            return Err(FolderError::AlreadyExists(folder.id));
        }
        let ghost before = self.folders_view();
        self.folders.push(folder);
        proof {
            assert(fviews(self.folders@) =~= before.push(folder@));
            if store_ok(before, self.mappings_view()) {
                lemma_ok_add(before, self.mappings_view(), folder@);
            }
        }
        Ok(())
    }

    /// Rename a folder.
    pub fn rename_folder(&mut self, id: &str, name: &str) -> (r: Result<(), FolderError>)
        ensures
            is_system_id(id@) ==> (r matches Err(FolderError::CannotRenameSystem(x)) && x@ == id@),
            !is_system_id(id@) && !has_folder(old(self).folders_view(), id@) ==> (r matches Err(
                FolderError::NotFound(x),
            ) && x@ == id@),
            !is_system_id(id@) && has_folder(old(self).folders_view(), id@) ==> r is Ok,
            r is Ok ==> final(self).folders_view() == renamed(old(self).folders_view(), id@, name@),
            r is Err ==> final(self).folders_view() == old(self).folders_view(),
            final(self).mappings_view() == old(self).mappings_view(),
            final(self).path_view() == old(self).path_view(),
            old(self).well_kept() ==> final(self).well_kept(),
    {
        proof {
            lemma_find_index(self.folders_view(), id@);
            if self.well_kept() && !is_system_id(id@) {
                lemma_ok_rename(self.folders_view(), self.mappings_view(), id@, name@);
            }
        }
        if is_system_folder(id) {
            return Err(FolderError::CannotRenameSystem(id.to_owned()));
        }
        match self.folder_index(id) {
            None => Err(FolderError::NotFound(id.to_owned())),
            Some(i) => {
                let ghost before = self.folders_view();
                let old_f = &self.folders[i];
                let f = Folder {
                    id: old_f.id.clone(),
                    name: name.to_owned(),
                    parent_id: match &old_f.parent_id {
                        Some(p) => Some(p.clone()),
                        None => None,
                    },
                };
                self.folders.set(i, f);
                proof {
                    assert(fviews(self.folders@) =~= before.update(
                        i as int,
                        FolderView { name: name@, ..before[i as int] },
                    ));
                }
                Ok(())
            },
        }
    }

    /// Delete a folder and all mappings pointing to it.
    pub fn delete_folder(&mut self, id: &str) -> (r: Result<(), FolderError>)
        ensures
            is_system_id(id@) ==> (r matches Err(FolderError::CannotDeleteSystem(x)) && x@ == id@),
            !is_system_id(id@) && !has_folder(old(self).folders_view(), id@) ==> (r matches Err(
                FolderError::NotFound(x),
            ) && x@ == id@),
            !is_system_id(id@) && has_folder(old(self).folders_view(), id@) ==> {
                &&& r is Ok
                &&& final(self).folders_view() == old(self).folders_view().filter(
                    folder_id_not(id@),
                )
                &&& final(self).mappings_view() == old(self).mappings_view().filter(
                    target_not(id@),
                )
            },
            r is Err ==> final(self).folders_view() == old(self).folders_view()
                && final(self).mappings_view() == old(self).mappings_view(),
            final(self).path_view() == old(self).path_view(),
            old(self).well_kept() ==> final(self).well_kept(),
    {
        proof {
            if self.well_kept() && !is_system_id(id@) {
                lemma_ok_delete(self.folders_view(), self.mappings_view(), id@);
            }
        }
        if is_system_folder(id) {
            return Err(FolderError::CannotDeleteSystem(id.to_owned()));
        }
        let ghost fs = self.folders_view();
        let mut kept: Vec<Folder> = Vec::new();
        let mut i: usize = 0;
        while i < self.folders.len()
            invariant
                fs == fviews(self.folders@),
                i <= self.folders@.len(),
                fviews(kept@) == fs.take(i as int).filter(folder_id_not(id@)),
            decreases self.folders@.len() - i,
        {
            proof {
                assert(fs.take(i + 1).drop_last() =~= fs.take(i as int));
                reveal_with_fuel(Seq::filter, 1);
            }
            if !str_eq(self.folders[i].id.as_str(), id) {
                let f = self.folders[i].duplicate();
                kept.push(f);
                assert(fviews(kept@) =~= fviews(kept@.drop_last()).push(fs[i as int]));
            }
            i = i + 1;
        }
        proof {
            assert(fs.take(fs.len() as int) =~= fs);
        }
        if kept.len() == self.folders.len() {
            proof {
                lemma_filter_all_kept(fs, id@);
            }
            return Err(FolderError::NotFound(id.to_owned()));
        }
        proof {
            lemma_filter_dropped(fs, id@);
        }
        let ghost ms = self.mappings_view();
        let mut kept_m: Vec<FolderMapping> = Vec::new();
        let mut j: usize = 0;
        while j < self.mappings.len()
            invariant
                ms == mviews(self.mappings@),
                j <= self.mappings@.len(),
                mviews(kept_m@) == ms.take(j as int).filter(target_not(id@)),
            decreases self.mappings@.len() - j,
        {
            proof {
                assert(ms.take(j + 1).drop_last() =~= ms.take(j as int));
                reveal_with_fuel(Seq::filter, 1);
            }
            if !str_eq(self.mappings[j].folder_id.as_str(), id) {
                let m = FolderMapping {
                    session_id: self.mappings[j].session_id.clone(),
                    folder_id: self.mappings[j].folder_id.clone(),
                };
                kept_m.push(m);
                assert(mviews(kept_m@) =~= mviews(kept_m@.drop_last()).push(ms[j as int]));
            }
            j = j + 1;
        }
        proof {
            assert(ms.take(ms.len() as int) =~= ms);
        }
        self.folders = kept;
        self.mappings = kept_m;
        Ok(())
    }

    /// The mappings without those of session `session_id`.
    fn mappings_without(&self, session_id: &str) -> (r: Vec<FolderMapping>)
        ensures
            mviews(r@) == self.mappings_view().filter(session_not(session_id@)),
    {
        let ghost ms = self.mappings_view();
        let mut kept_m: Vec<FolderMapping> = Vec::new();
        let mut j: usize = 0;
        while j < self.mappings.len()
            invariant
                ms == mviews(self.mappings@),
                j <= self.mappings@.len(),
                mviews(kept_m@) == ms.take(j as int).filter(session_not(session_id@)),
            decreases self.mappings@.len() - j,
        {
            proof {
                assert(ms.take(j + 1).drop_last() =~= ms.take(j as int));
                reveal_with_fuel(Seq::filter, 1);
            }
            if !str_eq(self.mappings[j].session_id.as_str(), session_id) {
                let m = FolderMapping {
                    session_id: self.mappings[j].session_id.clone(),
                    folder_id: self.mappings[j].folder_id.clone(),
                };
                kept_m.push(m);
                assert(mviews(kept_m@) =~= mviews(kept_m@.drop_last()).push(ms[j as int]));
            }
            j = j + 1;
        }
        proof {
            assert(ms.take(ms.len() as int) =~= ms);
        }
        kept_m
    }

    /// Move a session into a folder.
    pub fn move_session(&mut self, session_id: &str, folder_id: &str) -> (r: Result<(), FolderError>)
        ensures
            folder_id@ == "all"@ ==> r matches Err(FolderError::CannotMoveToAll),
            folder_id@ != "all"@ && !has_folder(old(self).folders_view(), folder_id@) ==> (r matches Err(
                FolderError::NotFound(x),
            ) && x@ == folder_id@),
            folder_id@ != "all"@ && has_folder(old(self).folders_view(), folder_id@) ==> r is Ok,
            r is Ok ==> final(self).mappings_view() == moved(
                old(self).mappings_view(),
                session_id@,
                folder_id@,
            ),
            r is Err ==> final(self).mappings_view() == old(self).mappings_view(),
            final(self).folders_view() == old(self).folders_view(),
            final(self).path_view() == old(self).path_view(),
            old(self).well_kept() ==> final(self).well_kept(),
    {
        proof {
            lemma_find_index(self.folders_view(), folder_id@);
            if self.well_kept() && folder_id@ != "all"@ && has_folder(self.folders_view(), folder_id@) {
                lemma_ok_move(self.folders_view(), self.mappings_view(), session_id@, folder_id@);
            }
        }
        if str_eq(folder_id, "all") {
            return Err(FolderError::CannotMoveToAll);
        }
        if self.folder(folder_id).is_none() {
            return Err(FolderError::NotFound(folder_id.to_owned()));
        }
        let mut kept = self.mappings_without(session_id);
        let ghost before = mviews(kept@);
        kept.push(FolderMapping::new(session_id, folder_id));
        proof {
            assert(mviews(kept@) =~= before.push(
                MappingView { session_id: session_id@, folder_id: folder_id@ },
            ));
        }
        self.mappings = kept;
        Ok(())
    }

    /// Remove a session from any folder.
    pub fn unassign_session(&mut self, session_id: &str)
        ensures
            final(self).mappings_view() == old(self).mappings_view().filter(
                session_not(session_id@),
            ),
            final(self).folders_view() == old(self).folders_view(),
            final(self).path_view() == old(self).path_view(),
            old(self).well_kept() ==> final(self).well_kept(),
    {
        proof {
            if self.well_kept() {
                lemma_ok_unassign(self.folders_view(), self.mappings_view(), session_id@);
            }
        }
        self.mappings = self.mappings_without(session_id);
    }

    /// Return the folder ID for a session, if any.
    pub fn folder_for_session(&self, session_id: &str) -> (r: Option<&str>)
        ensures
            r matches Some(f) ==> find_mapping(self.mappings_view(), session_id@) == Some(f@),
            r is None ==> find_mapping(self.mappings_view(), session_id@) is None,
    {
        let ghost ms = self.mappings_view();
        proof {
            lemma_find_mapping(ms, session_id@);
        }
        let mut i: usize = 0;
        while i < self.mappings.len()
            invariant
                ms == mviews(self.mappings@),
                i <= self.mappings@.len(),
                forall|j: int| 0 <= j < i ==> ms[j].session_id != session_id@,
            decreases self.mappings@.len() - i,
        {
            if str_eq(self.mappings[i].session_id.as_str(), session_id) {
                proof {
                    lemma_find_mapping(ms, session_id@);
                    assert(ms[i as int].session_id == session_id@);
                    if let Some(f) = find_mapping(ms, session_id@) {
                        let k = choose|k: int|
                            0 <= k < ms.len() && ms[k].session_id == session_id@ && ms[k].folder_id
                                == f && forall|j: int| 0 <= j < k ==> ms[j].session_id != session_id@;
                        assert(k == i);
                    }
                }
                return Some(self.mappings[i].folder_id.as_str());
            }
            i = i + 1;
        }
        None
    }

    /// Return all session IDs assigned to a folder.
    pub fn sessions_in_folder(&self, folder_id: &str) -> (r: Vec<&str>)
        ensures
            r@.map_values(|s: &str| s@) == sessions_in(self.mappings_view(), folder_id@),
    {
        let ghost ms = self.mappings_view();
        let mut out: Vec<&str> = Vec::new();
        let mut i: usize = 0;
        while i < self.mappings.len()
            invariant
                ms == mviews(self.mappings@),
                i <= self.mappings@.len(),
                out@.map_values(|s: &str| s@) == sessions_in(ms.take(i as int), folder_id@),
            decreases self.mappings@.len() - i,
        {
            proof {
                assert(ms.take(i + 1).drop_last() =~= ms.take(i as int));
                reveal_with_fuel(Seq::filter, 1);
            }
            let ghost prev = out@.map_values(|s: &str| s@);
            if str_eq(self.mappings[i].folder_id.as_str(), folder_id) {
                out.push(self.mappings[i].session_id.as_str());
                proof {
                    let fl = ms.take(i as int).filter(target_is(folder_id@));
                    assert(ms.take(i + 1).filter(target_is(folder_id@)) == fl.push(ms[i as int]));
                    assert(fl.push(ms[i as int]).map_values(|m: MappingView| m.session_id)
                        =~= fl.map_values(|m: MappingView| m.session_id).push(ms[i as int].session_id));
                    assert(out@.map_values(|s: &str| s@) =~= prev.push(ms[i as int].session_id));
                }
            }
            i = i + 1;
        }
        proof {
            assert(ms.take(ms.len() as int) =~= ms);
        }
        out
    }

    /// Build a mapping from session ID to folder ID for quick lookup (a later
    /// mapping for the same session replaces an earlier one).
    pub fn session_folder_map(&self) -> (r: StrMap)
        ensures
            r@ == map_of(self.mappings_view().map_values(
                |m: MappingView| (m.session_id, m.folder_id),
            )),
    {
        let ghost ms = self.mappings_view();
        let mut r = StrMap::new();
        let mut i: usize = 0;
        while i < self.mappings.len()
            invariant
                ms == mviews(self.mappings@),
                i <= self.mappings@.len(),
                r@ == map_of(ms.take(i as int).map_values(
                    |m: MappingView| (m.session_id, m.folder_id),
                )),
            decreases self.mappings@.len() - i,
        {
            let ghost prev = r@;
            r.insert(self.mappings[i].session_id.clone(), self.mappings[i].folder_id.clone());
            proof {
                let f = |m: MappingView| (m.session_id, m.folder_id);
                let a = ms.take(i as int).map_values(f);
                let b = ms.take(i + 1).map_values(f);
                assert(b.drop_last() =~= a);
            }
            i = i + 1;
        }
        proof {
            assert(ms.take(ms.len() as int) =~= ms);
        }
        r
    }

    /// Return true if the folder has no child folders and no sessions.
    pub fn is_empty(&self, folder_id: &str) -> (r: bool)
        ensures
            r == (!(exists|i: int|
                0 <= i < self.folders_view().len() && self.folders_view()[i].parent_id == Some(
                    folder_id@,
                )) && sessions_in(self.mappings_view(), folder_id@).len() == 0),
    {
        let ghost fs = self.folders_view();
        let mut has_children = false;
        let mut i: usize = 0;
        while i < self.folders.len()
            invariant
                fs == fviews(self.folders@),
                i <= self.folders@.len(),
                has_children == exists|j: int| 0 <= j < i && fs[j].parent_id == Some(folder_id@),
            decreases self.folders@.len() - i,
        {
            match &self.folders[i].parent_id {
                Some(p) => {
                    if str_eq(p.as_str(), folder_id) {
                        has_children = true;
                        assert(fs[i as int].parent_id == Some(folder_id@));
                    }
                },
                None => {},
            }
            i = i + 1;
        }
        let sessions = self.sessions_in_folder(folder_id);
        let no_sessions = sessions.len() == 0;
        proof {
            assert(sessions@.map_values(|s: &str| s@).len() == sessions@.len());
        }
        !has_children && no_sessions
    }
}

proof fn lemma_filter_all_kept(fs: Seq<FolderView>, id: Seq<char>)
    requires
        fs.filter(folder_id_not(id)).len() == fs.len(),
    ensures
        !has_folder(fs, id),
        fs.filter(folder_id_not(id)) == fs,
    decreases fs.len(),
{
    reveal_with_fuel(Seq::filter, 1);
    fs.filter_lemma(folder_id_not(id));
    if fs.len() > 0 {
        let q = fs.drop_last();
        q.filter_lemma(folder_id_not(id));
        if fs.last().id == id {
            assert(fs.filter(folder_id_not(id)) == q.filter(folder_id_not(id)));
            assert(false);
        }
        lemma_filter_all_kept(q, id);
        assert(fs.filter(folder_id_not(id)) =~= fs);
        assert forall|j: int| 0 <= j < fs.len() implies fs[j].id != id by {
            if j < q.len() {
                assert(q[j] == fs[j]);
            }
        }
    }
}

proof fn lemma_filter_dropped(fs: Seq<FolderView>, id: Seq<char>)
    requires
        fs.filter(folder_id_not(id)).len() != fs.len(),
    ensures
        has_folder(fs, id),
    decreases fs.len(),
{
    reveal_with_fuel(Seq::filter, 1);
    if fs.len() > 0 {
        let q = fs.drop_last();
        if fs.last().id == id {
            assert(fs[fs.len() - 1].id == id);
        } else {
            lemma_filter_dropped(q, id);
            let j = choose|j: int| 0 <= j < q.len() && q[j].id == id;
            assert(fs[j] == q[j]);
        }
    } else {
        assert(fs.filter(folder_id_not(id)) =~= fs);
    }
}

} // verus!
