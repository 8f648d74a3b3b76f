//! The editor's asset browser: the folder it shows, the entry that is
//! selected or being renamed, and the order in which entries are listed.
use vstd::prelude::*;
use crate::text::{chars_of, lower_text, replace_all, str_lowercase, str_replace};

verus! {

/// A file or folder listed by the asset browser: its path, its file name
/// and whether it is a folder.
#[derive(Clone, Debug)]
pub struct AssetEntry {
    pub path: String,
    pub name: String,
    pub is_dir: bool,
}

/// What an entry holds.
pub struct EntryView {
    pub path: Seq<char>,
    pub name: Seq<char>,
    pub is_dir: bool,
}

impl View for AssetEntry {
    type V = EntryView;

    open spec fn view(&self) -> EntryView {
        EntryView { path: self.path@, name: self.name@, is_dir: self.is_dir }
    }
}

/// The views of a list of entries.
pub open spec fn entries_view(v: Seq<AssetEntry>) -> Seq<EntryView> {
    v.map_values(|e: AssetEntry| e@)
}

/// Whether `a` comes before `b` in code-point order of their characters.
pub open spec fn chars_lt(a: Seq<char>, b: Seq<char>) -> bool
    decreases a.len(),
{
    if a.len() == 0 {
        b.len() > 0
    } else if b.len() == 0 {
        false
    } else if a[0] != b[0] {
        (a[0] as int) < (b[0] as int)
    } else {
        chars_lt(a.drop_first(), b.drop_first())
    }
}

/// Folders are listed before files.
pub open spec fn dir_rank(e: EntryView) -> int {
    if e.is_dir {
        0
    } else {
        1
    }
}

/// Whether `a` is listed before `b` whatever their places: folders first,
/// then by lower-cased name.
pub open spec fn entry_before(a: EntryView, b: EntryView) -> bool {
    dir_rank(a) < dir_rank(b) || (dir_rank(a) == dir_rank(b) && chars_lt(
        lower_text(a.name),
        lower_text(b.name),
    ))
}

/// Whether no entry of `s` is listed before one that precedes it.
pub open spec fn listed_in_order(s: Seq<EntryView>) -> bool {
    forall|i: int, j: int| 0 <= i < j < s.len() ==> !entry_before(#[trigger] s[j], #[trigger] s[i])
}

/// Where `e` goes in the ordered list `s`: before the first entry that
/// it is listed before, so after every entry equal to it.
pub open spec fn insert_pos(s: Seq<EntryView>, e: EntryView) -> int
    decreases s.len(),
{
    if s.len() == 0 {
        0
    } else if entry_before(e, s[0]) {
        0
    } else {
        1 + insert_pos(s.drop_first(), e)
    }
}

/// `s` in listing order; entries that neither precedes keep their order.
pub open spec fn sorted_entries(s: Seq<EntryView>) -> Seq<EntryView>
    decreases s.len(),
{
    if s.len() == 0 {
        s
    } else {
        let r = sorted_entries(s.drop_last());
        r.insert(insert_pos(r, s.last()), s.last())
    }
}

/// Whether `s` holds a folder called `name`.
pub open spec fn has_dir_named(s: Seq<EntryView>, name: Seq<char>) -> bool {
    exists|k: int| 0 <= k < s.len() && (#[trigger] s[k]).is_dir && s[k].name == name
}

/// `s` with every folder whose name an earlier folder has left out.
pub open spec fn without_repeated_dirs(s: Seq<EntryView>) -> Seq<EntryView>
    decreases s.len(),
{
    if s.len() == 0 {
        s
    } else {
        let d = without_repeated_dirs(s.drop_last());
        let e = s.last();
        if e.is_dir && has_dir_named(d, e.name) {
            d
        } else {
            d.push(e)
        }
    }
}

/// The list that the browser shows for `entries` (those of the asset
/// folder first, then those of the matching script folder): a folder
/// whose name an earlier folder has is left out, and the rest are listed
/// folders first, then by lower-cased name.
pub open spec fn display_list(entries: Seq<EntryView>) -> Seq<EntryView> {
    sorted_entries(without_repeated_dirs(entries))
}

proof fn lemma_chars_lt_irreflexive(a: Seq<char>)
    ensures
        !chars_lt(a, a),
    decreases a.len(),
{
    if a.len() > 0 {
        lemma_chars_lt_irreflexive(a.drop_first());
    }
}

proof fn lemma_chars_lt_transitive(a: Seq<char>, b: Seq<char>, c: Seq<char>)
    requires
        chars_lt(a, b),
        chars_lt(b, c),
    ensures
        chars_lt(a, c),
    decreases a.len(),
{
    if a.len() > 0 && b.len() > 0 && c.len() > 0 {
        if a[0] == b[0] && b[0] == c[0] {
            lemma_chars_lt_transitive(a.drop_first(), b.drop_first(), c.drop_first());
        }
    }
}

proof fn lemma_before_transitive(a: EntryView, b: EntryView, c: EntryView)
    requires
        entry_before(a, b),
        entry_before(b, c),
    ensures
        entry_before(a, c),
{
    if dir_rank(a) == dir_rank(b) && dir_rank(b) == dir_rank(c) {
        lemma_chars_lt_transitive(lower_text(a.name), lower_text(b.name), lower_text(c.name));
    }
}

proof fn lemma_before_irreflexive(a: EntryView)
    ensures
        !entry_before(a, a),
{
    lemma_chars_lt_irreflexive(lower_text(a.name));
}

proof fn lemma_insert_pos(s: Seq<EntryView>, e: EntryView)
    ensures
        0 <= insert_pos(s, e) <= s.len(),
        forall|i: int| 0 <= i < insert_pos(s, e) ==> !entry_before(e, #[trigger] s[i]),
        insert_pos(s, e) < s.len() ==> entry_before(e, s[insert_pos(s, e)]),
    decreases s.len(),
{
    if s.len() > 0 && !entry_before(e, s[0]) {
        lemma_insert_pos(s.drop_first(), e);
        assert forall|i: int| 0 <= i < insert_pos(s, e) implies !entry_before(e, #[trigger] s[i]) by {
            if i > 0 {
                assert(s[i] == s.drop_first()[i - 1]);
            }
        }
    }
}

proof fn lemma_insert_keeps_order(s: Seq<EntryView>, e: EntryView)
    requires
        listed_in_order(s),
    ensures
        listed_in_order(s.insert(insert_pos(s, e), e)),
{
    lemma_insert_pos(s, e);
    let k = insert_pos(s, e);
    let t = s.insert(k, e);
    assert forall|i: int, j: int| 0 <= i < j < t.len() implies !entry_before(#[trigger] t[j], #[trigger] t[i]) by {
        if j < k {
            assert(t[i] == s[i] && t[j] == s[j]);
        } else if j == k {
            assert(t[i] == s[i]);
        } else if i > k {
            assert(t[i] == s[i - 1] && t[j] == s[j - 1]);
        } else if i == k {
            assert(t[j] == s[j - 1]);
            if entry_before(s[j - 1], e) {
                if j - 1 == k {
                    lemma_before_transitive(s[k], e, s[k]);
                    lemma_before_irreflexive(s[k]);
                } else {
                    assert(!entry_before(s[j - 1], s[k]));
                    lemma_before_transitive(s[j - 1], e, s[k]);
                }
            }
        } else {
            assert(t[i] == s[i] && t[j] == s[j - 1]);
        }
    }
}

/// The browser lists entries in order: folders before files, and within
/// each, by lower-cased name in code-point order.
pub proof fn lemma_sorted_entries_in_order(s: Seq<EntryView>)
    ensures
        listed_in_order(sorted_entries(s)),
        sorted_entries(s).len() == s.len(),
    decreases s.len(),
{
    if s.len() > 0 {
        lemma_sorted_entries_in_order(s.drop_last());
        lemma_insert_keeps_order(sorted_entries(s.drop_last()), s.last());
        lemma_insert_pos(sorted_entries(s.drop_last()), s.last());
    }
}

/// Sorting neither loses nor invents entries.
pub proof fn lemma_sorted_entries_same_entries(s: Seq<EntryView>)
    ensures
        sorted_entries(s).to_multiset() == s.to_multiset(),
    decreases s.len(),
{
    broadcast use vstd::seq_lib::group_to_multiset_ensures;
    if s.len() > 0 {
        let p = s.drop_last();
        lemma_sorted_entries_same_entries(p);
        let r = sorted_entries(p);
        lemma_insert_pos(r, s.last());
        vstd::seq_lib::to_multiset_insert(r, insert_pos(r, s.last()), s.last());
        vstd::seq_lib::to_multiset_build(p, s.last());
        assert(s =~= p.push(s.last()));
    }
}

/// No two folders of the shown list share a name.
pub proof fn lemma_display_dirs_unique(s: Seq<EntryView>)
    ensures
        forall|i: int, j: int|
            0 <= i < j < without_repeated_dirs(s).len() && (#[trigger] without_repeated_dirs(s)[i]).is_dir
                && (#[trigger] without_repeated_dirs(s)[j]).is_dir ==> without_repeated_dirs(s)[i].name
                != without_repeated_dirs(s)[j].name,
    decreases s.len(),
{
    if s.len() > 0 {
        lemma_display_dirs_unique(s.drop_last());
        let d = without_repeated_dirs(s.drop_last());
        let e = s.last();
        if !(e.is_dir && has_dir_named(d, e.name)) {
            let t = d.push(e);
            assert forall|i: int, j: int|
                0 <= i < j < t.len() && (#[trigger] t[i]).is_dir && (#[trigger] t[j]).is_dir implies t[i].name
                != t[j].name by {
                if j == d.len() {
                    if t[i].name == t[j].name {
                        assert(d[i].is_dir && d[i].name == e.name);
                        assert(has_dir_named(d, e.name));
                    }
                } else {
                    assert(t[i] == d[i] && t[j] == d[j]);
                }
            }
        }
    }
}


/// No two folders of `s` share a name.
pub open spec fn dirs_unique(s: Seq<EntryView>) -> bool {
    forall|i: int, j: int|
        0 <= i < j < s.len() && (#[trigger] s[i]).is_dir && (#[trigger] s[j]).is_dir ==> s[i].name
            != s[j].name
}

proof fn lemma_same_entries_contains(a: Seq<EntryView>, b: Seq<EntryView>, x: EntryView)
    requires
        a.to_multiset() == b.to_multiset(),
    ensures
        a.contains(x) <==> b.contains(x),
{
    vstd::seq_lib::to_multiset_contains(a, x);
    vstd::seq_lib::to_multiset_contains(b, x);
}

proof fn lemma_sorted_dirs_unique(s: Seq<EntryView>)
    requires
        dirs_unique(s),
    ensures
        dirs_unique(sorted_entries(s)),
    decreases s.len(),
{
    if s.len() > 0 {
        let p = s.drop_last();
        let e = s.last();
        assert forall|i: int, j: int|
            0 <= i < j < p.len() && (#[trigger] p[i]).is_dir && (#[trigger] p[j]).is_dir implies p[i].name
            != p[j].name by {
            assert(p[i] == s[i] && p[j] == s[j]);
        }
        lemma_sorted_dirs_unique(p);
        let r = sorted_entries(p);
        lemma_sorted_entries_same_entries(p);
        lemma_insert_pos(r, e);
        let pos = insert_pos(r, e);
        let t = r.insert(pos, e);
        assert(sorted_entries(s) == t);
        assert forall|i: int, j: int|
            0 <= i < j < t.len() && (#[trigger] t[i]).is_dir && (#[trigger] t[j]).is_dir implies t[i].name
            != t[j].name by {
            if i == pos || j == pos {
                let o = if i == pos {
                    j
                } else {
                    i
                };
                let ro = if o < pos {
                    o
                } else {
                    o - 1
                };
                assert(t[o] == r[ro]);
                assert(t[pos] == e);
                assert(r.contains(r[ro]));
                lemma_same_entries_contains(r, p, r[ro]);
                let k = choose|k: int| 0 <= k < p.len() && p[k] == r[ro];
                assert(s[k] == p[k]);
                assert(s[s.len() - 1] == e);
            } else {
                let ri = if i < pos {
                    i
                } else {
                    i - 1
                };
                let rj = if j < pos {
                    j
                } else {
                    j - 1
                };
                assert(t[i] == r[ri] && t[j] == r[rj]);
            }
        }
    }
}

proof fn lemma_without_repeated_dirs_members(s: Seq<EntryView>)
    ensures
        forall|k: int|
            0 <= k < without_repeated_dirs(s).len() ==> s.contains(#[trigger] without_repeated_dirs(s)[k]),
        forall|k: int| 0 <= k < s.len() && !(#[trigger] s[k]).is_dir ==> without_repeated_dirs(s).contains(s[k]),
        forall|k: int|
            0 <= k < s.len() && (#[trigger] s[k]).is_dir ==> has_dir_named(without_repeated_dirs(s), s[k].name),
    decreases s.len(),
{
    if s.len() > 0 {
        let p = s.drop_last();
        lemma_without_repeated_dirs_members(p);
        let d = without_repeated_dirs(p);
        let e = s.last();
        let w = without_repeated_dirs(s);
        let n = s.len() - 1;
        assert(s[n] == e);
        assert forall|k: int| 0 <= k < d.len() implies s.contains(#[trigger] d[k]) by {
            assert(p.contains(d[k]));
            let m = choose|m: int| 0 <= m < p.len() && p[m] == d[k];
            assert(s[m] == p[m]);
        }
        if e.is_dir && has_dir_named(d, e.name) {
            assert(w == d);
            assert forall|k: int| 0 <= k < s.len() && !(#[trigger] s[k]).is_dir implies w.contains(s[k]) by {
                assert(s[k] == p[k]);
            }
            assert forall|k: int| 0 <= k < s.len() && (#[trigger] s[k]).is_dir implies has_dir_named(
                w,
                s[k].name,
            ) by {
                if k < n {
                    assert(s[k] == p[k]);
                }
            }
        } else {
            assert(w == d.push(e));
            assert(w[d.len() as int] == e);
            assert forall|k: int| 0 <= k < w.len() implies s.contains(#[trigger] w[k]) by {
                if k < d.len() {
                    assert(w[k] == d[k]);
                }
            }
            assert forall|k: int| 0 <= k < s.len() && !(#[trigger] s[k]).is_dir implies w.contains(s[k]) by {
                if k < n {
                    assert(s[k] == p[k]);
                    let m = choose|m: int| 0 <= m < d.len() && d[m] == p[k];
                    assert(w[m] == d[m]);
                }
            }
            assert forall|k: int| 0 <= k < s.len() && (#[trigger] s[k]).is_dir implies has_dir_named(
                w,
                s[k].name,
            ) by {
                if k < n {
                    assert(s[k] == p[k]);
                    let m = choose|m: int| 0 <= m < d.len() && (#[trigger] d[m]).is_dir && d[m].name == p[k].name;
                    assert(w[m] == d[m]);
                }
            }
        }
    }
}

/// What the browser shows for `entries`: listed in order (folders first,
/// then by lower-cased name), no folder name twice, nothing that
/// `entries` does not hold, every file of `entries`, and a folder for
/// every folder name of `entries`.
pub proof fn lemma_display_list(entries: Seq<EntryView>)
    ensures
        listed_in_order(display_list(entries)),
        dirs_unique(display_list(entries)),
        forall|k: int|
            0 <= k < display_list(entries).len() ==> entries.contains(#[trigger] display_list(entries)[k]),
        forall|k: int|
            0 <= k < entries.len() && !(#[trigger] entries[k]).is_dir ==> display_list(entries).contains(
                entries[k],
            ),
        forall|k: int|
            0 <= k < entries.len() && (#[trigger] entries[k]).is_dir ==> has_dir_named(
                display_list(entries),
                entries[k].name,
            ),
{
    let w = without_repeated_dirs(entries);
    let dl = display_list(entries);
    lemma_sorted_entries_in_order(w);
    lemma_display_dirs_unique(entries);
    lemma_sorted_dirs_unique(w);
    lemma_sorted_entries_same_entries(w);
    lemma_without_repeated_dirs_members(entries);
    assert forall|k: int| 0 <= k < dl.len() implies entries.contains(#[trigger] dl[k]) by {
        assert(dl.contains(dl[k]));
        lemma_same_entries_contains(dl, w, dl[k]);
        let m = choose|m: int| 0 <= m < w.len() && w[m] == dl[k];
        assert(entries.contains(w[m]));
    }
    assert forall|k: int| 0 <= k < entries.len() && !(#[trigger] entries[k]).is_dir implies dl.contains(
        entries[k],
    ) by {
        lemma_same_entries_contains(dl, w, entries[k]);
    }
    assert forall|k: int| 0 <= k < entries.len() && (#[trigger] entries[k]).is_dir implies has_dir_named(
        dl,
        entries[k].name,
    ) by {
        assert(has_dir_named(w, entries[k].name));
        let m = choose|m: int| 0 <= m < w.len() && (#[trigger] w[m]).is_dir && w[m].name == entries[k].name;
        assert(w.contains(w[m]));
        lemma_same_entries_contains(dl, w, w[m]);
        let q = choose|q: int| 0 <= q < dl.len() && dl[q] == w[m];
        assert(dl[q].is_dir);
    }
}

/// The folder shown always lies below the asset root.
pub proof fn lemma_folder_path_under_root(folders: Seq<Seq<char>>)
    ensures
        "smq_proj/assets"@.is_prefix_of(folder_path(folders)),
    decreases folders.len(),
{
    if folders.len() > 0 {
        lemma_folder_path_under_root(folders.drop_last());
        let p = folder_path(folders.drop_last());
        let root = "smq_proj/assets"@;
        assert(folder_path(folders) == p + "/"@ + folders.last());
        assert((p + "/"@ + folders.last()).subrange(0, root.len() as int) =~= p.subrange(0, root.len() as int));
    }
}

proof fn lemma_insert_pos_unique(s: Seq<EntryView>, e: EntryView, k: int)
    requires
        0 <= k <= s.len(),
        forall|i: int| 0 <= i < k ==> !entry_before(e, #[trigger] s[i]),
        k < s.len() ==> entry_before(e, s[k]),
    ensures
        insert_pos(s, e) == k,
    decreases s.len(),
{
    if s.len() > 0 && k > 0 {
        assert(!entry_before(e, s[0]));
        assert forall|i: int| 0 <= i < k - 1 implies !entry_before(e, #[trigger] s.drop_first()[i]) by {
            assert(s.drop_first()[i] == s[i + 1]);
        }
        if k - 1 < s.len() - 1 {
            assert(s.drop_first()[k - 1] == s[k]);
        }
        lemma_insert_pos_unique(s.drop_first(), e, k - 1);
    }
}

fn chars_lt_exec(a: &Vec<char>, b: &Vec<char>) -> (r: bool)
    ensures
        r == chars_lt(a@, b@),
{
    let mut i: usize = 0;
    assert(a@.subrange(0, a@.len() as int) =~= a@);
    assert(b@.subrange(0, b@.len() as int) =~= b@);
    loop
        invariant
            i <= a@.len(),
            i <= b@.len(),
            chars_lt(a@, b@) == chars_lt(a@.subrange(i as int, a@.len() as int), b@.subrange(i as int, b@.len() as int)),
        decreases a@.len() - i,
    {
        let ghost sa = a@.subrange(i as int, a@.len() as int);
        let ghost sb = b@.subrange(i as int, b@.len() as int);
        if i == a.len() {
            return i < b.len();
        }
        if i == b.len() {
            return false;
        }
        let ca = a[i];
        let cb = b[i];
        assert(sa[0] == ca && sb[0] == cb);
        if ca != cb {
            return ca < cb;
        }
        assert(sa.drop_first() =~= a@.subrange(i + 1, a@.len() as int));
        assert(sb.drop_first() =~= b@.subrange(i + 1, b@.len() as int));
        i = i + 1;
    }
}

/// An entry with the characters of its lower-cased name, by which it is
/// ordered.
struct KeyedEntry {
    entry: AssetEntry,
    key: Vec<char>,
}

fn keyed_before(a: &KeyedEntry, b: &KeyedEntry) -> (r: bool)
    requires
        a.key@ == lower_text(a.entry.name@),
        b.key@ == lower_text(b.entry.name@),
    ensures
        r == entry_before(a.entry@, b.entry@),
{
    let ra: u8 = if a.entry.is_dir { 0 } else { 1 };
    let rb: u8 = if b.entry.is_dir { 0 } else { 1 };
    ra < rb || (ra == rb && chars_lt_exec(&a.key, &b.key))
}

fn copy_entry(e: &AssetEntry) -> (r: AssetEntry)
    ensures
        r@ == e@,
{
    AssetEntry {
        path: String::from_str(e.path.as_str()),
        name: String::from_str(e.name.as_str()),
        is_dir: e.is_dir,
    }
}

fn has_dir_named_exec(s: &Vec<AssetEntry>, name: &String) -> (r: bool)
    ensures
        r == has_dir_named(entries_view(s@), name@),
{
    let mut k: usize = 0;
    while k < s.len()
        invariant
            k <= s@.len(),
            forall|j: int| 0 <= j < k ==> !((#[trigger] s@[j]).is_dir && s@[j].name@ == name@),
        decreases s@.len() - k,
    {
        if s[k].is_dir && s[k].name == *name {
            assert(entries_view(s@)[k as int] == s@[k as int]@);
            return true;
        }
        k = k + 1;
    }
    assert forall|j: int| 0 <= j < entries_view(s@).len() implies !((#[trigger] entries_view(s@)[j]).is_dir
        && entries_view(s@)[j].name == name@) by {
        assert(entries_view(s@)[j] == s@[j]@);
    }
    false
}

/// The list that the browser shows for `entries` (see `display_list`).
pub fn display_entries(entries: &Vec<AssetEntry>) -> (r: Vec<AssetEntry>)
    ensures
        entries_view(r@) == display_list(entries_view(entries@)),
{
    let ghost ev = entries_view(entries@);
    let mut kept: Vec<AssetEntry> = Vec::new();
    let mut i: usize = 0;
    while i < entries.len()
        invariant
            i <= entries@.len(),
            ev == entries_view(entries@),
            entries_view(kept@) == without_repeated_dirs(ev.subrange(0, i as int)),
        decreases entries@.len() - i,
    {
        let e = &entries[i];
        let ghost pre = ev.subrange(0, i as int);
        proof {
            assert(ev.subrange(0, i + 1).drop_last() =~= pre);
            assert(ev.subrange(0, i + 1).last() == e@);
        }
        let skip = e.is_dir && has_dir_named_exec(&kept, &e.name);
        if !skip {
            let ghost before = kept@;
            kept.push(copy_entry(e));
            proof {
                assert(entries_view(kept@) =~= entries_view(before).push(e@));
            }
        }
        i = i + 1;
    }
    proof {
        assert(ev.subrange(0, entries@.len() as int) =~= ev);
    }
    let ghost d = entries_view(kept@);
    let mut out: Vec<KeyedEntry> = Vec::new();
    let mut j: usize = 0;
    while j < kept.len()
        invariant
            j <= kept@.len(),
            d == entries_view(kept@),
            out@.len() == j,
            forall|k: int| 0 <= k < out@.len() ==> (#[trigger] out@[k]).key@ == lower_text(out@[k].entry.name@),
            Seq::new(out@.len(), |k: int| out@[k].entry@) == sorted_entries(d.subrange(0, j as int)),
        decreases kept@.len() - j,
    {
        let ke = KeyedEntry {
            entry: copy_entry(&kept[j]),
            key: chars_of(str_lowercase(kept[j].name.as_str()).as_str()),
        };
        let ghost sv = Seq::new(out@.len(), |k: int| out@[k].entry@);
        proof {
            assert(ke.entry@ == d[j as int]);
            assert(d.subrange(0, j + 1).drop_last() =~= d.subrange(0, j as int));
            assert(d.subrange(0, j + 1).last() == d[j as int]);
        }
        let mut pos: usize = 0;
        loop
            invariant_except_break
                pos <= out@.len(),
                sv == Seq::new(out@.len(), |k: int| out@[k].entry@),
                ke.key@ == lower_text(ke.entry.name@),
                forall|k: int| 0 <= k < out@.len() ==> (#[trigger] out@[k]).key@ == lower_text(out@[k].entry.name@),
                forall|k: int| 0 <= k < pos ==> !entry_before(ke.entry@, #[trigger] sv[k]),
            ensures
                pos <= out@.len(),
                forall|k: int| 0 <= k < pos ==> !entry_before(ke.entry@, #[trigger] sv[k]),
                pos < out@.len() ==> entry_before(ke.entry@, sv[pos as int]),
            decreases out@.len() - pos,
        {
            if pos == out.len() {
                break;
            }
            if keyed_before(&ke, &out[pos]) {
                break;
            }
            pos = pos + 1;
        }
        proof {
            lemma_insert_pos_unique(sv, ke.entry@, pos as int);
        }
        let ghost prev = out@;
        out.insert(pos, ke);
        proof {
            assert(Seq::new(out@.len(), |k: int| out@[k].entry@) =~= sv.insert(pos as int, d[j as int]));
            assert forall|k: int| 0 <= k < out@.len() implies (#[trigger] out@[k]).key@ == lower_text(out@[k].entry.name@) by {
                if k < pos {
                    assert(out@[k] == prev[k]);
                } else if k > pos {
                    assert(out@[k] == prev[k - 1]);
                }
            }
        }
        j = j + 1;
    }
    proof {
        assert(d.subrange(0, kept@.len() as int) =~= d);
    }
    let mut r: Vec<AssetEntry> = Vec::new();
    let mut k: usize = 0;
    let ghost sorted = Seq::new(out@.len(), |q: int| out@[q].entry@);
    while k < out.len()
        invariant
            k <= out@.len(),
            sorted == Seq::new(out@.len(), |q: int| out@[q].entry@),
            entries_view(r@) == sorted.subrange(0, k as int),
        decreases out@.len() - k,
    {
        let ghost before = r@;
        let c = copy_entry(&out[k].entry);
        r.push(c);
        proof {
            assert(sorted[k as int] == out@[k as int].entry@);
            assert(entries_view(before).len() == before.len());
            assert(r@ == before.push(c));
            assert(entries_view(r@) =~= entries_view(before).push(c@));
            assert(entries_view(r@) =~= sorted.subrange(0, k + 1));
        }
        k = k + 1;
    }
    proof {
        assert(sorted.subrange(0, out@.len() as int) =~= sorted);
    }
    r
}


/// The path of the folder below the asset root named by `folders`.
pub open spec fn folder_path(folders: Seq<Seq<char>>) -> Seq<char>
    decreases folders.len(),
{
    if folders.len() == 0 {
        "smq_proj/assets"@
    } else {
        folder_path(folders.drop_last()) + "/"@ + folders.last()
    }
}

/// The label that the browser shows for the folder at `path`: the path
/// with `\` read as `/` and the asset root taken out, or `/` for the root.
pub open spec fn breadcrumb_of(path: Seq<char>) -> Seq<char> {
    let rel = replace_all(replace_all(path, "\\"@, "/"@), "smq_proj/assets"@, ""@);
    if rel.len() == 0 {
        "/"@
    } else {
        rel
    }
}

/// The characters of an optional string.
pub open spec fn opt_chars(o: Option<String>) -> Option<Seq<char>> {
    match o {
        Some(s) => Some(s@),
        None => None,
    }
}

/// What the browser holds: the folders below the asset root that lead to
/// the folder shown, the selected entry, the entry being renamed and the
/// text of the rename field.
pub struct BrowserView {
    pub folders: Seq<Seq<char>>,
    pub selected: Option<Seq<char>>,
    pub renaming: Option<Seq<char>>,
    pub rename_buffer: Seq<char>,
}

/// State of the asset browser.
pub struct AssetBrowser {
    folders: Vec<String>,
    selected: Option<String>,
    renaming: Option<String>,
    rename_buffer: String,
}

impl View for AssetBrowser {
    type V = BrowserView;

    closed spec fn view(&self) -> BrowserView {
        BrowserView {
            folders: self.folders@.map_values(|f: String| f@),
            selected: opt_chars(self.selected),
            renaming: opt_chars(self.renaming),
            rename_buffer: self.rename_buffer@,
        }
    }
}

impl Default for AssetBrowser {
    /// At the asset root, with nothing selected or being renamed.
    fn default() -> (r: AssetBrowser)
        ensures
            r@.folders.len() == 0,
            r@.selected is None,
            r@.renaming is None,
            r@.rename_buffer.len() == 0,
    {
        let r = AssetBrowser {
            folders: Vec::new(),
            selected: None,
            renaming: None,
            rename_buffer: String::new(),
        };
        proof {
            assert(r@.folders =~= Seq::<Seq<char>>::empty());
        }
        r
    }
}

fn copy_string(s: &str) -> (r: String)
    ensures
        r@ == s@,
{
    String::from_str(s)
}

fn opt_copy(o: &Option<String>) -> (r: Option<String>)
    ensures
        opt_chars(r) == opt_chars(*o),
{
    match o {
        Some(s) => Some(copy_string(s.as_str())),
        None => None,
    }
}

impl AssetBrowser {
    /// The path of the folder shown.
    pub fn path(&self) -> (r: String)
        ensures
            r@ == folder_path(self@.folders),
    {
        let mut r = String::from_str("smq_proj/assets");
        let mut i: usize = 0;
        let ghost fs = self@.folders;
        while i < self.folders.len()
            invariant
                i <= self.folders@.len(),
                fs == self@.folders,
                fs == self.folders@.map_values(|f: String| f@),
                r@ == folder_path(fs.subrange(0, i as int)),
            decreases self.folders@.len() - i,
        {
            r.append("/");
            r.append(self.folders[i].as_str());
            proof {
                assert(fs.subrange(0, i + 1).drop_last() =~= fs.subrange(0, i as int));
                assert(fs[i as int] == self.folders@[i as int]@);
            }
            i = i + 1;
        }
        proof {
            assert(fs.subrange(0, self.folders@.len() as int) =~= fs);
        }
        r
    }

    /// The label of the folder shown.
    pub fn breadcrumb(&self) -> (r: String)
        ensures
            r@ == breadcrumb_of(folder_path(self@.folders)),
    {
        proof {
            reveal_strlit("\\");
            reveal_strlit("smq_proj/assets");
        }
        let p = self.path();
        let a = str_replace(p.as_str(), "\\", "/");
        let rel = str_replace(a.as_str(), "smq_proj/assets", "");
        if rel.unicode_len() == 0 {
            String::from_str("/")
        } else {
            rel
        }
    }

    /// Goes up one folder, unless the root is shown; going up clears the
    /// selection.
    pub fn go_back(&mut self)
        ensures
            old(self)@.folders.len() > 0 ==> final(self)@ == (BrowserView {
                folders: old(self)@.folders.drop_last(),
                selected: None,
                ..old(self)@
            }),
            old(self)@.folders.len() == 0 ==> final(self)@ == old(self)@,
    {
        if self.folders.len() > 0 {
            let ghost before = self.folders@;
            let _ = self.folders.pop();
            self.selected = None;
            proof {
                assert(self.folders@.map_values(|f: String| f@) =~= before.map_values(|f: String| f@).drop_last());
            }
        }
    }

    /// Opens the folder `name` of the folder shown; nothing stays selected
    /// or being renamed.
    pub fn open_folder(&mut self, name: &str)
        ensures
            final(self)@ == (BrowserView {
                folders: old(self)@.folders.push(name@),
                selected: None,
                renaming: None,
                ..old(self)@
            }),
    {
        let ghost before = self.folders@;
        self.folders.push(copy_string(name));
        self.selected = None;
        self.renaming = None;
        proof {
            assert(self.folders@.map_values(|f: String| f@) =~= before.map_values(|f: String| f@).push(name@));
        }
    }

    /// Selects the entry at `path`.
    pub fn select(&mut self, path: &str)
        ensures
            final(self)@ == (BrowserView { selected: Some(path@), ..old(self)@ }),
    {
        self.selected = Some(copy_string(path));
    }

    /// Clears the selection (a click on the background, or a deletion).
    pub fn clear_selection(&mut self)
        ensures
            final(self)@ == (BrowserView { selected: None, ..old(self)@ }),
    {
        self.selected = None;
    }

    /// The selected entry.
    pub fn selected(&self) -> (r: Option<String>)
        ensures
            opt_chars(r) == self@.selected,
    {
        opt_copy(&self.selected)
    }

    /// Whether the entry at `path` is selected.
    pub fn is_selected(&self, path: &str) -> (b: bool)
        ensures
            b == (self@.selected == Some(path@)),
    {
        match &self.selected {
            Some(s) => crate::text::str_eq(s.as_str(), path),
            None => false,
        }
    }

    /// Whether the entry at `path` is being renamed.
    pub fn is_renaming(&self, path: &str) -> (b: bool)
        ensures
            b == (self@.renaming == Some(path@)),
    {
        match &self.renaming {
            Some(s) => crate::text::str_eq(s.as_str(), path),
            None => false,
        }
    }

    /// Starts renaming the entry at `path`, whose name is `name`.
    pub fn start_rename(&mut self, path: &str, name: &str)
        ensures
            final(self)@ == (BrowserView { renaming: Some(path@), rename_buffer: name@, ..old(self)@ }),
    {
        self.renaming = Some(copy_string(path));
        self.rename_buffer = copy_string(name);
    }

    /// Starts renaming a new entry called `name` in the folder shown, and
    /// gives its path, where the caller creates it.
    pub fn start_new_entry(&mut self, name: &str) -> (target: String)
        ensures
            target@ == folder_path(old(self)@.folders) + "/"@ + name@,
            final(self)@ == (BrowserView { renaming: Some(target@), rename_buffer: name@, ..old(self)@ }),
    {
        let mut target = self.path();
        target.append("/");
        target.append(name);
        self.renaming = Some(copy_string(target.as_str()));
        self.rename_buffer = copy_string(name);
        target
    }

    /// The text of the rename field.
    pub fn rename_buffer(&self) -> (r: &str)
        ensures
            r@ == self@.rename_buffer,
    {
        self.rename_buffer.as_str()
    }

    /// Sets the text of the rename field.
    pub fn set_rename_buffer(&mut self, text: &str)
        ensures
            final(self)@ == (BrowserView { rename_buffer: text@, ..old(self)@ }),
    {
        self.rename_buffer = copy_string(text);
    }

    /// Ends renaming the entry called `file_name`: gives the new name when
    /// the field holds a name that is not empty and not the old one (the
    /// caller renames the entry within its folder), else `None`.
    pub fn finish_rename(&mut self, file_name: &str) -> (r: Option<String>)
        ensures
            final(self)@ == (BrowserView { renaming: None, ..old(self)@ }),
            opt_chars(r) == if old(self)@.rename_buffer.len() > 0 && old(self)@.rename_buffer != file_name@ {
                Some(old(self)@.rename_buffer)
            } else {
                None
            },
    {
        let b = self.rename_buffer.as_str();
        let r = if b.unicode_len() > 0 && !crate::text::str_eq(b, file_name) {
            Some(copy_string(b))
        } else {
            None
        };
        self.renaming = None;
        r
    }
}


/// Going up after opening a folder shows the folder shown before, under
/// the same path; opening a folder shows its path below the one before.
pub proof fn lemma_back_after_open(folders: Seq<Seq<char>>, name: Seq<char>)
    ensures
        folders.push(name).drop_last() == folders,
        folder_path(folders.push(name).drop_last()) == folder_path(folders),
        folder_path(folders.push(name)) == folder_path(folders) + "/"@ + name,
{
    assert(folders.push(name).drop_last() =~= folders);
}


/// The icon of an entry: `folder` for a folder, else its extension (or
/// `unknown` without one) in lower case.
pub open spec fn icon_name_of(is_dir: bool, ext: Option<Seq<char>>) -> Seq<char> {
    if is_dir {
        "folder"@
    } else {
        match ext {
            Some(e) => lower_text(e),
            None => lower_text("unknown"@),
        }
    }
}

/// The icon of an entry that is a folder (`is_dir`) or has the extension
/// `ext`.
pub fn card_icon_name(is_dir: bool, ext: Option<&str>) -> (r: String)
    ensures
        r@ == icon_name_of(is_dir, match ext {
            Some(e) => Some(e@),
            None => None::<Seq<char>>,
        }),
{
    if is_dir {
        String::from_str("folder")
    } else {
        match ext {
            Some(e) => str_lowercase(e),
            None => str_lowercase("unknown"),
        }
    }
}

/// The file that holds the icon called `name`.
pub fn icon_path(name: &str) -> (r: String)
    ensures
        r@ == "assets/icons/"@ + name@ + ".png"@,
{
    let mut r = String::from_str("assets/icons/");
    r.append(name);
    r.append(".png");
    r
}

} // verus!
