use vstd::prelude::*;

use crate::batch::is_numbered;
use crate::entry::{infos_view, UploadFileInfo, UploadFileInfoView};

verus! {

/// One item of a directory walk: its absolute path as components.
#[derive(Debug, Clone)]
pub struct FsItem {
    pub path: Vec<String>,
    pub is_dir: bool,
    /// Length in bytes of a file; not read for a directory.
    pub size: u64,
}

/// A supplied root and every item found under it, the root included, in
/// depth-first order.
#[derive(Debug, Clone)]
pub struct RootListing {
    pub root: Vec<String>,
    pub items: Vec<FsItem>,
}

/// Why a batch could not be resolved.
#[derive(Debug, Clone, Copy, PartialEq, Eq, Structural)]
pub enum ResolveError {
    /// A root names no path component.
    EmptyRoot,
    /// A listed item does not lie under its root.
    OutsideRoot,
}

pub open spec fn parts_view(p: Seq<String>) -> Seq<Seq<char>> {
    p.map_values(|s: String| s@)
}

pub struct FsItemView {
    pub path: Seq<Seq<char>>,
    pub is_dir: bool,
    pub size: u64,
}

impl View for FsItem {
    type V = FsItemView;

    open spec fn view(&self) -> FsItemView {
        FsItemView { path: parts_view(self.path@), is_dir: self.is_dir, size: self.size }
    }
}

pub open spec fn items_view(v: Seq<FsItem>) -> Seq<FsItemView> {
    v.map_values(|i: FsItem| i@)
}

pub open spec fn is_prefix(p: Seq<Seq<char>>, q: Seq<Seq<char>>) -> bool {
    p.len() <= q.len() && q.subrange(0, p.len() as int) == p
}

/// Some file of `items` lies strictly below the directory `d`.
pub open spec fn has_file_under(items: Seq<FsItemView>, d: Seq<Seq<char>>) -> bool {
    exists|j: int|
        0 <= j < items.len() && !(#[trigger] items[j]).is_dir && d.len() < items[j].path.len()
            && is_prefix(d, items[j].path)
}

/// Item `i` gives an entry: it is a file, or a directory that holds no file
/// while its parent does (or that is the root itself).
pub open spec fn yields_entry(items: Seq<FsItemView>, root_len: nat, i: int) -> bool {
    let it = items[i];
    !it.is_dir || (!has_file_under(items, it.path) && (it.path.len() <= root_len
        || has_file_under(items, it.path.drop_last())))
}

/// Components joined by `/`.
pub open spec fn join_path(parts: Seq<Seq<char>>) -> Seq<char>
    decreases parts.len(),
{
    if parts.len() == 0 {
        seq![]
    } else if parts.len() == 1 {
        parts[0]
    } else {
        join_path(parts.drop_last()) + seq!['/'] + parts.last()
    }
}

/// What the file type of a name with its extension is taken to be.
pub uninterp spec fn mime_type_of(name: Seq<char>) -> Seq<char>;

/// The path of `it` relative to the parent of its root: its components from
/// `base_len` on, joined by `/`.
pub open spec fn relative_of(it: FsItemView, base_len: nat) -> Seq<char> {
    join_path(it.path.subrange(base_len as int, it.path.len() as int))
}

/// The entry of file `it`, of the given file type.
pub open spec fn file_entry_view(it: FsItemView, base_len: nat, id: u64, mime: Seq<char>) -> UploadFileInfoView {
    UploadFileInfoView {
        id,
        name: it.path.last(),
        relative_path: relative_of(it, base_len),
        size: it.size,
        mime_type: mime,
        is_directory: false,
    }
}

/// The placeholder entry of directory `it`.
pub open spec fn dir_entry_view(it: FsItemView, base_len: nat, id: u64) -> UploadFileInfoView {
    UploadFileInfoView {
        id,
        name: seq![],
        relative_path: relative_of(it, base_len),
        size: 0,
        mime_type: "dir"@,
        is_directory: true,
    }
}

/// The entry of item `it`.
pub open spec fn entry_of(it: FsItemView, base_len: nat, id: u64) -> UploadFileInfoView {
    if it.is_dir {
        dir_entry_view(it, base_len, id)
    } else {
        file_entry_view(it, base_len, id, mime_type_of(it.path.last()))
    }
}

pub struct RootListingView {
    pub root: Seq<Seq<char>>,
    pub items: Seq<FsItemView>,
}

impl View for RootListing {
    type V = RootListingView;

    open spec fn view(&self) -> RootListingView {
        RootListingView { root: parts_view(self.root@), items: items_view(self.items@) }
    }
}

pub open spec fn listings_view(v: Seq<RootListing>) -> Seq<RootListingView> {
    v.map_values(|l: RootListing| l@)
}

/// The root names a path, and every item lies under it.
pub open spec fn listing_ok(l: RootListingView) -> bool {
    &&& l.root.len() >= 1
    &&& forall|i: int| 0 <= i < l.items.len() ==> is_prefix(l.root, #[trigger] l.items[i].path)
}

/// The entries that the first `n` items of `l` give, numbered from `start`.
pub open spec fn entries_upto(l: RootListingView, n: nat, start: nat) -> Seq<UploadFileInfoView>
    decreases n,
{
    if n == 0 {
        seq![]
    } else {
        let prev = entries_upto(l, (n - 1) as nat, start);
        if yields_entry(l.items, l.root.len(), n - 1) {
            prev.push(
                entry_of(l.items[n - 1], (l.root.len() - 1) as nat, (start + prev.len()) as u64),
            )
        } else {
            prev
        }
    }
}

/// The entries that listing `l` gives, numbered from `start`.
pub open spec fn listing_entries(l: RootListingView, start: nat) -> Seq<UploadFileInfoView> {
    entries_upto(l, l.items.len(), start)
}

/// The manifest of the first `n` listings: their entries one after another,
/// each numbered by its position.
pub open spec fn manifest_upto(ls: Seq<RootListingView>, n: nat) -> Seq<UploadFileInfoView>
    decreases n,
{
    if n == 0 {
        seq![]
    } else {
        let prev = manifest_upto(ls, (n - 1) as nat);
        prev + listing_entries(ls[n - 1], prev.len())
    }
}

/// Why listing `l` cannot be resolved, if it cannot.
pub open spec fn listing_error(l: RootListingView) -> Option<ResolveError> {
    if l.root.len() == 0 {
        Some(ResolveError::EmptyRoot)
    } else if !listing_ok(l) {
        Some(ResolveError::OutsideRoot)
    } else {
        None
    }
}

/// The error of the first of the first `n` listings that cannot be resolved.
pub open spec fn batch_error(ls: Seq<RootListingView>, n: nat) -> Option<ResolveError>
    decreases n,
{
    if n == 0 {
        None
    } else {
        match batch_error(ls, (n - 1) as nat) {
            Some(e) => Some(e),
            None => listing_error(ls[n - 1]),
        }
    }
}

/// The manifest of a batch of listings.
pub open spec fn manifest(ls: Seq<RootListingView>) -> Seq<UploadFileInfoView> {
    manifest_upto(ls, ls.len())
}

/// Relies on mime_infer::from_path, which looks the extension of the name up
/// in a fixed table and yields text/plain where it finds none: the result
/// depends on the name alone.
#[verifier::external_body]
fn infer_mime_type(name: &str) -> (r: String)
    ensures
        r@ == mime_type_of(name@),
{
    mime_infer::from_path(name).first_or_text_plain().to_string()
}

/// Whether the first `n` components of `p` are a prefix of `q`.
fn parts_prefix(p: &Vec<String>, n: usize, q: &Vec<String>) -> (r: bool)
    requires
        n <= p.len(),
    ensures
        r == is_prefix(parts_view(p@).subrange(0, n as int), parts_view(q@)),
{
    if n > q.len() {
        return false;
    }
    let mut i: usize = 0;
    while i < n
        invariant
            i <= n <= p.len(),
            n <= q.len(),
            forall|j: int| 0 <= j < i ==> p@[j]@ == q@[j]@,
        decreases n - i,
    {
        if p[i] != q[i] {
            assert(parts_view(q@).subrange(0, n as int)[i as int] != parts_view(p@).subrange(
                0,
                n as int,
            )[i as int]);
            return false;
        }
        i += 1;
    }
    assert(parts_view(q@).subrange(0, n as int) =~= parts_view(p@).subrange(0, n as int));
    true
}

/// Whether some file of `items` lies strictly below the first `n` components
/// of `p`.
fn file_below(items: &Vec<FsItem>, p: &Vec<String>, n: usize) -> (r: bool)
    requires
        n <= p.len(),
    ensures
        r == has_file_under(items_view(items@), parts_view(p@).subrange(0, n as int)),
{
    let ghost iv = items_view(items@);
    let ghost d = parts_view(p@).subrange(0, n as int);
    let mut j: usize = 0;
    while j < items.len()
        invariant
            j <= items.len(),
            n <= p.len(),
            iv == items_view(items@),
            d == parts_view(p@).subrange(0, n as int),
            forall|k: int|
                0 <= k < j ==> !(!(#[trigger] iv[k]).is_dir && d.len() < iv[k].path.len()
                    && is_prefix(d, iv[k].path)),
        decreases items.len() - j,
    {
        let it = &items[j];
        if !it.is_dir && n < it.path.len() && parts_prefix(p, n, &it.path) {
            assert(!iv[j as int].is_dir && d.len() < iv[j as int].path.len() && is_prefix(
                d,
                iv[j as int].path,
            ));
            return true;
        }
        j += 1;
    }
    false
}

/// The components of `parts` from `from` on, joined by `/`.
fn join_parts(parts: &Vec<String>, from: usize) -> (r: String)
    requires
        from < parts.len(),
    ensures
        r@ == join_path(parts_view(parts@).subrange(from as int, parts.len() as int)),
{
    let ghost pv = parts_view(parts@);
    let mut acc = parts[from].clone();
    let mut k: usize = from + 1;
    assert(join_path(pv.subrange(from as int, k as int)) == acc@) by {
        assert(pv.subrange(from as int, k as int).len() == 1);
    }
    while k < parts.len()
        invariant
            from < k <= parts.len(),
            pv == parts_view(parts@),
            acc@ == join_path(pv.subrange(from as int, k as int)),
        decreases parts.len() - k,
    {
        let ghost before = acc@;
        proof {
            reveal_strlit("/");
        }
        acc.append("/");
        acc.append(parts[k].as_str());
        assert(pv.subrange(from as int, k + 1).drop_last() =~= pv.subrange(from as int, k as int));
        assert(acc@ =~= before + seq!['/'] + pv.subrange(from as int, k + 1).last());
        k += 1;
    }
    acc
}

/// The entry of a file item, of the given file type.
pub fn file_entry(item: &FsItem, base_len: usize, id: u64, mime_type: String) -> (r: UploadFileInfo)
    requires
        base_len < item.path.len(),
    ensures
        r@ == file_entry_view(item@, base_len as nat, id, mime_type@),
{
    UploadFileInfo {
        id,
        name: item.path[item.path.len() - 1].clone(),
        relative_path: join_parts(&item.path, base_len),
        size: item.size,
        mime_type,
        is_directory: false,
    }
}

/// The placeholder entry of a directory item.
pub fn dir_entry(item: &FsItem, base_len: usize, id: u64) -> (r: UploadFileInfo)
    requires
        base_len < item.path.len(),
    ensures
        r@ == dir_entry_view(item@, base_len as nat, id),
{
    proof {
        reveal_strlit("dir");
    }
    UploadFileInfo {
        id,
        name: String::new(),
        relative_path: join_parts(&item.path, base_len),
        size: 0,
        mime_type: "dir".to_string(),
        is_directory: true,
    }
}

/// Whether `l` can be resolved, and if not, why.
fn check_listing(l: &RootListing) -> (r: Result<(), ResolveError>)
    ensures
        r matches Ok(_) <==> listing_error(l@) is None,
        r matches Err(e) ==> listing_error(l@) == Some(e),
{
    if l.root.len() == 0 {
        return Err(ResolveError::EmptyRoot);
    }
    let ghost lv = l@;
    let mut i: usize = 0;
    while i < l.items.len()
        invariant
            i <= l.items.len(),
            lv == l@,
            lv.root.len() > 0,
            forall|j: int| 0 <= j < i ==> is_prefix(lv.root, #[trigger] lv.items[j].path),
        decreases l.items.len() - i,
    {
        if !parts_prefix(&l.root, l.root.len(), &l.items[i].path) {
            assert(parts_view(l.root@).subrange(0, l.root.len() as int) =~= lv.root);
            assert(!is_prefix(lv.root, lv.items[i as int].path));
            assert(!listing_ok(lv));
            return Err(ResolveError::OutsideRoot);
        }
        assert(parts_view(l.root@).subrange(0, l.root.len() as int) =~= lv.root);
        i += 1;
    }
    Ok(())
}

/// Appends the entries of `l` to `out`, numbered by their positions there.
fn append_listing(l: &RootListing, out: &mut Vec<UploadFileInfo>)
    requires
        listing_ok(l@),
    ensures
        infos_view(final(out)@) == infos_view(old(out)@) + listing_entries(l@, old(out)@.len()),
{
    let ghost lv = l@;
    let ghost start = old(out)@.len();
    let root_len = l.root.len();
    let base_len = root_len - 1;
    let mut i: usize = 0;
    assert(infos_view(out@) =~= infos_view(old(out)@) + entries_upto(lv, 0, start));
    while i < l.items.len()
        invariant
            i <= l.items.len(),
            lv == l@,
            listing_ok(lv),
            root_len == lv.root.len(),
            base_len + 1 == root_len,
            start == old(out)@.len(),
            infos_view(out@) == infos_view(old(out)@) + entries_upto(lv, i as nat, start),
        decreases l.items.len() - i,
    {
        let item = &l.items[i];
        let ghost iv = lv.items[i as int];
        let ghost prev = entries_upto(lv, i as nat, start);
        assert(is_prefix(lv.root, iv.path));
        let plen = item.path.len();
        let yields = if !item.is_dir {
            true
        } else {
            let below = file_below(&l.items, &item.path, plen);
            assert(parts_view(item.path@).subrange(0, plen as int) =~= iv.path);
            if below {
                false
            } else if plen <= root_len {
                true
            } else {
                let r = file_below(&l.items, &item.path, plen - 1);
                assert(parts_view(item.path@).subrange(0, plen - 1) =~= iv.path.drop_last());
                r
            }
        };
        assert(yields == yields_entry(lv.items, lv.root.len(), i as int));
        if yields {
            let id = out.len() as u64;
            let e = if item.is_dir {
                dir_entry(item, base_len, id)
            } else {
                let name = item.path[plen - 1].as_str();
                let mime = infer_mime_type(name);
                file_entry(item, base_len, id, mime)
            };
            let ghost before = infos_view(out@);
            out.push(e);
            assert(infos_view(out@) =~= before.push(e@));
            assert(infos_view(old(out)@) + prev.push(e@) =~= (infos_view(old(out)@) + prev).push(e@));
        }
        i += 1;
    }
}

/// Resolves a batch of listings into its manifest: the entries of each
/// listing in turn, each entry's id its position. Fails with the error of the
/// first listing that cannot be resolved, and then yields no entry.
pub fn resolve_manifest(listings: &Vec<RootListing>) -> (r: Result<Vec<UploadFileInfo>, ResolveError>)
    ensures
        r matches Ok(m) ==> batch_error(listings_view(listings@), listings@.len()) is None
            && infos_view(m@) == manifest(listings_view(listings@)),
        r matches Err(e) ==> batch_error(listings_view(listings@), listings@.len()) == Some(e),
{
    let ghost lsv = listings_view(listings@);
    let mut out: Vec<UploadFileInfo> = Vec::new();
    let mut n: usize = 0;
    assert(infos_view(out@) =~= manifest_upto(lsv, 0));
    while n < listings.len()
        invariant
            n <= listings.len(),
            lsv == listings_view(listings@),
            batch_error(lsv, n as nat) is None,
            infos_view(out@) == manifest_upto(lsv, n as nat),
        decreases listings.len() - n,
    {
        let l = &listings[n];
        match check_listing(l) {
            Err(e) => {
                assert(batch_error(lsv, (n + 1) as nat) == Some(e));
                proof {
                    lemma_batch_error_sticks(lsv, (n + 1) as nat, listings@.len());
                }
                return Err(e);
            },
            Ok(()) => {},
        }
        append_listing(l, &mut out);
        n += 1;
    }
    Ok(out)
}

proof fn lemma_batch_error_sticks(ls: Seq<RootListingView>, n: nat, m: nat)
    requires
        n <= m,
        batch_error(ls, n) is Some,
    ensures
        batch_error(ls, m) == batch_error(ls, n),
    decreases m - n,
{
    if n < m {
        lemma_batch_error_sticks(ls, n, (m - 1) as nat);
    }
}

/// How many of the first `n` items are files.
pub open spec fn file_count(items: Seq<FsItemView>, n: nat) -> nat
    decreases n,
{
    if n == 0 {
        0
    } else {
        file_count(items, (n - 1) as nat) + if !items[n - 1].is_dir {
            1nat
        } else {
            0nat
        }
    }
}

/// How many of the first `n` items are the top directory of a subtree that
/// holds no file: a directory with no file below it whose parent has one,
/// or a root directory with no file below it.
pub open spec fn empty_subtree_count(items: Seq<FsItemView>, root_len: nat, n: nat) -> nat
    decreases n,
{
    if n == 0 {
        0
    } else {
        empty_subtree_count(items, root_len, (n - 1) as nat) + if items[n - 1].is_dir
            && yields_entry(items, root_len, n - 1) {
            1nat
        } else {
            0nat
        }
    }
}

/// How many entries of `es` are directory placeholders (`dir`) or files
/// (`!dir`).
pub open spec fn entry_count(es: Seq<UploadFileInfoView>, dir: bool) -> nat
    decreases es.len(),
{
    if es.len() == 0 {
        0
    } else {
        entry_count(es.drop_last(), dir) + if es.last().is_directory == dir {
            1nat
        } else {
            0nat
        }
    }
}

proof fn lemma_entries_counts(l: RootListingView, n: nat, start: nat)
    requires
        n <= l.items.len(),
    ensures
        entry_count(entries_upto(l, n, start), false) == file_count(l.items, n),
        entry_count(entries_upto(l, n, start), true) == empty_subtree_count(l.items, l.root.len(), n),
        forall|k: int|
            0 <= k < entries_upto(l, n, start).len() ==> (#[trigger] entries_upto(l, n, start)[k]).id
                == (start + k) as u64,
    decreases n,
{
    if n > 0 {
        lemma_entries_counts(l, (n - 1) as nat, start);
        let prev = entries_upto(l, (n - 1) as nat, start);
        if yields_entry(l.items, l.root.len(), n - 1) {
            let e = entry_of(l.items[n - 1], (l.root.len() - 1) as nat, (start + prev.len()) as u64);
            assert(prev.push(e).drop_last() =~= prev);
            assert forall|k: int| 0 <= k < prev.push(e).len() implies (#[trigger] prev.push(e)[k]).id
                == (start + k) as u64 by {
                if k < prev.len() {
                    assert(prev.push(e)[k] == prev[k]);
                }
            }
        }
    }
}

/// A listing gives one entry for each of its files and one placeholder for
/// each subtree that holds no file (none for a directory that holds a file),
/// each entry numbered in turn from `start`; each entry's relative path is
/// its item's path without the parent of the root.
pub proof fn lemma_listing_counts(l: RootListingView, start: nat)
    ensures
        entry_count(listing_entries(l, start), false) == file_count(l.items, l.items.len()),
        entry_count(listing_entries(l, start), true) == empty_subtree_count(l.items, l.root.len(), l.items.len()),
        forall|k: int|
            0 <= k < listing_entries(l, start).len() ==> (#[trigger] listing_entries(l, start)[k]).id
                == (start + k) as u64,
{
    lemma_entries_counts(l, l.items.len(), start);
}

proof fn lemma_manifest_upto_numbered(ls: Seq<RootListingView>, n: nat)
    requires
        n <= ls.len(),
    ensures
        is_numbered(manifest_upto(ls, n)),
    decreases n,
{
    if n > 0 {
        lemma_manifest_upto_numbered(ls, (n - 1) as nat);
        let prev = manifest_upto(ls, (n - 1) as nat);
        let next = listing_entries(ls[n - 1], prev.len());
        lemma_listing_counts(ls[n - 1], prev.len());
        assert forall|k: int| 0 <= k < (prev + next).len() implies (#[trigger] (prev + next)[k]).id == k as u64 by {
            if k >= prev.len() {
                assert((prev + next)[k] == next[k - prev.len()]);
            }
        }
    }
}

/// The entries of a manifest are numbered by their positions, so that no two
/// of them share an id.
pub proof fn lemma_manifest_numbered(ls: Seq<RootListingView>)
    ensures
        is_numbered(manifest(ls)),
        manifest(ls).len() <= u64::MAX ==> forall|i: int, j: int|
            0 <= i < j < manifest(ls).len() ==> (#[trigger] manifest(ls)[i]).id != (#[trigger] manifest(ls)[j]).id,
{
    lemma_manifest_upto_numbered(ls, ls.len());
    let m = manifest(ls);
    if m.len() <= u64::MAX {
        assert forall|i: int, j: int| 0 <= i < j < m.len() implies (#[trigger] m[i]).id != (#[trigger] m[j]).id by {
            assert(m[i].id == i as u64);
            assert(m[j].id == j as u64);
        }
    }
}

} // verus!
