//! The data member of an IPK: the installed filesystem tree as tar
//! entries. Component trees are filtered by the exclude pattern, every
//! needed directory is synthesized exactly once, and the package record is
//! written under the packages prefix.

use vstd::prelude::*;
use vstd::string::StringExecFns;
use vstd::utf8::encode_utf8;

use crate::packaging::archive::{entry_wf, nul_free, TarEntry, TarEntryV, TarKind};
use crate::packaging::manifest::{packageinfo_json, str_views, AppInfo, PackageInfo, ServiceInfo};
use crate::packaging::validation::{arch_eq, arch_view, elf_machine_of, infer_arch, PackageArch, PackageArchV, PackageError, ValidationInfo};
use crate::rx::{regex_is_match, regex_match, regex_new, regex_pattern, regex_valid};
use crate::text::str_eq;

verus! {

/// One element of a component's on-disk tree, POSIX-slash relative to the
/// component base; the base itself has an empty relative path.
pub struct FsEntry {
    pub rel_path: String,
    pub kind: TarKind,
    pub mode: u32,
    pub mtime: u64,
    pub content: Vec<u8>,
    pub link: String,
}

/// The view of a tree element.
pub struct FsEntryV {
    pub rel_path: Seq<char>,
    pub kind: TarKind,
    pub mode: u32,
    pub mtime: u64,
    pub content: Seq<u8>,
    pub link: Seq<char>,
}

impl View for FsEntry {
    type V = FsEntryV;

    open spec fn view(&self) -> FsEntryV {
        FsEntryV {
            rel_path: self.rel_path@,
            kind: self.kind,
            mode: self.mode,
            mtime: self.mtime,
            content: self.content@,
            link: self.link@,
        }
    }
}

/// A tree element fit for packing: directories carry nothing, only
/// symlinks a target — a real one, non-empty and nul-free, as `readlink`
/// reports them — and everything but the base has a non-empty relative
/// path that neither starts nor ends with a slash.
pub open spec fn fs_entry_wf(e: FsEntryV) -> bool {
    (match e.kind {
        TarKind::Directory => e.content.len() == 0 && e.link.len() == 0,
        TarKind::File => e.link.len() == 0,
        TarKind::Symlink => e.content.len() == 0 && e.link.len() > 0 && nul_free(e.link),
    }) && (e.rel_path.len() > 0 ==> e.rel_path.first() != '/' && e.rel_path.last() != '/') && (
    e.kind !is Directory ==> e.rel_path.len() > 0)
}

/// One exclude pattern, normalized: a leading dot is anchored and escaped,
/// a leading star is dropped, and the whole pattern is anchored at the end.
pub open spec fn normalized_pattern(p: Seq<char>) -> Seq<char> {
    (if p.len() > 0 && p.first() == '.' {
        seq!['^', '\\', '.'] + p.skip(1)
    } else if p.len() > 0 && p.first() == '*' {
        p.skip(1)
    } else {
        p
    }) + seq!['$']
}

/// The normalized patterns joined with `|`.
pub open spec fn pattern_items(ps: Seq<Seq<char>>) -> Seq<char>
    decreases ps.len(),
{
    if ps.len() == 0 {
        Seq::empty()
    } else if ps.len() == 1 {
        normalized_pattern(ps[0])
    } else {
        pattern_items(ps.drop_last()) + seq!['|'] + normalized_pattern(ps.last())
    }
}

/// The one case-insensitive pattern the exclude list compiles to.
pub open spec fn joined_pattern(ps: Seq<Seq<char>>) -> Seq<char> {
    seq!['(', '?', 'i', ')'] + pattern_items(ps)
}

fn normalize_pattern_into(s: &mut String, p: &str)
    ensures
        final(s)@ == old(s)@ + normalized_pattern(p@),
{
    let len = p.unicode_len();
    if len > 0 {
        let c = p.get_char(0);
        if c == '.' {
            s.append("^\\.");
            let rest = p.substring_char(1, len);
            s.append(rest);
            proof {
                assert(rest@ =~= p@.skip(1));
            }
        } else if c == '*' {
            let rest = p.substring_char(1, len);
            s.append(rest);
            proof {
                assert(rest@ =~= p@.skip(1));
            }
        } else {
            s.append(p);
        }
    }
    s.append("$");
    proof {
        reveal_strlit("^\\.");
        reveal_strlit("$");
        assert(final(s)@ =~= old(s)@ + normalized_pattern(p@));
    }
}

/// Compiles the exclude patterns: with none there is no filter; otherwise
/// the normalized patterns are joined case-insensitively, and a pattern
/// set the regex crate rejects turns the filter off, as if none were
/// given.
pub fn compile_excludes(patterns: &Vec<String>) -> (r: Option<regex::Regex>)
    ensures
        patterns@.len() == 0 ==> r is None,
        patterns@.len() > 0 ==> (match r {
            Some(re) => regex_pattern(re) == joined_pattern(str_views(patterns@)),
            None => !regex_valid(joined_pattern(str_views(patterns@))),
        }),
{
    let n = patterns.len();
    if n == 0 {
        return None;
    }
    let mut q = String::from_str("(?i)");
    proof {
        reveal_strlit("(?i)");
        assert(q@ =~= seq!['(', '?', 'i', ')'] + pattern_items(str_views(patterns@).take(0)));
    }
    let mut i: usize = 0;
    while i < n
        invariant
            n == patterns@.len(),
            i <= n,
            q@ == seq!['(', '?', 'i', ')'] + pattern_items(str_views(patterns@).take(i as int)),
        decreases n - i,
    {
        if i > 0 {
            q.append("|");
        }
        normalize_pattern_into(&mut q, patterns[i].as_str());
        proof {
            reveal_strlit("|");
            let ps = str_views(patterns@);
            assert(ps.take(i + 1).drop_last() =~= ps.take(i as int));
            assert(ps.take(i + 1).last() == ps[i as int]);
            if i > 0 {
                assert(pattern_items(ps.take(i + 1)) == pattern_items(ps.take(i as int))
                    + seq!['|'] + normalized_pattern(ps[i as int]));
            } else {
                assert(ps.take(1).len() == 1);
                assert(pattern_items(ps.take(1)) == normalized_pattern(ps[0]));
            }
            assert(q@ =~= seq!['(', '?', 'i', ')'] + pattern_items(ps.take(i + 1)));
        }
        i = i + 1;
    }
    proof {
        assert(str_views(patterns@).take(n as int) =~= str_views(patterns@));
    }
    match regex_new(q.as_str()) {
        Ok(re) => Some(re),
        Err(_) => None,
    }
}

/// Whether a relative path is excluded: the pattern matches the path
/// itself, or one of the directories it sits under, so that pruning an
/// excluded directory takes its whole subtree with it.
pub open spec fn excluded_rel(pat: Seq<char>, rel: Seq<char>) -> bool {
    regex_match(pat, rel) || exists|k: int|
        0 < k < rel.len() && rel[k] == '/' && regex_match(pat, rel.take(k))
}

/// With no directory above the path matching the pattern, exclusion is
/// exactly a match on the path itself.
pub proof fn lemma_exclude_is_match_without_ancestors(pat: Seq<char>, rel: Seq<char>)
    requires
        forall|k: int| 0 < k < rel.len() && rel[k] == '/' ==> !regex_match(pat, rel.take(k)),
    ensures
        excluded_rel(pat, rel) == regex_match(pat, rel),
{
}

/// Decides exclusion of one relative path against the compiled pattern.
pub fn is_excluded(re: &regex::Regex, rel: &str) -> (r: bool)
    ensures
        r == excluded_rel(regex_pattern(*re), rel@),
{
    if regex_is_match(re, rel) {
        return true;
    }
    let len = rel.unicode_len();
    let mut k: usize = 1;
    while k < len
        invariant
            len == rel@.len(),
            1 <= k,
            k <= len || len == 0,
            !regex_match(regex_pattern(*re), rel@),
            forall|j: int|
                0 < j < k && j < len && rel@[j] == '/' ==> !regex_match(
                    regex_pattern(*re),
                    rel@.take(j),
                ),
        decreases len - k,
    {
        if rel.get_char(k) == '/' {
            let prefix = rel.substring_char(0, k);
            if regex_is_match(re, prefix) {
                proof {
                    assert(prefix@ =~= rel@.take(k as int));
                }
                return true;
            }
            proof {
                assert(prefix@ =~= rel@.take(k as int));
            }
        }
        k = k + 1;
    }
    false
}

/// The exclude filter as an option: no compiled pattern keeps everything.
pub open spec fn included(pat: Option<Seq<char>>, rel: Seq<char>) -> bool {
    match pat {
        None => true,
        Some(p) => !excluded_rel(p, rel),
    }
}

/// The pattern of an optional compiled filter.
pub open spec fn excludes_pat(ex: Option<regex::Regex>) -> Option<Seq<char>> {
    match ex {
        Some(re) => Some(regex_pattern(re)),
        None => None,
    }
}

/// Decides inclusion of one relative path against an optional filter.
pub fn is_included(excludes: &Option<regex::Regex>, rel: &str) -> (r: bool)
    ensures
        r == included(excludes_pat(*excludes), rel@),
{
    match excludes {
        Some(re) => !is_excluded(re, rel),
        None => true,
    }
}

/// An exact copy of a byte vector.
fn clone_bytes(v: &Vec<u8>) -> (r: Vec<u8>)
    ensures
        r@ == v@,
{
    let mut out: Vec<u8> = Vec::new();
    let n = v.len();
    let mut i: usize = 0;
    while i < n
        invariant
            n == v@.len(),
            i <= n,
            out@ == v@.take(i as int),
        decreases n - i,
    {
        out.push(v[i]);
        proof {
            assert(out@ =~= v@.take(i + 1));
        }
        i = i + 1;
    }
    proof {
        assert(v@.take(n as int) =~= v@);
    }
    out
}

/// Whether a path is recorded in the set of directories already written.
pub open spec fn seen_has(seen: Seq<String>, p: Seq<char>) -> bool {
    exists|i: int| 0 <= i < seen.len() && seen[i]@ == p
}

/// A synthesized directory entry: mode `0100775`, owner `0:5000`, the
/// build mtime, nothing inside.
pub open spec fn is_std_dir(e: TarEntryV, mtime: u64) -> bool {
    e.kind is Directory && e.mode == 0o100775u32 && e.uid == 0 && e.gid == 5000 && e.mtime == mtime
        && e.content.len() == 0 && e.link.len() == 0
}

/// Whether the output holds a directory entry for this path.
pub open spec fn out_has_dir(out: Seq<TarEntry>, p: Seq<char>) -> bool {
    exists|i: int| 0 <= i < out.len() && out[i]@.kind is Directory && out[i]@.path == p
}

/// Whether the output holds exactly this entry.
pub open spec fn out_has(out: Seq<TarEntry>, t: TarEntryV) -> bool {
    exists|i: int| 0 <= i < out.len() && out[i]@ == t
}

/// A non-empty prefix of `d` ending in a slash.
pub open spec fn slash_prefix(p: Seq<char>, d: Seq<char>) -> bool {
    0 < p.len() <= d.len() && p == d.take(p.len() as int) && p.last() == '/'
}

/// The tar entry a tree element becomes: the component prefix before its
/// relative path, its own mode and mtime, owner `0:5000`.
pub open spec fn tar_entry_of(prefix: Seq<char>, e: FsEntryV) -> TarEntryV {
    TarEntryV {
        path: prefix + e.rel_path,
        kind: e.kind,
        mode: e.mode,
        uid: 0,
        gid: 5000,
        mtime: e.mtime,
        content: e.content,
        link: e.link,
    }
}

/// The full path of a kept directory element: the component prefix, the
/// relative path, and a trailing slash — the prefix itself for the
/// component base.
pub open spec fn dir_path_of(prefix: Seq<char>, rel: Seq<char>) -> Seq<char> {
    if rel.len() == 0 {
        prefix
    } else {
        prefix + rel + seq!['/']
    }
}

/// The span a kept element claims in the output: its directory path for a
/// directory, its file path otherwise. Every synthesized directory is a
/// slash-ended prefix of some kept element's span.
pub open spec fn elem_span(prefix: Seq<char>, e: FsEntryV) -> Seq<char> {
    if e.kind is Directory {
        dir_path_of(prefix, e.rel_path)
    } else {
        prefix + e.rel_path
    }
}

proof fn lemma_concat_take(prefix: Seq<char>, a: Seq<char>, t: int)
    requires
        0 <= t <= a.len(),
    ensures
        (prefix + a).take(prefix.len() + t) == prefix + a.take(t),
{
    assert((prefix + a).take(prefix.len() + t) =~= prefix + a.take(t));
}

/// Exclusion reaches down: a path at or below an excluded one is excluded
/// too, so a pruned directory takes its whole subtree with it.
pub proof fn lemma_excluded_covers(pat: Seq<char>, r: Seq<char>, rel: Seq<char>)
    requires
        excluded_rel(pat, r),
        r.len() > 0,
        r == rel || (r.len() < rel.len() && rel[r.len() as int] == '/' && rel.take(r.len() as int)
            == r),
    ensures
        excluded_rel(pat, rel),
{
    if r != rel {
        if regex_match(pat, r) {
            assert(rel.take(r.len() as int) == r);
            assert(0 < r.len() < rel.len() && rel[r.len() as int] == '/' && regex_match(
                pat,
                rel.take(r.len() as int),
            ));
        } else {
            let k0 = choose|k0: int|
                0 < k0 < r.len() && r[k0] == '/' && regex_match(pat, r.take(k0));
            assert(rel[k0] == r[k0]);
            assert(rel.take(k0) =~= r.take(k0));
        }
    }
}

/// The data member being assembled: the entries so far, and the set of
/// directory paths already written, so no directory is emitted twice.
pub struct DataBuilder {
    pub out: Vec<TarEntry>,
    pub seen: Vec<String>,
    pub mtime: u64,
}

/// The builder invariant: every entry is well formed; directory entries
/// are the synthesized kind, pairwise distinct, and exactly the recorded
/// set; every entry's enclosing directories are themselves entries,
/// written before it, so the output is in pre-order.
pub open spec fn builder_wf(b: DataBuilder) -> bool {
    &&& forall|i: int| 0 <= i < b.out@.len() ==> entry_wf(#[trigger] b.out@[i]@)
    &&& forall|i: int, j: int|
        0 <= i < j < b.out@.len() && (#[trigger] b.out@[i]@).kind is Directory && (
        #[trigger] b.out@[j]@).kind is Directory ==> b.out@[i]@.path != b.out@[j]@.path
    &&& forall|i: int|
        0 <= i < b.out@.len() && (#[trigger] b.out@[i]@).kind is Directory ==> is_std_dir(
            b.out@[i]@,
            b.mtime,
        ) && seen_has(b.seen@, b.out@[i]@.path)
    &&& forall|i: int| 0 <= i < b.seen@.len() ==> out_has_dir(b.out@, #[trigger] b.seen@[i]@)
    &&& forall|m: int, k: int|
        #![trigger b.out@[m]@.path[k]]
        0 <= m < b.out@.len() && 0 <= k && k + 1 < b.out@[m]@.path.len() && b.out@[m]@.path[k]
            == '/' ==> out_has_dir(b.out@, b.out@[m]@.path.take(k + 1))
    &&& forall|m1: int, m2: int|
        0 <= m1 < b.out@.len() && 0 <= m2 < b.out@.len() && (#[trigger] b.out@[m1]@).kind
            is Directory && slash_prefix(b.out@[m1]@.path, (#[trigger] b.out@[m2]@).path) && b
            .out@[m1]@.path.len() < b.out@[m2]@.path.len() ==> m1 < m2
}

/// One output grows out of another: the old entries stand unchanged at the
/// front.
pub open spec fn grows(a: Seq<TarEntry>, c: Seq<TarEntry>) -> bool {
    a.len() <= c.len() && c.take(a.len() as int) == a
}

proof fn lemma_grows_trans(a: Seq<TarEntry>, b: Seq<TarEntry>, c: Seq<TarEntry>)
    requires
        grows(a, b),
        grows(b, c),
    ensures
        grows(a, c),
{
    assert(c.take(a.len() as int) =~= b.take(a.len() as int));
}

proof fn lemma_grows_out_has(a: Seq<TarEntry>, c: Seq<TarEntry>, t: TarEntryV)
    requires
        grows(a, c),
        out_has(a, t),
    ensures
        out_has(c, t),
{
    let i = choose|i: int| 0 <= i < a.len() && a[i]@ == t;
    assert(c.take(a.len() as int)[i] == c[i]);
}

proof fn lemma_grows_out_has_dir(a: Seq<TarEntry>, c: Seq<TarEntry>, p: Seq<char>)
    requires
        grows(a, c),
        out_has_dir(a, p),
    ensures
        out_has_dir(c, p),
{
    let i = choose|i: int| 0 <= i < a.len() && a[i]@.kind is Directory && a[i]@.path == p;
    assert(c.take(a.len() as int)[i] == c[i]);
}

proof fn lemma_prefix_cancel(prefix: Seq<char>, a: Seq<char>, b: Seq<char>)
    requires
        prefix + a == prefix + b,
    ensures
        a == b,
{
    assert(a =~= (prefix + a).skip(prefix.len() as int));
    assert(b =~= (prefix + b).skip(prefix.len() as int));
}

/// Pushing a non-directory whose enclosing directories are already
/// written preserves the builder invariant.
proof fn lemma_push_nondir_wf(mid: DataBuilder, post: DataBuilder, e: TarEntry)
    requires
        builder_wf(mid),
        post.out@ == mid.out@.push(e),
        post.seen@ == mid.seen@,
        post.mtime == mid.mtime,
        entry_wf(e@),
        !(e@.kind is Directory),
        forall|k: int|
            0 <= k && k + 1 < e@.path.len() && e@.path[k] == '/' ==> out_has_dir(
                mid.out@,
                e@.path.take(k + 1),
            ),
    ensures
        builder_wf(post),
{
    let L = mid.out@.len() as int;
    assert(post.out@.take(L) =~= mid.out@);
    assert(grows(mid.out@, post.out@));
    assert forall|i: int| 0 <= i < post.out@.len() implies entry_wf(
        (#[trigger] post.out@[i]@),
    ) by {
        if i < L {
            assert(post.out@[i] == mid.out@[i]);
        }
    }
    assert forall|i: int, j2: int|
        0 <= i < j2 < post.out@.len() && (#[trigger] post.out@[i]@).kind is Directory && (
        #[trigger] post.out@[j2]@).kind is Directory implies post.out@[i]@.path
        != post.out@[j2]@.path by {
        assert(post.out@[i] == mid.out@[i]);
        assert(j2 < L);
        assert(post.out@[j2] == mid.out@[j2]);
    }
    assert forall|i: int|
        0 <= i < post.out@.len() && (#[trigger] post.out@[i]@).kind is Directory implies is_std_dir(
        post.out@[i]@,
        post.mtime,
    ) && seen_has(post.seen@, post.out@[i]@.path) by {
        assert(i < L);
        assert(post.out@[i] == mid.out@[i]);
    }
    assert forall|i: int| 0 <= i < post.seen@.len() implies out_has_dir(
        post.out@,
        (#[trigger] post.seen@[i]@),
    ) by {
        let w = choose|w: int|
            0 <= w < mid.out@.len() && mid.out@[w]@.kind is Directory && mid.out@[w]@.path
                == mid.seen@[i]@;
        assert(post.out@[w] == mid.out@[w]);
    }
    assert forall|m: int, k2: int|
        0 <= m < post.out@.len() && 0 <= k2 && k2 + 1 < post.out@[m]@.path.len()
            && #[trigger] post.out@[m]@.path[k2] == '/' implies out_has_dir(
        post.out@,
        post.out@[m]@.path.take(k2 + 1),
    ) by {
        if m < L {
            assert(post.out@[m] == mid.out@[m]);
            assert(out_has_dir(mid.out@, mid.out@[m]@.path.take(k2 + 1)));
            lemma_grows_out_has_dir(mid.out@, post.out@, mid.out@[m]@.path.take(k2 + 1));
        } else {
            assert(out_has_dir(mid.out@, e@.path.take(k2 + 1)));
            lemma_grows_out_has_dir(mid.out@, post.out@, e@.path.take(k2 + 1));
        }
    }
    assert forall|m1: int, m2: int|
        0 <= m1 < post.out@.len() && 0 <= m2 < post.out@.len() && (#[trigger] post.out@[m1]@).kind
            is Directory && slash_prefix(post.out@[m1]@.path, (#[trigger] post.out@[m2]@).path)
            && post.out@[m1]@.path.len() < post.out@[m2]@.path.len() implies m1 < m2 by {
        assert(post.out@[m1] == mid.out@[m1]);
        if m2 < L {
            assert(post.out@[m2] == mid.out@[m2]);
        }
    }
}

/// Nothing of any kind stands at a dropped element's path: the entries a
/// tree walk appended are kept elements and their enclosing directories,
/// and exclusion reaches down, so a dropped path has no entry in either
/// its file form or its directory form.
proof fn lemma_dropped_paths_absent(
    prefix: Seq<char>,
    entries: Seq<FsEntry>,
    pat: Option<Seq<char>>,
    out: Seq<TarEntry>,
    lo: int,
)
    requires
        prefix.len() > 0 && prefix.last() == '/',
        forall|i: int| 0 <= i < entries.len() ==> fs_entry_wf(#[trigger] entries[i]@),
        forall|i: int, j: int|
            0 <= i < j < entries.len() ==> (#[trigger] entries[i]@).rel_path != (
            #[trigger] entries[j]@).rel_path,
        0 <= lo <= out.len(),
        forall|m: int|
            lo <= m < out.len() && !((#[trigger] out[m]@).kind is Directory) ==> (exists|j: int|
                0 <= j < entries.len() && included(pat, entries[j]@.rel_path) && !(entries[j]@.kind
                    is Directory) && out[m]@ == tar_entry_of(prefix, #[trigger] entries[j]@)),
        forall|m: int|
            lo <= m < out.len() && (#[trigger] out[m]@).kind is Directory ==> (exists|j: int|
                0 <= j < entries.len() && included(pat, entries[j]@.rel_path) && slash_prefix(
                    out[m]@.path,
                    elem_span(prefix, #[trigger] entries[j]@),
                )),
    ensures
        forall|i: int, m: int|
            0 <= i < entries.len() && (#[trigger] entries[i]@).rel_path.len() > 0 && !included(
                pat,
                entries[i]@.rel_path,
            ) && lo <= m < out.len() ==> (#[trigger] out[m]@).path != prefix
                + entries[i]@.rel_path && out[m]@.path != prefix + entries[i]@.rel_path
                + seq!['/'],
{
    let n = entries.len() as int;
    assert forall|i: int, m: int|
        0 <= i < n && (#[trigger] entries[i]@).rel_path.len() > 0 && !included(
            pat,
            entries[i]@.rel_path,
        ) && lo <= m < out.len() implies (#[trigger] out[m]@).path != prefix
        + entries[i]@.rel_path && out[m]@.path != prefix + entries[i]@.rel_path + seq!['/'] by {
        let relv = entries[i]@.rel_path;
        let pv = choose|pv: Seq<char>| pat == Some(pv);
        assert(excluded_rel(pv, relv));
        if out[m]@.path == prefix + relv {
            if out[m]@.kind is Directory {
                // a directory path ends in a slash; this one cannot
                let j = choose|j: int|
                    0 <= j < n && included(pat, entries[j]@.rel_path) && slash_prefix(
                        out[m]@.path,
                        elem_span(prefix, entries[j]@),
                    );
                assert(out[m]@.path.last() == '/');
                assert((prefix + relv).last() == relv.last());
                assert(false);
            } else {
                // only kept elements stand at file paths
                let j = choose|j: int|
                    0 <= j < n && included(pat, entries[j]@.rel_path) && !(entries[j]@.kind
                        is Directory) && out[m]@ == tar_entry_of(prefix, entries[j]@);
                lemma_prefix_cancel(prefix, entries[j]@.rel_path, relv);
                assert(j == i);
                assert(false);
            }
        }
        if out[m]@.path == prefix + relv + seq!['/'] {
            assert(prefix + relv + seq!['/'] =~= prefix + (relv + seq!['/']));
            if !(out[m]@.kind is Directory) {
                let j = choose|j: int|
                    0 <= j < n && included(pat, entries[j]@.rel_path) && !(entries[j]@.kind
                        is Directory) && out[m]@ == tar_entry_of(prefix, entries[j]@);
                lemma_prefix_cancel(prefix, entries[j]@.rel_path, relv + seq!['/']);
                assert(entries[j]@.rel_path.last() == '/');
                assert(false);
            } else {
                let j = choose|j: int|
                    0 <= j < n && included(pat, entries[j]@.rel_path) && slash_prefix(
                        out[m]@.path,
                        elem_span(prefix, entries[j]@),
                    );
                let relj = entries[j]@.rel_path;
                let span = elem_span(prefix, entries[j]@);
                if entries[j]@.kind is Directory && relj.len() == 0 {
                    assert(span == prefix);
                    assert(out[m]@.path.len() > prefix.len());
                    assert(false);
                } else {
                    // the span is the prefix before the relative path,
                    // slash-ended for a directory
                    let tail: Seq<char> = if entries[j]@.kind is Directory {
                        relj + seq!['/']
                    } else {
                        relj
                    };
                    assert(span =~= prefix + tail);
                    assert(relv.len() + 1 <= tail.len());
                    lemma_concat_take(prefix, tail, relv.len() as int + 1);
                    assert(prefix + (relv + seq!['/']) == prefix + tail.take(relv.len() as int + 1));
                    lemma_prefix_cancel(prefix, relv + seq!['/'], tail.take(relv.len() as int + 1));
                    assert(relv + seq!['/'] == tail.take(relv.len() as int + 1));
                    assert(relv =~= relj.take(relv.len() as int)) by {
                        assert(forall|t: int|
                            0 <= t < relv.len() ==> (relv + seq!['/'])[t] == #[trigger] relv[t]);
                        assert(forall|t: int|
                            0 <= t < relv.len() ==> tail.take(relv.len() as int + 1)[t] == tail[t]);
                        assert(forall|t: int| 0 <= t < relv.len() ==> tail[t] == relj[t]);
                    }
                    if relv.len() == relj.len() {
                        if entries[j]@.kind is Directory {
                            assert(relv =~= relj);
                            lemma_excluded_covers(pv, relv, relj);
                            assert(false);
                        } else {
                            assert((relv + seq!['/'])[relv.len() as int] == tail[relv.len() as int]);
                            assert(relj.last() == '/');
                            assert(false);
                        }
                    } else {
                        assert(relv.len() < relj.len());
                        assert(relj[relv.len() as int] == (relv + seq!['/'])[relv.len() as int]);
                        assert(relj[relv.len() as int] == '/');
                        lemma_excluded_covers(pv, relv, relj);
                        assert(false);
                    }
                }
            }
        }
    }
}

fn contains_str(v: &Vec<String>, s: &str) -> (r: bool)
    ensures
        r == seen_has(v@, s@),
{
    let n = v.len();
    let mut i: usize = 0;
    while i < n
        invariant
            n == v@.len(),
            i <= n,
            forall|j: int| 0 <= j < i ==> v@[j]@ != s@,
        decreases n - i,
    {
        if str_eq(v[i].as_str(), s) {
            return true;
        }
        i = i + 1;
    }
    false
}

impl DataBuilder {
    /// An empty data member at this build time.
    pub fn new(mtime: u64) -> (r: DataBuilder)
        ensures
            builder_wf(r),
            r.out@.len() == 0,
            r.mtime == mtime,
    {
        DataBuilder { out: Vec::new(), seen: Vec::new(), mtime }
    }

    /// Writes the directory `dir` and any of its ancestors not yet
    /// written, from the root down, each exactly once. `dir` and its
    /// ancestors are named by the prefixes of `dir` ending in a slash: the
    /// recorded set grows by exactly the missing ones, and the new entries
    /// come out root first.
    pub fn ensure_dir(&mut self, dir: &str)
        requires
            builder_wf(*old(self)),
        ensures
            builder_wf(*final(self)),
            final(self).mtime == old(self).mtime,
            grows(old(self).out@, final(self).out@),
            forall|i: int|
                old(self).out@.len() <= i < final(self).out@.len() ==> is_std_dir(
                    (#[trigger] final(self).out@[i]@),
                    old(self).mtime,
                ) && slash_prefix(final(self).out@[i]@.path, dir@),
            forall|k: int|
                0 <= k < dir@.len() && dir@[k] == '/' ==> seen_has(
                    final(self).seen@,
                    dir@.take(k + 1),
                ),
            final(self).seen@.len() >= old(self).seen@.len(),
            final(self).seen@.take(old(self).seen@.len() as int) == old(self).seen@,
            forall|i: int|
                old(self).seen@.len() <= i < final(self).seen@.len() ==> slash_prefix(
                    (#[trigger] final(self).seen@[i]@),
                    dir@,
                ) && !seen_has(old(self).seen@, final(self).seen@[i]@),
            forall|m1: int, m2: int|
                old(self).out@.len() <= m1 < m2 < final(self).out@.len() ==> (
                #[trigger] final(self).out@[m1]@).path.len() < (#[trigger] final(self).out@[m2]@).path.len(),
    {
        proof {
            assert(self.out@.take(self.out@.len() as int) =~= self.out@);
            assert(self.seen@.take(self.seen@.len() as int) =~= self.seen@);
        }
        let len = dir.unicode_len();
        let mut k: usize = 0;
        while k < len
            invariant
                builder_wf(*self),
                self.mtime == old(self).mtime,
                len == dir@.len(),
                k <= len,
                grows(old(self).out@, self.out@),
                forall|i: int|
                    old(self).out@.len() <= i < self.out@.len() ==> is_std_dir(
                        (#[trigger] self.out@[i]@),
                        old(self).mtime,
                    ) && slash_prefix(self.out@[i]@.path, dir@),
                forall|j: int|
                    0 <= j < k && dir@[j] == '/' ==> seen_has(self.seen@, dir@.take(j + 1)),
                self.seen@.len() >= old(self).seen@.len(),
                self.seen@.take(old(self).seen@.len() as int) == old(self).seen@,
                forall|i: int|
                    old(self).seen@.len() <= i < self.seen@.len() ==> slash_prefix(
                        (#[trigger] self.seen@[i]@),
                        dir@,
                    ) && !seen_has(old(self).seen@, self.seen@[i]@),
                forall|m: int|
                    old(self).out@.len() <= m < self.out@.len() ==> (
                    #[trigger] self.out@[m]@).path.len() <= k,
                forall|m1: int, m2: int|
                    old(self).out@.len() <= m1 < m2 < self.out@.len() ==> (
                    #[trigger] self.out@[m1]@).path.len() < (#[trigger] self.out@[m2]@).path.len(),
            decreases len - k,
        {
            if dir.get_char(k) == '/' {
                let prefix = dir.substring_char(0, k + 1).to_owned();
                proof {
                    assert(prefix@ =~= dir@.take(k + 1));
                }
                if !contains_str(&self.seen, prefix.as_str()) {
                    let ghost pre = *self;
                    let path_copy = prefix.clone();
                    self.out.push(TarEntry::dir(path_copy, self.mtime));
                    self.seen.push(prefix);
                    proof {
                        let L = pre.out@.len() as int;
                        assert(self.out@.take(L) =~= pre.out@);
                        assert(self.out@[L]@.path == dir@.take(k + 1));
                        assert(self.out@[L]@.kind is Directory);
                        assert(is_std_dir(self.out@[L]@, old(self).mtime));
                        assert(slash_prefix(self.out@[L]@.path, dir@));
                        // the new directory is not among the old ones
                        assert forall|i: int|
                            0 <= i < L && (#[trigger] self.out@[i]@).kind is Directory implies self
                            .out@[i]@.path != self.out@[L]@.path by {
                            assert(self.out@[i] == pre.out@[i]);
                            assert(seen_has(pre.seen@, pre.out@[i]@.path));
                        }
                        // every recorded path still has its directory entry
                        assert forall|i: int| 0 <= i < self.seen@.len() implies out_has_dir(
                            self.out@,
                            (#[trigger] self.seen@[i]@),
                        ) by {
                            if i < pre.seen@.len() {
                                assert(self.seen@[i] == pre.seen@[i]);
                                let w = choose|w: int|
                                    0 <= w < pre.out@.len() && pre.out@[w]@.kind is Directory
                                        && pre.out@[w]@.path == pre.seen@[i]@;
                                assert(self.out@[w] == pre.out@[w]);
                            } else {
                                assert(self.out@[L]@.path == self.seen@[i]@);
                            }
                        }
                        assert(grows(pre.out@, self.out@)) by {
                            assert(self.out@.take(L) =~= pre.out@);
                        }
                        assert(grows(old(self).out@, self.out@)) by {
                            lemma_grows_trans(old(self).out@, pre.out@, self.out@);
                        }
                        // well-formedness of every entry, old and new
                        assert forall|i: int| 0 <= i < self.out@.len() implies entry_wf(
                            (#[trigger] self.out@[i]@),
                        ) by {
                            if i < L {
                                assert(self.out@[i] == pre.out@[i]);
                                assert(entry_wf(pre.out@[i]@));
                            }
                        }
                        // directory entries stay pairwise distinct
                        assert forall|i: int, j: int|
                            0 <= i < j < self.out@.len() && (#[trigger] self.out@[i]@).kind
                                is Directory && (#[trigger] self.out@[j]@).kind
                                is Directory implies self.out@[i]@.path != self.out@[j]@.path by {
                            assert(self.out@[i] == pre.out@[i]);
                            if j < L {
                                assert(self.out@[j] == pre.out@[j]);
                            } else {
                                assert(seen_has(pre.seen@, pre.out@[i]@.path));
                            }
                        }
                        // every directory entry is standard and recorded
                        assert forall|i: int|
                            0 <= i < self.out@.len() && (#[trigger] self.out@[i]@).kind
                                is Directory implies is_std_dir(self.out@[i]@, self.mtime)
                            && seen_has(self.seen@, self.out@[i]@.path) by {
                            if i < L {
                                assert(self.out@[i] == pre.out@[i]);
                                assert(is_std_dir(pre.out@[i]@, pre.mtime));
                                let w = choose|w: int|
                                    0 <= w < pre.seen@.len() && pre.seen@[w]@ == pre.out@[i]@.path;
                                assert(self.seen@[w]@ == self.out@[i]@.path);
                            } else {
                                assert(self.seen@[self.seen@.len() - 1]@ == self.out@[i]@.path);
                            }
                        }
                        // previously recorded prefixes stay recorded
                        assert forall|j: int|
                            0 <= j < k + 1 && dir@[j] == '/' implies seen_has(
                            self.seen@,
                            dir@.take(j + 1),
                        ) by {
                            if j < k {
                                let w = choose|w: int|
                                    0 <= w < pre.seen@.len() && pre.seen@[w]@ == dir@.take(j + 1);
                                assert(self.seen@[w]@ == dir@.take(j + 1));
                            } else {
                                assert(self.seen@[self.seen@.len() - 1]@ == dir@.take(k + 1));
                            }
                        }
                        // the recorded set grows by this one missing prefix
                        assert(self.seen@.take(pre.seen@.len() as int) =~= pre.seen@);
                        assert(self.seen@.take(old(self).seen@.len() as int) =~= old(self).seen@);
                        assert(!seen_has(old(self).seen@, prefix@)) by {
                            if seen_has(old(self).seen@, prefix@) {
                                let w = choose|w: int|
                                    0 <= w < old(self).seen@.len() && old(self).seen@[w]@
                                        == prefix@;
                                assert(pre.seen@[w] == old(self).seen@[w]);
                                assert(seen_has(pre.seen@, prefix@));
                            }
                        }
                        // the new entry's enclosing directories came first
                        assert forall|m: int, k2: int|
                            0 <= m < self.out@.len() && 0 <= k2 && k2 + 1 < self.out@[m]@.path.len()
                                && #[trigger] self.out@[m]@.path[k2] == '/' implies out_has_dir(
                            self.out@,
                            self.out@[m]@.path.take(k2 + 1),
                        ) by {
                            if m < L {
                                assert(self.out@[m] == pre.out@[m]);
                                assert(out_has_dir(pre.out@, pre.out@[m]@.path.take(k2 + 1)));
                                lemma_grows_out_has_dir(
                                    pre.out@,
                                    self.out@,
                                    pre.out@[m]@.path.take(k2 + 1),
                                );
                            } else {
                                assert(self.out@[m]@.path == dir@.take(k + 1));
                                assert(self.out@[m]@.path[k2] == dir@[k2]);
                                assert(self.out@[m]@.path.take(k2 + 1) =~= dir@.take(k2 + 1));
                                assert(k2 < k);
                                assert(seen_has(pre.seen@, dir@.take(k2 + 1)));
                                assert(out_has_dir(pre.out@, dir@.take(k2 + 1)));
                                lemma_grows_out_has_dir(pre.out@, self.out@, dir@.take(k2 + 1));
                            }
                        }
                        // no earlier entry lies below the new directory
                        assert forall|m1: int, m2: int|
                            0 <= m1 < self.out@.len() && 0 <= m2 < self.out@.len() && (
                            #[trigger] self.out@[m1]@).kind is Directory && slash_prefix(
                                self.out@[m1]@.path,
                                (#[trigger] self.out@[m2]@).path,
                            ) && self.out@[m1]@.path.len() < self.out@[m2]@.path.len() implies m1
                            < m2 by {
                            if m1 < L && m2 < L {
                                assert(self.out@[m1] == pre.out@[m1]);
                                assert(self.out@[m2] == pre.out@[m2]);
                            } else if m1 == L {
                                if m2 < L {
                                    assert(self.out@[m2] == pre.out@[m2]);
                                    let plen = self.out@[L]@.path.len() as int;
                                    assert(pre.out@[m2]@.path[plen - 1] == self.out@[L]@.path[plen
                                        - 1]);
                                    assert(pre.out@[m2]@.path[plen - 1] == '/');
                                    assert(out_has_dir(
                                        pre.out@,
                                        pre.out@[m2]@.path.take(plen),
                                    ));
                                    assert(pre.out@[m2]@.path.take(plen) =~= self.out@[L]@.path);
                                    let w = choose|w: int|
                                        0 <= w < pre.out@.len() && pre.out@[w]@.kind is Directory
                                            && pre.out@[w]@.path == self.out@[L]@.path;
                                    assert(seen_has(pre.seen@, self.out@[L]@.path));
                                    assert(false);
                                }
                            }
                        }
                    }
                } else {
                    proof {
                        assert forall|j: int|
                            0 <= j < k + 1 && dir@[j] == '/' implies seen_has(
                            self.seen@,
                            dir@.take(j + 1),
                        ) by {}
                    }
                }
            }
            k = k + 1;
        }
    }

    #[verifier::rlimit(100)]
    /// Appends one component tree under `prefix` (which ends in a slash):
    /// entries the exclude filter drops are skipped with their subtrees,
    /// directories and missing ancestors are synthesized once each, and
    /// every kept file and symlink lands with its exact bytes and fields.
    /// Nothing else is added.
    pub fn append_tree(
        &mut self,
        prefix: &str,
        entries: &Vec<FsEntry>,
        excludes: &Option<regex::Regex>,
    )
        requires
            builder_wf(*old(self)),
            prefix@.len() > 0 && prefix@.last() == '/',
            forall|i: int| 0 <= i < entries@.len() ==> fs_entry_wf(#[trigger] entries@[i]@),
            forall|i: int, j: int|
                0 <= i < j < entries@.len() ==> (#[trigger] entries@[i]@).rel_path != (
                #[trigger] entries@[j]@).rel_path,
        ensures
            builder_wf(*final(self)),
            final(self).mtime == old(self).mtime,
            grows(old(self).out@, final(self).out@),
            forall|i: int|
                0 <= i < entries@.len() && included(
                    excludes_pat(*excludes),
                    (#[trigger] entries@[i]@).rel_path,
                ) && !(entries@[i]@.kind is Directory) ==> out_has(
                    final(self).out@,
                    tar_entry_of(prefix@, entries@[i]@),
                ),
            forall|m: int|
                old(self).out@.len() <= m < final(self).out@.len() ==> is_std_dir(
                    (#[trigger] final(self).out@[m]@),
                    old(self).mtime,
                ) || (exists|j: int|
                    0 <= j < entries@.len() && included(
                        excludes_pat(*excludes),
                        entries@[j]@.rel_path,
                    ) && !(entries@[j]@.kind is Directory) && final(self).out@[m]@ == tar_entry_of(
                        prefix@,
                        entries@[j]@,
                    )),
            // and the excluded ones are not: nothing but a directory ever
            // stands at the path of a dropped file or symlink
            forall|i: int, m: int|
                0 <= i < entries@.len() && !included(
                    excludes_pat(*excludes),
                    (#[trigger] entries@[i]@).rel_path,
                ) && !(entries@[i]@.kind is Directory) && old(self).out@.len() <= m < final(self).out@.len() && (#[trigger] final(self).out@[m]@).path == prefix@
                    + entries@[i]@.rel_path ==> final(self).out@[m]@.kind is Directory,
            // every kept directory is in, under its slash-ended path
            forall|i: int|
                0 <= i < entries@.len() && included(
                    excludes_pat(*excludes),
                    (#[trigger] entries@[i]@).rel_path,
                ) && entries@[i]@.kind is Directory ==> out_has_dir(
                    final(self).out@,
                    dir_path_of(prefix@, entries@[i]@.rel_path),
                ),
            // nothing of any kind stands at a dropped element's path, in
            // its file form or its directory form
            forall|i: int, m: int|
                0 <= i < entries@.len() && (#[trigger] entries@[i]@).rel_path.len() > 0
                    && !included(excludes_pat(*excludes), entries@[i]@.rel_path) && old(self).out@.len() <= m < final(self).out@.len() ==> (#[trigger] final(self).out@[m]@).path != prefix@ + entries@[i]@.rel_path && final(self).out@[m]@.path != prefix@ + entries@[i]@.rel_path + seq!['/'],
    {
        proof {
            assert(self.out@.take(self.out@.len() as int) =~= self.out@);
        }
        let n = entries.len();
        let mut idx: usize = 0;
        while idx < n
            invariant
                builder_wf(*self),
                self.mtime == old(self).mtime,
                n == entries@.len(),
                idx <= n,
                prefix@.len() > 0 && prefix@.last() == '/',
                forall|i: int| 0 <= i < n ==> fs_entry_wf(#[trigger] entries@[i]@),
                forall|i: int, j2: int|
                    0 <= i < j2 < n ==> (#[trigger] entries@[i]@).rel_path != (
                    #[trigger] entries@[j2]@).rel_path,
                grows(old(self).out@, self.out@),
                forall|i: int|
                    0 <= i < idx && included(
                        excludes_pat(*excludes),
                        (#[trigger] entries@[i]@).rel_path,
                    ) && !(entries@[i]@.kind is Directory) ==> out_has(
                        self.out@,
                        tar_entry_of(prefix@, entries@[i]@),
                    ),
                forall|m: int|
                    old(self).out@.len() <= m < self.out@.len() ==> is_std_dir(
                        (#[trigger] self.out@[m]@),
                        old(self).mtime,
                    ) || (exists|j: int|
                        0 <= j < idx && included(excludes_pat(*excludes), entries@[j]@.rel_path)
                            && !(entries@[j]@.kind is Directory) && self.out@[m]@ == tar_entry_of(
                            prefix@,
                            entries@[j]@,
                        )),
                forall|i: int|
                    0 <= i < idx && included(
                        excludes_pat(*excludes),
                        (#[trigger] entries@[i]@).rel_path,
                    ) && entries@[i]@.kind is Directory ==> out_has_dir(
                        self.out@,
                        dir_path_of(prefix@, entries@[i]@.rel_path),
                    ),
                forall|m: int|
                    old(self).out@.len() <= m < self.out@.len() && (#[trigger] self.out@[m]@).kind
                        is Directory ==> (exists|j: int|
                        0 <= j < idx && included(excludes_pat(*excludes), entries@[j]@.rel_path)
                            && slash_prefix(
                            self.out@[m]@.path,
                            elem_span(prefix@, #[trigger] entries@[j]@),
                        )),
            decreases n - idx,
        {
            let ghost loop_pre = *self;
            let e = &entries[idx];
            if is_included(excludes, e.rel_path.as_str()) {
                let rel_len = e.rel_path.unicode_len();
                match e.kind {
                    TarKind::Directory => {
                        let mut full = prefix.to_owned();
                        if rel_len > 0 {
                            full.append(e.rel_path.as_str());
                            full.append("/");
                            proof {
                                reveal_strlit("/");
                            }
                        }
                        proof {
                            assert(full@ =~= dir_path_of(prefix@, entries@[idx as int]@.rel_path));
                            assert(full@.len() > 0 && full@.last() == '/');
                        }
                        self.ensure_dir(full.as_str());
                        proof {
                            // the directory itself is now recorded
                            assert(seen_has(self.seen@, full@.take(full@.len() as int)));
                            assert(full@.take(full@.len() as int) =~= full@);
                            assert(out_has_dir(
                                self.out@,
                                dir_path_of(prefix@, entries@[idx as int]@.rel_path),
                            ));
                            // the new directories lie within this element's span
                            assert forall|m: int|
                                loop_pre.out@.len() <= m < self.out@.len() implies slash_prefix(
                                (#[trigger] self.out@[m]@).path,
                                elem_span(prefix@, entries@[idx as int]@),
                            ) by {}
                        }
                    },
                    _ => {
                        // the directory part of the relative path, through
                        // its last slash
                        let mut cut: usize = 0;
                        let mut j: usize = 0;
                        while j < rel_len
                            invariant
                                rel_len == e.rel_path@.len(),
                                j <= rel_len,
                                cut <= j,
                                cut == 0 || (cut <= rel_len && e.rel_path@[cut as int - 1] == '/'),
                                forall|t: int| cut <= t < j ==> e.rel_path@[t] != '/',
                            decreases rel_len - j,
                        {
                            if e.rel_path.get_char(j) == '/' {
                                cut = j + 1;
                            }
                            j = j + 1;
                        }
                        let mut parent = prefix.to_owned();
                        if cut > 0 {
                            let head = e.rel_path.substring_char(0, cut);
                            parent.append(head);
                        }
                        proof {
                            if cut > 0 {
                                assert(parent@.last() == e.rel_path@[cut as int - 1]);
                            }
                            assert(parent@.len() > 0 && parent@.last() == '/');
                            assert(parent@ =~= prefix@ + e.rel_path@.take(cut as int));
                        }
                        let ghost pre = *self;
                        self.ensure_dir(parent.as_str());
                        proof {
                            // the synthesized directories lie within this
                            // element's span
                            let relv = entries@[idx as int]@.rel_path;
                            assert(parent@ =~= (prefix@ + relv).take(parent@.len() as int));
                            assert forall|m: int|
                                pre.out@.len() <= m < self.out@.len() implies slash_prefix(
                                (#[trigger] self.out@[m]@).path,
                                elem_span(prefix@, entries@[idx as int]@),
                            ) by {
                                assert(slash_prefix(self.out@[m]@.path, parent@));
                                assert(self.out@[m]@.path =~= (prefix@ + relv).take(
                                    self.out@[m]@.path.len() as int,
                                ));
                            }
                        }
                        let mut path = prefix.to_owned();
                        path.append(e.rel_path.as_str());
                        let entry = TarEntry {
                            path,
                            kind: e.kind,
                            mode: e.mode,
                            uid: 0,
                            gid: 5000,
                            mtime: e.mtime,
                            content: clone_bytes(&e.content),
                            link: e.link.clone(),
                        };
                        proof {
                            assert(entry@ == tar_entry_of(prefix@, entries@[idx as int]@));
                            assert(entry_wf(entry@));
                        }
                        let ghost entryg = entry;
                        let ghost mid = *self;
                        self.out.push(entry);
                        proof {
                            let L = mid.out@.len() as int;
                            assert(self.out@.take(L) =~= mid.out@);
                            assert(grows(mid.out@, self.out@));
                            let relv = entries@[idx as int]@.rel_path;
                            assert(self.out@[L]@.path == prefix@ + relv);
                            assert(self.out@[L]@.path.take(parent@.len() as int) =~= parent@);
                            // every enclosing directory of the new entry is
                            // already written
                            assert forall|k2: int|
                                0 <= k2 && k2 + 1 < entryg@.path.len() && entryg@.path[k2]
                                    == '/' implies out_has_dir(
                                mid.out@,
                                entryg@.path.take(k2 + 1),
                            ) by {
                                if k2 >= prefix@.len() {
                                    assert(entryg@.path[k2] == relv[k2 - prefix@.len()]);
                                    assert(k2 - prefix@.len() < cut);
                                }
                                assert(k2 < parent@.len());
                                assert(parent@[k2] == '/');
                                assert(entryg@.path.take(k2 + 1) =~= parent@.take(k2 + 1));
                                assert(seen_has(mid.seen@, parent@.take(k2 + 1)));
                                assert(out_has_dir(mid.out@, parent@.take(k2 + 1)));
                            }
                            lemma_push_nondir_wf(mid, *self, entryg);
                            assert(builder_wf(*self));
                        }
                    },
                }
            }
            proof {
                assert(grows(loop_pre.out@, self.out@)) by {
                    assert(self.out@.take(loop_pre.out@.len() as int) =~= loop_pre.out@);
                }
                lemma_grows_trans(old(self).out@, loop_pre.out@, self.out@);
                // entries kept earlier stay present
                assert forall|i: int|
                    0 <= i < idx + 1 && included(
                        excludes_pat(*excludes),
                        (#[trigger] entries@[i]@).rel_path,
                    ) && !(entries@[i]@.kind is Directory) implies out_has(
                    self.out@,
                    tar_entry_of(prefix@, entries@[i]@),
                ) by {
                    if i < idx {
                        lemma_grows_out_has(
                            loop_pre.out@,
                            self.out@,
                            tar_entry_of(prefix@, entries@[i]@),
                        );
                    } else {
                        assert(self.out@[self.out@.len() - 1]@ == tar_entry_of(
                            prefix@,
                            entries@[i]@,
                        ));
                    }
                }
                // everything added this round is a directory or this entry
                assert forall|m: int|
                    old(self).out@.len() <= m < self.out@.len() implies is_std_dir(
                    (#[trigger] self.out@[m]@),
                    old(self).mtime,
                ) || (exists|j: int|
                    0 <= j < idx + 1 && included(excludes_pat(*excludes), entries@[j]@.rel_path)
                        && !(entries@[j]@.kind is Directory) && self.out@[m]@ == tar_entry_of(
                        prefix@,
                        entries@[j]@,
                    )) by {
                    if m < loop_pre.out@.len() {
                        assert(self.out@[m] == loop_pre.out@[m]);
                    } else if m < self.out@.len() - 1 || !included(
                        excludes_pat(*excludes),
                        entries@[idx as int]@.rel_path,
                    ) || entries@[idx as int]@.kind is Directory {
                    } else {
                    }
                }
                // kept directories stay present
                assert forall|i: int|
                    0 <= i < idx + 1 && included(
                        excludes_pat(*excludes),
                        (#[trigger] entries@[i]@).rel_path,
                    ) && entries@[i]@.kind is Directory implies out_has_dir(
                    self.out@,
                    dir_path_of(prefix@, entries@[i]@.rel_path),
                ) by {
                    if i < idx {
                        lemma_grows_out_has_dir(
                            loop_pre.out@,
                            self.out@,
                            dir_path_of(prefix@, entries@[i]@.rel_path),
                        );
                    }
                }
                // every new directory lies within some kept element's span
                assert forall|m: int|
                    old(self).out@.len() <= m < self.out@.len() && (#[trigger] self.out@[m]@).kind
                        is Directory implies (exists|j: int|
                    0 <= j < idx + 1 && included(excludes_pat(*excludes), entries@[j]@.rel_path)
                        && slash_prefix(
                        self.out@[m]@.path,
                        elem_span(prefix@, #[trigger] entries@[j]@),
                    )) by {
                    if m < loop_pre.out@.len() {
                        assert(self.out@[m] == loop_pre.out@[m]);
                    } else {
                        assert(slash_prefix(
                            self.out@[m]@.path,
                            elem_span(prefix@, entries@[idx as int]@),
                        ));
                    }
                }
            }
            idx = idx + 1;
        }
        proof {
            assert forall|m: int|
                old(self).out@.len() <= m < self.out@.len() && !((#[trigger] self.out@[m]@).kind
                    is Directory) implies (exists|j: int|
                0 <= j < entries@.len() && included(excludes_pat(*excludes), entries@[j]@.rel_path)
                    && !(entries@[j]@.kind is Directory) && self.out@[m]@ == tar_entry_of(
                    prefix@,
                    #[trigger] entries@[j]@,
                )) by {}
            lemma_dropped_paths_absent(
                prefix@,
                entries@,
                excludes_pat(*excludes),
                self.out@,
                old(self).out@.len() as int,
            );
        }
    }

    /// Writes the package record: the packages directory for this id and
    /// any missing ancestors first, then `packageinfo.json` with these
    /// bytes, mode `0100644`, owner `0:5000`, the build mtime, as the last
    /// entry.
    pub fn append_package_info(&mut self, id: &str, package_data: &Vec<u8>)
        requires
            builder_wf(*old(self)),
        ensures
            builder_wf(*final(self)),
            final(self).mtime == old(self).mtime,
            grows(old(self).out@, final(self).out@),
            out_has(
                final(self).out@,
                packageinfo_entry(id@, package_data@, old(self).mtime),
            ),
            forall|m: int|
                old(self).out@.len() <= m < final(self).out@.len() ==> is_std_dir(
                    (#[trigger] final(self).out@[m]@),
                    old(self).mtime,
                ) || final(self).out@[m]@ == packageinfo_entry(
                    id@,
                    package_data@,
                    old(self).mtime,
                ),
            // the record's directory and every ancestor are in
            forall|k: int|
                0 <= k < pkg_dir_path(id@).len() && pkg_dir_path(id@)[k] == '/' ==> out_has_dir(
                    final(self).out@,
                    pkg_dir_path(id@).take(k + 1),
                ),
            // and the record itself comes after them all
            final(self).out@.len() > 0 && final(self).out@.last()@ == packageinfo_entry(
                id@,
                package_data@,
                old(self).mtime,
            ),
    {
        proof {
            assert(self.out@.take(self.out@.len() as int) =~= self.out@);
        }
        let mut dir = String::from_str("usr/palm/packages/");
        dir.append(id);
        dir.append("/");
        let ghost pre = *self;
        self.ensure_dir(dir.as_str());
        let mut path = String::from_str("usr/palm/packages/");
        path.append(id);
        path.append("/packageinfo.json");
        let entry = TarEntry {
            path,
            kind: TarKind::File,
            mode: 0o100644,
            uid: 0,
            gid: 5000,
            mtime: self.mtime,
            content: clone_bytes(package_data),
            link: String::new(),
        };
        proof {
            reveal_strlit("usr/palm/packages/");
            reveal_strlit("/");
            reveal_strlit("/packageinfo.json");
            assert(entry@ == packageinfo_entry(id@, package_data@, old(self).mtime));
            assert(entry_wf(entry@));
        }
        let ghost entryg = entry;
        let ghost mid = *self;
        self.out.push(entry);
        proof {
            let L = mid.out@.len() as int;
            assert(self.out@.take(L) =~= mid.out@);
            assert(grows(mid.out@, self.out@));
            lemma_grows_trans(old(self).out@, mid.out@, self.out@);
            // the record's enclosing directories came first
            assert(entryg@.path =~= dir@ + "packageinfo.json"@) by {
                reveal_strlit("packageinfo.json");
            }
            assert(entryg@.path.take(dir@.len() as int) =~= dir@);
            assert forall|t: int|
                0 <= t < "packageinfo.json"@.len() implies #[trigger] "packageinfo.json"@[t]
                != '/' by {
                reveal_strlit("packageinfo.json");
            }
            assert forall|k2: int|
                0 <= k2 && k2 + 1 < entryg@.path.len() && entryg@.path[k2] == '/' implies out_has_dir(
                mid.out@,
                entryg@.path.take(k2 + 1),
            ) by {
                if k2 >= dir@.len() {
                    assert(entryg@.path[k2] == "packageinfo.json"@[k2 - dir@.len()]);
                }
                assert(k2 < dir@.len());
                assert(dir@[k2] == '/');
                assert(entryg@.path.take(k2 + 1) =~= dir@.take(k2 + 1));
                assert(seen_has(mid.seen@, dir@.take(k2 + 1)));
                assert(out_has_dir(mid.out@, dir@.take(k2 + 1)));
            }
            lemma_push_nondir_wf(mid, *self, entryg);
            assert(builder_wf(*self));
            assert(dir@ =~= pkg_dir_path(id@));
            assert forall|k: int|
                0 <= k < pkg_dir_path(id@).len() && pkg_dir_path(id@)[k] == '/' implies out_has_dir(
                self.out@,
                pkg_dir_path(id@).take(k + 1),
            ) by {
                assert(seen_has(mid.seen@, dir@.take(k + 1)));
                assert(out_has_dir(mid.out@, dir@.take(k + 1)));
                lemma_grows_out_has_dir(mid.out@, self.out@, dir@.take(k + 1));
            }
            assert(self.out@[self.out@.len() - 1]@ == packageinfo_entry(
                id@,
                package_data@,
                old(self).mtime,
            ));
        }
    }
}

/// The directory the package record lands in, slash-ended.
pub open spec fn pkg_dir_path(id: Seq<char>) -> Seq<char> {
    "usr/palm/packages/"@ + id + "/"@
}

/// The `packageinfo.json` entry of the data member.
pub open spec fn packageinfo_entry(id: Seq<char>, data: Seq<u8>, mtime: u64) -> TarEntryV {
    TarEntryV {
        path: "usr/palm/packages/"@ + id + "/packageinfo.json"@,
        kind: TarKind::File,
        mode: 0o100644u32,
        uid: 0,
        gid: 5000,
        mtime,
        content: data,
        link: Seq::<char>::empty(),
    }
}

/// One component of the package: its source directory, its parsed
/// manifest, and its tree.
pub struct ComponentInfo<T> {
    pub path: String,
    pub info: T,
    pub entries: Vec<FsEntry>,
}

/// The views of a component tree.
pub open spec fn entry_views(v: Seq<FsEntry>) -> Seq<FsEntryV> {
    v.map_values(|e: FsEntry| e@)
}

/// A valid component tree: every element well formed, no path twice.
pub open spec fn comp_wf(entries: Seq<FsEntry>) -> bool {
    (forall|i: int| 0 <= i < entries.len() ==> fs_entry_wf(#[trigger] entries[i]@)) && (forall|
        i: int,
        j: int,
    |
        0 <= i < j < entries.len() ==> (#[trigger] entries[i]@).rel_path != (
        #[trigger] entries[j]@).rel_path)
}

/// Everything the data member is built from: the package record and its
/// rendered bytes, the app, the services, and the compiled exclude filter.
pub struct DataInfo {
    pub package: PackageInfo,
    pub package_data: Vec<u8>,
    pub app: ComponentInfo<AppInfo>,
    pub services: Vec<ComponentInfo<ServiceInfo>>,
    pub excludes: Option<regex::Regex>,
}

/// The service ids of a component list.
pub open spec fn comp_service_ids(v: Seq<ComponentInfo<ServiceInfo>>) -> Seq<Seq<char>> {
    v.map_values(|c: ComponentInfo<ServiceInfo>| c.info.id@)
}

impl DataInfo {
    /// Combines the parsed inputs: derives the package record, renders its
    /// bytes, and compiles the exclude patterns.
    pub fn from_input(
        app: ComponentInfo<AppInfo>,
        services: Vec<ComponentInfo<ServiceInfo>>,
        excludes: &Vec<String>,
    ) -> (r: DataInfo)
        ensures
            r.app == app,
            r.services == services,
            r.package.id@ == app.info.id@,
            r.package.version@ == app.info.version@,
            r.package.app@ == app.info.id@,
            str_views(r.package.services@) == comp_service_ids(services@),
            r.package_data@ == encode_utf8(
                packageinfo_json(
                    app.info.id@,
                    app.info.version@,
                    app.info.id@,
                    comp_service_ids(services@),
                ),
            ),
            excludes@.len() == 0 ==> r.excludes is None,
            excludes@.len() > 0 ==> (match r.excludes {
                Some(re) => regex_pattern(re) == joined_pattern(str_views(excludes@)),
                None => !regex_valid(joined_pattern(str_views(excludes@))),
            }),
    {
        let mut ids: Vec<String> = Vec::new();
        let n = services.len();
        let mut i: usize = 0;
        while i < n
            invariant
                n == services@.len(),
                i <= n,
                ids@.len() == i,
                forall|k: int| 0 <= k < i ==> #[trigger] ids@[k]@ == services@[k].info.id@,
            decreases n - i,
        {
            ids.push(services[i].info.id.clone());
            i = i + 1;
        }
        proof {
            assert(str_views(ids@) =~= comp_service_ids(services@));
        }
        let package = PackageInfo {
            id: app.info.id.clone(),
            version: app.info.version.clone(),
            app: app.info.id.clone(),
            services: ids,
        };
        let package_data = package.render_json_bytes();
        let compiled = compile_excludes(excludes);
        DataInfo { package, package_data, app, services, excludes: compiled }
    }
}

/// The total size of the included files of a tree.
pub open spec fn tree_size(entries: Seq<FsEntryV>, pat: Option<Seq<char>>) -> int
    decreases entries.len(),
{
    if entries.len() == 0 {
        0
    } else {
        tree_size(entries.drop_last(), pat) + (if included(pat, entries.last().rel_path)
            && entries.last().kind is File {
            entries.last().content.len() as int
        } else {
            0
        })
    }
}

/// Sums the sizes of the included files of a tree.
pub fn dir_size(entries: &Vec<FsEntry>, excludes: &Option<regex::Regex>) -> (r: Result<
    u64,
    PackageError,
>)
    ensures
        r matches Ok(v) ==> v == tree_size(entry_views(entries@), excludes_pat(*excludes)),
        r is Err ==> tree_size(entry_views(entries@), excludes_pat(*excludes)) > u64::MAX,
        r matches Err(e) ==> (e matches PackageError::InvalidData(m) && m@ == "size overflow"@),
{
    let n = entries.len();
    let mut acc: u64 = 0;
    let mut i: usize = 0;
    while i < n
        invariant
            n == entries@.len(),
            i <= n,
            acc == tree_size(entry_views(entries@).take(i as int), excludes_pat(*excludes)),
        decreases n - i,
    {
        let e = &entries[i];
        let mut add_len: u64 = 0;
        let keep = is_included(excludes, e.rel_path.as_str());
        let is_file = match e.kind {
            TarKind::File => true,
            _ => false,
        };
        if keep && is_file {
            add_len = e.content.len() as u64;
        }
        proof {
            let vs = entry_views(entries@);
            assert(vs.take(i + 1).drop_last() =~= vs.take(i as int));
            assert(vs.take(i + 1).last() == vs[i as int]);
            assert(tree_size(vs.take(i + 1), excludes_pat(*excludes)) == tree_size(
                vs.take(i as int),
                excludes_pat(*excludes),
            ) + (if included(excludes_pat(*excludes), vs[i as int].rel_path)
                && vs[i as int].kind is File {
                vs[i as int].content.len() as int
            } else {
                0
            }));
        }
        match acc.checked_add(add_len) {
            Some(next) => {
                acc = next;
            },
            None => {
                proof {
                    let vs = entry_views(entries@);
                    lemma_tree_size_monotone(vs, i + 1, excludes_pat(*excludes));
                }
                return Err(PackageError::InvalidData(String::from_str("size overflow")));
            },
        }
        i = i + 1;
    }
    proof {
        assert(entry_views(entries@).take(n as int) =~= entry_views(entries@));
    }
    Ok(acc)
}

proof fn lemma_tree_size_monotone(entries: Seq<FsEntryV>, k: int, pat: Option<Seq<char>>)
    requires
        0 <= k <= entries.len(),
    ensures
        tree_size(entries.take(k), pat) <= tree_size(entries, pat),
    decreases entries.len() - k,
{
    if k < entries.len() {
        lemma_tree_size_monotone(entries, k + 1, pat);
        assert(entries.take(k + 1).drop_last() =~= entries.take(k));
        assert(entries.take(k + 1).last() == entries[k]);
    } else {
        assert(entries.take(k) =~= entries);
    }
}

/// The first tree element with this relative path.
pub open spec fn find_rel(entries: Seq<FsEntryV>, name: Seq<char>) -> Option<FsEntryV>
    decreases entries.len(),
{
    if entries.len() == 0 {
        None
    } else if entries.first().rel_path == name {
        Some(entries.first())
    } else {
        find_rel(entries.drop_first(), name)
    }
}

fn find_entry<'a>(entries: &'a Vec<FsEntry>, name: &str) -> (r: Option<&'a FsEntry>)
    ensures
        match r {
            Some(e) => find_rel(entry_views(entries@), name@) == Some(e@),
            None => find_rel(entry_views(entries@), name@) is None,
        },
{
    proof {
        assert(entry_views(entries@).skip(0) =~= entry_views(entries@));
    }
    let n = entries.len();
    let mut i: usize = 0;
    while i < n
        invariant
            n == entries@.len(),
            i <= n,
            find_rel(entry_views(entries@), name@) == find_rel(
                entry_views(entries@).skip(i as int),
                name@,
            ),
        decreases n - i,
    {
        if str_eq(entries[i].rel_path.as_str(), name) {
            proof {
                let vs = entry_views(entries@);
                assert(vs.skip(i as int).first() == vs[i as int]);
            }
            return Some(&entries[i]);
        }
        proof {
            let vs = entry_views(entries@);
            assert(vs.skip(i as int).first() == vs[i as int]);
            assert(vs.skip(i as int).drop_first() =~= vs.skip(i + 1));
        }
        i = i + 1;
    }
    proof {
        assert(entry_views(entries@).skip(n as int) =~= Seq::<FsEntryV>::empty());
    }
    None
}

/// What a component's architecture works out to: nothing for a non-native
/// component, the executable's machine for a native one, and a failure
/// when the executable is missing from the tree or is not a supported ELF.
pub open spec fn comp_arch(
    native: bool,
    main: Option<Seq<char>>,
    entries: Seq<FsEntryV>,
) -> Result<Option<PackageArchV>, ()> {
    if !native {
        Ok(None)
    } else {
        match main {
            None => Ok(None),
            Some(name) => match find_rel(entries, name) {
                None => Err(()),
                Some(e) => match elf_machine_of(e.content) {
                    Some(m) => if m == 40 {
                        Ok(Some(PackageArchV::ARM))
                    } else if m == 3 {
                        Ok(Some(PackageArchV::X86("x86"@)))
                    } else {
                        Err(())
                    },
                    None => Err(()),
                },
            },
        }
    }
}

/// The architecture question an app component poses.
pub open spec fn app_comp_arch(c: ComponentInfo<AppInfo>) -> Result<Option<PackageArchV>, ()> {
    comp_arch(c.info.app_type@ == "native"@, Some(c.info.main@), entry_views(c.entries@))
}

/// The architecture question a service component poses: only a service
/// declaring a native engine and an executable is inspected.
pub open spec fn svc_comp_arch(c: ComponentInfo<ServiceInfo>) -> Result<
    Option<PackageArchV>,
    (),
> {
    comp_arch(
        opt_view(c.info.engine) == Some("native"@) && c.info.executable is Some,
        opt_view(c.info.executable),
        entry_views(c.entries@),
    )
}

/// The view of an optional string.
pub open spec fn opt_view(o: Option<String>) -> Option<Seq<char>> {
    match o {
        Some(s) => Some(s@),
        None => None,
    }
}

fn validate_component(
    native: bool,
    main: Option<&String>,
    entries: &Vec<FsEntry>,
    excludes: &Option<regex::Regex>,
) -> (r: Result<ValidationInfo, PackageError>)
    ensures
        r matches Ok(v) ==> (match comp_arch(
            native,
            opt_view_ref(main),
            entry_views(entries@),
        ) {
            Ok(a) => arch_opt_view(v.arch) == a,
            Err(_) => false,
        }) && v.size == tree_size(entry_views(entries@), excludes_pat(*excludes)),
        r is Err ==> comp_arch(native, opt_view_ref(main), entry_views(entries@)) is Err
            || tree_size(entry_views(entries@), excludes_pat(*excludes)) > u64::MAX,
        (comp_arch(native, opt_view_ref(main), entry_views(entries@)) is Ok && r is Err) ==> (
        r matches Err(e) && (e matches PackageError::InvalidData(m) && m@ == "size overflow"@)),
{
    let size = match dir_size(entries, excludes) {
        Ok(v) => v,
        Err(e) => {
            return Err(e);
        },
    };
    let mut arch: Option<PackageArch> = None;
    if native {
        if let Some(name) = main {
            match find_entry(entries, name.as_str()) {
                Some(e) => match infer_arch(&e.content) {
                    Ok(a) => {
                        arch = Some(a);
                    },
                    Err(err) => {
                        return Err(err);
                    },
                },
                None => {
                    return Err(
                        PackageError::Io(String::from_str("component executable not found")),
                    );
                },
            }
        }
    }
    Ok(ValidationInfo { arch, size })
}

/// The view of an optional borrowed string.
pub open spec fn opt_view_ref(o: Option<&String>) -> Option<Seq<char>> {
    match o {
        Some(s) => Some(s@),
        None => None,
    }
}

/// The view of an optional architecture.
pub open spec fn arch_opt_view(o: Option<PackageArch>) -> Option<PackageArchV> {
    match o {
        Some(a) => Some(arch_view(a)),
        None => None,
    }
}

impl ComponentInfo<AppInfo> {
    /// Validates the app component: its filtered size, and the main
    /// executable's architecture when the app declares itself native.
    pub fn validate(&self, excludes: &Option<regex::Regex>) -> (r: Result<
        ValidationInfo,
        PackageError,
    >)
        ensures
            r matches Ok(v) ==> (match app_comp_arch(*self) {
                Ok(a) => arch_opt_view(v.arch) == a,
                Err(_) => false,
            }) && v.size == tree_size(entry_views(self.entries@), excludes_pat(*excludes)),
            r is Err ==> app_comp_arch(*self) is Err || tree_size(
                entry_views(self.entries@),
                excludes_pat(*excludes),
            ) > u64::MAX,
            (app_comp_arch(*self) is Ok && r is Err) ==> (r matches Err(e) && (
            e matches PackageError::InvalidData(m) && m@ == "size overflow"@)),
    {
        proof {
            reveal_strlit("native");
        }
        let native = str_eq(self.info.app_type.as_str(), "native");
        validate_component(native, Some(&self.info.main), &self.entries, excludes)
    }
}

impl ComponentInfo<ServiceInfo> {
    /// Validates a service component: its filtered size, and the declared
    /// executable's architecture when the service declares a native
    /// engine.
    pub fn validate(&self, excludes: &Option<regex::Regex>) -> (r: Result<
        ValidationInfo,
        PackageError,
    >)
        ensures
            r matches Ok(v) ==> (match svc_comp_arch(*self) {
                Ok(a) => arch_opt_view(v.arch) == a,
                Err(_) => false,
            }) && v.size == tree_size(entry_views(self.entries@), excludes_pat(*excludes)),
            r is Err ==> svc_comp_arch(*self) is Err || tree_size(
                entry_views(self.entries@),
                excludes_pat(*excludes),
            ) > u64::MAX,
            (svc_comp_arch(*self) is Ok && r is Err) ==> (r matches Err(e) && (
            e matches PackageError::InvalidData(m) && m@ == "size overflow"@)),
    {
        proof {
            reveal_strlit("native");
        }
        let native = match (&self.info.engine, &self.info.executable) {
            (Some(engine), Some(_)) => str_eq(engine.as_str(), "native"),
            _ => false,
        };
        let main = match &self.info.executable {
            Some(m) => Some(m),
            None => None,
        };
        validate_component(native, main, &self.entries, excludes)
    }
}

/// The architecture each component works out to, the app first.
pub open spec fn comp_archs(d: DataInfo) -> Seq<Result<Option<PackageArchV>, ()>> {
    seq![app_comp_arch(d.app)] + d.services@.map_values(
        |c: ComponentInfo<ServiceInfo>| svc_comp_arch(c),
    )
}

/// Two components inferring different architectures.
pub open spec fn mixed_arch(d: DataInfo) -> bool {
    exists|i: int, j: int|
        0 <= i < comp_archs(d).len() && 0 <= j < comp_archs(d).len() && (#[trigger] comp_archs(
            d,
        )[i] matches Ok(Some(a)) && (#[trigger] comp_archs(d)[j] matches Ok(Some(b)) && a != b))
}

/// The sizes of the service trees.
pub open spec fn svc_tree_sizes(svcs: Seq<ComponentInfo<ServiceInfo>>, pat: Option<Seq<char>>) -> int
    decreases svcs.len(),
{
    if svcs.len() == 0 {
        0
    } else {
        svc_tree_sizes(svcs.drop_last(), pat) + tree_size(entry_views(svcs.last().entries@), pat)
    }
}

/// The installed size of the whole input: every included file of every
/// component plus the rendered package record.
pub open spec fn total_size(d: DataInfo) -> int {
    d.package_data@.len() + tree_size(entry_views(d.app.entries@), excludes_pat(d.excludes))
        + svc_tree_sizes(d.services@, excludes_pat(d.excludes))
}

proof fn lemma_tree_size_nonneg(entries: Seq<FsEntryV>, pat: Option<Seq<char>>)
    ensures
        tree_size(entries, pat) >= 0,
    decreases entries.len(),
{
    if entries.len() > 0 {
        lemma_tree_size_nonneg(entries.drop_last(), pat);
    }
}

proof fn lemma_svc_sizes_nonneg(svcs: Seq<ComponentInfo<ServiceInfo>>, pat: Option<Seq<char>>)
    ensures
        svc_tree_sizes(svcs, pat) >= 0,
    decreases svcs.len(),
{
    if svcs.len() > 0 {
        lemma_svc_sizes_nonneg(svcs.drop_last(), pat);
        lemma_tree_size_nonneg(entry_views(svcs.last().entries@), pat);
    }
}

proof fn lemma_svc_sizes_prefix(
    svcs: Seq<ComponentInfo<ServiceInfo>>,
    k: int,
    pat: Option<Seq<char>>,
)
    requires
        0 <= k <= svcs.len(),
    ensures
        svc_tree_sizes(svcs.take(k), pat) <= svc_tree_sizes(svcs, pat),
    decreases svcs.len() - k,
{
    if k < svcs.len() {
        lemma_svc_sizes_prefix(svcs, k + 1, pat);
        assert(svcs.take(k + 1).drop_last() =~= svcs.take(k));
        assert(svcs.take(k + 1).last() == svcs[k]);
        lemma_tree_size_nonneg(entry_views(svcs[k].entries@), pat);
    } else {
        assert(svcs.take(k) =~= svcs);
    }
}

impl DataInfo {
    /// Validates the whole input: every component's size and architecture.
    /// Components inferring two different architectures are rejected; with
    /// every component non-native no architecture is inferred, and the
    /// caller falls back to `all`.
    pub fn validate(&self) -> (r: Result<ValidationInfo, PackageError>)
        ensures
            r matches Ok(v) ==> !mixed_arch(*self) && app_comp_arch(self.app) is Ok && (forall|
                j: int,
            |
                0 <= j < self.services@.len() ==> svc_comp_arch(#[trigger] self.services@[j])
                    is Ok) && total_size(*self) <= u64::MAX && v.size == total_size(*self) && (
            match v.arch {
                None => comp_archs(*self)[0] == Result::<Option<PackageArchV>, ()>::Ok(None) && (forall|j: int|
                    0 <= j < self.services@.len() ==> svc_comp_arch(#[trigger] self.services@[j])
                        == Result::<Option<PackageArchV>, ()>::Ok(None)),
                Some(a) => exists|i: int|
                    0 <= i < comp_archs(*self).len() && comp_archs(*self)[i] == Result::<Option<PackageArchV>, ()>::Ok(Some(arch_view(a))),
            }),
            r is Err ==> mixed_arch(*self) || app_comp_arch(self.app) is Err || (exists|j: int|
                0 <= j < self.services@.len() && svc_comp_arch(#[trigger] self.services@[j])
                    is Err) || total_size(*self) > u64::MAX,
            // the mixed case is rejected with exactly this error
            (app_comp_arch(self.app) is Ok && (forall|j: int|
                0 <= j < self.services@.len() ==> svc_comp_arch(#[trigger] self.services@[j])
                    is Ok) && total_size(*self) <= u64::MAX && mixed_arch(*self)) ==> (
            r matches Err(e) && (e matches PackageError::InvalidData(m) && m@
                == "Mixed architecture is not allowed"@)),
            // and a size beyond the field's range with this one
            (app_comp_arch(self.app) is Ok && (forall|j: int|
                0 <= j < self.services@.len() ==> svc_comp_arch(#[trigger] self.services@[j])
                    is Ok) && !mixed_arch(*self) && total_size(*self) > u64::MAX) ==> (
            r matches Err(e) && (e matches PackageError::InvalidData(m) && m@
                == "size overflow"@)),
    {
        let ghost pat = excludes_pat(self.excludes);
        let app_v = match self.app.validate(&self.excludes) {
            Ok(v) => v,
            Err(e) => {
                proof {
                    if !(app_comp_arch(self.app) is Err) {
                        lemma_svc_sizes_nonneg(self.services@, pat);
                    }
                }
                return Err(e);
            },
        };
        let mut size: u64 = match (self.package_data.len() as u64).checked_add(app_v.size) {
            Some(v) => v,
            None => {
                proof {
                    lemma_svc_sizes_nonneg(self.services@, pat);
                }
                return Err(PackageError::InvalidData(String::from_str("size overflow")));
            },
        };
        let mut arch: Option<PackageArch> = app_v.arch;
        let n = self.services.len();
        let mut j: usize = 0;
        proof {
            assert(comp_archs(*self)[0] == app_comp_arch(self.app));
        }
        while j < n
            invariant
                pat == excludes_pat(self.excludes),
                n == self.services@.len(),
                j <= n,
                app_comp_arch(self.app) is Ok,
                forall|k: int|
                    0 <= k < j ==> svc_comp_arch(#[trigger] self.services@[k]) is Ok,
                size == self.package_data@.len() + tree_size(
                    entry_views(self.app.entries@),
                    excludes_pat(self.excludes),
                ) + svc_tree_sizes(self.services@.take(j as int), excludes_pat(self.excludes)),
                match arch {
                    None => comp_archs(*self)[0] == Result::<Option<PackageArchV>, ()>::Ok(None) && (forall|
                        k: int,
                    |
                        0 <= k < j ==> svc_comp_arch(#[trigger] self.services@[k]) == Result::<
                            Option<PackageArchV>,
                            (),
                        >::Ok(None)),
                    Some(a) => (exists|i: int|
                        0 <= i < comp_archs(*self).len() && comp_archs(*self)[i] == Result::<Option<PackageArchV>, ()>::Ok(Some(arch_view(a)))) && (comp_archs(*self)[0] matches Ok(o) ==> (o matches Some(b) ==> b
                        == arch_view(a))) && (forall|k: int|
                        0 <= k < j ==> (svc_comp_arch(#[trigger] self.services@[k]) matches Ok(o)
                            ==> (o matches Some(b) ==> b == arch_view(a)))),
                },
            decreases n - j,
        {
            let comp = &self.services[j];
            proof {
                assert(*comp == self.services@[j as int]);
            }
            let svc_v = match comp.validate(&self.excludes) {
                Ok(v) => v,
                Err(e) => {
                    proof {
                        if svc_comp_arch(self.services@[j as int]) is Err {
                            assert(exists|k: int|
                                0 <= k < self.services@.len() && svc_comp_arch(
                                    #[trigger] self.services@[k],
                                ) is Err);
                        } else {
                            assert(self.services@.take(j + 1).drop_last() =~= self.services@.take(
                                j as int,
                            ));
                            assert(self.services@.take(j + 1).last() == self.services@[j as int]);
                            assert(svc_tree_sizes(self.services@.take(j + 1), pat)
                                == svc_tree_sizes(self.services@.take(j as int), pat) + tree_size(
                                entry_views(self.services@[j as int].entries@),
                                pat,
                            ));
                            lemma_svc_sizes_prefix(self.services@, j + 1, pat);
                            lemma_svc_sizes_nonneg(self.services@.take(j as int), pat);
                            lemma_tree_size_nonneg(entry_views(self.app.entries@), pat);
                            assert(tree_size(
                                entry_views(self.services@[j as int].entries@),
                                pat,
                            ) > u64::MAX);
                            assert(svc_tree_sizes(self.services@, pat) >= svc_tree_sizes(
                                self.services@.take(j + 1),
                                pat,
                            ));
                            assert(total_size(*self) == self.package_data@.len() + tree_size(
                                entry_views(self.app.entries@),
                                pat,
                            ) + svc_tree_sizes(self.services@, pat));
                            assert(total_size(*self) > u64::MAX);
                        }
                    }
                    return Err(e);
                },
            };
            proof {
                let svcs = self.services@;
                assert(svcs.take(j + 1).drop_last() =~= svcs.take(j as int));
                assert(svcs.take(j + 1).last() == svcs[j as int]);
            }
            size = match size.checked_add(svc_v.size) {
                Some(v) => v,
                None => {
                    proof {
                        assert(svc_tree_sizes(self.services@.take(j + 1), pat) == svc_tree_sizes(
                            self.services@.take(j as int),
                            pat,
                        ) + tree_size(entry_views(self.services@[j as int].entries@), pat));
                        lemma_svc_sizes_prefix(self.services@, j + 1, pat);
                        assert(total_size(*self) > u64::MAX);
                    }
                    return Err(PackageError::InvalidData(String::from_str("size overflow")));
                },
            };
            if let Some(a) = svc_v.arch {
                proof {
                    assert(comp_archs(*self)[j + 1] == svc_comp_arch(self.services@[j as int]));
                }
                match &arch {
                    None => {
                        proof {
                            assert(svc_comp_arch(self.services@[j as int]) == Result::<Option<PackageArchV>, ()>::Ok(Some(arch_view(a))));
                        }
                        arch = Some(a);
                    },
                    Some(b) => {
                        if !arch_eq(b, &a) {
                            proof {
                                let i0 = choose|i: int|
                                    0 <= i < comp_archs(*self).len() && comp_archs(*self)[i] == Result::<Option<PackageArchV>, ()>::Ok(Some(arch_view(*b)));
                                assert(comp_archs(*self)[j + 1] == Result::<Option<PackageArchV>, ()>::Ok(Some(arch_view(a))));
                                assert(mixed_arch(*self));
                            }
                            return Err(
                                PackageError::InvalidData(
                                    String::from_str("Mixed architecture is not allowed"),
                                ),
                            );
                        }
                    },
                }
            }
            j = j + 1;
        }
        proof {
            assert(self.services@.take(n as int) =~= self.services@);
            // with every inferred architecture equal to the accumulated
            // one, no two components disagree
            if mixed_arch(*self) {
                let (i1, j1) = choose|i: int, j1: int|
                    0 <= i < comp_archs(*self).len() && 0 <= j1 < comp_archs(*self).len() && (
                    #[trigger] comp_archs(*self)[i] matches Ok(Some(a)) && (#[trigger] comp_archs(
                        *self,
                    )[j1] matches Ok(Some(b)) && a != b));
                match &arch {
                    None => {
                        assert(false);
                    },
                    Some(ac) => {
                        assert(false);
                    },
                }
            }
        }
        Ok(ValidationInfo { arch, size })
    }
}

impl crate::packaging::validation::Validation for DataInfo {
    fn validate(&self) -> (r: Result<ValidationInfo, PackageError>) {
        DataInfo::validate(self)
    }
}

/// The prefix an app component installs under.
pub open spec fn app_prefix(id: Seq<char>) -> Seq<char> {
    "usr/palm/applications/"@ + id + "/"@
}

/// The prefix a service component installs under.
pub open spec fn svc_prefix(id: Seq<char>) -> Seq<char> {
    "usr/palm/services/"@ + id + "/"@
}

/// Builds the full entry list of the data member: the app tree under the
/// applications prefix, each service tree under the services prefix, and
/// the package record last, with every needed directory synthesized
/// exactly once.
pub fn build_data_entries(data: &DataInfo, mtime: u64) -> (r: Vec<TarEntry>)
    requires
        comp_wf(data.app.entries@),
        forall|j: int|
            0 <= j < data.services@.len() ==> comp_wf((#[trigger] data.services@[j]).entries@),
    ensures
        forall|i: int| 0 <= i < r@.len() ==> entry_wf(#[trigger] r@[i]@),
        // no directory is written twice
        forall|i: int, j: int|
            0 <= i < j < r@.len() && (#[trigger] r@[i]@).kind is Directory && (
            #[trigger] r@[j]@).kind is Directory ==> r@[i]@.path != r@[j]@.path,
        // every directory comes before everything inside it: the entries
        // stand in pre-order
        forall|m1: int, m2: int|
            0 <= m1 < r@.len() && 0 <= m2 < r@.len() && (#[trigger] r@[m1]@).kind is Directory
                && slash_prefix(r@[m1]@.path, (#[trigger] r@[m2]@).path) && r@[m1]@.path.len()
                < r@[m2]@.path.len() ==> m1 < m2,
        // every kept file and symlink of the app is in, under its prefix
        forall|i: int|
            0 <= i < data.app.entries@.len() && included(
                excludes_pat(data.excludes),
                (#[trigger] data.app.entries@[i]@).rel_path,
            ) && !(data.app.entries@[i]@.kind is Directory) ==> out_has(
                r@,
                tar_entry_of(app_prefix(data.package.app@), data.app.entries@[i]@),
            ),
        // every kept file and symlink of every service is in
        forall|j: int, i: int|
            0 <= j < data.services@.len() && 0 <= i < (
            #[trigger] data.services@[j]).entries@.len() && included(
                excludes_pat(data.excludes),
                (#[trigger] data.services@[j].entries@[i]@).rel_path,
            ) && !(data.services@[j].entries@[i]@.kind is Directory) ==> out_has(
                r@,
                tar_entry_of(svc_prefix(data.services@[j].info.id@), data.services@[j].entries@[i]@),
            ),
        // the package record is in
        out_has(r@, packageinfo_entry(data.package.id@, data.package_data@, mtime)),
        // and nothing else is: every entry is a synthesized directory, a
        // kept component element, or the package record
        forall|m: int|
            0 <= m < r@.len() ==> is_std_dir((#[trigger] r@[m]@), mtime) || (exists|i: int|
                0 <= i < data.app.entries@.len() && included(
                    excludes_pat(data.excludes),
                    data.app.entries@[i]@.rel_path,
                ) && !(data.app.entries@[i]@.kind is Directory) && r@[m]@ == tar_entry_of(
                    app_prefix(data.package.app@),
                    data.app.entries@[i]@,
                )) || (exists|j: int, i: int|
                0 <= j < data.services@.len() && 0 <= i < data.services@[j].entries@.len()
                    && included(
                    excludes_pat(data.excludes),
                    data.services@[j].entries@[i]@.rel_path,
                ) && !(data.services@[j].entries@[i]@.kind is Directory) && r@[m]@ == tar_entry_of(
                    svc_prefix(data.services@[j].info.id@),
                    data.services@[j].entries@[i]@,
                )) || r@[m]@ == packageinfo_entry(data.package.id@, data.package_data@, mtime),
{
    let mut b = DataBuilder::new(mtime);
    let mut app_pfx = String::from_str("usr/palm/applications/");
    app_pfx.append(data.package.app.as_str());
    app_pfx.append("/");
    proof {
        reveal_strlit("usr/palm/applications/");
        reveal_strlit("/");
        assert(app_pfx@ == app_prefix(data.package.app@));
        assert(app_pfx@.last() == '/');
        assert(app_pfx@.len() > 0);
    }
    let ghost s0 = b;
    b.append_tree(app_pfx.as_str(), &data.app.entries, &data.excludes);
    let ghost s1 = b;
    proof {
        assert(b.out@.take(b.out@.len() as int) =~= b.out@);
    }
    let n = data.services.len();
    let mut j: usize = 0;
    while j < n
        invariant
            builder_wf(b),
            b.mtime == mtime,
            n == data.services@.len(),
            j <= n,
            comp_wf(data.app.entries@),
            forall|k: int|
                0 <= k < n ==> comp_wf((#[trigger] data.services@[k]).entries@),
            grows(s1.out@, b.out@),
            forall|i: int|
                0 <= i < data.app.entries@.len() && included(
                    excludes_pat(data.excludes),
                    (#[trigger] data.app.entries@[i]@).rel_path,
                ) && !(data.app.entries@[i]@.kind is Directory) ==> out_has(
                    b.out@,
                    tar_entry_of(app_prefix(data.package.app@), data.app.entries@[i]@),
                ),
            forall|k: int, i: int|
                0 <= k < j && 0 <= i < (#[trigger] data.services@[k]).entries@.len() && included(
                    excludes_pat(data.excludes),
                    (#[trigger] data.services@[k].entries@[i]@).rel_path,
                ) && !(data.services@[k].entries@[i]@.kind is Directory) ==> out_has(
                    b.out@,
                    tar_entry_of(
                        svc_prefix(data.services@[k].info.id@),
                        data.services@[k].entries@[i]@,
                    ),
                ),
            forall|m: int|
                0 <= m < b.out@.len() ==> is_std_dir((#[trigger] b.out@[m]@), mtime) || (exists|
                    i: int,
                |
                    0 <= i < data.app.entries@.len() && included(
                        excludes_pat(data.excludes),
                        data.app.entries@[i]@.rel_path,
                    ) && !(data.app.entries@[i]@.kind is Directory) && b.out@[m]@ == tar_entry_of(
                        app_prefix(data.package.app@),
                        data.app.entries@[i]@,
                    )) || (exists|k: int, i: int|
                    0 <= k < j && 0 <= i < data.services@[k].entries@.len() && included(
                        excludes_pat(data.excludes),
                        data.services@[k].entries@[i]@.rel_path,
                    ) && !(data.services@[k].entries@[i]@.kind is Directory) && b.out@[m]@
                        == tar_entry_of(
                        svc_prefix(data.services@[k].info.id@),
                        data.services@[k].entries@[i]@,
                    )),
        decreases n - j,
    {
        let mut pfx = String::from_str("usr/palm/services/");
        pfx.append(data.services[j].info.id.as_str());
        pfx.append("/");
        proof {
            reveal_strlit("usr/palm/services/");
            reveal_strlit("/");
            assert(pfx@ == svc_prefix(data.services@[j as int].info.id@));
            assert(pfx@.last() == '/');
            assert(pfx@.len() > 0);
        }
        let ghost pre = b;
        b.append_tree(pfx.as_str(), &data.services[j].entries, &data.excludes);
        proof {
            lemma_grows_trans(s1.out@, pre.out@, b.out@);
            // old presence facts survive the growth
            assert forall|i: int|
                0 <= i < data.app.entries@.len() && included(
                    excludes_pat(data.excludes),
                    (#[trigger] data.app.entries@[i]@).rel_path,
                ) && !(data.app.entries@[i]@.kind is Directory) implies out_has(
                b.out@,
                tar_entry_of(app_prefix(data.package.app@), data.app.entries@[i]@),
            ) by {
                lemma_grows_out_has(
                    pre.out@,
                    b.out@,
                    tar_entry_of(app_prefix(data.package.app@), data.app.entries@[i]@),
                );
            }
            assert forall|k: int, i: int|
                0 <= k < j + 1 && 0 <= i < (#[trigger] data.services@[k]).entries@.len()
                    && included(
                    excludes_pat(data.excludes),
                    (#[trigger] data.services@[k].entries@[i]@).rel_path,
                ) && !(data.services@[k].entries@[i]@.kind is Directory) implies out_has(
                b.out@,
                tar_entry_of(
                    svc_prefix(data.services@[k].info.id@),
                    data.services@[k].entries@[i]@,
                ),
            ) by {
                if k < j {
                    lemma_grows_out_has(
                        pre.out@,
                        b.out@,
                        tar_entry_of(
                            svc_prefix(data.services@[k].info.id@),
                            data.services@[k].entries@[i]@,
                        ),
                    );
                }
            }
            // provenance of every entry so far
            assert forall|m: int|
                0 <= m < b.out@.len() implies is_std_dir((#[trigger] b.out@[m]@), mtime) || (
            exists|i: int|
                0 <= i < data.app.entries@.len() && included(
                    excludes_pat(data.excludes),
                    data.app.entries@[i]@.rel_path,
                ) && !(data.app.entries@[i]@.kind is Directory) && b.out@[m]@ == tar_entry_of(
                    app_prefix(data.package.app@),
                    data.app.entries@[i]@,
                )) || (exists|k: int, i: int|
                0 <= k < j + 1 && 0 <= i < data.services@[k].entries@.len() && included(
                    excludes_pat(data.excludes),
                    data.services@[k].entries@[i]@.rel_path,
                ) && !(data.services@[k].entries@[i]@.kind is Directory) && b.out@[m]@
                    == tar_entry_of(
                    svc_prefix(data.services@[k].info.id@),
                    data.services@[k].entries@[i]@,
                )) by {
                if m < pre.out@.len() {
                    assert(b.out@[m] == pre.out@[m]);
                }
            }
        }
        j = j + 1;
    }
    let ghost s2 = b;
    b.append_package_info(data.package.id.as_str(), &data.package_data);
    proof {
        // old facts survive the final growth
        assert forall|i: int|
            0 <= i < data.app.entries@.len() && included(
                excludes_pat(data.excludes),
                (#[trigger] data.app.entries@[i]@).rel_path,
            ) && !(data.app.entries@[i]@.kind is Directory) implies out_has(
            b.out@,
            tar_entry_of(app_prefix(data.package.app@), data.app.entries@[i]@),
        ) by {
            lemma_grows_out_has(
                s2.out@,
                b.out@,
                tar_entry_of(app_prefix(data.package.app@), data.app.entries@[i]@),
            );
        }
        assert forall|k: int, i: int|
            0 <= k < data.services@.len() && 0 <= i < (
            #[trigger] data.services@[k]).entries@.len() && included(
                excludes_pat(data.excludes),
                (#[trigger] data.services@[k].entries@[i]@).rel_path,
            ) && !(data.services@[k].entries@[i]@.kind is Directory) implies out_has(
            b.out@,
            tar_entry_of(svc_prefix(data.services@[k].info.id@), data.services@[k].entries@[i]@),
        ) by {
            lemma_grows_out_has(
                s2.out@,
                b.out@,
                tar_entry_of(
                    svc_prefix(data.services@[k].info.id@),
                    data.services@[k].entries@[i]@,
                ),
            );
        }
        assert forall|m: int|
            0 <= m < b.out@.len() implies is_std_dir((#[trigger] b.out@[m]@), mtime) || (exists|
            i: int,
        |
            0 <= i < data.app.entries@.len() && included(
                excludes_pat(data.excludes),
                data.app.entries@[i]@.rel_path,
            ) && !(data.app.entries@[i]@.kind is Directory) && b.out@[m]@ == tar_entry_of(
                app_prefix(data.package.app@),
                data.app.entries@[i]@,
            )) || (exists|k: int, i: int|
            0 <= k < data.services@.len() && 0 <= i < data.services@[k].entries@.len() && included(
                excludes_pat(data.excludes),
                data.services@[k].entries@[i]@.rel_path,
            ) && !(data.services@[k].entries@[i]@.kind is Directory) && b.out@[m]@ == tar_entry_of(
                svc_prefix(data.services@[k].info.id@),
                data.services@[k].entries@[i]@,
            )) || b.out@[m]@ == packageinfo_entry(data.package.id@, data.package_data@, mtime) by {
            if m < s2.out@.len() {
                assert(b.out@[m] == s2.out@[m]);
            }
        }
    }
    b.out
}

} // verus!
