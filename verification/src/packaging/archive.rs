//! The two archive layers an IPK is made of: gzip-compressed tar streams
//! for the inner members, and the outer `ar` container. Verified code
//! decides exactly which entries go in and in what order; the byte-level
//! encodings are the archive crates' work, carried here behind named
//! results.

use vstd::prelude::*;

verus! {

/// What kind of tar entry one element is.
#[derive(Clone, Copy, Debug, PartialEq, Eq, Structural)]
pub enum TarKind {
    Directory,
    File,
    Symlink,
}

/// One tar entry, fully determined by plain values.
pub struct TarEntry {
    pub path: String,
    pub kind: TarKind,
    pub mode: u32,
    pub uid: u64,
    pub gid: u64,
    pub mtime: u64,
    pub content: Vec<u8>,
    pub link: String,
}

/// The view of a tar entry.
pub struct TarEntryV {
    pub path: Seq<char>,
    pub kind: TarKind,
    pub mode: u32,
    pub uid: u64,
    pub gid: u64,
    pub mtime: u64,
    pub content: Seq<u8>,
    pub link: Seq<char>,
}

impl View for TarEntry {
    type V = TarEntryV;

    open spec fn view(&self) -> TarEntryV {
        TarEntryV {
            path: self.path@,
            kind: self.kind,
            mode: self.mode,
            uid: self.uid,
            gid: self.gid,
            mtime: self.mtime,
            content: self.content@,
            link: self.link@,
        }
    }
}

/// No character of the sequence is the nul character.
pub open spec fn nul_free(s: Seq<char>) -> bool {
    forall|i: int| 0 <= i < s.len() ==> s[i] != '\0'
}

/// A well-formed entry: directories carry no bytes and no target, files no
/// target, and only symlinks a target — a real one, non-empty and without
/// a nul character, as a link target must be to be written at all.
pub open spec fn entry_wf(e: TarEntryV) -> bool {
    match e.kind {
        TarKind::Directory => e.content.len() == 0 && e.link.len() == 0,
        TarKind::File => e.link.len() == 0,
        TarKind::Symlink => e.content.len() == 0 && e.link.len() > 0 && nul_free(e.link),
    }
}

/// Whether the archive crate accepts a sequence of characters as an entry
/// path; acceptance is a function of the path alone.
pub uninterp spec fn tar_path_ok(path: Seq<char>) -> bool;

/// Whether `s` holds `..` as a path component.
pub open spec fn dotdot_component(s: Seq<char>) -> bool {
    exists|i: int|
        0 <= i && i + 2 <= s.len() && (i == 0 || s[i - 1] == '/') && (i + 2 == s.len() || s[i
            + 2] == '/') && #[trigger] s[i] == '.' && s[i + 1] == '.'
}

/// A plainly acceptable entry path: non-empty, shorter than the header's
/// hundred-byte name field, printable ASCII throughout, relative, and with
/// no `..` component. The archive crate accepts every such path.
pub open spec fn plain_tar_path(s: Seq<char>) -> bool {
    0 < s.len() < 100 && s.first() != '/' && (forall|i: int|
        0 <= i < s.len() ==> ' ' <= #[trigger] s[i] <= '~') && !dotdot_component(s)
}

impl TarEntry {
    /// A directory entry as the data archive writes them: mode `0100775`,
    /// owner `0:5000`, no content.
    pub fn dir(path: String, mtime: u64) -> (r: TarEntry)
        ensures
            r@ == (TarEntryV {
                path: path@,
                kind: TarKind::Directory,
                mode: 0o100775u32,
                uid: 0,
                gid: 5000,
                mtime,
                content: Seq::empty(),
                link: Seq::<char>::empty(),
            }),
            entry_wf(r@),
    {
        TarEntry {
            path,
            kind: TarKind::Directory,
            mode: 0o100775,
            uid: 0,
            gid: 5000,
            mtime,
            content: Vec::new(),
            link: String::new(),
        }
    }

    /// A regular file entry keeping its own mode and mtime, owner `0:5000`.
    pub fn file(path: String, mode: u32, mtime: u64, content: Vec<u8>) -> (r: TarEntry)
        ensures
            r@ == (TarEntryV {
                path: path@,
                kind: TarKind::File,
                mode,
                uid: 0,
                gid: 5000,
                mtime,
                content: content@,
                link: Seq::<char>::empty(),
            }),
            entry_wf(r@),
    {
        TarEntry {
            path,
            kind: TarKind::File,
            mode,
            uid: 0,
            gid: 5000,
            mtime,
            content,
            link: String::new(),
        }
    }

    /// A symlink entry keeping its own mode and mtime, owner `0:5000`, not
    /// followed.
    pub fn symlink(path: String, mode: u32, mtime: u64, link: String) -> (r: TarEntry)
        requires
            link@.len() > 0,
            nul_free(link@),
        ensures
            r@ == (TarEntryV {
                path: path@,
                kind: TarKind::Symlink,
                mode,
                uid: 0,
                gid: 5000,
                mtime,
                content: Seq::empty(),
                link: link@,
            }),
            entry_wf(r@),
    {
        TarEntry {
            path,
            kind: TarKind::Symlink,
            mode,
            uid: 0,
            gid: 5000,
            mtime,
            content: Vec::new(),
            link,
        }
    }
}

/// A gzip-compressed GNU tar stream being written.
#[verifier::external_body]
pub struct TarSink {
    inner: tar::Builder<flate2::write::GzEncoder<Vec<u8>>>,
}

/// The entries written to a tar sink so far, in order.
pub uninterp spec fn tar_contents(t: TarSink) -> Seq<TarEntryV>;

/// The finished gzip-compressed tar stream for a sequence of entries; at
/// the fixed format and compression settings it depends on the entries
/// alone.
pub uninterp spec fn tar_gz_of(entries: Seq<TarEntryV>) -> Seq<u8>;

/// Relies on tar::Builder::new over flate2's GzEncoder at the default
/// compression level: a fresh, empty archive.
#[verifier::external_body]
pub fn tar_new() -> (r: TarSink)
    ensures
        tar_contents(r) == Seq::<TarEntryV>::empty(),
{
    TarSink {
        inner: tar::Builder::new(
            flate2::write::GzEncoder::new(Vec::new(), flate2::Compression::default()),
        ),
    }
}

/// Relies on tar::Builder::append_data with a GNU header: writes one
/// directory entry with exactly these fields, succeeding exactly on the
/// paths the crate accepts — every plainly acceptable path among them, a
/// long one through the GNU long-name extension. The crate validates the
/// path before writing anything, and writing into the byte vector cannot
/// fail, so a failure leaves the archive untouched.
#[verifier::external_body]
pub fn tar_add_dir(t: &mut TarSink, e: &TarEntry) -> (r: Result<(), ()>)
    requires
        e@.kind is Directory,
        entry_wf(e@),
    ensures
        r is Ok <==> tar_path_ok(e@.path),
        plain_tar_path(e@.path) ==> r is Ok,
        r is Ok ==> tar_contents(*final(t)) == tar_contents(*old(t)).push(e@),
        r is Err ==> tar_contents(*final(t)) == tar_contents(*old(t)),
{
    let mut h = tar::Header::new_gnu();
    h.set_entry_type(tar::EntryType::Directory);
    h.set_mode(e.mode);
    h.set_size(0);
    h.set_uid(e.uid);
    h.set_gid(e.gid);
    h.set_mtime(e.mtime);
    t.inner.append_data(&mut h, e.path.as_str(), std::io::empty()).map_err(|_| ())
}

/// Relies on tar::Builder::append_data with a GNU header: writes one
/// regular file entry with exactly these fields and bytes, succeeding
/// exactly on the paths the crate accepts — every plainly acceptable path
/// among them. The path is validated before anything is written, and
/// writing into the byte vector cannot fail, so a failure leaves the
/// archive untouched.
#[verifier::external_body]
pub fn tar_add_file(t: &mut TarSink, e: &TarEntry) -> (r: Result<(), ()>)
    requires
        e@.kind is File,
        entry_wf(e@),
    ensures
        r is Ok <==> tar_path_ok(e@.path),
        plain_tar_path(e@.path) ==> r is Ok,
        r is Ok ==> tar_contents(*final(t)) == tar_contents(*old(t)).push(e@),
        r is Err ==> tar_contents(*final(t)) == tar_contents(*old(t)),
{
    let mut h = tar::Header::new_gnu();
    h.set_entry_type(tar::EntryType::Regular);
    h.set_mode(e.mode);
    h.set_size(e.content.len() as u64);
    h.set_uid(e.uid);
    h.set_gid(e.gid);
    h.set_mtime(e.mtime);
    t.inner.append_data(&mut h, e.path.as_str(), e.content.as_slice()).map_err(|_| ())
}

/// Relies on tar::Builder::append_link with a GNU header: writes one
/// symlink entry with exactly these fields and target, not following it,
/// succeeding exactly on the paths the crate accepts. Setting a non-empty,
/// nul-free link target cannot fail (a long one goes through the GNU
/// long-link extension), so with the well-formedness this entry requires,
/// the only failure is the path's, which the crate validates before
/// writing anything; a failure therefore leaves the archive untouched.
#[verifier::external_body]
pub fn tar_add_symlink(t: &mut TarSink, e: &TarEntry) -> (r: Result<(), ()>)
    requires
        e@.kind is Symlink,
        entry_wf(e@),
    ensures
        r is Ok <==> tar_path_ok(e@.path),
        plain_tar_path(e@.path) ==> r is Ok,
        r is Ok ==> tar_contents(*final(t)) == tar_contents(*old(t)).push(e@),
        r is Err ==> tar_contents(*final(t)) == tar_contents(*old(t)),
{
    let mut h = tar::Header::new_gnu();
    h.set_entry_type(tar::EntryType::Symlink);
    h.set_mode(e.mode);
    h.set_size(0);
    h.set_uid(e.uid);
    h.set_gid(e.gid);
    h.set_mtime(e.mtime);
    t.inner.append_link(&mut h, e.path.as_str(), e.link.as_str()).map_err(|_| ())
}

/// Relies on tar::Builder::into_inner and GzEncoder::finish: the finished
/// gzip-compressed tar stream of exactly the entries written, in order.
/// Both steps only write into the byte vector, which cannot fail.
#[verifier::external_body]
pub fn tar_finish(t: TarSink) -> (r: Vec<u8>)
    ensures
        r@ == tar_gz_of(tar_contents(t)),
{
    let gz = t.inner.into_inner().expect("write to a byte vector cannot fail");
    gz.finish().expect("write to a byte vector cannot fail")
}

/// Writes one entry of any kind.
pub fn tar_add(t: &mut TarSink, e: &TarEntry) -> (r: Result<(), ()>)
    requires
        entry_wf(e@),
    ensures
        r is Ok <==> tar_path_ok(e@.path),
        plain_tar_path(e@.path) ==> r is Ok,
        r is Ok ==> tar_contents(*final(t)) == tar_contents(*old(t)).push(e@),
        r is Err ==> tar_contents(*final(t)) == tar_contents(*old(t)),
{
    match e.kind {
        TarKind::Directory => tar_add_dir(t, e),
        TarKind::File => tar_add_file(t, e),
        TarKind::Symlink => tar_add_symlink(t, e),
    }
}

/// Writes a whole sequence of entries, in order: it succeeds exactly when
/// every entry's path is one the crate accepts, and a failure names an
/// entry whose path is not even plainly acceptable.
pub fn tar_add_all(t: &mut TarSink, entries: &Vec<TarEntry>) -> (r: Result<(), ()>)
    requires
        forall|i: int| 0 <= i < entries@.len() ==> entry_wf(#[trigger] entries@[i]@),
    ensures
        r is Ok <==> (forall|i: int|
            0 <= i < entries@.len() ==> tar_path_ok((#[trigger] entries@[i]@).path)),
        r is Err ==> (exists|i: int|
            0 <= i < entries@.len() && !tar_path_ok((#[trigger] entries@[i]@).path)
                && !plain_tar_path(entries@[i]@.path)),
        r is Ok ==> tar_contents(*final(t)) == tar_contents(*old(t)) + entries@.map_values(
            |e: TarEntry| e@,
        ),
{
    let n = entries.len();
    let mut i: usize = 0;
    while i < n
        invariant
            n == entries@.len(),
            i <= n,
            forall|k: int| 0 <= k < n ==> entry_wf(#[trigger] entries@[k]@),
            forall|k: int| 0 <= k < i ==> tar_path_ok((#[trigger] entries@[k]@).path),
            tar_contents(*t) == tar_contents(*old(t)) + entries@.map_values(|e: TarEntry| e@).take(
                i as int,
            ),
        decreases n - i,
    {
        let res = tar_add(t, &entries[i]);
        if res.is_err() {
            return Err(());
        }
        proof {
            assert(tar_contents(*t) =~= tar_contents(*old(t)) + entries@.map_values(
                |e: TarEntry| e@,
            ).take(i + 1));
        }
        i = i + 1;
    }
    proof {
        assert(entries@.map_values(|e: TarEntry| e@).take(n as int) =~= entries@.map_values(
            |e: TarEntry| e@,
        ));
    }
    Ok(())
}

/// Packs a sequence of entries into a finished gzip-compressed tar
/// stream: it succeeds exactly when every entry's path is one the crate
/// accepts — every plainly acceptable path among them.
pub fn tar_gz_bytes(entries: &Vec<TarEntry>) -> (r: Result<Vec<u8>, ()>)
    requires
        forall|i: int| 0 <= i < entries@.len() ==> entry_wf(#[trigger] entries@[i]@),
    ensures
        r is Ok <==> (forall|i: int|
            0 <= i < entries@.len() ==> tar_path_ok((#[trigger] entries@[i]@).path)),
        r is Err ==> (exists|i: int|
            0 <= i < entries@.len() && !tar_path_ok((#[trigger] entries@[i]@).path)
                && !plain_tar_path(entries@[i]@.path)),
        r matches Ok(b) ==> b@ == tar_gz_of(entries@.map_values(|e: TarEntry| e@)),
{
    let mut t = tar_new();
    let res = tar_add_all(&mut t, entries);
    if res.is_err() {
        return Err(());
    }
    Ok(tar_finish(t))
}

/// One member of the outer `ar` container.
pub struct ArMemberV {
    pub name: Seq<char>,
    pub mtime: u64,
    pub mode: u32,
    pub data: Seq<u8>,
}

/// The outer `ar` container being written.
#[verifier::external_body]
pub struct ArSink {
    inner: ar::Builder<Vec<u8>>,
}

/// The members written to an `ar` container so far, in order.
pub uninterp spec fn ar_contents(a: ArSink) -> Seq<ArMemberV>;

/// The finished BSD `ar` archive for a sequence of members; it depends on
/// the members alone.
pub uninterp spec fn ar_bytes_of(members: Seq<ArMemberV>) -> Seq<u8>;

/// Relies on ar::Builder::new over a byte vector: a fresh, empty container.
#[verifier::external_body]
pub fn ar_new() -> (r: ArSink)
    ensures
        ar_contents(r) == Seq::<ArMemberV>::empty(),
{
    ArSink { inner: ar::Builder::new(Vec::new()) }
}

/// Relies on ar::Header and ar::Builder::append: writes one member with
/// exactly this identifier, mtime, mode and data. Writing into a byte
/// vector cannot fail, and the header's size is the data's length, so the
/// append always succeeds.
#[verifier::external_body]
pub fn ar_append(a: &mut ArSink, name: &str, mtime: u64, mode: u32, data: &Vec<u8>)
    ensures
        ar_contents(*final(a)) == ar_contents(*old(a)).push(
            ArMemberV { name: name@, mtime, mode, data: data@ },
        ),
{
    let mut h = ar::Header::new(name.as_bytes().to_vec(), data.len() as u64);
    h.set_mode(mode);
    h.set_mtime(mtime);
    a.inner.append(&h, data.as_slice()).expect("write to a byte vector cannot fail");
}

/// Relies on ar::Builder::into_inner: the finished archive bytes for
/// exactly the members written, in order.
#[verifier::external_body]
pub fn ar_finish(a: ArSink) -> (r: Vec<u8>)
    ensures
        r@ == ar_bytes_of(ar_contents(a)),
{
    a.inner.into_inner().expect("returns the underlying vector")
}

} // verus!
