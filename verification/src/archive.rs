//! Reading a zip-format UI archive and planning its extraction.
//!
//! The zip container format itself is an outside capability: trusted items
//! name what parsing yields and hand entries out as plain values. Everything
//! after that — skipping entries whose recorded name could resolve outside the
//! destination, creating parent directories, and ordering the writes — is
//! verified here. [`lemma_unpack_within`] is the path-traversal guarantee and
//! [`lemma_unpack_complete`] the guarantee that no safely named file is lost.

use vstd::prelude::*;

use crate::action::{actions_view, FsAction, FsActionSpec};
use crate::bytes::{bytes_clone, bytes_prefix, join_path, joined, BACKSLASH, COLON, DOT, SLASH};
use crate::classify::{extraction_context, InstallError, InstallErrorSpec};
use vstd::string::StringExecFns;

verus! {

/// One entry of a zip archive: its recorded name (UTF-8 bytes) and its
/// decompressed contents. A name ending in `/` records a directory.
pub struct ArchiveEntry {
    pub name: Vec<u8>,
    pub data: Vec<u8>,
}

impl View for ArchiveEntry {
    type V = (Seq<u8>, Seq<u8>);

    open spec fn view(&self) -> (Seq<u8>, Seq<u8>) {
        (self.name@, self.data@)
    }
}

/// The views of a list of entries.
pub open spec fn entries_view(v: Seq<ArchiveEntry>) -> Seq<(Seq<u8>, Seq<u8>)> {
    v.map_values(|e: ArchiveEntry| e@)
}

#[verifier::external_type_specification]
#[verifier::external_body]
#[verifier::reject_recursive_types(R)]
pub struct ExZipArchive<R>(zip::ZipArchive<R>);

#[verifier::external_type_specification]
#[verifier::external_body]
#[verifier::reject_recursive_types(T)]
pub struct ExCursor<T>(std::io::Cursor<T>);

/// What an opened archive holds: in archive order, each entry's recorded name
/// bytes and decompressed contents.
pub uninterp spec fn zip_entries(a: zip::ZipArchive<std::io::Cursor<Vec<u8>>>) -> Seq<
    (Seq<u8>, Seq<u8>),
>;

/// What parsing a byte sequence as a zip archive yields: `None` when the bytes
/// are not a well-formed archive, otherwise the entry list, in archive order.
/// Parsing is a function of the bytes alone.
pub uninterp spec fn zip_parse(b: Seq<u8>) -> Option<Seq<(Seq<u8>, Seq<u8>)>>;

/// Whether entry `i` of an opened archive can be fully read (decompressed
/// without error). Reading from in-memory bytes is deterministic, so this is
/// a function of what the archive holds.
pub uninterp spec fn zip_entry_readable(a: zip::ZipArchive<std::io::Cursor<Vec<u8>>>, i: int) -> bool;

/// Whether every entry of the archive parsed from `b` can be fully read — a
/// function of the bytes alone. When the bytes parse and this holds, the whole
/// archive extracts.
pub uninterp spec fn zip_all_readable(b: Seq<u8>) -> bool;

/// Relies on zip::ZipArchive::new: parses the central directory of an
/// in-memory zip archive; success, the entries found, and each entry's
/// readability depend on the bytes alone. On failure the zip library's own
/// message is returned.
#[verifier::external_body]
fn zip_open(b: Vec<u8>) -> (r: Result<zip::ZipArchive<std::io::Cursor<Vec<u8>>>, String>)
    ensures
        r is Ok <==> zip_parse(b@) is Some,
        r matches Ok(a) ==> zip_entries(a) == zip_parse(b@)->Some_0,
        r matches Ok(a) ==> (zip_all_readable(b@) ==> forall|i: int|
            0 <= i < zip_entries(a).len() ==> #[trigger] zip_entry_readable(a, i)),
{
    zip::ZipArchive::new(std::io::Cursor::new(b)).map_err(|e| format!("{}", e))
}

/// Relies on zip::ZipArchive::len: the number of entries the archive holds.
#[verifier::external_body]
fn zip_len(a: &zip::ZipArchive<std::io::Cursor<Vec<u8>>>) -> (r: usize)
    ensures
        r == zip_entries(*a).len(),
{
    a.len()
}

/// Relies on zip::ZipArchive::by_index and std::io::Read::read_to_end: hands
/// out one entry's recorded name and fully decompressed contents. Reading from
/// in-memory bytes is deterministic: it succeeds exactly when the entry is
/// readable, can fail on a corrupt entry even when the directory parsed, and
/// never changes what the archive holds. On failure the zip library's own
/// message is returned.
#[verifier::external_body]
fn zip_entry(a: &mut zip::ZipArchive<std::io::Cursor<Vec<u8>>>, i: usize) -> (r: Result<
    ArchiveEntry,
    String,
>)
    requires
        i < zip_entries(*old(a)).len(),
    ensures
        zip_entries(*final(a)) == zip_entries(*old(a)),
        forall|j: int| #[trigger]
            zip_entry_readable(*final(a), j) == zip_entry_readable(*old(a), j),
        r is Ok <==> zip_entry_readable(*old(a), i as int),
        r matches Ok(e) ==> e@ == zip_entries(*old(a))[i as int],
{
    let mut f = a.by_index(i).map_err(|e| format!("{}", e))?;
    let name = f.name().to_string().into_bytes();
    let mut data = Vec::new();
    std::io::Read::read_to_end(&mut f, &mut data).map_err(|e| format!("{}", e))?;
    Ok(ArchiveEntry { name, data })
}

/// Reads every entry of an in-memory zip archive, in archive order. It
/// succeeds whenever the bytes are a well-formed archive whose entries all
/// read; it fails — with an extraction error naming the failing operation,
/// before any filesystem action is planned — when the bytes are not a
/// well-formed archive or an entry cannot be read.
pub fn read_entries(b: Vec<u8>) -> (r: Result<Vec<ArchiveEntry>, InstallError>)
    ensures
        r matches Ok(v) ==> zip_parse(b@) is Some && entries_view(v@) == zip_parse(b@)->Some_0,
        zip_parse(b@) is Some && zip_all_readable(b@) ==> r is Ok,
        zip_parse(b@) is None ==> r is Err,
        r matches Err(e) ==> (e@ matches InstallErrorSpec::ExtractionError(m)
            && extraction_context(m)),
{
    let mut archive = match zip_open(b) {
        Ok(a) => a,
        Err(m) => {
            let msg = String::from_str("Failed to unpack zip archive: ").concat(m.as_str());
            proof {
                assert(msg@ == crate::classify::unpack_context(m@));
            }
            return Err(InstallError::ExtractionError(msg));
        },
    };
    let n = zip_len(&archive);
    let ghost all = zip_entries(archive);
    let mut out: Vec<ArchiveEntry> = Vec::new();
    let mut i: usize = 0;
    while i < n
        invariant
            i <= n,
            n == all.len(),
            zip_entries(archive) == all,
            all == zip_parse(b@)->Some_0,
            zip_parse(b@) is Some,
            zip_all_readable(b@) ==> forall|j: int|
                0 <= j < all.len() ==> #[trigger] zip_entry_readable(archive, j),
            entries_view(out@) == all.subrange(0, i as int),
        decreases n - i,
    {
        match zip_entry(&mut archive, i) {
            Ok(e) => {
                let ghost prev = out@;
                let ghost ev = e@;
                out.push(e);
                proof {
                    assert(entries_view(prev).len() == prev.len());
                    assert(prev.len() == i);
                    assert forall|j: int| 0 <= j < out@.len() implies entries_view(out@)[j] == all[j] by {
                        assert(entries_view(out@)[j] == out@[j]@);
                        if j < i {
                            assert(out@[j] == prev[j]);
                            assert(entries_view(prev)[j] == prev[j]@);
                            assert(prev[j]@ == all[j]);
                        } else {
                            assert(out@[j]@ == ev);
                        }
                    }
                    assert(entries_view(out@) =~= all.subrange(0, i as int + 1));
                }
            },
            Err(m) => {
                let msg = String::from_str("Failed to read zip entry: ").concat(m.as_str());
                proof {
                    assert(msg@ == crate::classify::entry_read_context(m@));
                    assert(!zip_entry_readable(archive, i as int));
                    assert(!zip_all_readable(b@));
                }
                return Err(InstallError::ExtractionError(msg));
            },
        }
        i = i + 1;
    }
    assert(entries_view(out@) =~= all);
    Ok(out)
}

/// A byte that may appear in a safe entry name: not NUL, not a backslash, not
/// a drive separator.
pub open spec fn ok_byte(c: u8) -> bool {
    c != 0 && c != BACKSLASH && c != COLON
}

/// Whether a path component begins at position `i` of `n`.
pub open spec fn component_starts(n: Seq<u8>, i: int) -> bool {
    i == 0 || n[i - 1] == SLASH
}

/// Whether the component starting at `i` is exactly `.`.
pub open spec fn dot_at(n: Seq<u8>, i: int) -> bool {
    n[i] == DOT && (i + 1 == n.len() || n[i + 1] == SLASH)
}

/// Whether the component starting at `i` is exactly `..`.
pub open spec fn dotdot_at(n: Seq<u8>, i: int) -> bool {
    i + 1 < n.len() && n[i] == DOT && n[i + 1] == DOT && (i + 2 == n.len() || n[i + 2] == SLASH)
}

/// A recorded entry name that is safe to join under the destination
/// directory: nonempty and relative (no leading `/`), free of NUL, backslash
/// and drive-separator bytes, and with no empty, `.` or `..` path component —
/// so the joined path cannot resolve outside the destination.
///
/// This is deliberately stricter than the usual zip sanitization, which
/// normalizes `.` components, resolves `..` components that stay inside the
/// destination, and treats backslashes as separators: here any such name is
/// skipped outright rather than extracted at a normalized path.
pub open spec fn safe_name(n: Seq<u8>) -> bool {
    &&& n.len() > 0
    &&& n[0] != SLASH
    &&& forall|i: int| 0 <= i < n.len() ==> ok_byte(#[trigger] n[i])
    &&& forall|i: int| 1 <= i < n.len() ==> !(#[trigger] n[i] == SLASH && n[i - 1] == SLASH)
    &&& forall|i: int|
        0 <= i < n.len() && #[trigger] component_starts(n, i) ==> !dot_at(n, i) && !dotdot_at(n, i)
}

/// Whether a recorded name denotes a directory.
pub open spec fn is_dir_name(n: Seq<u8>) -> bool {
    n.len() > 0 && n[n.len() - 1] == SLASH
}

/// Decides [`safe_name`]. Entries whose name fails this check are skipped by
/// the extraction plan — a policy decision, not a reported failure.
pub fn is_safe_name(n: &Vec<u8>) -> (r: bool)
    ensures
        r == safe_name(n@),
{
    if n.len() == 0 {
        return false;
    }
    if n[0] == SLASH {
        return false;
    }
    let mut i: usize = 0;
    while i < n.len()
        invariant
            i <= n@.len(),
            n@.len() > 0,
            n@[0] != SLASH,
            forall|j: int| 0 <= j < i ==> ok_byte(#[trigger] n@[j]),
            forall|j: int| 1 <= j < i ==> !(#[trigger] n@[j] == SLASH && n@[j - 1] == SLASH),
            forall|j: int|
                0 <= j < i && #[trigger] component_starts(n@, j) ==> !dot_at(n@, j) && !dotdot_at(
                    n@,
                    j,
                ),
        decreases n@.len() - i,
    {
        let c = n[i];
        if c == 0 || c == BACKSLASH || c == COLON {
            assert(!ok_byte(n@[i as int]));
            return false;
        }
        if i >= 1 && c == SLASH && n[i - 1] == SLASH {
            return false;
        }
        if (i == 0 || n[i - 1] == SLASH) && c == DOT {
            assert(component_starts(n@, i as int));
            if i + 1 == n.len() {
                assert(dot_at(n@, i as int));
                return false;
            }
            let d = n[i + 1];
            if d == SLASH {
                assert(dot_at(n@, i as int));
                return false;
            }
            if d == DOT && (i + 2 == n.len() || n[i + 2] == SLASH) {
                assert(dotdot_at(n@, i as int));
                return false;
            }
        }
        i = i + 1;
    }
    true
}

/// The position of the last `/` of `n`, or `-1` when `n` has none.
pub open spec fn last_slash(n: Seq<u8>) -> int
    decreases n.len(),
{
    if n.len() == 0 {
        -1
    } else if n[n.len() - 1] == SLASH {
        n.len() - 1
    } else {
        last_slash(n.subrange(0, n.len() - 1))
    }
}

proof fn lemma_last_slash(n: Seq<u8>)
    ensures
        last_slash(n) < n.len(),
        last_slash(n) >= 0 ==> n[last_slash(n)] == SLASH,
        last_slash(n) == -1 ==> forall|j: int| 0 <= j < n.len() ==> n[j] != SLASH,
        forall|j: int| last_slash(n) < j < n.len() ==> n[j] != SLASH,
        last_slash(n) >= -1,
    decreases n.len(),
{
    if n.len() > 0 && n[n.len() - 1] != SLASH {
        let p = n.subrange(0, n.len() - 1);
        lemma_last_slash(p);
        assert forall|j: int| last_slash(n) < j < n.len() implies n[j] != SLASH by {
            if j < n.len() - 1 {
                assert(n[j] == p[j]);
            }
        }
        if last_slash(n) == -1 {
            assert forall|j: int| 0 <= j < n.len() implies n[j] != SLASH by {
                if j < n.len() - 1 {
                    assert(n[j] == p[j]);
                }
            }
        }
    }
}

/// Finds the position of the last `/` of `n`, if any.
fn find_last_slash(n: &Vec<u8>) -> (r: Option<usize>)
    ensures
        r matches Some(k) ==> k < n@.len() && last_slash(n@) == k,
        r is None ==> last_slash(n@) == -1,
{
    proof {
        assert(n@.subrange(0, n@.len() as int) =~= n@);
    }
    let mut j: usize = n.len();
    while j > 0
        invariant
            j <= n@.len(),
            last_slash(n@) == last_slash(n@.subrange(0, j as int)),
        decreases j,
    {
        if n[j - 1] == SLASH {
            proof {
                let p = n@.subrange(0, j as int);
                assert(p[p.len() - 1] == SLASH);
                assert(last_slash(p) == j - 1);
            }
            return Some(j - 1);
        }
        proof {
            let p = n@.subrange(0, j as int);
            assert(p[p.len() - 1] != SLASH);
            assert(p.subrange(0, p.len() - 1) =~= n@.subrange(0, j - 1));
        }
        j = j - 1;
    }
    proof {
        assert(n@.subrange(0, 0) =~= Seq::<u8>::empty());
    }
    None
}

/// The directory that must exist before a file entry is written: the
/// destination itself for a bare name, otherwise the name's directory part
/// joined under the destination.
pub open spec fn parent_path(dest: Seq<u8>, name: Seq<u8>) -> Seq<u8> {
    if last_slash(name) < 0 {
        dest
    } else {
        joined(dest, name.subrange(0, last_slash(name)))
    }
}

/// The filesystem actions one archive entry plans: nothing for an unsafe
/// name, a directory creation for a directory entry, and a parent-directory
/// creation followed by a full file write for a file entry.
pub open spec fn entry_actions(dest: Seq<u8>, name: Seq<u8>, data: Seq<u8>) -> Seq<FsActionSpec> {
    if !safe_name(name) {
        seq![]
    } else if is_dir_name(name) {
        seq![FsActionSpec::MkDirAll { path: joined(dest, name) }]
    } else {
        seq![
            FsActionSpec::MkDirAll { path: parent_path(dest, name) },
            FsActionSpec::WriteFile { path: joined(dest, name), data },
        ]
    }
}

/// The extraction plan for a whole entry list, in archive order.
pub open spec fn unpack_actions(dest: Seq<u8>, entries: Seq<(Seq<u8>, Seq<u8>)>) -> Seq<
    FsActionSpec,
>
    decreases entries.len(),
{
    if entries.len() == 0 {
        seq![]
    } else {
        entry_actions(dest, entries[0].0, entries[0].1) + unpack_actions(
            dest,
            entries.subrange(1, entries.len() as int),
        )
    }
}

proof fn lemma_unpack_append(dest: Seq<u8>, s1: Seq<(Seq<u8>, Seq<u8>)>, s2: Seq<(Seq<u8>, Seq<u8>)>)
    ensures
        unpack_actions(dest, s1 + s2) == unpack_actions(dest, s1) + unpack_actions(dest, s2),
    decreases s1.len(),
{
    if s1.len() == 0 {
        assert(s1 + s2 =~= s2);
        assert(unpack_actions(dest, s1) + unpack_actions(dest, s2) =~= unpack_actions(dest, s2));
    } else {
        let rest = s1.subrange(1, s1.len() as int);
        lemma_unpack_append(dest, rest, s2);
        assert((s1 + s2).subrange(1, (s1 + s2).len() as int) =~= rest + s2);
        assert((s1 + s2)[0] == s1[0]);
        assert(unpack_actions(dest, s1 + s2) =~= unpack_actions(dest, s1) + unpack_actions(
            dest,
            s2,
        ));
    }
}

/// Plans the extraction of archive entries under a destination directory, in
/// archive order: entries with unsafe names are skipped, a directory entry
/// creates its tree, and a file entry's parent directory is created before
/// the file is written fully.
pub fn plan_unpack(dest: &Vec<u8>, entries: &Vec<ArchiveEntry>) -> (r: Vec<FsAction>)
    ensures
        actions_view(r@) == unpack_actions(dest@, entries_view(entries@)),
{
    let mut r: Vec<FsAction> = Vec::new();
    let mut i: usize = 0;
    while i < entries.len()
        invariant
            i <= entries@.len(),
            actions_view(r@) == unpack_actions(dest@, entries_view(entries@).subrange(0, i as int)),
        decreases entries@.len() - i,
    {
        let ghost done = entries_view(entries@).subrange(0, i as int);
        let ghost this = entries_view(entries@)[i as int];
        let e = &entries[i];
        if is_safe_name(&e.name) {
            let name_len = e.name.len();
            if e.name[name_len - 1] == SLASH {
                r.push(FsAction::MkDirAll { path: join_path(dest, &e.name) });
            } else {
                proof {
                    lemma_last_slash(e.name@);
                }
                match find_last_slash(&e.name) {
                    Some(k) => {
                        let prefix = bytes_prefix(&e.name, k);
                        r.push(FsAction::MkDirAll { path: join_path(dest, &prefix) });
                    },
                    None => {
                        r.push(FsAction::MkDirAll { path: bytes_clone(dest) });
                    },
                }
                r.push(
                    FsAction::WriteFile {
                        path: join_path(dest, &e.name),
                        data: bytes_clone(&e.data),
                    },
                );
            }
        }
        proof {
            assert(entries_view(entries@).subrange(0, i + 1) =~= done + seq![this]);
            lemma_unpack_append(dest@, done, seq![this]);
            assert(seq![this].subrange(1, 1) =~= Seq::<(Seq<u8>, Seq<u8>)>::empty());
            assert(unpack_actions(dest@, seq![this]) == entry_actions(dest@, this.0, this.1)
                + unpack_actions(dest@, seq![this].subrange(1, 1)));
            assert(unpack_actions(dest@, seq![this]) =~= entry_actions(dest@, this.0, this.1));
            assert(actions_view(r@) =~= unpack_actions(dest@, done) + entry_actions(
                dest@,
                this.0,
                this.1,
            ));
        }
        i = i + 1;
    }
    assert(entries_view(entries@).subrange(0, entries@.len() as int) =~= entries_view(entries@));
    r
}

/// A path the extraction may touch: the destination directory itself, or a
/// safe relative name joined under it.
pub open spec fn within_dest(dest: Seq<u8>, p: Seq<u8>) -> bool {
    p == dest || exists|rest: Seq<u8>| p == #[trigger] joined(dest, rest) && safe_name(rest)
}

/// A safe name stays safe when truncated at a `/`: the directory part of a
/// safe file name is itself a safe name.
proof fn lemma_safe_prefix(n: Seq<u8>, k: int)
    requires
        safe_name(n),
        0 < k < n.len(),
        n[k] == SLASH,
    ensures
        safe_name(n.subrange(0, k)),
{
    let p = n.subrange(0, k);
    assert(p[0] == n[0]);
    assert forall|i: int| 0 <= i < p.len() implies ok_byte(#[trigger] p[i]) by {
        assert(p[i] == n[i]);
        assert(ok_byte(n[i]));
    }
    assert forall|i: int| 1 <= i < p.len() implies !(#[trigger] p[i] == SLASH && p[i - 1] == SLASH) by {
        assert(p[i] == n[i] && p[i - 1] == n[i - 1]);
    }
    assert forall|i: int|
        0 <= i < p.len() && #[trigger] component_starts(p, i) implies !dot_at(p, i) && !dotdot_at(
        p,
        i,
    ) by {
        if i > 0 {
            assert(p[i - 1] == n[i - 1]);
        }
        assert(component_starts(n, i));
        assert(!dot_at(n, i) && !dotdot_at(n, i));
        if dot_at(p, i) {
            assert(n[i] == DOT);
            if i + 1 == k {
                assert(n[i + 1] == SLASH);
            } else {
                assert(p[i + 1] == n[i + 1]);
            }
            assert(dot_at(n, i));
        }
        if dotdot_at(p, i) {
            assert(n[i] == DOT && n[i + 1] == DOT);
            if i + 2 == k {
                assert(n[i + 2] == SLASH);
            } else {
                assert(p[i + 2] == n[i + 2]);
            }
            assert(dotdot_at(n, i));
        }
    }
}

/// Path-traversal safety: every action of an extraction plan touches the
/// destination directory itself or a safely named path under it. Entries
/// whose recorded name would resolve outside the destination plan no action
/// at all.
pub proof fn lemma_unpack_within(dest: Seq<u8>, entries: Seq<(Seq<u8>, Seq<u8>)>)
    ensures
        forall|k: int|
            0 <= k < unpack_actions(dest, entries).len() ==> within_dest(
                dest,
                (#[trigger] unpack_actions(dest, entries)[k]).path(),
            ),
    decreases entries.len(),
{
    if entries.len() > 0 {
        let name = entries[0].0;
        let data = entries[0].1;
        let rest = entries.subrange(1, entries.len() as int);
        lemma_unpack_within(dest, rest);
        assert forall|k: int|
            0 <= k < entry_actions(dest, name, data).len() implies within_dest(
            dest,
            (#[trigger] entry_actions(dest, name, data)[k]).path(),
        ) by {
            if safe_name(name) {
                if is_dir_name(name) {
                    assert(entry_actions(dest, name, data)[k].path() == joined(dest, name));
                } else {
                    lemma_last_slash(name);
                    if k == 0 {
                        if last_slash(name) >= 0 {
                            let j = last_slash(name);
                            assert(j != 0);
                            lemma_safe_prefix(name, j);
                            assert(entry_actions(dest, name, data)[0].path() == joined(
                                dest,
                                name.subrange(0, j),
                            ));
                        } else {
                            assert(entry_actions(dest, name, data)[0].path() == dest);
                        }
                    } else {
                        assert(entry_actions(dest, name, data)[1].path() == joined(dest, name));
                    }
                }
            }
        }
        assert forall|k: int|
            0 <= k < unpack_actions(dest, entries).len() implies within_dest(
            dest,
            (#[trigger] unpack_actions(dest, entries)[k]).path(),
        ) by {
            let head = entry_actions(dest, name, data);
            if k < head.len() {
                assert(unpack_actions(dest, entries)[k] == head[k]);
            } else {
                assert(unpack_actions(dest, entries)[k] == unpack_actions(dest, rest)[k
                    - head.len()]);
            }
        }
    }
}

/// Completeness: every file entry of the archive whose recorded name is safe
/// has its contents written, in full, at that name joined under the
/// destination. The extracted tree thus contains every safely named file of
/// the source archive.
pub proof fn lemma_unpack_complete(dest: Seq<u8>, entries: Seq<(Seq<u8>, Seq<u8>)>)
    ensures
        forall|k: int|
            0 <= k < entries.len() && safe_name((#[trigger] entries[k]).0) && !is_dir_name(
                entries[k].0,
            ) ==> unpack_actions(dest, entries).contains(
                FsActionSpec::WriteFile { path: joined(dest, entries[k].0), data: entries[k].1 },
            ),
    decreases entries.len(),
{
    if entries.len() > 0 {
        let name = entries[0].0;
        let data = entries[0].1;
        let rest = entries.subrange(1, entries.len() as int);
        lemma_unpack_complete(dest, rest);
        let head = entry_actions(dest, name, data);
        let whole = unpack_actions(dest, entries);
        assert forall|k: int|
            0 <= k < entries.len() && safe_name((#[trigger] entries[k]).0) && !is_dir_name(
                entries[k].0,
            ) implies whole.contains(
            FsActionSpec::WriteFile { path: joined(dest, entries[k].0), data: entries[k].1 },
        ) by {
            let w = FsActionSpec::WriteFile { path: joined(dest, entries[k].0), data: entries[k].1 };
            if k == 0 {
                assert(head[1] == w);
                assert(whole[1] == w);
            } else {
                assert(entries[k] == rest[k - 1]);
                assert(unpack_actions(dest, rest).contains(w));
                let j = choose|j: int|
                    0 <= j < unpack_actions(dest, rest).len() && unpack_actions(dest, rest)[j] == w;
                assert(whole[head.len() + j] == w);
            }
        }
    }
}

} // verus!
