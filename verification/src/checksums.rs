//! SHA-256 checksums of the files of a document container, and the manifest
//! that records them.

use vstd::prelude::*;

use crate::error::OpenCadError;

verus! {

/// The SHA-256 digest of `data`.
pub uninterp spec fn sha256_spec(data: Seq<u8>) -> Seq<u8>;

/// `sha2::Sha256::digest`: the 32-byte SHA-256 digest of `data`.  The
/// contract names the digest and states its length; the hash function itself
/// is not restated.
#[verifier::external_body]
fn sha256_digest(data: &[u8]) -> (digest: Vec<u8>)
    ensures
        digest@ == sha256_spec(data@),
        digest@.len() == 32,
{
    <sha2::Sha256 as sha2::Digest>::digest(data).to_vec()
}

/// The lower-case hexadecimal digit for `d` (below sixteen).
pub open spec fn hex_digit(d: int) -> char {
    if d < 10 {
        (('0' as int) + d) as char
    } else {
        (('a' as int) + d - 10) as char
    }
}

/// Two lower-case hexadecimal digits per byte, most significant first.
pub open spec fn hex_lower(bytes: Seq<u8>) -> Seq<char>
    decreases bytes.len(),
{
    if bytes.len() == 0 {
        Seq::empty()
    } else {
        hex_lower(bytes.drop_last()) + seq![
            hex_digit(bytes.last() as int / 16),
            hex_digit(bytes.last() as int % 16),
        ]
    }
}

/// The checksum text of `data`: its SHA-256 digest in lower-case hex.
pub open spec fn checksum_text(data: Seq<u8>) -> Seq<char> {
    hex_lower(sha256_spec(data))
}

/// Hex text has two digits per byte.
pub proof fn lemma_hex_len(bytes: Seq<u8>)
    ensures
        hex_lower(bytes).len() == 2 * bytes.len(),
    decreases bytes.len(),
{
    if bytes.len() > 0 {
        lemma_hex_len(bytes.drop_last());
    }
}

fn hex_char(d: u8) -> (c: char)
    requires
        d < 16,
    ensures
        c == hex_digit(d as int),
{
    if d < 10 {
        ((48u8 + d) as char)
    } else {
        ((87u8 + d) as char)
    }
}

/// The SHA-256 digest of `data` as 64 lower-case hexadecimal digits.
pub fn sha256_hex(data: &[u8]) -> (s: String)
    ensures
        s@ == checksum_text(data@),
        s@.len() == 64,
{
    let digest = sha256_digest(data);
    let mut s = String::new();
    let mut i: usize = 0;
    while i < digest.len()
        invariant
            i <= digest@.len(),
            s@ == hex_lower(digest@.subrange(0, i as int)),
        decreases digest@.len() - i,
    {
        let b = digest[i];
        assert(digest@.subrange(0, i + 1).drop_last() =~= digest@.subrange(0, i as int));
        s.push(hex_char(b / 16));
        s.push(hex_char(b % 16));
        i = i + 1;
        assert(s@ =~= hex_lower(digest@.subrange(0, i as int)));
    }
    assert(digest@.subrange(0, digest@.len() as int) =~= digest@);
    proof {
        lemma_hex_len(digest@);
    }
    s
}

/// The files of a container as paths and contents.
pub open spec fn files_view(files: Seq<(String, Vec<u8>)>) -> Seq<(Seq<char>, Seq<u8>)> {
    files.map_values(|f: (String, Vec<u8>)| (f.0@, f.1@))
}

/// The entries of a checksum manifest as paths and checksum texts.
pub open spec fn entries_view(entries: Seq<(String, String)>) -> Seq<(Seq<char>, Seq<char>)> {
    entries.map_values(|e: (String, String)| (e.0@, e.1@))
}

/// No path occurs twice.
pub open spec fn paths_unique(files: Seq<(Seq<char>, Seq<u8>)>) -> bool {
    forall|i: int, j: int| 0 <= i < j < files.len() ==> files[i].0 != files[j].0
}

/// The contents stored under `path`: those of the first file with that path.
pub open spec fn lookup(files: Seq<(Seq<char>, Seq<u8>)>, path: Seq<char>) -> Option<Seq<u8>>
    decreases files.len(),
{
    if files.len() == 0 {
        None
    } else if files[0].0 == path {
        Some(files[0].1)
    } else {
        lookup(files.drop_first(), path)
    }
}

/// The manifest entries of `files`: each path with the checksum of its contents.
pub open spec fn manifest_entries(files: Seq<(Seq<char>, Seq<u8>)>) -> Seq<(Seq<char>, Seq<char>)> {
    files.map_values(|f: (Seq<char>, Seq<u8>)| (f.0, checksum_text(f.1)))
}

/// An entry holds when its file is present and has the recorded checksum.
pub open spec fn entry_holds(entry: (Seq<char>, Seq<char>), files: Seq<(Seq<char>, Seq<u8>)>) -> bool {
    match lookup(files, entry.0) {
        Some(bytes) => checksum_text(bytes) == entry.1,
        None => false,
    }
}

/// Every entry of the manifest holds.
pub open spec fn all_entries_hold(entries: Seq<(Seq<char>, Seq<char>)>, files: Seq<(Seq<char>, Seq<u8>)>) -> bool {
    forall|k: int| 0 <= k < entries.len() ==> #[trigger] entry_holds(entries[k], files)
}

/// The error reported for an entry that does not hold.
pub open spec fn entry_error(entry: (Seq<char>, Seq<char>), files: Seq<(Seq<char>, Seq<u8>)>, e: OpenCadError) -> bool {
    match lookup(files, entry.0) {
        None => e matches OpenCadError::Validation(m) && m@ == "checksum entry missing file '"@ + entry.0 + "'"@,
        Some(bytes) => e matches OpenCadError::ChecksumMismatch { expected, actual } && expected@ == entry.1
            && actual@ == checksum_text(bytes),
    }
}

/// Whether `b` first differs from `a` at position `i`, by a larger
/// character or by going on where `a` has ended.
pub open spec fn first_smaller_at(a: Seq<char>, b: Seq<char>, i: int) -> bool {
    &&& 0 <= i <= a.len()
    &&& i < b.len()
    &&& forall|k: int| 0 <= k < i ==> a[k] == b[k]
    &&& i < a.len() ==> (a[i] as u32) < (b[i] as u32)
}

/// Whether text `a` comes strictly before text `b`, character by character:
/// the order of `String`'s `Ord`.
pub open spec fn text_less(a: Seq<char>, b: Seq<char>) -> bool {
    exists|i: int| #[trigger] first_smaller_at(a, b, i)
}

/// Whether `paths` are in strictly increasing order, which also makes them
/// all different.
pub open spec fn paths_in_order(paths: Seq<Seq<char>>) -> bool {
    forall|i: int, j: int| 0 <= i < j < paths.len() ==> text_less(#[trigger] paths[i], #[trigger] paths[j])
}

/// Whether the paths at `k` and `k + 1` are in order.
pub open spec fn adjacent_in_order(paths: Seq<Seq<char>>, k: int) -> bool {
    text_less(paths[k], paths[k + 1])
}

/// The paths of a list of files.
pub open spec fn file_paths(files: Seq<(Seq<char>, Seq<u8>)>) -> Seq<Seq<char>> {
    files.map_values(|f: (Seq<char>, Seq<u8>)| f.0)
}

/// The paths of a list of manifest entries.
pub open spec fn entry_paths(entries: Seq<(Seq<char>, Seq<char>)>) -> Seq<Seq<char>> {
    entries.map_values(|e: (Seq<char>, Seq<char>)| e.0)
}

/// No text comes before itself.
pub proof fn lemma_text_less_irreflexive(a: Seq<char>)
    ensures
        !text_less(a, a),
{
    if text_less(a, a) {
        let i = choose|i: int| #[trigger] first_smaller_at(a, a, i);
        assert(i < a.len());
    }
}

/// The order of texts is transitive.
pub proof fn lemma_text_less_transitive(a: Seq<char>, b: Seq<char>, c: Seq<char>)
    requires
        text_less(a, b),
        text_less(b, c),
    ensures
        text_less(a, c),
{
    let i = choose|i: int| #[trigger] first_smaller_at(a, b, i);
    let j = choose|j: int| #[trigger] first_smaller_at(b, c, j);
    if i <= j {
        if i == j && i < a.len() {
            assert((a[i] as u32) < (b[i] as u32));
        }
        assert(first_smaller_at(a, c, i));
    } else {
        assert(a[j] == b[j]);
        assert(first_smaller_at(a, c, j));
    }
}

/// Paths in order pairwise follow from each path coming before the next.
pub proof fn lemma_paths_in_order(paths: Seq<Seq<char>>)
    requires
        forall|k: int| 0 <= k < paths.len() - 1 ==> #[trigger] adjacent_in_order(paths, k),
    ensures
        paths_in_order(paths),
    decreases paths.len(),
{
    if paths.len() > 1 {
        let rest = paths.drop_last();
        assert forall|k: int| 0 <= k < rest.len() - 1 implies #[trigger] adjacent_in_order(rest, k) by {
            assert(adjacent_in_order(paths, k));
        }
        lemma_paths_in_order(rest);
        let last = paths.len() - 1;
        assert forall|i: int, j: int| 0 <= i < j < paths.len() implies text_less(
            #[trigger] paths[i],
            #[trigger] paths[j],
        ) by {
            if j < last {
                assert(text_less(rest[i], rest[j]));
            } else if i < last - 1 {
                assert(text_less(rest[i], rest[last - 1]));
                assert(adjacent_in_order(paths, last - 1));
                lemma_text_less_transitive(paths[i], paths[last - 1], paths[j]);
            } else {
                assert(adjacent_in_order(paths, last - 1));
            }
        }
    }
}

/// Paths in order are all different.
pub proof fn lemma_paths_in_order_unique(paths: Seq<Seq<char>>, i: int, j: int)
    requires
        paths_in_order(paths),
        0 <= i < j < paths.len(),
    ensures
        paths[i] != paths[j],
{
    assert(text_less(paths[i], paths[j]));
    lemma_text_less_irreflexive(paths[i]);
}

/// Checksum manifest for the files inside a document container.
///
/// The entries are a list of (path, checksum) that, as a map keyed by path,
/// keeps its paths unique and in increasing order (`well_formed`).  A
/// `BTreeMap` keyed by path would say nothing here: its specifications hold
/// only for keys whose ordering is specified, and `String`'s is not.
#[derive(Debug, Clone, PartialEq, Eq)]
pub struct ChecksumManifest {
    pub algorithm: String,
    pub files: Vec<(String, String)>,
}

/// The contents stored under `path` in `files`.
pub fn find_file<'a>(files: &'a Vec<(String, Vec<u8>)>, path: &str) -> (r: Option<&'a Vec<u8>>)
    ensures
        match lookup(files_view(files@), path@) {
            Some(bytes) => r matches Some(b) && b@ == bytes,
            None => r is None,
        },
{
    let ghost all = files_view(files@);
    let n = files.len();
    let mut i: usize = 0;
    assert(all.subrange(0, n as int) =~= all);
    while i < n
        invariant
            n == files@.len(),
            all == files_view(files@),
            all.len() == n,
            i <= n,
            lookup(all, path@) == lookup(all.subrange(i as int, n as int), path@),
        decreases n - i,
    {
        let ghost rest = all.subrange(i as int, n as int);
        assert(rest.drop_first() =~= all.subrange(i + 1, n as int));
        assert(rest[0] == all[i as int]);
        assert(all[i as int] == (files@[i as int].0@, files@[i as int].1@));
        if files[i].0.as_str().eq(path) {
            return Some(&files[i].1);
        }
        i = i + 1;
    }
    None
}

impl ChecksumManifest {
    /// Whether the manifest's paths are unique and in increasing order, as
    /// the keys of a map are.
    pub open spec fn well_formed(&self) -> bool {
        paths_in_order(entry_paths(entries_view(self.files@)))
    }

    /// The manifest of `paths`: every file with the SHA-256 checksum of its
    /// contents, in the order given; files in path order give a well-formed
    /// manifest.
    pub fn compute(paths: &Vec<(String, Vec<u8>)>) -> (m: Self)
        ensures
            m.algorithm@ == "sha256"@,
            entries_view(m.files@) == manifest_entries(files_view(paths@)),
            paths_in_order(file_paths(files_view(paths@))) ==> m.well_formed(),
    {
        let n = paths.len();
        let mut files: Vec<(String, String)> = Vec::new();
        let mut i: usize = 0;
        while i < n
            invariant
                n == paths@.len(),
                i <= n,
                entries_view(files@) =~= manifest_entries(files_view(paths@.subrange(0, i as int))),
            decreases n - i,
        {
            let path = paths[i].0.clone();
            let checksum = sha256_hex(paths[i].1.as_slice());
            let ghost before = files@;
            files.push((path, checksum));
            proof {
                assert(paths@.subrange(0, i + 1) =~= paths@.subrange(0, i as int).push(paths@[i as int]));
                assert(files@ =~= before.push((path, checksum)));
                assert(files_view(paths@.subrange(0, i + 1)) =~= files_view(paths@.subrange(0, i as int)).push((paths@[i as int].0@, paths@[i as int].1@)));
                assert(entries_view(files@) =~= entries_view(before).push((path@, checksum@)));
            }
            i = i + 1;
        }
        assert(paths@.subrange(0, n as int) =~= paths@);
        assert(entry_paths(entries_view(files@)) =~= file_paths(files_view(paths@)));
        ChecksumManifest { algorithm: "sha256".to_owned(), files }
    }

    /// Check every entry against `paths`, in order: the first entry whose
    /// file is missing, or whose contents have another checksum, is reported.
    pub fn verify(&self, paths: &Vec<(String, Vec<u8>)>) -> (r: Result<(), OpenCadError>)
        ensures
            r is Ok <==> all_entries_hold(entries_view(self.files@), files_view(paths@)),
            r matches Err(e) ==> exists|k: int|
                0 <= k < self.files@.len() && (forall|j: int| 0 <= j < k ==> #[trigger] entry_holds(
                    entries_view(self.files@)[j],
                    files_view(paths@),
                )) && entry_error(entries_view(self.files@)[k], files_view(paths@), e),
    {
        let ghost entries = entries_view(self.files@);
        let ghost all = files_view(paths@);
        let n = self.files.len();
        let mut k: usize = 0;
        while k < n
            invariant
                n == self.files@.len(),
                entries == entries_view(self.files@),
                all == files_view(paths@),
                k <= n,
                forall|j: int| 0 <= j < k ==> #[trigger] entry_holds(entries[j], all),
            decreases n - k,
        {
            let path = self.files[k].0.as_str();
            let expected = &self.files[k].1;
            assert(entries[k as int] == (self.files@[k as int].0@, self.files@[k as int].1@));
            match find_file(paths, path) {
                None => {
                    let mut message = "checksum entry missing file '".to_owned();
                    message.push_str(path);
                    message.push_str("'");
                    assert(!entry_holds(entries[k as int], all));
                    return Err(OpenCadError::Validation(message));
                },
                Some(bytes) => {
                    let actual = sha256_hex(bytes.as_slice());
                    if !actual.as_str().eq(expected.as_str()) {
                        assert(!entry_holds(entries[k as int], all));
                        return Err(OpenCadError::ChecksumMismatch { expected: expected.clone(), actual });
                    }
                    assert(entry_holds(entries[k as int], all));
                },
            }
            k = k + 1;
        }
        Ok(())
    }
}

/// With distinct paths, the contents found under the `k`-th path are those
/// of the `k`-th file.
pub proof fn lemma_lookup_unique(files: Seq<(Seq<char>, Seq<u8>)>, k: int)
    requires
        paths_unique(files),
        0 <= k < files.len(),
    ensures
        lookup(files, files[k].0) == Some(files[k].1),
    decreases files.len(),
{
    if k > 0 {
        let rest = files.drop_first();
        assert(files[0].0 != files[k].0);
        assert(rest[k - 1] == files[k]);
        lemma_lookup_unique(rest, k - 1);
    }
}

/// A manifest computed from a set of files verifies against those same files.
pub proof fn lemma_computed_manifest_verifies(files: Seq<(Seq<char>, Seq<u8>)>)
    requires
        paths_unique(files),
    ensures
        all_entries_hold(manifest_entries(files), files),
{
    assert forall|k: int| 0 <= k < manifest_entries(files).len() implies #[trigger] entry_holds(manifest_entries(files)[k], files) by {
        lemma_lookup_unique(files, k);
    }
}

/// A manifest catches a file changed after it was computed: its entry no
/// longer holds, and the error reports the recorded checksum as expected and
/// the changed file's checksum as actual.
pub proof fn lemma_changed_file_is_reported(files: Seq<(Seq<char>, Seq<u8>)>, k: int, bytes: Seq<u8>, e: OpenCadError)
    requires
        paths_unique(files),
        0 <= k < files.len(),
        checksum_text(bytes) != checksum_text(files[k].1),
        entry_error(manifest_entries(files)[k], files.update(k, (files[k].0, bytes)), e),
    ensures
        !all_entries_hold(manifest_entries(files), files.update(k, (files[k].0, bytes))),
        e matches OpenCadError::ChecksumMismatch { expected, actual } && expected@ == checksum_text(files[k].1)
            && actual@ == checksum_text(bytes),
{
    let changed = files.update(k, (files[k].0, bytes));
    assert forall|i: int, j: int| 0 <= i < j < changed.len() implies changed[i].0 != changed[j].0 by {
        assert(files[i].0 != files[j].0);
    }
    lemma_lookup_unique(changed, k);
    assert(!entry_holds(manifest_entries(files)[k], changed));
}

/// A manifest catches a file removed after it was computed: the error names
/// the missing path.
pub proof fn lemma_removed_file_is_reported(files: Seq<(Seq<char>, Seq<u8>)>, k: int, e: OpenCadError)
    requires
        paths_unique(files),
        0 <= k < files.len(),
        entry_error(manifest_entries(files)[k], files.remove(k), e),
    ensures
        !all_entries_hold(manifest_entries(files), files.remove(k)),
        e matches OpenCadError::Validation(m) && m@ == "checksum entry missing file '"@ + files[k].0 + "'"@,
{
    let rest = files.remove(k);
    assert(lookup(rest, files[k].0) is None) by {
        lemma_lookup_absent(rest, files[k].0);
        assert forall|i: int| 0 <= i < rest.len() implies rest[i].0 != files[k].0 by {
            if i < k {
                assert(rest[i] == files[i]);
            } else {
                assert(rest[i] == files[i + 1]);
            }
        }
    }
    assert(!entry_holds(manifest_entries(files)[k], rest));
}

/// A path that no file has is looked up as absent.
proof fn lemma_lookup_absent(files: Seq<(Seq<char>, Seq<u8>)>, path: Seq<char>)
    ensures
        (forall|i: int| 0 <= i < files.len() ==> files[i].0 != path) ==> lookup(files, path) is None,
    decreases files.len(),
{
    if files.len() > 0 {
        lemma_lookup_absent(files.drop_first(), path);
        if forall|i: int| 0 <= i < files.len() ==> files[i].0 != path {
            assert(files[0].0 != path);
            assert forall|i: int| 0 <= i < files.drop_first().len() implies files.drop_first()[i].0 != path by {
                assert(files.drop_first()[i] == files[i + 1]);
            }
        }
    }
}

} // verus!
