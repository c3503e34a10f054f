//! Path text helpers, case-insensitive name resolution, and the
//! changed-files comparator.

use vstd::prelude::*;

verus! {

// ---------------------------------------------------------------------------
// Path text model
//
// Paths are plain strings here; a path is a sequence of components separated
// by `/`.
// ---------------------------------------------------------------------------
/// `base` with `child` appended as one more component: a single `/` separates
/// them unless `base` already ends in one.
pub open spec fn join_path(base: Seq<char>, child: Seq<char>) -> Seq<char> {
    if base.len() > 0 && base.last() == '/' {
        base + child
    } else {
        base + seq!['/'] + child
    }
}

/// The text after the last `/` of `p` (all of `p` when it has no `/`;
/// empty when `p` ends in `/` or is empty).
pub open spec fn tail_component(p: Seq<char>) -> Seq<char>
    decreases p.len(),
{
    if p.len() == 0 {
        Seq::empty()
    } else if p.last() == '/' {
        Seq::empty()
    } else {
        tail_component(p.drop_last()) + seq![p.last()]
    }
}

/// The file-name component of `p`: the text after its last `/`, or `None`
/// when that text is empty or is one of the relative markers `.` and `..`.
pub open spec fn basename_of(p: Seq<char>) -> Option<Seq<char>> {
    let t = tail_component(p);
    if t.len() == 0 || t == seq!['.'] || t == seq!['.', '.'] {
        None
    } else {
        Some(t)
    }
}

/// When every character from `k` on is a non-separator and `k` sits right
/// after a `/` (or at the start), the tail component is exactly `p[k..]`.
proof fn lemma_tail_component_from(p: Seq<char>, k: int)
    requires
        0 <= k <= p.len(),
        forall|j: int| k <= j < p.len() ==> p[j] != '/',
        k > 0 ==> p[k - 1] == '/',
    ensures
        tail_component(p) == p.subrange(k, p.len() as int),
    decreases p.len(),
{
    if k == p.len() {
        if p.len() > 0 {
            assert(p.last() == '/');
        }
        assert(tail_component(p) =~= p.subrange(k, p.len() as int));
    } else {
        assert(p.last() != '/');
        lemma_tail_component_from(p.drop_last(), k);
        assert(tail_component(p) =~= p.subrange(k, p.len() as int));
    }
}

/// Append `child` to `base` as one more path component.
pub fn join_component(base: &str, child: &str) -> (r: String)
    ensures
        r@ == join_path(base@, child@),
{
    let n = base.unicode_len();
    let mut out = String::from_str(base);
    if n == 0 || base.get_char(n - 1) != '/' {
        proof {
            reveal_strlit("/");
        }
        out.append("/");
    }
    out.append(child);
    proof {
        assert(out@ =~= join_path(base@, child@));
    }
    out
}

/// The file-name component of `p`, as [`basename_of`] describes it.
pub fn basename(p: &str) -> (r: Option<String>)
    ensures
        match r {
            Some(s) => basename_of(p@) == Some(s@),
            None => basename_of(p@) is None,
        },
{
    let n = p.unicode_len();
    let mut k: usize = n;
    while k > 0 && p.get_char(k - 1) != '/'
        invariant
            0 <= k <= n,
            n == p@.len(),
            forall|j: int| k <= j < n ==> p@[j] != '/',
        decreases k,
    {
        k = k - 1;
    }
    proof {
        lemma_tail_component_from(p@, k as int);
    }
    let tail = p.substring_char(k, n);
    let len: usize = n - k;
    proof {
        reveal_strlit(".");
        reveal_strlit("..");
        assert(tail@ =~= tail_component(p@));
        assert(tail@.len() == len);
    }
    if len == 0 {
        return None;
    }
    if len == 1 && tail.get_char(0) == '.' {
        proof {
            assert(tail@ =~= seq!['.']);
        }
        return None;
    }
    if len == 2 && tail.get_char(0) == '.' && tail.get_char(1) == '.' {
        proof {
            assert(tail@ =~= seq!['.', '.']);
        }
        return None;
    }
    proof {
        assert(tail@ != seq!['.'] && tail@ != seq!['.', '.']) by {
            if tail@ == seq!['.'] {
                assert(tail@.len() == 1 && tail@[0] == '.');
            }
            if tail@ == seq!['.', '.'] {
                assert(tail@.len() == 2 && tail@[0] == '.' && tail@[1] == '.');
            }
        }
    }
    Some(String::from_str(tail))
}

// ---------------------------------------------------------------------------
// Case-insensitive name resolution
// ---------------------------------------------------------------------------
/// What `str::to_lowercase` returns for a string with these characters.
pub uninterp spec fn lower_of(s: Seq<char>) -> Seq<char>;

/// Relies on `str::to_lowercase`: the result depends on the characters of
/// `s` alone.
#[verifier::external_body]
fn fold_case(s: &str) -> (r: String)
    ensures
        r@ == lower_of(s@),
{
    s.to_lowercase()
}

/// The first of `entries` that equals `name` under case folding, if any.
pub open spec fn folded_match(entries: Seq<Seq<char>>, name: Seq<char>) -> Option<Seq<char>>
    decreases entries.len(),
{
    if entries.len() == 0 {
        None
    } else if lower_of(entries[0]) == lower_of(name) {
        Some(entries[0])
    } else {
        folded_match(entries.drop_first(), name)
    }
}

/// When none of the first `i` entries matches, the match over all of
/// `entries` is the match over the rest.
proof fn lemma_folded_match_skip(entries: Seq<Seq<char>>, name: Seq<char>, i: int)
    requires
        0 <= i <= entries.len(),
        forall|j: int| 0 <= j < i ==> lower_of(entries[j]) != lower_of(name),
    ensures
        folded_match(entries, name) == folded_match(entries.skip(i), name),
    decreases i,
{
    if i == 0 {
        assert(entries.skip(0) =~= entries);
    } else {
        lemma_folded_match_skip(entries.drop_first(), name, i - 1);
        assert(entries.drop_first().skip(i - 1) =~= entries.skip(i));
    }
}

/// The names of a vector of strings, as character sequences.
pub open spec fn string_views(entries: Seq<String>) -> Seq<Seq<char>> {
    entries.map_values(|e: String| e@)
}

/// Case-insensitive path joining for FAT-style targets, respecting existing
/// entries of the base directory.
///
/// The caller supplies the names found in the directory; a name that could
/// not be listed or decoded is simply left out of `entries`.
pub trait PathExt {
    /// The joined path as a function of the directory's entry names: `name`
    /// appended to `self`, but spelled as the first case-insensitive match
    /// among `entries` when there is one.
    spec fn spec_join_insensitive(&self, entries: Seq<Seq<char>>, name: Seq<char>) -> Seq<char>;

    /// Join `name` onto `self`, reusing the on-disk casing of the first
    /// entry of `entries` that matches `name` case-insensitively.
    fn join_insensitive(&self, entries: &Vec<String>, name: &String) -> (r: String)
        ensures
            r@ == self.spec_join_insensitive(string_views(entries@), name@),
    ;
}

impl PathExt for String {
    open spec fn spec_join_insensitive(&self, entries: Seq<Seq<char>>, name: Seq<char>) -> Seq<
        char,
    > {
        match folded_match(entries, name) {
            Some(existing) => join_path(self@, existing),
            None => join_path(self@, name),
        }
    }

    fn join_insensitive(&self, entries: &Vec<String>, name: &String) -> (r: String)
        ensures
            r@ == self.spec_join_insensitive(string_views(entries@), name@),
    {
        let folded_name = fold_case(name.as_str());
        let ghost views = string_views(entries@);
        let mut i: usize = 0;
        while i < entries.len()
            invariant
                0 <= i <= entries.len(),
                views == string_views(entries@),
                folded_name@ == lower_of(name@),
                forall|j: int| 0 <= j < i ==> lower_of(views[j]) != lower_of(name@),
            decreases entries.len() - i,
        {
            let folded_entry = fold_case(entries[i].as_str());
            if folded_entry == folded_name {
                proof {
                    lemma_folded_match_skip(views, name@, i as int);
                    assert(views.skip(i as int)[0] == views[i as int]);
                    assert(folded_match(views, name@) == Some(views[i as int]));
                }
                return join_component(self.as_str(), entries[i].as_str());
            }
            i = i + 1;
        }
        proof {
            lemma_folded_match_skip(views, name@, entries@.len() as int);
            assert(views.skip(entries@.len() as int) =~= Seq::<Seq<char>>::empty());
        }
        join_component(self.as_str(), name.as_str())
    }
}

// ---------------------------------------------------------------------------
// Changed-files comparator
//
// Callers probe the filesystem themselves and hand in, per path, the cheap
// metadata below (or `None` where open/stat failed). Content is consulted
// only when that metadata is not already decisive, through a blake3 digest
// of the file's bytes.
// ---------------------------------------------------------------------------
/// The file type of a path, as far as the comparator cares.
#[derive(PartialEq, Eq, Structural, Clone, Copy, Debug)]
pub enum FileKind {
    Regular,
    Directory,
    Symlink,
    Other,
}

/// Cheap per-file metadata: byte size and file type.
#[derive(Clone, Copy, Debug)]
pub struct FileMeta {
    pub size: u64,
    pub kind: FileKind,
}

/// Both sides could be probed and agree in size and file type; only then is
/// content worth consulting.
pub open spec fn metas_match(a: Option<FileMeta>, b: Option<FileMeta>) -> bool {
    a matches Some(ma) && b matches Some(mb) && ma.size == mb.size && ma.kind == mb.kind
}

/// Whether a pair is reported as changed, given its metadata and, when the
/// metadata is not decisive, the digests computed of each side (`None` where
/// digesting failed).
///
/// A pair whose metadata is decisive is changed whatever the digests say;
/// otherwise it is changed unless both digests are present and equal. An
/// unreadable side is thus conservatively treated as changed, never as
/// identical.
pub open spec fn spec_pair_changed(
    ma: Option<FileMeta>,
    mb: Option<FileMeta>,
    da: Option<Seq<u8>>,
    db: Option<Seq<u8>>,
) -> bool {
    if !metas_match(ma, mb) {
        true
    } else {
        !(da matches Some(x) && db matches Some(y) && x == y)
    }
}

/// The digest values, forgetting the vectors that carry them.
pub open spec fn digest_view(d: Option<Vec<u8>>) -> Option<Seq<u8>> {
    match d {
        Some(v) => Some(v@),
        None => None,
    }
}

/// True when the pair's metadata already decides the comparison: a side
/// unreadable, sizes differing, or file types differing.
pub fn metas_decisive(a: &Option<FileMeta>, b: &Option<FileMeta>) -> (r: bool)
    ensures
        r == !metas_match(*a, *b),
{
    match (a, b) {
        (Some(x), Some(y)) => !(x.size == y.size && x.kind == y.kind),
        _ => true,
    }
}

/// Byte-for-byte equality of two digests.
pub fn digests_equal(a: &Vec<u8>, b: &Vec<u8>) -> (r: bool)
    ensures
        r == (a@ == b@),
{
    if a.len() != b.len() {
        return false;
    }
    let mut i: usize = 0;
    while i < a.len()
        invariant
            0 <= i <= a@.len(),
            a@.len() == b@.len(),
            forall|j: int| 0 <= j < i ==> a@[j] == b@[j],
        decreases a@.len() - i,
    {
        if a[i] != b[i] {
            return false;
        }
        i = i + 1;
    }
    proof {
        assert(a@ =~= b@);
    }
    true
}

/// Relies on `blake3::Hasher::update_mmap_rayon` and `blake3::Hasher::finalize`:
/// digests the bytes of the file at `path` (memory-mapped, chunk-parallel),
/// returning the 32-byte digest, or `None` when the file cannot be opened or
/// read.
#[verifier::external_body]
fn hash_file(path: &String) -> (r: Option<Vec<u8>>)
    ensures
        r matches Some(d) ==> d@.len() == 32,
{
    let mut hasher = blake3::Hasher::new();
    match hasher.update_mmap_rayon(std::path::Path::new(path.as_str())) {
        Ok(_) => Some(hasher.finalize().as_bytes().to_vec()),
        Err(_) => None,
    }
}

/// Decide one pair from its probed metadata and digests, exactly as
/// [`spec_pair_changed`] states.
pub fn pair_changed(
    ma: &Option<FileMeta>,
    mb: &Option<FileMeta>,
    da: &Option<Vec<u8>>,
    db: &Option<Vec<u8>>,
) -> (r: bool)
    ensures
        r == spec_pair_changed(*ma, *mb, digest_view(*da), digest_view(*db)),
{
    if metas_decisive(ma, mb) {
        true
    } else {
        match (da, db) {
            (Some(x), Some(y)) => !digests_equal(x, y),
            _ => true,
        }
    }
}

/// An identical pair — metadata matching, digests present and equal — is
/// never reported as changed.
pub proof fn lemma_identical_pair_excluded(
    ma: Option<FileMeta>,
    mb: Option<FileMeta>,
    da: Seq<u8>,
    db: Seq<u8>,
)
    requires
        metas_match(ma, mb),
        da == db,
    ensures
        !spec_pair_changed(ma, mb, Some(da), Some(db)),
{
}

/// A pair whose metadata is already decisive is reported as changed whatever
/// digests its contents would give: content never needs to be consulted.
pub proof fn lemma_decisive_pair_included(
    ma: Option<FileMeta>,
    mb: Option<FileMeta>,
    da: Option<Seq<u8>>,
    db: Option<Seq<u8>>,
)
    requires
        !metas_match(ma, mb),
    ensures
        spec_pair_changed(ma, mb, da, db),
{
}

/// The (source, destination) texts of a sequence of path pairs.
pub open spec fn pair_views(s: Seq<(String, String)>) -> Seq<(Seq<char>, Seq<char>)> {
    s.map_values(|p: (String, String)| (p.0@, p.1@))
}

/// Each element is larger than the one before it.
pub open spec fn strictly_increasing(s: Seq<int>) -> bool {
    forall|i: int, j: int| 0 <= i < j < s.len() ==> s[i] < s[j]
}

/// `out` selects, via the strictly increasing indices `picks`, a subsequence
/// of `files` — relative input order preserved — that contains every pair
/// whose metadata alone is decisive.
pub open spec fn changed_selection(
    files: Seq<(Seq<char>, Seq<char>)>,
    metas: Seq<(Option<FileMeta>, Option<FileMeta>)>,
    picks: Seq<int>,
    out: Seq<(Seq<char>, Seq<char>)>,
) -> bool {
    &&& strictly_increasing(picks)
    &&& forall|k: int| 0 <= k < picks.len() ==> 0 <= #[trigger] picks[k] < files.len()
    &&& out == picks.map_values(|j: int| files[j])
    &&& forall|i: int|
        0 <= i < metas.len() && !metas_match(metas[i].0, metas[i].1) ==> picks.contains(i)
}

/// Find out which pairs in the set changed.
///
/// `files` holds (source, destination) path pairs; `metas` holds, at the same
/// index, the probed metadata of each side (`None` where open/stat failed).
/// Returns, in input order, the pairs known to differ: those whose metadata
/// is decisive — included without reading content — and those whose blake3
/// digests could not both be computed or came out unequal.
pub fn changed_files(
    files: &Vec<(String, String)>,
    metas: &Vec<(Option<FileMeta>, Option<FileMeta>)>,
) -> (r: Vec<(String, String)>)
    requires
        files@.len() == metas@.len(),
    ensures
        exists|picks: Seq<int>|
            changed_selection(pair_views(files@), metas@, picks, pair_views(r@)),
{
    let ghost fviews = pair_views(files@);
    let mut out: Vec<(String, String)> = Vec::new();
    let ghost mut picks: Seq<int> = Seq::empty();
    let mut i: usize = 0;
    while i < files.len()
        invariant
            files@.len() == metas@.len(),
            0 <= i <= files@.len(),
            fviews == pair_views(files@),
            strictly_increasing(picks),
            forall|k: int| 0 <= k < picks.len() ==> 0 <= #[trigger] picks[k] < i,
            pair_views(out@) == picks.map_values(|j: int| fviews[j]),
            forall|t: int|
                0 <= t < i && !metas_match(metas@[t].0, metas@[t].1) ==> picks.contains(t),
        decreases files@.len() - i,
    {
        let m = metas[i];
        let keep_pair: bool;
        if metas_decisive(&m.0, &m.1) {
            keep_pair = true;
        } else {
            let da = hash_file(&files[i].0);
            let db = hash_file(&files[i].1);
            keep_pair = pair_changed(&m.0, &m.1, &da, &db);
        }
        if keep_pair {
            let pair = &files[i];
            let ghost old_out = out@;
            let ghost old_picks = picks;
            out.push((pair.0.clone(), pair.1.clone()));
            proof {
                picks = old_picks.push(i as int);
                assert forall|t: int|
                    0 <= t < i + 1 && !metas_match(metas@[t].0, metas@[t].1) implies picks.contains(
                    t,
                ) by {
                    if t < i {
                        assert(old_picks.contains(t));
                        let k = choose|k: int| 0 <= k < old_picks.len() && old_picks[k] == t;
                        assert(picks[k] == t);
                    } else {
                        assert(picks[picks.len() - 1] == t);
                    }
                }
                assert(pair_views(old_out).len() == old_out.len());
                assert(old_picks.map_values(|j: int| fviews[j]).len() == old_picks.len());
                assert(old_out.len() == old_picks.len());
                assert(fviews[i as int] == (files@[i as int].0@, files@[i as int].1@));
                assert(out@.last().0@ == fviews[i as int].0);
                assert(out@.last().1@ == fviews[i as int].1);
                assert forall|t: int| 0 <= t < out@.len() implies pair_views(out@)[t]
                    == picks.map_values(|j: int| fviews[j])[t] by {
                    if t < old_out.len() {
                        assert(pair_views(old_out)[t] == old_picks.map_values(
                            |j: int| fviews[j],
                        )[t]);
                        assert(out@[t] == old_out[t]);
                        assert(picks[t] == old_picks[t]);
                    } else {
                        assert(out@[t] == out@.last());
                        assert(picks[t] == i as int);
                    }
                }
                assert(pair_views(out@) =~= picks.map_values(|j: int| fviews[j]));
            }
        }
        i = i + 1;
    }
    proof {
        assert(changed_selection(fviews, metas@, picks, pair_views(out@)));
    }
    out
}

} // verus!
