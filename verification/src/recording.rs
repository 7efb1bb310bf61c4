//! Recording file names: the duration in a name, which files belong to a recording, and
//! which recordings are junk (test fixtures, too-short orphans).
use vstd::prelude::*;
use crate::audio_validation::MIN_DURATION_MS;
use crate::paths::{with_extension, with_extension_str};
use crate::text::{chars_of, ends_with, ends_with_chars, last_piece, parse_u64, parse_u64_chars, push_str, slice_chars, split_chars};

verus! {

/// Orphan clips shorter than this (no transcript files) are accidental noise.
pub const ORPHAN_MAX_MS: u64 = 4000;

/// Duration encoded in a recording name: the last `_` piece, ending in `ms`, as a number.
pub open spec fn stem_duration_ms(stem: Seq<char>) -> Option<u64> {
    let part = last_piece(stem, '_');
    if ends_with(part, "ms"@) {
        parse_u64(part.take(part.len() - 2))
    } else {
        None
    }
}

/// Parse the duration from a stem like `2026-06-06_22-11-27_2000ms`.
pub fn duration_ms_from_stem(stem: &str) -> (r: Option<u64>)
    ensures
        r == stem_duration_ms(stem@),
{
    let v = chars_of(stem);
    let parts = split_chars(&v, '_');
    proof { crate::text::lemma_split_nonempty(stem@, '_'); }
    let part = &parts[parts.len() - 1];
    if !ends_with_chars(part, "ms") {
        return None;
    }
    proof { reveal_strlit("ms"); }
    let body = slice_chars(part, 0, part.len() - 2);
    assert(body@ =~= part@.take(part@.len() - 2));
    parse_u64_chars(&body)
}


/// A recording name read back: whatever comes before it, a name ending in `_`, the duration
/// in decimal and `ms` gives that duration.
pub proof fn lemma_stem_duration_round_trip(prefix: Seq<char>, ms: u64)
    ensures
        stem_duration_ms(prefix + "_"@ + crate::text::decimal(ms as nat) + "ms"@) == Some(ms),
{
    reveal_strlit("_");
    reveal_strlit("ms");
    let d = crate::text::decimal(ms as nat);
    let q = d + "ms"@;
    crate::text::lemma_decimal_digits(ms as nat);
    assert forall|i: int| 0 <= i < q.len() implies q[i] != '_' by {
        if i < d.len() {
            assert(crate::text::is_digit(d[i]));
        }
    }
    assert(prefix + "_"@ + q =~= prefix + seq!['_'] + q);
    crate::text::lemma_last_piece_after_sep(prefix, '_', q);
    assert(prefix + "_"@ + d + "ms"@ =~= prefix + "_"@ + q);
    assert(q.skip(q.len() - 2) =~= "ms"@);
    assert(q.take(q.len() - 2) =~= d);
    crate::text::lemma_parse_decimal(ms);
}

/// Whether a recording is junk that history should not show: a name without a duration,
/// a clip shorter than the minimum, or a short clip that was never transcribed.
pub open spec fn junk(stem: Option<Seq<char>>, has_transcript_artifacts: bool) -> bool {
    match stem {
        None => true,
        Some(s) => match stem_duration_ms(s) {
            None => true,
            Some(d) => d < MIN_DURATION_MS || (!has_transcript_artifacts && d < ORPHAN_MAX_MS),
        },
    }
}

/// Junk test for a recording with file stem `stem` (`None` when the name is not UTF-8) and
/// whether its `.txt` or `.stt.json` transcript exists. The 2000 ms silent test fixture is
/// an orphan shorter than [`ORPHAN_MAX_MS`], so it is caught by the orphan rule.
pub fn is_junk_recording(stem: Option<&str>, has_transcript_artifacts: bool) -> (b: bool)
    ensures
        b == junk(crate::keyring::opt_view(stem), has_transcript_artifacts),
{
    let s = match stem {
        Some(s) => s,
        None => return true,
    };
    let dur_ms = match duration_ms_from_stem(s) {
        Some(d) => d,
        None => return true,
    };
    if dur_ms < MIN_DURATION_MS {
        return true;
    }
    if has_transcript_artifacts {
        return false;
    }
    dur_ms < ORPHAN_MAX_MS
}

/// The files of the recording whose audio is at `raw_path`: the audio, its `.txt`
/// transcript, its `.json` versions and its `.stt.json` word timings.
pub open spec fn sibling_paths(raw_path: Seq<char>) -> Seq<Seq<char>> {
    let stem = with_extension(raw_path, seq![]);
    seq![
        raw_path,
        with_extension(stem, "txt"@),
        with_extension(stem, "json"@),
        stem + ".stt.json"@,
    ]
}

pub fn recording_sibling_paths(raw_path: &str) -> (r: Vec<String>)
    ensures
        r@.len() == 4,
        forall|i: int| 0 <= i < 4 ==> (#[trigger] r@[i])@ == sibling_paths(raw_path@)[i],
{
    let stem = with_extension_str(raw_path, "");
    let txt = with_extension_str(stem.as_str(), "txt");
    let json = with_extension_str(stem.as_str(), "json");
    let mut stt = stem.clone();
    push_str(&mut stt, ".stt.json");
    proof {
        reveal_strlit("");
        reveal_strlit("txt");
        reveal_strlit("json");
        reveal_strlit(".stt.json");
        assert(""@ =~= Seq::<char>::empty());
    }
    let mut v: Vec<String> = Vec::new();
    v.push(String::from_str(raw_path));
    v.push(txt);
    v.push(json);
    v.push(stt);
    v
}

/// The two transcript files whose presence keeps a short clip: `.txt` and `.stt.json`.
pub fn transcript_artifact_paths(raw_path: &str) -> (r: (String, String))
    ensures
        r.0@ == with_extension(raw_path@, "txt"@),
        r.1@ == with_extension(raw_path@, "stt.json"@),
{
    (with_extension_str(raw_path, "txt"), with_extension_str(raw_path, "stt.json"))
}

} // verus!

verus! {

/// A file found in the recordings directory, with whether its transcript files exist.
#[derive(Debug, Clone)]
pub struct RecordingFile {
    pub path: String,
    pub has_transcript_artifacts: bool,
}

/// A `.raw` recording that is junk.
pub open spec fn junk_file(f: (Seq<char>, bool)) -> bool {
    crate::paths::extension_of(f.0) == Some("raw"@) && junk(crate::paths::file_stem_of(f.0), f.1)
}

pub open spec fn files_view(fs: Seq<RecordingFile>) -> Seq<(Seq<char>, bool)> {
    Seq::new(fs.len(), |i: int| (fs[i].path@, fs[i].has_transcript_artifacts))
}

/// The junk recordings among `fs`, in order.
pub open spec fn junk_recordings(fs: Seq<(Seq<char>, bool)>) -> Seq<Seq<char>>
    decreases fs.len(),
{
    if fs.len() == 0 {
        seq![]
    } else {
        let rest = junk_recordings(fs.drop_last());
        if junk_file(fs.last()) { rest.push(fs.last().0) } else { rest }
    }
}

/// The junk recordings of a directory listing: each one's audio path (its files are
/// [`recording_sibling_paths`]); their number is what pruning reports.
pub fn prune_junk_recordings(files: &[RecordingFile]) -> (r: Vec<String>)
    ensures
        r@.len() == junk_recordings(files_view(files@)).len(),
        forall|i: int| 0 <= i < r@.len() ==> (#[trigger] r@[i])@ == junk_recordings(files_view(files@))[i],
{
    let ghost fv = files_view(files@);
    let mut out: Vec<String> = Vec::new();
    let mut i: usize = 0;
    while i < files.len()
        invariant
            fv == files_view(files@),
            i <= files@.len(),
            out@.len() == junk_recordings(fv.take(i as int)).len(),
            forall|k: int| 0 <= k < out@.len() ==> (#[trigger] out@[k])@ == junk_recordings(fv.take(i as int))[k],
        decreases files.len() - i,
    {
        let f = &files[i];
        assert(fv.take(i + 1).drop_last() =~= fv.take(i as int));
        assert(fv.take(i + 1).last() == (f.path@, f.has_transcript_artifacts));
        let (ext, stem) = crate::paths::extension_and_stem(f.path.as_str());
        let is_raw = match &ext {
            Some(e) => crate::text::str_eq(e.as_str(), "raw"),
            None => false,
        };
        if is_raw {
            let junk_now = match &stem {
                Some(s) => is_junk_recording(Some(s.as_str()), f.has_transcript_artifacts),
                None => is_junk_recording(None, f.has_transcript_artifacts),
            };
            if junk_now {
                out.push(f.path.clone());
            }
        }
        i += 1;
    }
    assert(fv.take(files@.len() as int) =~= fv);
    out
}

} // verus!

verus! {

/// Modification times compared as `Option`s are: unknown first, then older to newer.
pub open spec fn mtime_lt(a: Option<i128>, b: Option<i128>) -> bool {
    match (a, b) {
        (None, Some(_)) => true,
        (Some(x), Some(y)) => x < y,
        _ => false,
    }
}

/// In the history list, recording `i` comes before recording `j`: it was modified later,
/// or at the same time and listed later by the directory.
pub open spec fn shown_before(m: Seq<Option<i128>>, i: int, j: int) -> bool {
    mtime_lt(m[j], m[i]) || (m[i] == m[j] && i > j)
}

/// `ord` lists every index of `m` once, newest first (see [`shown_before`]).
pub open spec fn newest_first_order(m: Seq<Option<i128>>, ord: Seq<usize>) -> bool {
    &&& ord.len() == m.len()
    &&& forall|a: int, b: int| 0 <= a < b < ord.len() ==> shown_before(m, #[trigger] ord[a] as int, #[trigger] ord[b] as int)
    &&& forall|i: usize| (i as int) < m.len() ==> #[trigger] ord.contains(i)
}

proof fn lemma_shown_before_transitive(m: Seq<Option<i128>>, i: int, j: int, k: int)
    requires
        shown_before(m, i, j),
        shown_before(m, j, k),
    ensures
        shown_before(m, i, k),
{
}

proof fn lemma_shown_before_total(m: Seq<Option<i128>>, i: int, j: int)
    requires
        i != j,
    ensures
        shown_before(m, i, j) || shown_before(m, j, i),
{
}

fn mtime_before(a: Option<i128>, b: Option<i128>) -> (r: bool)
    ensures
        r == mtime_lt(a, b),
{
    match (a, b) {
        (None, Some(_)) => true,
        (Some(x), Some(y)) => x < y,
        _ => false,
    }
}

/// The order of the history list for recordings with modification times `m` (as read from
/// the directory, in its order): newest first; equal times keep the later-listed first.
pub fn newest_first(m: &[Option<i128>]) -> (ord: Vec<usize>)
    ensures
        newest_first_order(m@, ord@),
{
    let mut ord: Vec<usize> = Vec::new();
    let mut i: usize = 0;
    while i < m.len()
        invariant
            i <= m@.len(),
            ord@.len() == i,
            forall|a: int, b: int| 0 <= a < b < ord@.len() ==> shown_before(m@, #[trigger] ord@[a] as int, #[trigger] ord@[b] as int),
            forall|k: usize| k < i ==> #[trigger] ord@.contains(k),
            forall|a: int| 0 <= a < ord@.len() ==> #[trigger] ord@[a] < i,
        decreases m.len() - i,
    {
        // First position whose entry is shown after the new one.
        let mut p: usize = 0;
        while p < ord.len() && !(mtime_before(m[ord[p]], m[i]) || m[ord[p]] == m[i])
            invariant
                p <= ord@.len(),
                i < m@.len(),
                forall|a: int| 0 <= a < ord@.len() ==> #[trigger] ord@[a] < i,
                forall|q: int| 0 <= q < p ==> shown_before(m@, #[trigger] ord@[q] as int, i as int),
            decreases ord@.len() - p,
        {
            assert(shown_before(m@, ord@[p as int] as int, i as int));
            p += 1;
        }
        let ghost before = ord@;
        proof {
            if p < ord@.len() {
                assert(shown_before(m@, i as int, ord@[p as int] as int));
                assert forall|q: int| p <= q < before.len() implies shown_before(m@, i as int, #[trigger] before[q] as int) by {
                    if q > p {
                        lemma_shown_before_transitive(m@, i as int, before[p as int] as int, before[q] as int);
                    }
                }
            }
        }
        ord.insert(p, i);
        assert(ord@ =~= before.insert(p as int, i));
        assert forall|a: int, b: int| 0 <= a < b < ord@.len() implies shown_before(m@, #[trigger] ord@[a] as int, #[trigger] ord@[b] as int) by {
            if a < p as int && b < p as int {
                assert(ord@[a] == before[a] && ord@[b] == before[b]);
            } else if a < p as int && b == p as int {
                assert(ord@[a] == before[a]);
            } else if a < p as int {
                assert(ord@[a] == before[a] && ord@[b] == before[b - 1]);
            } else if a == p as int {
                assert(ord@[b] == before[b - 1]);
            } else {
                assert(ord@[a] == before[a - 1] && ord@[b] == before[b - 1]);
            }
        }
        assert forall|k: usize| k < i + 1 implies #[trigger] ord@.contains(k) by {
            if k == i {
                assert(ord@[p as int] == i);
            } else {
                assert(before.contains(k));
                let w = choose|w: int| 0 <= w < before.len() && before[w] == k;
                if w < p as int {
                    assert(ord@[w] == k);
                } else {
                    assert(ord@[w + 1] == k);
                }
            }
        }
        i += 1;
    }
    ord
}

} // verus!
