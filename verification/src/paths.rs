//! Unix path strings: joining, parent directory, file name and extension.
//!
//! Paths are `/`-separated strings. A path whose last character is `/` has no file name here.
use vstd::prelude::*;
use crate::text::{chars_of, push_char, push_str, string_from};

verus! {

/// `dir` joined with `name` as `Path::join` does: an absolute `name` replaces `dir`,
/// otherwise a `/` goes between them unless `dir` is empty or already ends in one.
pub open spec fn join_path(dir: Seq<char>, name: Seq<char>) -> Seq<char> {
    if name.len() > 0 && name[0] == '/' {
        name
    } else if dir.len() == 0 {
        name
    } else if dir.last() == '/' {
        dir + name
    } else {
        dir + seq!['/'] + name
    }
}

pub fn join_path_str(dir: &str, name: &str) -> (p: String)
    ensures
        p@ == join_path(dir@, name@),
{
    let n = chars_of(name);
    if n.len() > 0 && n[0] == '/' {
        return String::from_str(name);
    }
    let d = chars_of(dir);
    if d.len() == 0 {
        return String::from_str(name);
    }
    let mut s = String::from_str(dir);
    if d[d.len() - 1] != '/' {
        push_char(&mut s, '/');
    }
    push_str(&mut s, name);
    s
}

/// Index of the last `c` in `s`, or -1.
pub open spec fn last_index(s: Seq<char>, c: char) -> int
    decreases s.len(),
{
    if s.len() == 0 {
        -1
    } else if s.last() == c {
        s.len() - 1
    } else {
        last_index(s.drop_last(), c)
    }
}

proof fn lemma_last_index(s: Seq<char>, c: char)
    ensures
        -1 <= last_index(s, c) < s.len(),
        last_index(s, c) >= 0 ==> s[last_index(s, c)] == c,
        forall|k: int| last_index(s, c) < k < s.len() ==> s[k] != c,
    decreases s.len(),
{
    if s.len() > 0 && s.last() != c {
        lemma_last_index(s.drop_last(), c);
        assert forall|k: int| last_index(s, c) < k < s.len() implies s[k] != c by {
            if k < s.len() - 1 {
                assert(s.drop_last()[k] == s[k]);
            }
        }
    }
}

pub fn last_index_of(s: &[char], c: char) -> (r: Option<usize>)
    ensures
        r matches Some(i) ==> i == last_index(s@, c) && i < s@.len(),
        r is None ==> last_index(s@, c) == -1,
{
    let mut i = s.len();
    assert(s@.take(s.len() as int) =~= s@);
    while i > 0
        invariant
            i <= s@.len(),
            last_index(s@, c) == last_index(s@.take(i as int), c),
        decreases i,
    {
        if s[i - 1] == c {
            return Some(i - 1);
        }
        assert(s@.take(i as int).drop_last() =~= s@.take(i - 1));
        i -= 1;
    }
    None
}

/// The last `/`-separated piece of `p` (the whole of `p` when it has no `/`).
pub open spec fn file_name_of(p: Seq<char>) -> Seq<char> {
    p.skip(last_index(p, '/') + 1)
}

/// Where the extension's `.` is: the last `.` of the file name, unless the file name is
/// empty, `..`, or has its only `.` first.
pub open spec fn extension_dot(p: Seq<char>) -> Option<int> {
    let start = last_index(p, '/') + 1;
    let d = last_index(p, '.');
    if file_name_of(p) == ".."@ {
        None
    } else if d > start {
        Some(d)
    } else {
        None
    }
}

/// `p` with `ext` as its extension, as `Path::with_extension` gives it: the old extension
/// goes, and `.ext` follows unless `ext` is empty. A path without a file name is unchanged.
pub open spec fn with_extension(p: Seq<char>, ext: Seq<char>) -> Seq<char> {
    let name = file_name_of(p);
    if name.len() == 0 || name == ".."@ {
        p
    } else {
        let base = match extension_dot(p) {
            Some(d) => p.take(d),
            None => p,
        };
        if ext.len() == 0 { base } else { base + seq!['.'] + ext }
    }
}

pub fn with_extension_str(p: &str, ext: &str) -> (r: String)
    ensures
        r@ == with_extension(p@, ext@),
{
    let v = chars_of(p);
    let slash = last_index_of(&v, '/');
    let start: usize = match slash {
        Some(i) => i + 1,
        None => 0,
    };
    proof { lemma_last_index(p@, '/'); }
    let name_len = v.len() - start;
    let is_dotdot = name_len == 2 && v[start] == '.' && v[start + 1] == '.';
    proof {
        reveal_strlit("..");
        assert(file_name_of(p@).len() == name_len);
        if name_len == 2 {
            assert(file_name_of(p@)[0] == v@[start as int]);
            assert(file_name_of(p@)[1] == v@[start + 1]);
        }
        assert(is_dotdot == (file_name_of(p@) =~= ".."@));
    }
    if name_len == 0 || is_dotdot {
        return String::from_str(p);
    }
    let dot = last_index_of(&v, '.');
    proof { lemma_last_index(p@, '.'); }
    let base: Vec<char> = match dot {
        Some(d) => {
            if d > start {
                crate::text::slice_chars(&v, 0, d)
            } else {
                v.clone()
            }
        },
        None => v.clone(),
    };
    proof {
        assert(base@ =~= (match extension_dot(p@) {
            Some(d) => p@.take(d),
            None => p@,
        }));
    }
    let mut s = string_from(&base);
    if !ext.is_empty() {
        push_char(&mut s, '.');
        push_str(&mut s, ext);
    }
    s
}

/// `p` without its trailing `/` characters (a path made only of `/` keeps one).
pub open spec fn trim_trailing_slashes(p: Seq<char>) -> Seq<char>
    decreases p.len(),
{
    if p.len() > 1 && p.last() == '/' {
        trim_trailing_slashes(p.drop_last())
    } else {
        p
    }
}

proof fn lemma_trim_trailing_slashes(p: Seq<char>)
    ensures
        trim_trailing_slashes(p).len() <= p.len(),
        trim_trailing_slashes(p) == p.take(trim_trailing_slashes(p).len() as int),
        p.len() > 0 ==> trim_trailing_slashes(p).len() > 0,
        trim_trailing_slashes(p).len() > 1 ==> trim_trailing_slashes(p).last() != '/',
    decreases p.len(),
{
    if p.len() > 1 && p.last() == '/' {
        lemma_trim_trailing_slashes(p.drop_last());
        let t = trim_trailing_slashes(p.drop_last());
        assert(p.drop_last().take(t.len() as int) =~= p.take(t.len() as int));
    } else {
        assert(p.take(p.len() as int) =~= p);
    }
}

fn trim_trailing_slashes_chars(v: &[char]) -> (r: Vec<char>)
    ensures
        r@ == trim_trailing_slashes(v@),
{
    let mut n = v.len();
    assert(v@.take(n as int) =~= v@);
    while n > 1 && v[n - 1] == '/'
        invariant
            n <= v@.len(),
            trim_trailing_slashes(v@) == trim_trailing_slashes(v@.take(n as int)),
        decreases n,
    {
        assert(v@.take(n as int).drop_last() =~= v@.take(n - 1));
        n -= 1;
    }
    assert(trim_trailing_slashes(v@.take(n as int)) == v@.take(n as int));
    crate::text::slice_chars(v, 0, n)
}

/// The directory holding `p`, as `Path::parent` gives it for a path without `.` or `..`
/// pieces: `None` for the empty path and for `/`; `""` for a bare relative name.
pub open spec fn parent_of(p: Seq<char>) -> Option<Seq<char>> {
    let t = trim_trailing_slashes(p);
    if t.len() == 0 || t == seq!['/'] {
        None
    } else {
        let i = last_index(t, '/');
        if i < 0 {
            Some(seq![])
        } else {
            let head = trim_trailing_slashes(t.take(i));
            if head.len() == 0 { Some(seq!['/']) } else { Some(head) }
        }
    }
}

pub fn parent_str(p: &str) -> (r: Option<String>)
    ensures
        r matches Some(s) ==> parent_of(p@) == Some(s@),
        r is None ==> parent_of(p@) is None,
{
    let v = chars_of(p);
    let t = trim_trailing_slashes_chars(&v);
    if t.len() == 0 || (t.len() == 1 && t[0] == '/') {
        proof {
            if t.len() == 1 {
                assert(t@ =~= seq!['/']);
            }
        }
        return None;
    }
    proof {
        assert(t@ != seq!['/']) by {
            if t@ == seq!['/'] {
                assert(t@[0] == '/');
            }
        }
    }
    match last_index_of(&t, '/') {
        None => Some(String::new()),
        Some(i) => {
            proof { lemma_last_index(t@, '/'); }
            let head_raw = crate::text::slice_chars(&t, 0, i);
            assert(head_raw@ =~= t@.take(i as int));
            let head = trim_trailing_slashes_chars(&head_raw);
            if head.len() == 0 {
                let mut s = String::new();
                push_char(&mut s, '/');
                Some(s)
            } else {
                Some(string_from(&head))
            }
        },
    }
}

/// The last piece of `p` after trailing `/` are dropped, as `Path::file_name` gives it for a
/// path without `.` pieces: `None` when that piece is empty, `/` or `..`.
pub open spec fn file_name_opt(p: Seq<char>) -> Option<Seq<char>> {
    let t = trim_trailing_slashes(p);
    let name = t.skip(last_index(t, '/') + 1);
    if name.len() == 0 || name == ".."@ { None } else { Some(name) }
}

pub fn file_name_str(p: &str) -> (r: Option<String>)
    ensures
        r matches Some(s) ==> file_name_opt(p@) == Some(s@),
        r is None ==> file_name_opt(p@) is None,
{
    let v = chars_of(p);
    let t = trim_trailing_slashes_chars(&v);
    let start: usize = match last_index_of(&t, '/') {
        Some(i) => i + 1,
        None => 0,
    };
    proof { lemma_last_index(t@, '/'); }
    let name = crate::text::slice_chars(&t, start, t.len());
    assert(name@ =~= t@.skip(last_index(t@, '/') + 1));
    proof { reveal_strlit(".."); }
    if name.len() == 0 {
        return None;
    }
    if name.len() == 2 && name[0] == '.' && name[1] == '.' {
        assert(name@ =~= ".."@);
        return None;
    }
    proof {
        assert(name@ != ".."@) by {
            if name@ == ".."@ {
                assert(name@[0] == '.' && name@[1] == '.');
            }
        }
    }
    Some(string_from(&name))
}

} // verus!

verus! {

/// `Path::extension`: the text after the extension dot (see [`extension_dot`]).
pub open spec fn extension_of(p: Seq<char>) -> Option<Seq<char>> {
    match extension_dot(p) {
        Some(d) => Some(p.skip(d + 1)),
        None => None,
    }
}

/// `Path::file_stem`: the file name without its extension; `None` without a file name.
pub open spec fn file_stem_of(p: Seq<char>) -> Option<Seq<char>> {
    let name = file_name_of(p);
    if name.len() == 0 || name == ".."@ {
        None
    } else {
        match extension_dot(p) {
            Some(d) => Some(p.subrange(last_index(p, '/') + 1, d)),
            None => Some(name),
        }
    }
}

/// The extension and the file stem of `p`.
pub fn extension_and_stem(p: &str) -> (r: (Option<String>, Option<String>))
    ensures
        r.0 matches Some(e) ==> extension_of(p@) == Some(e@),
        r.0 is None ==> extension_of(p@) is None,
        r.1 matches Some(s) ==> file_stem_of(p@) == Some(s@),
        r.1 is None ==> file_stem_of(p@) is None,
{
    let v = chars_of(p);
    let vlen = v.len();
    let slash = last_index_of(&v, '/');
    let start: usize = match slash {
        Some(i) => {
            assert(i < vlen);
            i + 1
        },
        None => 0,
    };
    proof { lemma_last_index(p@, '/'); }
    let name_len = v.len() - start;
    let is_dotdot = name_len == 2 && v[start] == '.' && v[start + 1] == '.';
    proof {
        reveal_strlit("..");
        assert(file_name_of(p@).len() == name_len);
        if name_len == 2 {
            assert(file_name_of(p@)[0] == v@[start as int]);
            assert(file_name_of(p@)[1] == v@[start + 1]);
        }
        assert(is_dotdot == (file_name_of(p@) =~= ".."@));
    }
    let dot = last_index_of(&v, '.');
    proof { lemma_last_index(p@, '.'); }
    let ext_dot: Option<usize> = if is_dotdot {
        None
    } else {
        match dot {
            Some(d) => if d > start { Some(d) } else { None },
            None => None,
        }
    };
    assert(match ext_dot {
        Some(d) => extension_dot(p@) == Some(d as int),
        None => extension_dot(p@) is None,
    });
    let ext: Option<String> = match ext_dot {
        Some(d) => {
            let e = crate::text::slice_chars(&v, d + 1, v.len());
            assert(e@ =~= p@.skip(d + 1));
            Some(string_from(&e))
        },
        None => None,
    };
    let stem: Option<String> = if name_len == 0 || is_dotdot {
        None
    } else {
        match ext_dot {
            Some(d) => {
                let s = crate::text::slice_chars(&v, start, d);
                Some(string_from(&s))
            },
            None => {
                let s = crate::text::slice_chars(&v, start, v.len());
                assert(s@ =~= file_name_of(p@));
                Some(string_from(&s))
            },
        }
    };
    (ext, stem)
}

} // verus!
