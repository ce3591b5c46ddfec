//! File names of Unix paths, as `std::path::Path` reads them.
use crate::text::{extend_all, extend_from, extend_str, to_chars};
use vstd::prelude::*;

verus! {

/// The length of `p[..end]` once trailing separators and `.` components are
/// removed; a root `/` and a leading `.` stay.
pub open spec fn trim_back(p: Seq<char>, end: int) -> int
    decreases end,
{
    if end <= 0 || end > p.len() {
        0
    } else if p[end - 1] == '/' {
        if end == 1 {
            1
        } else {
            trim_back(p, end - 1)
        }
    } else if p[end - 1] == '.' && end >= 2 && p[end - 2] == '/' {
        trim_back(p, end - 1)
    } else {
        end
    }
}

/// The position after the last `/` of `p[..end]`, or 0.
pub open spec fn seg_start(p: Seq<char>, end: int) -> int
    decreases end,
{
    if end <= 0 || end > p.len() {
        0
    } else if p[end - 1] == '/' {
        end
    } else {
        seg_start(p, end - 1)
    }
}

/// Where the last component of `p` ends.
pub open spec fn name_end(p: Seq<char>) -> int {
    trim_back(p, p.len() as int)
}

/// Where the last component of `p` starts.
pub open spec fn name_start(p: Seq<char>) -> int {
    seg_start(p, name_end(p))
}

/// The final component of `p`, unless it is the root, `.` or `..` (`Path::file_name`).
pub open spec fn spec_file_name(p: Seq<char>) -> Option<Seq<char>> {
    let name = p.subrange(name_start(p), name_end(p));
    if name.len() == 0 || name == seq!['.'] || name == seq!['.', '.'] {
        None
    } else {
        Some(name)
    }
}

/// The position of the last `.` in `s`, or -1.
pub open spec fn last_dot(s: Seq<char>, end: int) -> int
    decreases end,
{
    if end <= 0 || end > s.len() {
        -1
    } else if s[end - 1] == '.' {
        end - 1
    } else {
        last_dot(s, end - 1)
    }
}

/// The file name without its extension; a name whose only dot leads keeps it
/// (`Path::file_stem`).
pub open spec fn spec_file_stem(p: Seq<char>) -> Option<Seq<char>> {
    match spec_file_name(p) {
        Some(name) => {
            let d = last_dot(name, name.len() as int);
            if d <= 0 {
                Some(name)
            } else {
                Some(name.take(d))
            }
        },
        None => None,
    }
}

/// The text after the last dot of the file name, if the dot does not lead
/// (`Path::extension`).
pub open spec fn spec_extension(p: Seq<char>) -> Option<Seq<char>> {
    match spec_file_name(p) {
        Some(name) => {
            let d = last_dot(name, name.len() as int);
            if d <= 0 {
                None
            } else {
                Some(name.skip(d + 1))
            }
        },
        None => None,
    }
}

/// `name` added to `base` as a relative component (`PathBuf::push`).
pub open spec fn push_name(base: Seq<char>, name: Seq<char>) -> Seq<char> {
    if base.len() > 0 && base.last() != '/' {
        base + seq!['/'] + name
    } else {
        base + name
    }
}

/// `p` with its file name replaced by `name`, or `name` added when it has none
/// (`Path::with_file_name`).
pub open spec fn spec_with_file_name(p: Seq<char>, name: Seq<char>) -> Seq<char> {
    if spec_file_name(p) is Some {
        push_name(p.take(trim_back(p, name_start(p))), name)
    } else {
        push_name(p, name)
    }
}

/// Trimming the back of a path stays within it.
pub proof fn lemma_trim_back_range(p: Seq<char>, end: int)
    ensures
        0 <= trim_back(p, end),
        0 <= end <= p.len() ==> trim_back(p, end) <= end,
    decreases end,
{
    if end > 0 && end <= p.len() {
        lemma_trim_back_range(p, end - 1);
    }
}

/// A component starts within the text before it.
pub proof fn lemma_seg_start_range(p: Seq<char>, end: int)
    ensures
        0 <= end <= p.len() ==> 0 <= seg_start(p, end) <= end,
    decreases end,
{
    if end > 0 && end <= p.len() {
        lemma_seg_start_range(p, end - 1);
    }
}

fn trim_back_index(p: &Vec<char>, end: usize) -> (r: usize)
    requires
        end <= p@.len(),
    ensures
        r == trim_back(p@, end as int),
        r <= end,
{
    let mut e = end;
    while e > 0
        invariant
            e <= end <= p@.len(),
            trim_back(p@, e as int) == trim_back(p@, end as int),
        decreases e,
    {
        if p[e - 1] == '/' {
            if e == 1 {
                return 1;
            }
            e -= 1;
        } else if p[e - 1] == '.' && e >= 2 && p[e - 2] == '/' {
            e -= 1;
        } else {
            return e;
        }
    }
    0
}

fn seg_start_index(p: &Vec<char>, end: usize) -> (r: usize)
    requires
        end <= p@.len(),
    ensures
        r == seg_start(p@, end as int),
        r <= end,
{
    let mut e = end;
    while e > 0
        invariant
            e <= end <= p@.len(),
            seg_start(p@, e as int) == seg_start(p@, end as int),
        decreases e,
    {
        if p[e - 1] == '/' {
            return e;
        }
        e -= 1;
    }
    0
}

/// The span of the file name of `p`, if it has one.
fn file_name_span(p: &Vec<char>) -> (r: Option<(usize, usize)>)
    ensures
        match r {
            Some((a, b)) => a <= b <= p@.len() && spec_file_name(p@) == Some(
                p@.subrange(a as int, b as int),
            ) && a == name_start(p@) && b == name_end(p@),
            None => spec_file_name(p@) is None,
        },
{
    let e = trim_back_index(p, p.len());
    let s = seg_start_index(p, e);
    let ghost name = p@.subrange(s as int, e as int);
    if e == s {
        return None;
    }
    if e - s == 1 && p[s] == '.' {
        assert(name =~= seq!['.']);
        return None;
    }
    if e - s == 2 && p[s] == '.' && p[s + 1] == '.' {
        assert(name =~= seq!['.', '.']);
        return None;
    }
    assert(name != seq!['.']) by {
        if name.len() == 1 {
            assert(name[0] == p@[s as int]);
        }
    }
    assert(name != seq!['.', '.']) by {
        if name.len() == 2 {
            assert(name[0] == p@[s as int] && name[1] == p@[s + 1]);
        }
    }
    Some((s, e))
}

fn last_dot_in(p: &Vec<char>, a: usize, b: usize) -> (r: Option<usize>)
    requires
        a <= b <= p@.len(),
    ensures
        match r {
            Some(d) => a <= d < b && last_dot(p@.subrange(a as int, b as int), (b - a) as int) == d
                - a,
            None => last_dot(p@.subrange(a as int, b as int), (b - a) as int) == -1,
        },
{
    let ghost name = p@.subrange(a as int, b as int);
    let mut e = b;
    while e > a
        invariant
            a <= e <= b <= p@.len(),
            name == p@.subrange(a as int, b as int),
            last_dot(name, (e - a) as int) == last_dot(name, (b - a) as int),
        decreases e,
    {
        assert(name[e - a - 1] == p@[e - 1]);
        if p[e - 1] == '.' {
            return Some(e - 1);
        }
        e -= 1;
    }
    None
}

/// The span of the file stem of `p`, if it has a file name.
fn file_stem_span(p: &Vec<char>) -> (r: Option<(usize, usize)>)
    ensures
        match r {
            Some((a, b)) => a <= b <= p@.len() && spec_file_stem(p@) == Some(
                p@.subrange(a as int, b as int),
            ),
            None => spec_file_stem(p@) is None,
        },
{
    match file_name_span(p) {
        None => None,
        Some((a, b)) => {
            let ghost name = p@.subrange(a as int, b as int);
            match last_dot_in(p, a, b) {
                Some(d) => {
                    if d == a {
                        Some((a, b))
                    } else {
                        assert(name.take(d - a) =~= p@.subrange(a as int, d as int));
                        Some((a, d))
                    }
                },
                None => Some((a, b)),
            }
        },
    }
}

/// The file stem of a path (`Path::file_stem`).
pub fn file_stem(path: &str) -> (r: Option<String>)
    ensures
        match r {
            Some(s) => spec_file_stem(path@) == Some(s@),
            None => spec_file_stem(path@) is None,
        },
{
    let p = to_chars(path);
    match file_stem_span(&p) {
        Some((a, b)) => Some(crate::text::string_of(&p, a, b)),
        None => None,
    }
}

/// The extension of a path (`Path::extension`).
pub fn extension(path: &str) -> (r: Option<String>)
    ensures
        match r {
            Some(s) => spec_extension(path@) == Some(s@),
            None => spec_extension(path@) is None,
        },
{
    let p = to_chars(path);
    match file_name_span(&p) {
        None => None,
        Some((a, b)) => {
            let ghost name = p@.subrange(a as int, b as int);
            match last_dot_in(&p, a, b) {
                Some(d) => {
                    if d == a {
                        None
                    } else {
                        assert(name.skip(d - a + 1) =~= p@.subrange(d + 1, b as int));
                        Some(crate::text::string_of(&p, d + 1, b))
                    }
                },
                None => None,
            }
        },
    }
}

fn push_name_into(out: &mut Vec<char>, name: &Vec<char>)
    ensures
        final(out)@ == push_name(old(out)@, name@),
{
    if out.len() > 0 && out[out.len() - 1] != '/' {
        out.push('/');
    }
    extend_all(out, name);
}

/// A path with its file name replaced (`Path::with_file_name`).
pub fn with_file_name(path: &str, name: &str) -> (r: String)
    ensures
        r@ == spec_with_file_name(path@, name@),
{
    let p = to_chars(path);
    let n = to_chars(name);
    let mut out: Vec<char> = Vec::new();
    match file_name_span(&p) {
        Some((a, _b)) => {
            let base = trim_back_index(&p, a);
            extend_from(&mut out, &p, 0, base);
            assert(out@ =~= p@.take(base as int));
        },
        None => {
            extend_all(&mut out, &p);
            assert(out@ =~= p@);
        },
    }
    push_name_into(&mut out, &n);
    crate::text::string_of_all(&out)
}

} // verus!
