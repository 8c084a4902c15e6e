//! Validation of file paths named in tool inputs.
//!
//! Paths are read with Unix conventions: `/` separates segments, empty and
//! `.` segments carry no name, and `..` refers to the parent directory.
use vstd::prelude::*;
use crate::text::{chars_of, chars_eq, concat, debug_quoted, debug_str, is_blank, push_str, string_from, trim};

verus! {

/// The `/`-separated segments of a path, left to right; an empty path is a
/// single empty segment.
pub open spec fn segments(s: Seq<char>) -> Seq<Seq<char>>
    decreases s.len(),
{
    if s.len() == 0 {
        seq![Seq::<char>::empty()]
    } else {
        let p = segments(s.drop_last());
        if s.last() == '/' {
            p.push(Seq::<char>::empty())
        } else {
            p.update(p.len() - 1, p.last().push(s.last()))
        }
    }
}

/// Whether a segment names something: not empty and not `.`.
pub open spec fn significant(seg: Seq<char>) -> bool {
    seg.len() > 0 && seg != "."@
}

/// The last segment that names something.
pub open spec fn last_significant(ss: Seq<Seq<char>>) -> Option<Seq<char>>
    decreases ss.len(),
{
    if ss.len() == 0 {
        None
    } else if significant(ss.last()) {
        Some(ss.last())
    } else {
        last_significant(ss.drop_last())
    }
}

/// Whether the path ends in a file name: its last naming segment exists and
/// is not `..` (std `Path::file_name` is `Some`).
pub open spec fn has_file_name(s: Seq<char>) -> bool {
    last_significant(segments(s)) matches Some(x) && x != ".."@
}

/// Whether some segment of the path is `..`.
pub open spec fn has_parent_segment(s: Seq<char>) -> bool {
    segments(s).contains(".."@)
}

/// Message for a path without a file name.
pub open spec fn no_file_name_message(s: Seq<char>) -> Seq<char> {
    "file path must include a file name: "@ + debug_quoted(s)
}

/// Message for a path with a `..` segment.
pub open spec fn traversal_message(s: Seq<char>) -> Seq<char> {
    "file path must not contain '..' segments: "@ + debug_quoted(s)
}

/// The outcome of validating a file path: blank paths and paths without a
/// file name are refused first, then paths with a `..` segment.
pub open spec fn file_path_check(s: Seq<char>) -> Result<Seq<char>, Seq<char>> {
    if trim(s).len() == 0 || !has_file_name(s) {
        Err(no_file_name_message(s))
    } else if has_parent_segment(s) {
        Err(traversal_message(s))
    } else {
        Ok(s)
    }
}

proof fn lemma_segments_nonempty(s: Seq<char>)
    ensures
        segments(s).len() >= 1,
    decreases s.len(),
{
    if s.len() > 0 {
        lemma_segments_nonempty(s.drop_last());
    }
}

/// The model of an optional character vector.
spec fn opt_chars(o: Option<Vec<char>>) -> Option<Seq<char>> {
    match o {
        Some(v) => Some(v@),
        None => None,
    }
}

/// How the path scan of `s` stands after its first `i` characters.
spec fn scan_state(s: Seq<char>, i: int, cur: Seq<char>, parent: bool, last: Option<Seq<char>>) -> bool {
    let ss = segments(s.subrange(0, i));
    &&& ss.last() == cur
    &&& parent == ss.drop_last().contains(".."@)
    &&& last == last_significant(ss.drop_last())
}

proof fn lemma_scan_step(s: Seq<char>, i: int, cur: Seq<char>, parent: bool, last: Option<Seq<char>>)
    requires
        0 <= i < s.len(),
        scan_state(s, i, cur, parent, last),
    ensures
        s[i] == '/' ==> scan_state(
            s,
            i + 1,
            Seq::<char>::empty(),
            parent || cur == ".."@,
            if significant(cur) {
                Some(cur)
            } else {
                last
            },
        ),
        s[i] != '/' ==> scan_state(s, i + 1, cur.push(s[i]), parent, last),
{
    let t = s.subrange(0, i + 1);
    assert(t.drop_last() =~= s.subrange(0, i));
    lemma_segments_nonempty(s.subrange(0, i));
    let p = segments(s.subrange(0, i));
    if s[i] == '/' {
        let q = p.push(Seq::<char>::empty());
        assert(q.drop_last() =~= p);
        assert(p.drop_last().push(p.last()) =~= p);
        if cur == ".."@ {
            assert(p[p.len() - 1] == ".."@);
        }
        if p.contains(".."@) && !(cur == ".."@) {
            let k = choose|k: int| 0 <= k < p.len() && p[k] == ".."@;
            assert(p.drop_last()[k] == ".."@);
        }
        if p.drop_last().contains(".."@) {
            let k = choose|k: int| 0 <= k < p.drop_last().len() && p.drop_last()[k] == ".."@;
            assert(p[k] == ".."@);
        }
    } else {
        let q = p.update(p.len() - 1, p.last().push(s[i]));
        assert(q.drop_last() =~= p.drop_last());
    }
}

/// Checks a file path named in a tool input. Returns the path when it has a
/// file name and no `..` segment; a blank path counts as having no file name.
pub fn validate_file_path(path: &str) -> (r: Result<String, String>)
    ensures
        match file_path_check(path@) {
            Ok(p) => r matches Ok(x) && x@ == p,
            Err(m) => r matches Err(x) && x@ == m,
        },
{
    let s = chars_of(path);
    let mut cur: Vec<char> = Vec::new();
    let mut parent = false;
    let mut last: Option<Vec<char>> = None;
    let dots = chars_of("..");
    let dot = chars_of(".");
    proof {
        assert(s@.subrange(0, 0) =~= Seq::<char>::empty());
        assert(segments(Seq::<char>::empty()).drop_last() =~= Seq::<Seq<char>>::empty());
    }
    let mut i: usize = 0;
    while i < s.len()
        invariant
            0 <= i <= s@.len(),
            dots@ == ".."@,
            dot@ == "."@,
            scan_state(s@, i as int, cur@, parent, opt_chars(last)),
        decreases s@.len() - i,
    {
        proof {
            lemma_scan_step(s@, i as int, cur@, parent, opt_chars(last));
        }
        if s[i] == '/' {
            if chars_eq(cur.as_slice(), dots.as_slice()) {
                parent = true;
            }
            if cur.len() > 0 && !chars_eq(cur.as_slice(), dot.as_slice()) {
                last = Some(cur);
            }
            cur = Vec::new();
        } else {
            cur.push(s[i]);
        }
        i = i + 1;
    }
    proof {
        assert(s@.subrange(0, s@.len() as int) =~= s@);
        lemma_segments_nonempty(s@);
        let ss = segments(s@);
        assert(ss.drop_last().push(ss.last()) =~= ss);
        if ss.contains(".."@) && !(cur@ == ".."@) {
            let k = choose|k: int| 0 <= k < ss.len() && ss[k] == ".."@;
            assert(ss.drop_last()[k] == ".."@);
        }
        if ss.drop_last().contains(".."@) {
            let k = choose|k: int| 0 <= k < ss.drop_last().len() && ss.drop_last()[k] == ".."@;
            assert(ss[k] == ".."@);
        }
        if cur@ == ".."@ {
            assert(ss[ss.len() - 1] == ".."@);
        }
    }
    let name: Option<&Vec<char>> = if cur.len() > 0 && !chars_eq(cur.as_slice(), dot.as_slice()) {
        Some(&cur)
    } else {
        match &last {
            Some(v) => Some(v),
            None => None,
        }
    };
    let named = match name {
        Some(n) => !chars_eq(n.as_slice(), dots.as_slice()),
        None => false,
    };
    if is_blank(path) || !named {
        let mut m = chars_of("file path must include a file name: ");
        let q = debug_str(path);
        push_str(&mut m, q.as_str());
        return Err(string_from(m.as_slice()));
    }
    if parent || chars_eq(cur.as_slice(), dots.as_slice()) {
        let mut m = chars_of("file path must not contain '..' segments: ");
        let q = debug_str(path);
        push_str(&mut m, q.as_str());
        return Err(string_from(m.as_slice()));
    }
    Ok(path.to_owned())
}

// ---------------------------------------------------------------------------
// Path identity
// ---------------------------------------------------------------------------

/// The segments that name something, in order.
pub open spec fn naming_segments(ss: Seq<Seq<char>>) -> Seq<Seq<char>>
    decreases ss.len(),
{
    if ss.len() == 0 {
        Seq::<Seq<char>>::empty()
    } else if significant(ss.last()) {
        naming_segments(ss.drop_last()).push(ss.last())
    } else {
        naming_segments(ss.drop_last())
    }
}

/// Whether a path is absolute.
pub open spec fn is_absolute(s: Seq<char>) -> bool {
    s.len() > 0 && s[0] == '/'
}

/// Whether a relative path starts with a `.` segment, which std keeps as a
/// component.
pub open spec fn starts_at_cur_dir(s: Seq<char>) -> bool {
    !is_absolute(s) && s.len() > 0 && s[0] == '.' && (s.len() == 1 || s[1] == '/')
}

/// The components of a path (std `Path::components`): a root marker `/` or
/// a leading `.`, then the segments that name something. Two paths denote
/// the same file name when their components are equal (std `Path` equality).
pub open spec fn path_components(s: Seq<char>) -> Seq<Seq<char>> {
    let lead = if is_absolute(s) {
        seq!["/"@]
    } else if starts_at_cur_dir(s) {
        seq!["."@]
    } else {
        Seq::<Seq<char>>::empty()
    };
    lead + naming_segments(segments(s))
}

/// Whether two paths are equal as std `Path`s.
pub open spec fn same_path(a: Seq<char>, b: Seq<char>) -> bool {
    path_components(a) == path_components(b)
}

/// The models of a list of character vectors.
pub open spec fn seqs_view(v: Seq<Vec<char>>) -> Seq<Seq<char>> {
    v.map_values(|x: Vec<char>| x@)
}

/// How the component scan of `s` stands after its first `i` characters.
spec fn component_scan(s: Seq<char>, i: int, cur: Seq<char>, done: Seq<Seq<char>>) -> bool {
    let ss = segments(s.subrange(0, i));
    &&& ss.last() == cur
    &&& done == naming_segments(ss.drop_last())
}

proof fn lemma_component_step(s: Seq<char>, i: int, cur: Seq<char>, done: Seq<Seq<char>>)
    requires
        0 <= i < s.len(),
        component_scan(s, i, cur, done),
    ensures
        s[i] == '/' ==> component_scan(
            s,
            i + 1,
            Seq::<char>::empty(),
            if significant(cur) {
                done.push(cur)
            } else {
                done
            },
        ),
        s[i] != '/' ==> component_scan(s, i + 1, cur.push(s[i]), done),
{
    let t = s.subrange(0, i + 1);
    assert(t.drop_last() =~= s.subrange(0, i));
    lemma_segments_nonempty(s.subrange(0, i));
    let p = segments(s.subrange(0, i));
    if s[i] == '/' {
        let q = p.push(Seq::<char>::empty());
        assert(q.drop_last() =~= p);
    } else {
        let q = p.update(p.len() - 1, p.last().push(s[i]));
        assert(q.drop_last() =~= p.drop_last());
    }
}

/// The components of `path`.
pub fn components_of(path: &str) -> (r: Vec<Vec<char>>)
    ensures
        seqs_view(r@) == path_components(path@),
{
    let s = chars_of(path);
    let dot = chars_of(".");
    let mut cur: Vec<char> = Vec::new();
    let mut done: Vec<Vec<char>> = Vec::new();
    proof {
        assert(s@.subrange(0, 0) =~= Seq::<char>::empty());
        assert(segments(Seq::<char>::empty()).drop_last() =~= Seq::<Seq<char>>::empty());
        assert(seqs_view(done@) =~= Seq::<Seq<char>>::empty());
    }
    let mut i: usize = 0;
    while i < s.len()
        invariant
            0 <= i <= s@.len(),
            dot@ == "."@,
            component_scan(s@, i as int, cur@, seqs_view(done@)),
        decreases s@.len() - i,
    {
        proof {
            lemma_component_step(s@, i as int, cur@, seqs_view(done@));
        }
        if s[i] == '/' {
            if cur.len() > 0 && !chars_eq(cur.as_slice(), dot.as_slice()) {
                let ghost before = done@;
                done.push(cur);
                proof {
                    assert(seqs_view(done@) =~= seqs_view(before).push(done@.last()@));
                }
            }
            cur = Vec::new();
        } else {
            cur.push(s[i]);
        }
        i = i + 1;
    }
    proof {
        assert(s@.subrange(0, s@.len() as int) =~= s@);
        lemma_segments_nonempty(s@);
    }
    let ghost tail = seqs_view(done@);
    if cur.len() > 0 && !chars_eq(cur.as_slice(), dot.as_slice()) {
        let ghost before = done@;
        done.push(cur);
        proof {
            assert(seqs_view(done@) =~= seqs_view(before).push(done@.last()@));
        }
    }
    let ghost named = seqs_view(done@);
    assert(named == naming_segments(segments(s@)));
    let mut r: Vec<Vec<char>> = Vec::new();
    if s.len() > 0 && s[0] == '/' {
        r.push(chars_of("/"));
    } else if s.len() > 0 && s[0] == '.' && (s.len() == 1 || s[1] == '/') {
        r.push(chars_of("."));
    }
    let ghost lead = seqs_view(r@);
    let mut k: usize = 0;
    let n = done.len();
    while k < n
        invariant
            0 <= k <= n,
            n == done@.len(),
            named == seqs_view(done@),
            seqs_view(r@) =~= lead + named.subrange(0, k as int),
        decreases n - k,
    {
        let ghost before = r@;
        r.push(done[k].clone());
        proof {
            assert(seqs_view(r@) =~= seqs_view(before).push(done@[k as int]@));
            assert(named.subrange(0, k + 1) =~= named.subrange(0, k as int).push(named[k as int]));
        }
        k = k + 1;
    }
    proof {
        assert(named.subrange(0, n as int) =~= named);
        assert(lead == if is_absolute(path@) {
            seq!["/"@]
        } else if starts_at_cur_dir(path@) {
            seq!["."@]
        } else {
            Seq::<Seq<char>>::empty()
        });
    }
    r
}

/// Whether two lists of components are equal.
fn components_eq(a: &Vec<Vec<char>>, b: &Vec<Vec<char>>) -> (r: bool)
    ensures
        r == (seqs_view(a@) == seqs_view(b@)),
{
    if a.len() != b.len() {
        assert(seqs_view(a@).len() != seqs_view(b@).len());
        return false;
    }
    let mut i: usize = 0;
    while i < a.len()
        invariant
            0 <= i <= a@.len(),
            a@.len() == b@.len(),
            forall|k: int| 0 <= k < i ==> a@[k]@ == b@[k]@,
        decreases a@.len() - i,
    {
        if !chars_eq(a[i].as_slice(), b[i].as_slice()) {
            assert(seqs_view(a@)[i as int] != seqs_view(b@)[i as int]);
            return false;
        }
        i = i + 1;
    }
    assert(seqs_view(a@) =~= seqs_view(b@));
    true
}

/// Whether `a` and `b` are equal as std `Path`s.
pub fn paths_equal(a: &str, b: &str) -> (r: bool)
    ensures
        r == same_path(a@, b@),
{
    let ca = components_of(a);
    let cb = components_of(b);
    components_eq(&ca, &cb)
}


/// A path that passes validation is returned as given; it is not blank, it
/// names a file, and none of its segments is `..`.
pub proof fn lemma_accepted_path(s: Seq<char>)
    ensures
        file_path_check(s) is Ok ==> {
            &&& file_path_check(s) == Ok::<Seq<char>, Seq<char>>(s)
            &&& trim(s).len() > 0
            &&& has_file_name(s)
            &&& !has_parent_segment(s)
        },
{
}

} // verus!
