//! The name under which a path is shown: its last component.

use vstd::prelude::*;
use vstd::string::StrSliceExecFns;

verus! {

/// Positions `from` up to `to` hold a segment of `path`: a run of characters other
/// than `/` that cannot be made longer.
pub open spec fn is_segment(path: Seq<char>, from: int, to: int) -> bool {
    &&& 0 <= from < to <= path.len()
    &&& forall|i: int| from <= i < to ==> path[i] != '/'
    &&& (from == 0 || path[from - 1] == '/')
    &&& (to == path.len() || path[to] == '/')
}

/// Positions `from` up to `to` hold a component of `path`: any segment but `.`.
pub open spec fn is_component(path: Seq<char>, from: int, to: int) -> bool {
    is_segment(path, from, to) && !(to - from == 1 && path[from] == '.')
}

/// Positions `from` up to `to` hold the component of `path` that ends last.
pub open spec fn is_last_component(path: Seq<char>, from: int, to: int) -> bool {
    &&& is_component(path, from, to)
    &&& forall|f: int, t: int| #[trigger] is_component(path, f, t) ==> t <= to
}

/// The name shown for `path`: its last component, or nothing where the path has no
/// component or where the last one is `..`.
pub open spec fn display_name(path: Seq<char>) -> Seq<char> {
    if exists|from: int, to: int| is_last_component(path, from, to) {
        let (from, to) = choose|from: int, to: int| is_last_component(path, from, to);
        if to - from == 2 && path[from] == '.' && path[from + 1] == '.' {
            Seq::empty()
        } else {
            path.subrange(from, to)
        }
    } else {
        Seq::empty()
    }
}

/// A path has one last component at most.
pub proof fn last_component_is_unique(path: Seq<char>, f1: int, t1: int, f2: int, t2: int)
    requires
        is_last_component(path, f1, t1),
        is_last_component(path, f2, t2),
    ensures
        f1 == f2,
        t1 == t2,
{
    assert(is_component(path, f1, t1) && is_component(path, f2, t2));
    if f1 < f2 {
        assert(path[f2 - 1] == '/');
    } else if f2 < f1 {
        assert(path[f1 - 1] == '/');
    }
}

/// The name shown for `path`: its last component, or nothing where the path has no
/// component or where the last one is `..`. Components are what stands between the
/// slashes, but for `.` and for nothing at all.
pub fn last_component(path: &str) -> (name: String)
    ensures
        name@ == display_name(path@),
{
    let len = path.unicode_len();
    let mut start: usize = 0;
    let mut dots_only = true;
    let mut found = false;
    let mut from: usize = 0;
    let mut to: usize = 0;
    let mut i: usize = 0;
    for c in it: path.chars()
        invariant
            it.seq() == path@,
            len == path@.len(),
            i == it.index(),
            start <= i <= len,
            forall|j: int| start <= j < i ==> path@[j] != '/',
            start == 0 || path@[start - 1] == '/',
            dots_only == (forall|j: int| start <= j < i ==> path@[j] == '.'),
            found ==> is_component(path@, from as int, to as int) && to < start,
            forall|f: int, t: int| #[trigger]
                is_component(path@, f, t) && t < start ==> found && t <= to,
    {
        if c == '/' {
            let ghost ended = start;
            if start < i && !(dots_only && i - start == 1) {
                found = true;
                from = start;
                to = i;
            }
            start = i + 1;
            dots_only = true;
            proof {
                assert forall|f: int, t: int| #[trigger]
                    is_component(path@, f, t) && t < start implies found && t <= to by {
                    if t >= ended {
                        lemma_segment_of_run(path@, ended as int, i as int, f, t);
                    }
                }
            }
        } else if c != '.' {
            dots_only = false;
        }
        i = i + 1;
    }
    if start < len && !(dots_only && len - start == 1) {
        found = true;
        from = start;
        to = len;
    }
    proof {
        assert forall|f: int, t: int| #[trigger] is_component(path@, f, t) implies found && t <= to by {
            if t >= start {
                lemma_segment_of_run(path@, start as int, len as int, f, t);
            }
        }
        if found {
            assert(is_last_component(path@, from as int, to as int));
            let (f, t) = choose|f: int, t: int| is_last_component(path@, f, t);
            last_component_is_unique(path@, from as int, to as int, f, t);
        } else {
            assert forall|f: int, t: int| !is_last_component(path@, f, t) by {
                if is_component(path@, f, t) {
                }
            }
        }
    }
    if found && !(to - from == 2 && path.get_char(from) == '.' && path.get_char(from + 1) == '.') {
        path.substring_char(from, to).to_owned()
    } else {
        String::new()
    }
}

/// A segment that ends inside or at the end of a run without a slash, which begins
/// behind a slash or at the start and ends before a slash or at the end, is that run.
proof fn lemma_segment_of_run(path: Seq<char>, start: int, end: int, f: int, t: int)
    requires
        0 <= start <= end <= path.len(),
        forall|j: int| start <= j < end ==> path[j] != '/',
        start == 0 || path[start - 1] == '/',
        end == path.len() || path[end] == '/',
        is_segment(path, f, t),
        start <= t <= end,
    ensures
        f == start,
        t == end,
        start < end,
{
    if t < end {
        assert(path[t] == '/');
    }
    if f < start {
        assert(path[start - 1] == '/');
    } else if f > start {
        assert(path[f - 1] == '/');
    }
}

} // verus!
