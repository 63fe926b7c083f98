//! The project an agent works in, named after the last component of its
//! working directory (Unix path rules).

use vstd::prelude::*;

verus! {

/// The path ends in a separator, or in a `.` component that adds nothing.
pub open spec fn ends_in_filler(p: Seq<char>) -> bool {
    p.len() > 0 && (p.last() == '/' || (p.last() == '.' && (p.len() == 1 || p[p.len() - 2]
        == '/')))
}

/// The path without its trailing separators and `.` components.
pub open spec fn without_filler(p: Seq<char>) -> Seq<char>
    decreases p.len(),
{
    if ends_in_filler(p) {
        without_filler(p.drop_last())
    } else {
        p
    }
}

/// The characters after the last separator.
pub open spec fn last_segment(p: Seq<char>) -> Seq<char>
    decreases p.len(),
{
    if p.len() == 0 || p.last() == '/' {
        Seq::empty()
    } else {
        last_segment(p.drop_last()).push(p.last())
    }
}

/// The final component of a path when it names a file or directory: none
/// for `/`, `.`, the empty path and paths that end in `..`.
pub open spec fn final_component_of(p: Seq<char>) -> Option<Seq<char>> {
    let segment = last_segment(without_filler(p));
    if segment.len() == 0 || segment == ".."@ {
        None
    } else {
        Some(segment)
    }
}

/// The name shown for an agent's project: the last component of its working
/// directory, or `?` when there is none.
pub open spec fn project_name_of(cwd: Seq<char>) -> Seq<char> {
    match final_component_of(cwd) {
        Some(name) => name,
        None => "?"@,
    }
}

fn ends_in_filler_at(path: &str, end: usize) -> (filler: bool)
    requires
        end <= path@.len(),
    ensures
        filler == ends_in_filler(path@.take(end as int)),
{
    if end == 0 {
        return false;
    }
    let c = path.get_char(end - 1);
    if c == '/' {
        true
    } else if c == '.' {
        end == 1 || path.get_char(end - 2) == '/'
    } else {
        false
    }
}

/// The final component of `path`, as `std::path::Path::file_name` gives it.
pub fn final_component(path: &str) -> (name: Option<&str>)
    ensures
        match name {
            Some(n) => final_component_of(path@) == Some(n@),
            None => final_component_of(path@) is None,
        },
{
    let ghost p = path@;
    let n = path.unicode_len();
    let mut end = n;
    assert(p.take(n as int) =~= p);
    while ends_in_filler_at(path, end)
        invariant
            p == path@,
            end <= n == p.len(),
            without_filler(p) == without_filler(p.take(end as int)),
        decreases end,
    {
        assert(p.take(end as int).drop_last() =~= p.take(end - 1));
        end = end - 1;
    }
    let ghost kept = p.take(end as int);
    assert(without_filler(kept) == kept);
    let mut start = end;
    assert(p.subrange(end as int, end as int) =~= Seq::<char>::empty());
    assert(last_segment(kept) + Seq::<char>::empty() =~= last_segment(kept));
    while start > 0 && path.get_char(start - 1) != '/'
        invariant
            p == path@,
            start <= end <= n == p.len(),
            kept == p.take(end as int),
            last_segment(kept) == last_segment(p.take(start as int)) + p.subrange(
                start as int,
                end as int,
            ),
        decreases start,
    {
        let ghost front = p.take(start as int);
        assert(front.drop_last() =~= p.take(start - 1));
        assert(last_segment(front) == last_segment(p.take(start - 1)).push(p[start - 1]));
        assert(p.subrange(start - 1, end as int) =~= seq![p[start - 1]] + p.subrange(
            start as int,
            end as int,
        ));
        assert(last_segment(p.take(start - 1)).push(p[start - 1]) + p.subrange(
            start as int,
            end as int,
        ) =~= last_segment(p.take(start - 1)) + p.subrange(start - 1, end as int));
        start = start - 1;
    }
    assert(last_segment(p.take(start as int)) =~= Seq::<char>::empty());
    assert(last_segment(kept) =~= p.subrange(start as int, end as int));
    if start == end {
        return None;
    }
    if end - start == 2 && path.get_char(start) == '.' && path.get_char(start + 1) == '.' {
        assert(p.subrange(start as int, end as int) =~= ".."@) by {
            reveal_strlit("..");
        }
        return None;
    }
    proof {
        reveal_strlit("..");
        if p.subrange(start as int, end as int) == ".."@ {
            assert(p.subrange(start as int, end as int)[0] == '.');
            assert(p.subrange(start as int, end as int)[1] == '.');
        }
    }
    Some(path.substring_char(start, end))
}

/// Project name of an agent's working directory.
pub fn project_name(cwd: &str) -> (name: String)
    ensures
        name@ == project_name_of(cwd@),
{
    match final_component(cwd) {
        Some(n) => n.to_owned(),
        None => "?".to_owned(),
    }
}

proof fn lemma_last_segment_has_no_separator(p: Seq<char>)
    ensures
        !last_segment(p).contains('/'),
    decreases p.len(),
{
    if p.len() > 0 && p.last() != '/' {
        lemma_last_segment_has_no_separator(p.drop_last());
        let front = last_segment(p.drop_last());
        assert forall|i: int| 0 <= i < front.push(p.last()).len() implies front.push(p.last())[i]
            != '/' by {
            if i < front.len() {
                assert(front.push(p.last())[i] == front[i]);
            }
        }
    }
}

/// Law: a project name is never empty and is a single path component: it
/// holds no separator.
pub proof fn lemma_project_name_is_one_component(cwd: Seq<char>)
    ensures
        project_name_of(cwd).len() > 0,
        !project_name_of(cwd).contains('/'),
{
    reveal_strlit("?");
    lemma_last_segment_has_no_separator(without_filler(cwd));
    if final_component_of(cwd) is None {
        assert("?"@[0] == '?');
    }
}

proof fn lemma_last_segment_after_separator(p: Seq<char>, name: Seq<char>)
    requires
        !name.contains('/'),
    ensures
        last_segment(p.push('/') + name) == name,
    decreases name.len(),
{
    if name.len() == 0 {
        assert(p.push('/') + name =~= p.push('/'));
    } else {
        let init = name.drop_last();
        assert(!init.contains('/')) by {
            if init.contains('/') {
                let i = choose|i: int| 0 <= i < init.len() && init[i] == '/';
                assert(name[i] == '/');
            }
        }
        lemma_last_segment_after_separator(p, init);
        assert((p.push('/') + name).drop_last() =~= p.push('/') + init);
        assert(name.last() == name[name.len() - 1]);
        assert(init.push(name.last()) =~= name);
    }
}

/// Law: a directory named `name` (one component, neither `.` nor `..`)
/// inside any path gives `name` as its final component.
pub proof fn lemma_final_component_of_child(parent: Seq<char>, name: Seq<char>)
    requires
        name.len() > 0,
        !name.contains('/'),
        name != "."@,
        name != ".."@,
    ensures
        final_component_of(parent.push('/') + name) == Some(name),
{
    reveal_strlit(".");
    let path = parent.push('/') + name;
    assert(path.last() == name.last());
    if name.last() == '.' && name.len() >= 2 {
        assert(path[path.len() - 2] == name[name.len() - 2]);
        assert(name[name.len() - 2] != '/') by {
            assert(name.contains(name[name.len() - 2]) ==> name[name.len() - 2] != '/');
        }
    }
    if name.len() == 1 && name.last() == '.' {
        assert(name =~= "."@);
    }
    assert(name[name.len() - 1] != '/');
    assert(!ends_in_filler(path));
    lemma_last_segment_after_separator(parent, name);
}

/// Law: a trailing separator does not change a path's final component.
pub proof fn lemma_trailing_separator_ignored(path: Seq<char>)
    ensures
        final_component_of(path.push('/')) == final_component_of(path),
{
    assert(path.push('/').drop_last() =~= path);
}

} // verus!
