//! File names of Unix paths.
use vstd::prelude::*;
use vstd::string::*;

use crate::text::same_text;

verus! {

/// Where the last segment of a path starts: right after its last slash.
pub open spec fn segment_start(path: Seq<char>) -> int
    decreases path.len(),
{
    if path.len() == 0 || path.last() == '/' {
        path.len() as int
    } else {
        segment_start(path.drop_last())
    }
}

/// The last component of a path. Trailing slashes and trailing `.` segments do not count; a path
/// that ends in `..`, the root and a lone `.` have no file name.
pub open spec fn file_name(path: Seq<char>) -> Option<Seq<char>>
    decreases path.len(),
{
    if path.len() == 0 {
        None
    } else if path.last() == '/' {
        file_name(path.drop_last())
    } else {
        let name = path.skip(segment_start(path));
        if name == seq!['.'] {
            if path.len() == 1 {
                None
            } else {
                file_name(path.drop_last())
            }
        } else if name == seq!['.', '.'] {
            None
        } else {
            Some(name)
        }
    }
}

/// The last component of a Unix path.
pub fn path_file_name(path: &str) -> (name: Option<String>)
    ensures
        match name {
            Some(name) => Some(name@),
            None => None,
        } == file_name(path@),
{
    let mut end: usize = path.unicode_len();
    proof {
        assert(path@.take(end as int) =~= path@);
    }
    while end > 0
        invariant
            end <= path@.len(),
            file_name(path@.take(end as int)) == file_name(path@),
        decreases end,
    {
        let ghost current = path@.take(end as int);
        proof {
            assert(current.drop_last() =~= path@.take(end - 1));
        }
        if path.get_char(end - 1) == '/' {
            end -= 1;
            continue;
        }
        let mut start: usize = end;
        proof {
            assert(path@.take(start as int) =~= current);
        }
        while start > 0 && path.get_char(start - 1) != '/'
            invariant
                start <= end <= path@.len(),
                segment_start(path@.take(start as int)) == segment_start(path@.take(end as int)),
            ensures
                start <= end <= path@.len(),
                segment_start(path@.take(start as int)) == segment_start(path@.take(end as int)),
                start > 0 ==> path@[start - 1] == '/',
            decreases start,
        {
            proof {
                assert(path@.take(start as int).drop_last() =~= path@.take(start - 1));
            }
            start -= 1;
        }
        proof {
            assert(segment_start(path@.take(start as int)) == start);
            assert(current.skip(start as int) =~= path@.subrange(start as int, end as int));
        }
        let name = path.substring_char(start, end);
        proof {
            reveal_strlit(".");
            reveal_strlit("..");
            assert("."@ =~= seq!['.']);
            assert(".."@ =~= seq!['.', '.']);
        }
        if same_text(name, ".") {
            if end == 1 {
                return None;
            }
            end -= 1;
            continue;
        }
        if same_text(name, "..") {
            return None;
        }
        return Some(name.to_owned());
    }
    None
}

proof fn lemma_segment_after_slash(dir: Seq<char>, name: Seq<char>)
    requires
        forall|i: int| 0 <= i < name.len() ==> name[i] != '/',
        dir.len() > 0 ==> dir.last() == '/',
    ensures
        segment_start(dir + name) == dir.len(),
    decreases name.len(),
{
    if name.len() == 0 {
        assert(dir + name =~= dir);
    } else {
        assert((dir + name).last() == name.last());
        assert((dir + name).drop_last() =~= dir + name.drop_last());
        lemma_segment_after_slash(dir, name.drop_last());
    }
}

/// A name on its own is its own file name, and so it is at the end of any directory; `..` never is one,
/// nor is a lone `.`.
pub proof fn lemma_names_end_their_paths(dir: Seq<char>, name: Seq<char>)
    requires
        name.len() > 0,
        forall|i: int| 0 <= i < name.len() ==> name[i] != '/',
    ensures
        name != seq!['.'] && name != seq!['.', '.'] ==> file_name(name) == Some(name) && file_name(
            dir.push('/') + name,
        ) == Some(name),
        name == seq!['.', '.'] ==> file_name(name) is None && file_name(dir.push('/') + name) is None,
        name == seq!['.'] ==> file_name(name) is None,
{
    lemma_segment_after_slash(Seq::empty(), name);
    lemma_segment_after_slash(dir.push('/'), name);
    assert(Seq::<char>::empty() + name =~= name);
    assert(name.skip(0) =~= name);
    let path = dir.push('/') + name;
    assert(path.skip(dir.len() as int + 1) =~= name);
    assert(path.last() == name.last());
    assert(name.last() != '/');
}

/// What stands at the end of a path without naming anything does not count: a slash, or a slash and a
/// dot. Without any name there is no file name.
pub proof fn lemma_empty_segments_do_not_count(path: Seq<char>)
    ensures
        file_name(path.push('/')) == file_name(path),
        file_name(path.push('/').push('.')) == file_name(path),
        file_name(Seq::empty()) is None,
{
    assert(path.push('/').drop_last() =~= path);
    let dotted = path.push('/').push('.');
    assert(dotted.drop_last() =~= path.push('/'));
    lemma_segment_after_slash(path.push('/'), seq!['.']);
    assert(path.push('/') + seq!['.'] =~= dotted);
    assert(dotted.skip(path.len() as int + 1) =~= seq!['.']);
    reveal_with_fuel(file_name, 3);
}

} // verus!
