//! Reducing a client-supplied file name to a name that cannot leave the
//! upload directory.
//!
//! A path is read as segments separated by `/`. Empty segments and `.`
//! segments at the end of a path carry no name and are passed over; what is
//! left ends in the segment that names the file. A path that ends in `..`,
//! or that holds no name at all, has no base name.

use vstd::prelude::*;
use crate::utils::text::chars_of;

verus! {

/// `path` without the separators and `.` segments that trail it.
pub open spec fn without_trailing_blanks(path: Seq<char>) -> Seq<char>
    decreases path.len(),
{
    let len = path.len() as int;
    if len >= 1 && path[len - 1] == '/' {
        without_trailing_blanks(path.subrange(0, len - 1))
    } else if len >= 2 && path[len - 1] == '.' && path[len - 2] == '/' {
        without_trailing_blanks(path.subrange(0, len - 2))
    } else if len == 1 && path[0] == '.' {
        Seq::empty()
    } else {
        path
    }
}

/// Where the last segment of `path` begins: just behind its last separator,
/// or at 0 if it has none.
pub open spec fn last_segment_start(path: Seq<char>) -> int
    decreases path.len(),
{
    let len = path.len() as int;
    if len == 0 {
        0
    } else if path[len - 1] == '/' {
        len
    } else {
        last_segment_start(path.subrange(0, len - 1))
    }
}

/// The last segment of `path`: what follows its last separator.
pub open spec fn last_segment(path: Seq<char>) -> Seq<char> {
    path.subrange(last_segment_start(path), path.len() as int)
}

/// The two-character segment that names the parent directory.
pub open spec fn parent_segment() -> Seq<char> {
    seq!['.', '.']
}

/// The base name of `path`: the segment that names the file, if there is one.
pub open spec fn base_name(path: Seq<char>) -> Option<Seq<char>> {
    let name = last_segment(without_trailing_blanks(path));
    if name.len() == 0 || name == parent_segment() {
        None
    } else {
        Some(name)
    }
}

/// A name that stands for one directory entry: not empty, free of
/// separators, and neither `.` nor `..`.
pub open spec fn is_plain_name(name: Seq<char>) -> bool {
    &&& name.len() > 0
    &&& !name.contains('/')
    &&& name != seq!['.']
    &&& name != parent_segment()
}

/// Number of characters left of `chars` once trailing separators and `.`
/// segments are dropped.
fn trimmed_len(chars: &Vec<char>) -> (end: usize)
    ensures
        end <= chars.len(),
        without_trailing_blanks(chars@) == chars@.subrange(0, end as int),
{
    let mut end: usize = chars.len();
    assert(chars@.subrange(0, end as int) == chars@);
    loop
        invariant
            end <= chars.len(),
            without_trailing_blanks(chars@) == without_trailing_blanks(
                chars@.subrange(0, end as int),
            ),
        ensures
            end <= chars.len(),
            without_trailing_blanks(chars@) == chars@.subrange(0, end as int),
        decreases end,
    {
        let ghost prefix = chars@.subrange(0, end as int);
        if end >= 1 && chars[end - 1] == '/' {
            assert(prefix.subrange(0, end - 1) == chars@.subrange(0, end - 1));
            end = end - 1;
        } else if end >= 2 && chars[end - 1] == '.' && chars[end - 2] == '/' {
            assert(prefix.subrange(0, end - 2) == chars@.subrange(0, end - 2));
            end = end - 2;
        } else if end == 1 && chars[0] == '.' {
            assert(chars@.subrange(0, 0) == Seq::<char>::empty());
            end = 0;
            break;
        } else {
            break;
        }
    }
    end
}

/// Start of the last segment among the first `end` characters of `chars`.
fn segment_start(chars: &Vec<char>, end: usize) -> (start: usize)
    requires
        end <= chars.len(),
    ensures
        start <= end,
        start == last_segment_start(chars@.subrange(0, end as int)),
{
    let mut start: usize = end;
    while start > 0 && chars[start - 1] != '/'
        invariant
            start <= end <= chars.len(),
            last_segment_start(chars@.subrange(0, end as int)) == last_segment_start(
                chars@.subrange(0, start as int),
            ),
        decreases start,
    {
        proof {
            let prefix = chars@.subrange(0, start as int);
            assert(prefix.subrange(0, start - 1) == chars@.subrange(0, start - 1));
        }
        start = start - 1;
    }
    start
}

/// The base name of `raw_name`, or `None` if it names no file.
///
/// Directory components are discarded, so the result can be joined to a
/// directory without leaving it.
pub fn sanitize(raw_name: &str) -> (name: Option<String>)
    ensures
        name.deep_view() == base_name(raw_name@),
{
    let chars = chars_of(raw_name);
    let end = trimmed_len(&chars);
    let start = segment_start(&chars, end);
    let ghost trimmed = chars@.subrange(0, end as int);
    assert(last_segment(trimmed) == chars@.subrange(start as int, end as int));
    if start == end {
        return None;
    }
    if end - start == 2 && chars[start] == '.' && chars[start + 1] == '.' {
        assert(last_segment(trimmed) == parent_segment());
        return None;
    }
    assert(last_segment(trimmed) != parent_segment()) by {
        if last_segment(trimmed) == parent_segment() {
            assert(last_segment(trimmed)[0] == '.');
            assert(last_segment(trimmed)[1] == '.');
        }
    }
    Some(raw_name.substring_char(start, end).to_owned())
}

/// What `without_trailing_blanks` leaves is the front part of the path, and
/// it ends neither in a separator nor in a `.` segment.
pub proof fn lemma_trailing_blanks_dropped(path: Seq<char>)
    ensures
        without_trailing_blanks(path).len() <= path.len(),
        without_trailing_blanks(path) == path.subrange(
            0,
            without_trailing_blanks(path).len() as int,
        ),
        without_trailing_blanks(without_trailing_blanks(path)) == without_trailing_blanks(path),
        last_segment(without_trailing_blanks(path)) != seq!['.'],
    decreases path.len(),
{
    let len = path.len() as int;
    let kept = without_trailing_blanks(path);
    if len >= 1 && path[len - 1] == '/' {
        let rest = path.subrange(0, len - 1);
        lemma_trailing_blanks_dropped(rest);
        assert(rest.subrange(0, kept.len() as int) == path.subrange(0, kept.len() as int));
    } else if len >= 2 && path[len - 1] == '.' && path[len - 2] == '/' {
        let rest = path.subrange(0, len - 2);
        lemma_trailing_blanks_dropped(rest);
        assert(rest.subrange(0, kept.len() as int) == path.subrange(0, kept.len() as int));
    } else if len == 1 && path[0] == '.' {
        assert(kept == path.subrange(0, 0));
        assert(last_segment(kept).len() == 0);
    } else {
        assert(kept == path.subrange(0, len));
        if last_segment(path) == seq!['.'] {
            lemma_last_segment(path);
            assert(last_segment(path).len() == 1);
            assert(last_segment(path)[0] == '.');
            assert(path[len - 1] == '.');
        }
    }
}

/// The last segment begins at the start of the path or just behind a
/// separator, and holds no separator itself.
pub proof fn lemma_last_segment(path: Seq<char>)
    ensures
        0 <= last_segment_start(path) <= path.len(),
        last_segment_start(path) > 0 ==> path[last_segment_start(path) - 1] == '/',
        !last_segment(path).contains('/'),
    decreases path.len(),
{
    let len = path.len() as int;
    if len == 0 {
    } else if path[len - 1] == '/' {
    } else {
        let rest = path.subrange(0, len - 1);
        lemma_last_segment(rest);
        let start = last_segment_start(path);
        assert forall|i: int| 0 <= i < last_segment(path).len() implies last_segment(path)[i]
            != '/' by {
            if i < last_segment(rest).len() {
                assert(last_segment(rest)[i] == last_segment(path)[i]);
                assert(last_segment(rest).contains(last_segment(rest)[i]));
            }
        }
    }
}

/// Sanitising yields only the final name of a path: a plain name that stands
/// in the path as its last segment, followed by nothing but separators and
/// `.` segments. No directory component and no step to a parent directory
/// survives.
pub proof fn lemma_base_name_is_final_segment(path: Seq<char>)
    ensures
        base_name(path) matches Some(name) ==> {
            let end = without_trailing_blanks(path).len() as int;
            let start = end - name.len();
            &&& is_plain_name(name)
            &&& 0 <= start < end <= path.len()
            &&& name == path.subrange(start, end)
            &&& (start == 0 || path[start - 1] == '/')
            &&& without_trailing_blanks(path) == path.subrange(0, end)
        },
{
    let kept = without_trailing_blanks(path);
    lemma_trailing_blanks_dropped(path);
    lemma_last_segment(kept);
    if base_name(path) is Some {
        let name = base_name(path).unwrap();
        let end = kept.len() as int;
        let start = last_segment_start(kept);
        assert(name == kept.subrange(start, end));
        assert(kept.subrange(start, end) == path.subrange(start, end));
    }
}

/// A plain name is its own base name, and stays the base name of any path
/// that ends in a separator and that name: whatever directories a client
/// puts in front are discarded.
pub proof fn lemma_plain_name_is_kept(directories: Seq<char>, name: Seq<char>)
    requires
        is_plain_name(name),
    ensures
        base_name(name) == Some(name),
        base_name(directories + seq!['/'] + name) == Some(name),
{
    lemma_last_segment_of_join(Seq::empty(), name);
    assert(Seq::<char>::empty() + name == name);
    lemma_not_blank_at_end(Seq::empty(), name);
    lemma_last_segment_of_join(directories + seq!['/'], name);
    lemma_not_blank_at_end(directories + seq!['/'], name);
}

/// Behind a front part that is empty or ends in a separator, a text free of
/// separators is the last segment.
proof fn lemma_last_segment_of_join(front: Seq<char>, name: Seq<char>)
    requires
        front.len() == 0 || front.last() == '/',
        !name.contains('/'),
    ensures
        last_segment_start(front + name) == front.len(),
        last_segment(front + name) == name,
    decreases name.len(),
{
    let path = front + name;
    if name.len() == 0 {
        assert(path == front);
    } else {
        let shorter = name.drop_last();
        assert(name.contains(name.last()));
        assert forall|c: char| shorter.contains(c) implies c != '/' by {
            let i = choose|i: int| 0 <= i < shorter.len() && shorter[i] == c;
            assert(name[i] == c);
            assert(name.contains(c));
        }
        lemma_last_segment_of_join(front, shorter);
        assert(path.subrange(0, path.len() - 1) == front + shorter);
    }
    assert(path.subrange(front.len() as int, path.len() as int) == name);
}

/// A path that ends in a plain name has no trailing blanks to drop.
proof fn lemma_not_blank_at_end(front: Seq<char>, name: Seq<char>)
    requires
        front.len() == 0 || front.last() == '/',
        is_plain_name(name),
    ensures
        without_trailing_blanks(front + name) == front + name,
{
    let path = front + name;
    let len = path.len() as int;
    assert(name.contains(name.last()));
    assert(path[len - 1] == name.last());
    if name.len() >= 2 {
        assert(name.contains(name[name.len() - 2]));
        assert(path[len - 2] == name[name.len() - 2]);
    } else {
        assert(name != seq!['.']);
        if name[0] == '.' {
            assert(name == seq!['.']);
        }
    }
}

} // verus!
