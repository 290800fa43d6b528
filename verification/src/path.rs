//! Lexical mapping between client-visible paths and locations under a
//! storage root.
//!
//! A path is read as segments separated by `/`. Empty segments and `.` are
//! dropped, `..` removes the segment before it, and a `..` with nothing
//! before it leaves the root: such a path is refused.

use crate::error::StorageError;
use crate::text::{chars_of, text_of};
use crate::types::text_views;
use vstd::prelude::*;

verus! {

/// The pieces of `text` between separators, empty pieces included.
pub open spec fn split(text: Seq<char>) -> Seq<Seq<char>>
    decreases text.len(),
{
    if text.len() == 0 {
        seq![Seq::<char>::empty()]
    } else {
        let before = split(text.drop_last());
        if text.last() == '/' {
            before.push(Seq::<char>::empty())
        } else {
            before.drop_last().push(before.last().push(text.last()))
        }
    }
}

/// A segment that names no entry: the empty segment and `.`.
pub open spec fn is_skipped(segment: Seq<char>) -> bool {
    segment.len() == 0 || segment == seq!['.']
}

/// The segment `..`.
pub open spec fn is_parent(segment: Seq<char>) -> bool {
    segment == seq!['.', '.']
}

/// A segment that names an entry.
pub open spec fn is_plain(segment: Seq<char>) -> bool {
    &&& !is_skipped(segment)
    &&& !is_parent(segment)
    &&& !segment.contains('/')
}

/// Every segment names an entry.
pub open spec fn all_plain(segments: Seq<Seq<char>>) -> bool {
    forall|i: int| 0 <= i < segments.len() ==> is_plain(#[trigger] segments[i])
}

/// One step of normalization: `kept` is what the segments so far came to,
/// `None` once they have left the root.
pub open spec fn descend(kept: Option<Seq<Seq<char>>>, segment: Seq<char>) -> Option<
    Seq<Seq<char>>,
> {
    match kept {
        None => None,
        Some(stack) => if is_skipped(segment) {
            Some(stack)
        } else if is_parent(segment) {
            if stack.len() == 0 {
                None
            } else {
                Some(stack.drop_last())
            }
        } else {
            Some(stack.push(segment))
        },
    }
}

/// The entries that `segments` lead through, from the root down, or `None`
/// if they climb above the root at any point.
pub open spec fn normalize(segments: Seq<Seq<char>>) -> Option<Seq<Seq<char>>>
    decreases segments.len(),
{
    if segments.len() == 0 {
        Some(Seq::<Seq<char>>::empty())
    } else {
        descend(normalize(segments.drop_last()), segments.last())
    }
}

/// `base` extended by one segment, with a separator between them unless
/// `base` is empty or already ends in one.
pub open spec fn push_segment(base: Seq<char>, segment: Seq<char>) -> Seq<char> {
    if base.len() > 0 && base.last() != '/' {
        base.push('/') + segment
    } else {
        base + segment
    }
}

/// `base` extended by `segments`, one after the other.
pub open spec fn join(base: Seq<char>, segments: Seq<Seq<char>>) -> Seq<char>
    decreases segments.len(),
{
    if segments.len() == 0 {
        base
    } else {
        push_segment(join(base, segments.drop_last()), segments.last())
    }
}

/// Each segment behind a separator: `/a/b` for `a`, `b`.
pub open spec fn rooted(segments: Seq<Seq<char>>) -> Seq<char>
    decreases segments.len(),
{
    if segments.len() == 0 {
        Seq::<char>::empty()
    } else {
        rooted(segments.drop_last()).push('/') + segments.last()
    }
}

/// The client-visible path of the entry that `segments` lead to; the root
/// itself is `/`.
pub open spec fn logical(segments: Seq<Seq<char>>) -> Seq<char> {
    if segments.len() == 0 {
        seq!['/']
    } else {
        rooted(segments)
    }
}

/// The location that a client-visible path stands for, or `None` if the
/// path leaves the root.
pub open spec fn resolved(root: Seq<char>, path: Seq<char>) -> Option<Seq<char>> {
    match normalize(split(path)) {
        Some(segments) => Some(join(root, segments)),
        None => None,
    }
}

/// The location that `segments` lead to from the root, followed by each
/// directory above it, up to the root itself.
pub open spec fn lineage(root: Seq<char>, segments: Seq<Seq<char>>) -> Seq<Seq<char>> {
    Seq::new(segments.len() + 1, |k: int| join(root, segments.take(segments.len() - k)))
}

/// The location that a client-visible path stands for, followed by each
/// directory above it, up to the root itself; `None` if the path leaves
/// the root.
pub open spec fn resolved_lineage(root: Seq<char>, path: Seq<char>) -> Option<Seq<Seq<char>>> {
    match normalize(split(path)) {
        Some(segments) => Some(lineage(root, segments)),
        None => None,
    }
}

/// `location` is the root or lies below it: it is the root extended by
/// segments that each name an entry.
pub open spec fn under_root(root: Seq<char>, location: Seq<char>) -> bool {
    exists|segments: Seq<Seq<char>>| all_plain(segments) && location == #[trigger] join(root, segments)
}

/// What is left of `location` behind `root`, or `None` if `location` does
/// not begin with the root followed by a separator or the end. Behind
/// the empty root, which stands for the directory that relative paths
/// start from, nothing may begin with a separator.
pub open spec fn below(root: Seq<char>, location: Seq<char>) -> Option<Seq<char>> {
    if root.is_prefix_of(location) {
        let rest = location.skip(root.len() as int);
        if rest.len() == 0 {
            Some(rest)
        } else if root.len() == 0 {
            if rest[0] == '/' {
                None
            } else {
                Some(rest)
            }
        } else if root.last() != '/' && rest[0] != '/' {
            None
        } else {
            Some(rest)
        }
    } else {
        None
    }
}

/// The client-visible path of a location, or `None` if the location is not
/// under the root.
pub open spec fn relativized(root: Seq<char>, location: Seq<char>) -> Option<Seq<char>> {
    match below(root, location) {
        Some(rest) => match normalize(split(rest)) {
            Some(segments) => Some(logical(segments)),
            None => None,
        },
        None => None,
    }
}

/// The character sequences held by `segments`.
pub open spec fn views(segments: Seq<Vec<char>>) -> Seq<Seq<char>> {
    segments.map_values(|segment: Vec<char>| segment@)
}

/// Normalization never keeps a segment that names no entry.
pub proof fn lemma_normalize_plain(segments: Seq<Seq<char>>)
    requires
        forall|i: int| 0 <= i < segments.len() ==> !(#[trigger] segments[i]).contains('/'),
    ensures
        normalize(segments) matches Some(kept) ==> all_plain(kept),
    decreases segments.len(),
{
    if segments.len() > 0 {
        let front = segments.drop_last();
        lemma_normalize_plain(front);
    }
}

/// No piece of a split text holds a separator.
pub proof fn lemma_split_no_separator(text: Seq<char>)
    ensures
        split(text).len() >= 1,
        forall|i: int| 0 <= i < split(text).len() ==> !(#[trigger] split(text)[i]).contains('/'),
    decreases text.len(),
{
    if text.len() > 0 {
        lemma_split_no_separator(text.drop_last());
    }
}

/// Whether `segment` names no entry.
pub fn names_nothing(segment: &Vec<char>) -> (yes: bool)
    ensures
        yes == is_skipped(segment@),
{
    let yes = segment.len() == 0 || (segment.len() == 1 && segment[0] == '.');
    assert(segment@.len() == 1 && segment@[0] == '.' ==> segment@ =~= seq!['.']);
    yes
}

/// Whether `segment` is `..`.
pub fn steps_back(segment: &Vec<char>) -> (yes: bool)
    ensures
        yes == is_parent(segment@),
{
    let yes = segment.len() == 2 && segment[0] == '.' && segment[1] == '.';
    assert(yes ==> segment@ =~= seq!['.', '.']);
    yes
}

/// The normalized segments of `chars[start..]`, or `None` if they leave
/// the root.
pub fn segments_of(chars: &Vec<char>, start: usize) -> (kept: Option<Vec<Vec<char>>>)
    requires
        start <= chars.len(),
    ensures
        match normalize(split(chars@.skip(start as int))) {
            Some(segments) => kept matches Some(found) && views(found@) == segments,
            None => kept is None,
        },
        kept matches Some(found) ==> all_plain(views(found@)),
{
    let mut stack: Vec<Vec<char>> = Vec::new();
    let mut current: Vec<char> = Vec::new();
    let mut escaped = false;
    let ghost mut done: Seq<Seq<char>> = Seq::empty();
    let mut i: usize = start;
    proof {
        assert(chars@.subrange(start as int, start as int) =~= Seq::<char>::empty());
        assert(split(Seq::<char>::empty()) =~= done.push(current@));
        assert(views(stack@) =~= Seq::<Seq<char>>::empty());
    }
    while i < chars.len()
        invariant
            start <= i <= chars.len(),
            split(chars@.subrange(start as int, i as int)) == done.push(current@),
            normalize(done) == if escaped {
                None
            } else {
                Some(views(stack@))
            },
        decreases chars.len() - i,
    {
        let ghost before = chars@.subrange(start as int, i as int);
        let ghost after = chars@.subrange(start as int, i + 1);
        let c = chars[i];
        proof {
            assert(after.drop_last() =~= before);
            assert(after.last() == c);
        }
        if c == '/' {
            proof {
                assert(done.push(current@).drop_last() =~= done);
            }
            if !escaped {
                escaped = close_segment(&mut stack, current);
            }
            proof {
                done = done.push(current@);
            }
            current = Vec::new();
        } else {
            proof {
                assert(done.push(current@).drop_last() =~= done);
                assert(done.push(current@).last() == current@);
            }
            current.push(c);
        }
        i += 1;
    }
    proof {
        assert(chars@.subrange(start as int, i as int) =~= chars@.skip(start as int));
        assert(done.push(current@).drop_last() =~= done);
        lemma_split_no_separator(chars@.skip(start as int));
        lemma_normalize_plain(split(chars@.skip(start as int)));
    }
    if !escaped {
        escaped = close_segment(&mut stack, current);
    }
    if escaped {
        None
    } else {
        Some(stack)
    }
}

/// Applies one finished segment to the stack of kept segments. Returns
/// whether the segment climbed above the root.
fn close_segment(stack: &mut Vec<Vec<char>>, segment: Vec<char>) -> (escaped: bool)
    ensures
        descend(Some(views(old(stack)@)), segment@) == if escaped {
            None
        } else {
            Some(views(final(stack)@))
        },
{
    if names_nothing(&segment) {
        false
    } else if steps_back(&segment) {
        if stack.len() == 0 {
            true
        } else {
            stack.pop();
            assert(views(stack@) =~= views(old(stack)@).drop_last());
            false
        }
    } else {
        stack.push(segment);
        assert(views(stack@) =~= views(old(stack)@).push(segment@));
        false
    }
}

/// Appends `chars` to `text`.
fn append_chars(text: &mut String, chars: &Vec<char>)
    ensures
        final(text)@ == old(text)@ + chars@,
{
    let mut i: usize = 0;
    while i < chars.len()
        invariant
            i <= chars.len(),
            text@ == old(text)@ + chars@.take(i as int),
        decreases chars.len() - i,
    {
        text.push(chars[i]);
        proof {
            assert(chars@.take(i + 1) =~= chars@.take(i as int).push(chars@[i as int]));
        }
        i += 1;
    }
    proof {
        assert(chars@.take(i as int) =~= chars@);
    }
}

/// The root extended by the first `count` of `segments`.
fn location_of(root: &Vec<char>, segments: &Vec<Vec<char>>, count: usize) -> (location: String)
    requires
        count <= segments.len(),
    ensures
        location@ == join(root@, views(segments@).take(count as int)),
{
    let mut location = text_of(root, 0, root.len());
    let mut open = root.len() > 0 && root[root.len() - 1] != '/';
    let mut k: usize = 0;
    proof {
        assert(root@.subrange(0, root.len() as int) =~= root@);
        assert(views(segments@).take(0) =~= Seq::<Seq<char>>::empty());
    }
    while k < count
        invariant
            k <= count <= segments.len(),
            location@ == join(root@, views(segments@).take(k as int)),
            open == (location@.len() > 0 && location@.last() != '/'),
        decreases count - k,
    {
        let ghost so_far = views(segments@).take(k as int);
        let ghost next = views(segments@).take(k + 1);
        proof {
            assert(next.drop_last() =~= so_far);
            assert(next.last() == segments@[k as int]@);
        }
        if open {
            location.push('/');
        }
        let segment = &segments[k];
        append_chars(&mut location, segment);
        if segment.len() > 0 {
            open = segment[segment.len() - 1] != '/';
        } else {
            open = false;
        }
        k += 1;
    }
    location
}

/// The client-visible path that `segments` spell.
fn logical_of(segments: &Vec<Vec<char>>) -> (path: String)
    ensures
        path@ == logical(views(segments@)),
{
    let mut path = String::new();
    if segments.len() == 0 {
        path.push('/');
        assert(path@ =~= seq!['/']);
        return path;
    }
    let mut k: usize = 0;
    proof {
        assert(views(segments@).take(0) =~= Seq::<Seq<char>>::empty());
    }
    while k < segments.len()
        invariant
            k <= segments.len(),
            path@ == rooted(views(segments@).take(k as int)),
        decreases segments.len() - k,
    {
        let ghost so_far = views(segments@).take(k as int);
        let ghost next = views(segments@).take(k + 1);
        proof {
            assert(next.drop_last() =~= so_far);
            assert(next.last() == segments@[k as int]@);
        }
        path.push('/');
        append_chars(&mut path, &segments[k]);
        k += 1;
    }
    proof {
        assert(views(segments@).take(k as int) =~= views(segments@));
    }
    path
}

/// Maps a client-visible path to its location under `root`.
///
/// Leading, trailing and doubled separators and `.` segments are dropped,
/// and `..` steps back by one segment. A path that steps back above the
/// root is refused with `PathEscape`; every location that is returned is
/// the root extended by segments that name entries.
pub fn resolve(root: &str, path: &str) -> (location: Result<String, StorageError>)
    ensures
        match resolved(root@, path@) {
            Some(target) => location matches Ok(found) && found@ == target,
            None => location == Err::<String, StorageError>(StorageError::PathEscape),
        },
        location matches Ok(found) ==> under_root(root@, found@),
{
    let chars = chars_of(path);
    proof {
        assert(chars@.skip(0) =~= path@);
    }
    match segments_of(&chars, 0) {
        Some(segments) => {
            let base = chars_of(root);
            let found = location_of(&base, &segments, segments.len());
            proof {
                assert(views(segments@).take(segments.len() as int) =~= views(segments@));
            }
            Ok(found)
        },
        None => Err(StorageError::PathEscape),
    }
}

/// Maps a client-visible path to its location under `root` and to the
/// directories above that location, from the nearest up to the root.
///
/// A path that steps back above the root is refused with `PathEscape`.
/// What is returned begins with the location that [`resolve`] gives and
/// ends with the root; each member lies under the root.
pub fn resolve_lineage(root: &str, path: &str) -> (line: Result<Vec<String>, StorageError>)
    ensures
        match resolved_lineage(root@, path@) {
            Some(target) => line matches Ok(found) && text_views(found@) == target,
            None => line == Err::<Vec<String>, StorageError>(StorageError::PathEscape),
        },
        line matches Ok(found) ==> {
            &&& found@.len() >= 1
            &&& Some(found@[0]@) == resolved(root@, path@)
            &&& found@[found@.len() - 1]@ == root@
            &&& forall|k: int| 0 <= k < found@.len() ==> under_root(root@, (#[trigger] found@[k])@)
        },
{
    let chars = chars_of(path);
    proof {
        assert(chars@.skip(0) =~= path@);
    }
    match segments_of(&chars, 0) {
        Some(segments) => {
            let base = chars_of(root);
            let count = segments.len();
            let ghost target = lineage(root@, views(segments@));
            let mut line: Vec<String> = Vec::new();
            let mut k: usize = 0;
            while k < count
                invariant
                    k <= count,
                    count == segments.len(),
                    base@ == root@,
                    target == lineage(root@, views(segments@)),
                    line@.len() == k,
                    forall|j: int| 0 <= j < k ==> (#[trigger] line@[j])@ == target[j],
                decreases count - k,
            {
                line.push(location_of(&base, &segments, count - k));
                k += 1;
            }
            line.push(location_of(&base, &segments, 0));
            proof {
                assert(text_views(line@) =~= target);
                assert(views(segments@).take(count as int) =~= views(segments@));
                assert(views(segments@).take(0) =~= Seq::<Seq<char>>::empty());
                assert forall|j: int| 0 <= j < line@.len() implies under_root(
                    root@,
                    (#[trigger] line@[j])@,
                ) by {
                    let kept = views(segments@).take(count - j);
                    assert(all_plain(kept));
                    assert(line@[j]@ == join(root@, kept));
                }
            }
            Ok(line)
        },
        None => Err(StorageError::PathEscape),
    }
}

/// Whether `chars` begins with `prefix`.
fn starts_with(chars: &Vec<char>, prefix: &Vec<char>) -> (yes: bool)
    ensures
        yes == prefix@.is_prefix_of(chars@),
{
    if prefix.len() > chars.len() {
        return false;
    }
    let mut i: usize = 0;
    while i < prefix.len()
        invariant
            i <= prefix.len() <= chars.len(),
            forall|j: int| 0 <= j < i ==> prefix@[j] == chars@[j],
        decreases prefix.len() - i,
    {
        if prefix[i] != chars[i] {
            return false;
        }
        i += 1;
    }
    assert(prefix@ =~= chars@.subrange(0, prefix.len() as int));
    true
}

/// Maps a location back to the client-visible path of the entry.
///
/// The location has to begin with the root, followed by a separator or by
/// nothing, and what follows may not step back above the root: anything
/// else is refused with `InvalidPath`. The root itself maps to `/`.
/// Segments that name no entry are dropped and `..` steps back, as in
/// [`resolve`].
pub fn relativize(root: &str, location: &str) -> (path: Result<String, StorageError>)
    ensures
        match relativized(root@, location@) {
            Some(target) => path matches Ok(found) && found@ == target,
            None => path == Err::<String, StorageError>(StorageError::InvalidPath),
        },
{
    let base = chars_of(root);
    let chars = chars_of(location);
    if !starts_with(&chars, &base) {
        return Err(StorageError::InvalidPath);
    }
    let n = base.len();
    if chars.len() > n {
        let leads = chars[n] == '/';
        if n == 0 && leads {
            return Err(StorageError::InvalidPath);
        }
        if n > 0 && base[n - 1] != '/' && !leads {
            return Err(StorageError::InvalidPath);
        }
    }
    match segments_of(&chars, n) {
        Some(segments) => Ok(logical_of(&segments)),
        None => Err(StorageError::InvalidPath),
    }
}

/// Tests a location against a root after both have been followed
/// through every link on disk.
///
/// A path can stay under the root letter by letter and still lead out of
/// it through a symbolic link. A caller that has the canonical form of
/// the root and of a location asks here whether the one still lies under
/// the other: if not, the answer is `PathEscape`.
pub fn confirm_contained(canonical_root: &str, canonical_location: &str) -> (verdict: Result<
    (),
    StorageError,
>)
    ensures
        verdict == if relativized(canonical_root@, canonical_location@) is Some {
            Ok::<(), StorageError>(())
        } else {
            Err::<(), StorageError>(StorageError::PathEscape)
        },
{
    match relativize(canonical_root, canonical_location) {
        Ok(_) => Ok(()),
        Err(_) => Err(StorageError::PathEscape),
    }
}

} // verus!
