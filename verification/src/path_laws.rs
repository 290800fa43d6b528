//! What holds of the path mapping for every root and every path.

use crate::path::{
    all_plain, below, is_plain, join, lemma_normalize_plain, lemma_split_no_separator, lineage,
    logical, normalize, push_segment, relativized, resolved, resolved_lineage, rooted, split,
    under_root,
};
use vstd::prelude::*;

verus! {

/// Containment: whatever the client-visible path holds (`..`, doubled or
/// leading separators, segments that look absolute), it either resolves to
/// a location under the root or does not resolve at all.
pub proof fn lemma_resolve_contained(root: Seq<char>, path: Seq<char>)
    ensures
        resolved(root, path) matches Some(location) ==> under_root(root, location),
{
    lemma_split_no_separator(path);
    lemma_normalize_plain(split(path));
    if let Some(segments) = normalize(split(path)) {
        assert(resolved(root, path) == Some(join(root, segments)));
    }
}

/// The lineage of a path begins with the location of the path and ends
/// with the root, and each member lies under the root. Where the
/// location is not the root itself, the second member is the directory
/// that holds it: the location is that directory extended by one
/// segment that names an entry.
pub proof fn lemma_lineage(root: Seq<char>, path: Seq<char>)
    ensures
        resolved_lineage(root, path) is Some <==> resolved(root, path) is Some,
        resolved_lineage(root, path) matches Some(line) ==> {
            &&& line.len() >= 1
            &&& Some(line[0]) == resolved(root, path)
            &&& line[line.len() - 1] == root
            &&& forall|k: int| 0 <= k < line.len() ==> under_root(root, #[trigger] line[k])
            &&& line.len() > 1 ==> exists|name: Seq<char>|
                is_plain(name) && line[0] == #[trigger] push_segment(line[1], name)
        },
{
    lemma_split_no_separator(path);
    lemma_normalize_plain(split(path));
    if let Some(segments) = normalize(split(path)) {
        let line = lineage(root, segments);
        let count = segments.len() as int;
        assert(segments.take(count) =~= segments);
        assert(segments.take(0) =~= Seq::<Seq<char>>::empty());
        assert forall|k: int| 0 <= k < line.len() implies under_root(root, #[trigger] line[k]) by {
            let kept = segments.take(count - k);
            assert(all_plain(kept));
            assert(line[k] == join(root, kept));
        }
        if line.len() > 1 {
            let name = segments.last();
            assert(segments.drop_last() =~= segments.take(count - 1));
            assert(is_plain(name));
            assert(line[0] == push_segment(line[1], name));
        }
    }
}

/// A text that ends in a segment without separators splits into the pieces
/// of what stands before it, the last of them extended by the segment.
pub proof fn lemma_split_extend(text: Seq<char>, segment: Seq<char>)
    requires
        !segment.contains('/'),
    ensures
        split(text + segment) == split(text).drop_last().push(split(text).last() + segment),
    decreases segment.len(),
{
    lemma_split_no_separator(text);
    if segment.len() == 0 {
        assert(text + segment =~= text);
        assert(split(text).last() + segment =~= split(text).last());
        assert(split(text).drop_last().push(split(text).last()) =~= split(text));
    } else {
        let front = segment.drop_last();
        let c = segment.last();
        assert(segment.contains(c));
        assert forall|x: char| front.contains(x) implies segment.contains(x) by {
            let i = choose|i: int| 0 <= i < front.len() && front[i] == x;
            assert(segment[i] == x);
        }
        lemma_split_extend(text, front);
        assert((text + segment).drop_last() =~= text + front);
        assert((text + segment).last() == c);
        let pieces = split(text + front);
        assert(pieces.drop_last() =~= split(text).drop_last());
        assert(pieces.last().push(c) =~= split(text).last() + segment);
    }
}

/// A leading separator contributes one empty piece.
pub proof fn lemma_split_leading_separator(text: Seq<char>)
    ensures
        split(seq!['/'] + text) == seq![Seq::<char>::empty()] + split(text),
    decreases text.len(),
{
    let lead = seq!['/'];
    let empty = Seq::<char>::empty();
    lemma_split_no_separator(text);
    if text.len() == 0 {
        assert(lead + text =~= lead);
        assert(lead.drop_last() =~= empty);
        assert(text =~= empty);
        assert(split(empty) =~= seq![empty]);
        assert(split(lead) =~= seq![empty] + split(text));
    } else {
        let front = text.drop_last();
        lemma_split_leading_separator(front);
        lemma_split_no_separator(front);
        assert((lead + text).drop_last() =~= lead + front);
        assert((lead + text).last() == text.last());
        let before = seq![empty] + split(front);
        if text.last() == '/' {
            assert(before.push(empty) =~= seq![empty] + split(front).push(empty));
        } else {
            assert(before.drop_last() =~= seq![empty] + split(front).drop_last());
            assert(before.last() == split(front).last());
            assert(before.drop_last().push(before.last().push(text.last())) =~= seq![empty]
                + split(front).drop_last().push(split(front).last().push(text.last())));
        }
    }
}

/// The rooted spelling of segments that name entries splits back into an
/// empty piece followed by those segments.
pub proof fn lemma_split_rooted(segments: Seq<Seq<char>>)
    requires
        all_plain(segments),
    ensures
        split(rooted(segments)) == seq![Seq::<char>::empty()] + segments,
    decreases segments.len(),
{
    let empty = Seq::<char>::empty();
    if segments.len() == 0 {
        assert(split(rooted(segments)) =~= seq![empty] + segments);
    } else {
        let front = segments.drop_last();
        let last = segments.last();
        assert(all_plain(front));
        assert(is_plain(last));
        lemma_split_rooted(front);
        let head = rooted(front).push('/');
        assert(head.drop_last() =~= rooted(front));
        assert(split(head) == (seq![empty] + front).push(empty));
        lemma_split_extend(head, last);
        assert(split(head).drop_last() =~= seq![empty] + front);
        assert(split(head).last() + last =~= last);
        assert((seq![empty] + front).push(last) =~= seq![empty] + segments);
    }
}

/// Segments that name entries are already normal, with or without an
/// empty piece in front of them.
pub proof fn lemma_normalize_fixed(segments: Seq<Seq<char>>)
    requires
        all_plain(segments),
    ensures
        normalize(segments) == Some(segments),
        normalize(seq![Seq::<char>::empty()] + segments) == Some(segments),
    decreases segments.len(),
{
    let empty = Seq::<char>::empty();
    let led = seq![empty] + segments;
    if segments.len() == 0 {
        assert(led.drop_last() =~= Seq::<Seq<char>>::empty());
        assert(normalize(led.drop_last()) == Some(Seq::<Seq<char>>::empty()));
        assert(led.last() == empty);
        assert(normalize(segments) == Some(segments));
        assert(segments =~= Seq::<Seq<char>>::empty());
    } else {
        let front = segments.drop_last();
        assert(all_plain(front));
        assert(is_plain(segments.last()));
        lemma_normalize_fixed(front);
        assert(led.drop_last() =~= seq![empty] + front);
        assert(led.last() == segments.last());
        assert(front.push(segments.last()) =~= segments);
    }
}

/// The rooted spelling of segments that name entries is empty or begins
/// with one separator and no second, and ends in none.
pub proof fn lemma_rooted_shape(segments: Seq<Seq<char>>)
    requires
        all_plain(segments),
    ensures
        segments.len() == 0 ==> rooted(segments).len() == 0,
        segments.len() > 0 ==> rooted(segments).len() >= 2 && rooted(segments)[0] == '/'
            && rooted(segments)[1] != '/' && rooted(segments).last() != '/',
    decreases segments.len(),
{
    if segments.len() > 0 {
        let front = segments.drop_last();
        let last = segments.last();
        assert(all_plain(front));
        assert(is_plain(last));
        lemma_rooted_shape(front);
        assert(last.contains(last.last()));
        assert(last.contains(last[0]));
    }
}

/// How the root and the segments make up a location: behind a root that
/// needs a separator stands the rooted spelling, behind any other root the
/// same without its first separator.
pub proof fn lemma_join_shape(root: Seq<char>, segments: Seq<Seq<char>>)
    requires
        all_plain(segments),
    ensures
        root.len() > 0 && root.last() != '/' ==> join(root, segments) == root + rooted(segments),
        !(root.len() > 0 && root.last() != '/') && segments.len() > 0 ==> join(root, segments)
            == root + rooted(segments).skip(1),
    decreases segments.len(),
{
    let open = root.len() > 0 && root.last() != '/';
    if segments.len() == 0 {
        assert(root + rooted(segments) =~= root);
    } else {
        let front = segments.drop_last();
        let last = segments.last();
        assert(all_plain(front));
        assert(is_plain(last));
        lemma_join_shape(root, front);
        lemma_rooted_shape(front);
        lemma_rooted_shape(segments);
        let before = join(root, front);
        if open {
            assert(before.len() > 0 && before.last() != '/');
            assert(push_segment(before, last) =~= root + rooted(segments));
        } else if front.len() == 0 {
            assert(before == root);
            assert(rooted(front).push('/') + last =~= seq!['/'] + last);
            assert(push_segment(before, last) =~= root + rooted(segments).skip(1));
        } else {
            assert(before.len() > 0 && before.last() != '/');
            assert(push_segment(before, last) =~= root + rooted(segments).skip(1));
        }
    }
}

/// Inverse, first half: the location of segments that name entries maps
/// back to their client-visible path.
pub proof fn lemma_relativize_join(root: Seq<char>, segments: Seq<Seq<char>>)
    requires
        all_plain(segments),
    ensures
        relativized(root, join(root, segments)) == Some(logical(segments)),
{
    let empty = Seq::<char>::empty();
    let open = root.len() > 0 && root.last() != '/';
    let location = join(root, segments);
    lemma_join_shape(root, segments);
    lemma_rooted_shape(segments);
    lemma_normalize_fixed(segments);
    lemma_split_rooted(segments);
    if segments.len() == 0 {
        assert(location == root);
        assert(root =~= location.subrange(0, root.len() as int));
        let rest = location.skip(root.len() as int);
        assert(rest =~= empty);
        assert(below(root, location) == Some(rest));
        assert(split(rest) =~= seq![empty] + segments);
    } else if open {
        let rest = rooted(segments);
        assert(root =~= location.subrange(0, root.len() as int));
        assert(location.skip(root.len() as int) =~= rest);
        assert(below(root, location) == Some(rest));
    } else {
        let rest = rooted(segments).skip(1);
        assert(root =~= location.subrange(0, root.len() as int));
        assert(location.skip(root.len() as int) =~= rest);
        assert(below(root, location) == Some(rest));
        assert(rooted(segments) =~= seq!['/'] + rest);
        lemma_split_leading_separator(rest);
        assert(split(rest) =~= (seq![empty] + split(rest)).skip(1));
        assert(segments =~= (seq![empty] + segments).skip(1));
    }
}

/// Inverse, second half: the client-visible path of segments that name
/// entries resolves to their location.
pub proof fn lemma_resolve_logical(root: Seq<char>, segments: Seq<Seq<char>>)
    requires
        all_plain(segments),
    ensures
        resolved(root, logical(segments)) == Some(join(root, segments)),
{
    let empty = Seq::<char>::empty();
    lemma_normalize_fixed(segments);
    if segments.len() == 0 {
        let slash = seq!['/'];
        assert(slash.drop_last() =~= empty);
        assert(split(empty) =~= seq![empty]);
        assert(split(slash) =~= seq![empty] + seq![empty]);
        lemma_normalize_fixed(seq![empty].drop_last());
        assert(seq![empty].drop_last() =~= segments);
        assert((seq![empty] + seq![empty]).drop_last() =~= seq![empty] + segments);
        assert(normalize(split(slash)) == Some(segments));
    } else {
        lemma_split_rooted(segments);
    }
}

/// Resolving and mapping back gives the normal spelling of the path, and
/// that spelling resolves to the same location.
pub proof fn lemma_resolve_then_relativize(root: Seq<char>, path: Seq<char>)
    ensures
        resolved(root, path) matches Some(location) ==> {
            &&& relativized(root, location) matches Some(normal)
            &&& resolved(root, normal) == Some(location)
        },
{
    lemma_split_no_separator(path);
    lemma_normalize_plain(split(path));
    if let Some(segments) = normalize(split(path)) {
        lemma_relativize_join(root, segments);
        lemma_resolve_logical(root, segments);
    }
}

/// Every location under the root has a client-visible path, and that path
/// resolves to the location.
pub proof fn lemma_relativize_then_resolve(root: Seq<char>, location: Seq<char>)
    requires
        under_root(root, location),
    ensures
        relativized(root, location) matches Some(path) && resolved(root, path) == Some(location),
{
    let segments = choose|segments: Seq<Seq<char>>|
        all_plain(segments) && location == #[trigger] join(root, segments);
    lemma_relativize_join(root, segments);
    lemma_resolve_logical(root, segments);
}

/// What maps back lies under the root: a location with a client-visible
/// path names, by that path, an entry under the root.
pub proof fn lemma_relativize_contained(root: Seq<char>, location: Seq<char>)
    ensures
        relativized(root, location) matches Some(path) ==> {
            &&& resolved(root, path) matches Some(normal)
            &&& under_root(root, normal)
        },
{
    if let Some(rest) = below(root, location) {
        lemma_split_no_separator(rest);
        lemma_normalize_plain(split(rest));
        if let Some(segments) = normalize(split(rest)) {
            lemma_resolve_logical(root, segments);
        }
    }
}

/// A text with a separator in it splits into the pieces of what stands
/// before the separator, followed by the pieces of what stands behind it.
pub proof fn lemma_split_at_separator(front: Seq<char>, back: Seq<char>)
    ensures
        split(front.push('/') + back) == split(front) + split(back),
    decreases back.len(),
{
    let empty = Seq::<char>::empty();
    let head = front.push('/');
    lemma_split_no_separator(front);
    lemma_split_no_separator(back);
    if back.len() == 0 {
        assert(head + back =~= head);
        assert(head.drop_last() =~= front);
        assert(back =~= empty);
        assert(split(empty) =~= seq![empty]);
        assert(split(front).push(empty) =~= split(front) + split(back));
    } else {
        let shorter = back.drop_last();
        lemma_split_at_separator(front, shorter);
        lemma_split_no_separator(shorter);
        assert((head + back).drop_last() =~= head + shorter);
        assert((head + back).last() == back.last());
        let before = split(front) + split(shorter);
        if back.last() == '/' {
            assert(before.push(empty) =~= split(front) + split(shorter).push(empty));
        } else {
            assert(before.drop_last() =~= split(front) + split(shorter).drop_last());
            assert(before.last() == split(shorter).last());
            assert(before.drop_last().push(before.last().push(back.last())) =~= split(front)
                + split(shorter).drop_last().push(split(shorter).last().push(back.last())));
        }
    }
}

/// Segments that stay below their own starting point can be normalized
/// apart from what stands before them.
pub proof fn lemma_normalize_concat(front: Seq<Seq<char>>, back: Seq<Seq<char>>)
    ensures
        (normalize(front) matches Some(kept) && normalize(back) matches Some(more)) ==> normalize(
            front + back,
        ) == Some(normalize(front)->0 + normalize(back)->0),
    decreases back.len(),
{
    if normalize(front) is Some && normalize(back) is Some {
        let kept = normalize(front)->0;
        let more = normalize(back)->0;
        if back.len() == 0 {
            assert(front + back =~= front);
            assert(kept + more =~= kept);
        } else {
            let shorter = back.drop_last();
            lemma_normalize_concat(front, shorter);
            assert((front + back).drop_last() =~= front + shorter);
            assert((front + back).last() == back.last());
            let inner = normalize(shorter)->0;
            assert((kept + inner).push(back.last()) =~= kept + inner.push(back.last()));
            if inner.len() > 0 {
                assert((kept + inner).drop_last() =~= kept + inner.drop_last());
            }
        }
    }
}

/// Extending a location by segments in two steps is extending it by all
/// of them at once.
pub proof fn lemma_join_concat(base: Seq<char>, first: Seq<Seq<char>>, second: Seq<Seq<char>>)
    ensures
        join(base, first + second) == join(join(base, first), second),
    decreases second.len(),
{
    if second.len() == 0 {
        assert(first + second =~= first);
    } else {
        lemma_join_concat(base, first, second.drop_last());
        assert((first + second).drop_last() =~= first + second.drop_last());
        assert((first + second).last() == second.last());
    }
}

/// What is addressed through a directory lies under that directory: if
/// `rest` does not step back above its starting point, the path made of
/// `directory`, a separator and `rest` resolves to the location that
/// `rest` resolves to from the location of the directory. That location
/// lies under the directory's location.
pub proof fn lemma_resolve_nested(root: Seq<char>, directory: Seq<char>, rest: Seq<char>)
    ensures
        (resolved(root, directory) matches Some(holder) && normalize(split(rest)) is Some) ==> {
            &&& resolved(root, directory.push('/') + rest) == resolved(
                resolved(root, directory)->0,
                rest,
            )
            &&& resolved(root, directory.push('/') + rest) matches Some(location)
            &&& under_root(resolved(root, directory)->0, location)
        },
{
    if resolved(root, directory) is Some && normalize(split(rest)) is Some {
        let outer = normalize(split(directory))->0;
        let inner = normalize(split(rest))->0;
        lemma_split_at_separator(directory, rest);
        lemma_normalize_concat(split(directory), split(rest));
        lemma_join_concat(root, outer, inner);
        lemma_resolve_contained(join(root, outer), rest);
    }
}

} // verus!
