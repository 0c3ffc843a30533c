//! Lexical paths.
//!
//! A path is text whose components are separated by `/`. Requests supply
//! path segments; this module splits them into components, collapses the
//! components into a sequence of ordinary names that cannot climb above its
//! starting point, and joins such names onto a base path.

use vstd::prelude::*;
use vstd::string::*;

verus! {

/// The component that names the parent directory: `..`.
pub open spec fn is_parent_dir(component: Seq<char>) -> bool {
    component.len() == 2 && component[0] == '.' && component[1] == '.'
}

/// A component that names nothing new: the empty component, which stands
/// next to a leading, trailing or doubled separator, and `.`.
pub open spec fn is_skipped(component: Seq<char>) -> bool {
    component.len() == 0 || (component.len() == 1 && component[0] == '.')
}

/// Text that holds no separator.
pub open spec fn has_no_separator(text: Seq<char>) -> bool {
    forall|i: int| 0 <= i < text.len() ==> text[i] != '/'
}

/// An ordinary name: neither `..`, nor `.`, nor empty, and free of separators.
pub open spec fn is_normal(component: Seq<char>) -> bool {
    &&& !is_parent_dir(component)
    &&& !is_skipped(component)
    &&& has_no_separator(component)
}

/// The components of `text`, in order: the pieces between its separators.
/// Text with `n` separators has `n + 1` components, some of them possibly
/// empty.
pub open spec fn split_components(text: Seq<char>) -> Seq<Seq<char>>
    decreases text.len(),
{
    if text.len() == 0 {
        seq![Seq::<char>::empty()]
    } else {
        let before = split_components(text.drop_last());
        if text.last() == '/' {
            before.push(Seq::<char>::empty())
        } else {
            before.drop_last().push(before.last().push(text.last()))
        }
    }
}

/// The effect of one component on the names accumulated so far: an ordinary
/// name is appended, `..` removes the last name if there is one and is
/// absorbed otherwise, anything else is dropped.
pub open spec fn apply_component(names: Seq<Seq<char>>, component: Seq<char>) -> Seq<Seq<char>> {
    if is_parent_dir(component) {
        if names.len() > 0 {
            names.drop_last()
        } else {
            names
        }
    } else if is_skipped(component) {
        names
    } else {
        names.push(component)
    }
}

/// The effect of a sequence of components, applied from left to right.
pub open spec fn apply_components(
    names: Seq<Seq<char>>,
    components: Seq<Seq<char>>,
) -> Seq<Seq<char>>
    decreases components.len(),
{
    if components.len() == 0 {
        names
    } else {
        apply_component(apply_components(names, components.drop_last()), components.last())
    }
}

/// The effect of one request segment: that of its components.
pub open spec fn apply_segment(names: Seq<Seq<char>>, segment: Seq<char>) -> Seq<Seq<char>> {
    apply_components(names, split_components(segment))
}

/// The effect of a sequence of segments, applied from left to right.
pub open spec fn apply_segments(names: Seq<Seq<char>>, segments: Seq<Seq<char>>) -> Seq<
    Seq<char>,
>
    decreases segments.len(),
{
    if segments.len() == 0 {
        names
    } else {
        apply_segment(apply_segments(names, segments.drop_last()), segments.last())
    }
}

/// The relative path that a sequence of segments denotes, as the names of
/// its components from the starting point downwards.
pub open spec fn normalized(segments: Seq<Seq<char>>) -> Seq<Seq<char>> {
    apply_segments(Seq::empty(), segments)
}

/// Whether a component appended to `path` has to be set off by a separator.
pub open spec fn needs_separator(path: Seq<char>) -> bool {
    path.len() > 0 && path.last() != '/'
}

/// `path` with one more component below it.
pub open spec fn push_name(path: Seq<char>, name: Seq<char>) -> Seq<char> {
    if needs_separator(path) {
        path + seq!['/'] + name
    } else {
        path + name
    }
}

/// `base` with the given names below it, one per level.
pub open spec fn join(base: Seq<char>, names: Seq<Seq<char>>) -> Seq<char>
    decreases names.len(),
{
    if names.len() == 0 {
        base
    } else {
        push_name(join(base, names.drop_last()), names.last())
    }
}

/// The path that a request with the given segments resolves to below `root`.
pub open spec fn resolved(root: Seq<char>, segments: Seq<Seq<char>>) -> Seq<char> {
    join(root, normalized(segments))
}

/// Every split has at least one component.
pub proof fn lemma_split_nonempty(text: Seq<char>)
    ensures
        split_components(text).len() >= 1,
    decreases text.len(),
{
    if text.len() > 0 {
        lemma_split_nonempty(text.drop_last());
    }
}

fn is_parent_component(component: &str) -> (b: bool)
    ensures
        b == is_parent_dir(component@),
{
    component.unicode_len() == 2 && component.get_char(0) == '.' && component.get_char(1) == '.'
}

fn is_skipped_component(component: &str) -> (b: bool)
    ensures
        b == is_skipped(component@),
{
    let len: usize = component.unicode_len();
    len == 0 || (len == 1 && component.get_char(0) == '.')
}

fn ends_without_separator(path: &str) -> (b: bool)
    ensures
        b == needs_separator(path@),
{
    let len: usize = path.unicode_len();
    len > 0 && path.get_char(len - 1) != '/'
}

/// Applies one component to the accumulated names.
fn push_component(names: &mut Vec<String>, component: &str)
    ensures
        final(names).deep_view() == apply_component(old(names).deep_view(), component@),
{
    if is_parent_component(component) {
        names.pop();
        assert(names.deep_view() =~= apply_component(old(names).deep_view(), component@));
    } else if is_skipped_component(component) {
    } else {
        names.push(component.to_owned());
        assert(names.deep_view() =~= apply_component(old(names).deep_view(), component@));
    }
}

/// Applies one segment to the accumulated names, component by component.
fn push_segment(names: &mut Vec<String>, segment: &str)
    ensures
        final(names).deep_view() == apply_segment(old(names).deep_view(), segment@),
{
    let len: usize = segment.unicode_len();
    let mut start: usize = 0;
    let mut i: usize = 0;
    proof {
        assert(segment@.take(0) =~= Seq::<char>::empty());
        assert(split_components(segment@.take(0)).drop_last() =~= Seq::<Seq<char>>::empty());
        assert(segment@.subrange(0, 0) =~= Seq::<char>::empty());
    }
    while i < len
        invariant
            len == segment@.len(),
            start <= i <= len,
            names.deep_view() == apply_components(
                old(names).deep_view(),
                split_components(segment@.take(i as int)).drop_last(),
            ),
            split_components(segment@.take(i as int)).last() == segment@.subrange(
                start as int,
                i as int,
            ),
        decreases len - i,
    {
        let c: char = segment.get_char(i);
        proof {
            let prefix = segment@.take(i as int);
            let next = segment@.take(i + 1);
            lemma_split_nonempty(prefix);
            assert(next.drop_last() =~= prefix);
            assert(next.last() == c);
            let before = split_components(prefix);
            if c == '/' {
                assert(split_components(next) == before.push(Seq::<char>::empty()));
                assert(split_components(next).drop_last() =~= before);
                assert(segment@.subrange(i + 1, i + 1) =~= Seq::<char>::empty());
            } else {
                assert(split_components(next) == before.drop_last().push(before.last().push(c)));
                assert(split_components(next).drop_last() =~= before.drop_last());
                assert(segment@.subrange(start as int, i + 1) =~= segment@.subrange(
                    start as int,
                    i as int,
                ).push(c));
            }
        }
        if c == '/' {
            push_component(names, segment.substring_char(start, i));
            start = i + 1;
        }
        i += 1;
    }
    proof {
        assert(segment@.take(len as int) =~= segment@);
        lemma_split_nonempty(segment@);
    }
    push_component(names, segment.substring_char(start, len));
}

/// Collapses request segments into the relative path they denote.
///
/// Each segment is split at its separators; ordinary names descend one
/// level, `..` climbs one level but never above the starting point, and `.`
/// and empty components change nothing. Every input has a result.
pub fn normalize_path(segments: &Vec<String>) -> (names: Vec<String>)
    ensures
        names.deep_view() == normalized(segments.deep_view()),
{
    let mut names: Vec<String> = Vec::new();
    let mut i: usize = 0;
    proof {
        assert(names.deep_view() =~= Seq::<Seq<char>>::empty());
        assert(segments.deep_view().take(0) =~= Seq::<Seq<char>>::empty());
    }
    while i < segments.len()
        invariant
            i <= segments.len(),
            names.deep_view() == normalized(segments.deep_view().take(i as int)),
        decreases segments.len() - i,
    {
        proof {
            let next = segments.deep_view().take(i + 1);
            assert(next.drop_last() =~= segments.deep_view().take(i as int));
            assert(next.last() == segments[i as int]@);
        }
        push_segment(&mut names, segments[i].as_str());
        i += 1;
    }
    proof {
        assert(segments.deep_view().take(i as int) =~= segments.deep_view());
    }
    names
}

/// Appends the given names to `base`, each on a level of its own.
pub fn join_path(base: &str, names: &Vec<String>) -> (path: String)
    ensures
        path@ == join(base@, names.deep_view()),
{
    let mut path: String = base.to_owned();
    let mut pending: bool = ends_without_separator(base);
    let mut i: usize = 0;
    proof {
        assert(names.deep_view().take(0) =~= Seq::<Seq<char>>::empty());
    }
    while i < names.len()
        invariant
            i <= names.len(),
            path@ == join(base@, names.deep_view().take(i as int)),
            pending == needs_separator(path@),
        decreases names.len() - i,
    {
        let name: &str = names[i].as_str();
        proof {
            reveal_strlit("/");
            assert("/"@ =~= seq!['/']);
            let next = names.deep_view().take(i + 1);
            assert(next.drop_last() =~= names.deep_view().take(i as int));
            assert(next.last() == name@);
        }
        if pending {
            path.append("/");
        }
        path.append(name);
        pending = ends_without_separator(name);
        i += 1;
    }
    proof {
        assert(names.deep_view().take(i as int) =~= names.deep_view());
    }
    path
}

} // verus!
