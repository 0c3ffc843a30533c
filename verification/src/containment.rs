//! What holds of every normalized and every resolved path: its names are
//! ordinary, it stays below the base it was joined to, and climbing cancels
//! descending without ever going above the starting point.

use vstd::prelude::*;

use crate::path::{
    apply_component, apply_components, apply_segment, apply_segments, has_no_separator,
    is_normal, is_parent_dir, join, lemma_split_nonempty, needs_separator, normalized,
    push_name, resolved, split_components,
};

verus! {

/// Every name is ordinary.
pub open spec fn all_normal(names: Seq<Seq<char>>) -> bool {
    forall|i: int| 0 <= i < names.len() ==> is_normal(#[trigger] names[i])
}

/// Every segment is `..`.
pub open spec fn all_parent_dirs(segments: Seq<Seq<char>>) -> bool {
    forall|i: int| 0 <= i < segments.len() ==> is_parent_dir(#[trigger] segments[i])
}

/// No component holds a separator.
pub open spec fn all_without_separator(components: Seq<Seq<char>>) -> bool {
    forall|i: int| 0 <= i < components.len() ==> has_no_separator(#[trigger] components[i])
}

/// Text without a separator is a single component.
pub proof fn lemma_split_plain(text: Seq<char>)
    requires
        has_no_separator(text),
    ensures
        split_components(text) == seq![text],
    decreases text.len(),
{
    if text.len() == 0 {
        assert(text =~= Seq::<char>::empty());
    } else {
        let shorter = text.drop_last();
        lemma_split_plain(shorter);
        assert(text.last() != '/');
        assert(shorter.push(text.last()) =~= text);
        assert(seq![shorter].drop_last().push(seq![shorter].last().push(text.last()))
            =~= seq![text]);
    }
}

/// Appending text without a separator extends the last component.
proof fn lemma_split_append_plain(text: Seq<char>, tail: Seq<char>)
    requires
        has_no_separator(tail),
    ensures
        split_components(text + tail) == split_components(text).drop_last().push(
            split_components(text).last() + tail,
        ),
    decreases tail.len(),
{
    lemma_split_nonempty(text);
    let parts = split_components(text);
    if tail.len() == 0 {
        assert(text + tail =~= text);
        assert(parts.last() + tail =~= parts.last());
        assert(parts.drop_last().push(parts.last()) =~= parts);
    } else {
        let shorter = tail.drop_last();
        lemma_split_append_plain(text, shorter);
        assert((text + tail).drop_last() =~= text + shorter);
        assert((text + tail).last() == tail.last());
        assert(tail.last() != '/');
        let before = split_components(text + shorter);
        assert(before.drop_last() =~= parts.drop_last());
        assert(before.last().push(tail.last()) =~= parts.last() + tail);
    }
}

/// Appending a separator and a name without separators adds one component.
proof fn lemma_split_append_name(text: Seq<char>, name: Seq<char>)
    requires
        has_no_separator(name),
    ensures
        split_components(text + seq!['/'] + name) == split_components(text).push(name),
{
    let parts = split_components(text);
    let opened = text + seq!['/'];
    assert(opened.drop_last() =~= text);
    assert(opened.last() == '/');
    assert(split_components(opened) == parts.push(Seq::<char>::empty()));
    lemma_split_append_plain(opened, name);
    assert(split_components(opened).drop_last() =~= parts);
    assert(split_components(opened).last() + name =~= name);
}

/// No component of a split holds a separator.
pub proof fn lemma_split_without_separator(text: Seq<char>)
    ensures
        all_without_separator(split_components(text)),
    decreases text.len(),
{
    if text.len() > 0 {
        lemma_split_without_separator(text.drop_last());
        lemma_split_nonempty(text.drop_last());
    }
}

/// A single component has the effect of `apply_component`.
proof fn lemma_apply_single(names: Seq<Seq<char>>, component: Seq<char>)
    ensures
        apply_components(names, seq![component]) == apply_component(names, component),
{
    reveal_with_fuel(apply_components, 2);
    assert(seq![component].drop_last() =~= Seq::<Seq<char>>::empty());
}

proof fn lemma_apply_component_keeps_normal(names: Seq<Seq<char>>, component: Seq<char>)
    requires
        all_normal(names),
        has_no_separator(component),
    ensures
        all_normal(apply_component(names, component)),
{
}

proof fn lemma_apply_components_keeps_normal(names: Seq<Seq<char>>, components: Seq<Seq<char>>)
    requires
        all_normal(names),
        all_without_separator(components),
    ensures
        all_normal(apply_components(names, components)),
    decreases components.len(),
{
    if components.len() > 0 {
        lemma_apply_components_keeps_normal(names, components.drop_last());
        lemma_apply_component_keeps_normal(
            apply_components(names, components.drop_last()),
            components.last(),
        );
    }
}

proof fn lemma_apply_segments_keeps_normal(names: Seq<Seq<char>>, segments: Seq<Seq<char>>)
    requires
        all_normal(names),
    ensures
        all_normal(apply_segments(names, segments)),
    decreases segments.len(),
{
    if segments.len() > 0 {
        lemma_apply_segments_keeps_normal(names, segments.drop_last());
        lemma_split_without_separator(segments.last());
        lemma_apply_components_keeps_normal(
            apply_segments(names, segments.drop_last()),
            split_components(segments.last()),
        );
    }
}

/// Whatever the segments hold, every name of the normalized path is
/// ordinary: none is `..`, `.` or empty, and none holds a separator.
pub proof fn lemma_normalized_is_normal(segments: Seq<Seq<char>>)
    ensures
        all_normal(normalized(segments)),
{
    lemma_apply_segments_keeps_normal(Seq::empty(), segments);
}

/// Segments applied in two batches have the effect of the whole sequence.
pub proof fn lemma_apply_segments_concat(
    names: Seq<Seq<char>>,
    first: Seq<Seq<char>>,
    second: Seq<Seq<char>>,
)
    ensures
        apply_segments(names, first + second) == apply_segments(
            apply_segments(names, first),
            second,
        ),
    decreases second.len(),
{
    if second.len() == 0 {
        assert(first + second =~= first);
    } else {
        lemma_apply_segments_concat(names, first, second.drop_last());
        assert((first + second).drop_last() =~= first + second.drop_last());
        assert((first + second).last() == second.last());
    }
}

/// Components applied in two batches have the effect of the whole sequence.
proof fn lemma_apply_components_concat(
    names: Seq<Seq<char>>,
    first: Seq<Seq<char>>,
    second: Seq<Seq<char>>,
)
    ensures
        apply_components(names, first + second) == apply_components(
            apply_components(names, first),
            second,
        ),
    decreases second.len(),
{
    if second.len() == 0 {
        assert(first + second =~= first);
    } else {
        lemma_apply_components_concat(names, first, second.drop_last());
        assert((first + second).drop_last() =~= first + second.drop_last());
        assert((first + second).last() == second.last());
    }
}

/// Ordinary names, taken as components, are appended as they stand.
proof fn lemma_apply_normal_components(names: Seq<Seq<char>>, more: Seq<Seq<char>>)
    requires
        all_normal(more),
    ensures
        apply_components(names, more) == names + more,
    decreases more.len(),
{
    if more.len() == 0 {
        assert(names + more =~= names);
    } else {
        lemma_apply_normal_components(names, more.drop_last());
        assert(is_normal(more.last()));
        assert((names + more.drop_last()).push(more.last()) =~= names + more);
    }
}

/// Ordinary names, taken as segments, are appended as they stand.
pub proof fn lemma_apply_normal_segments(names: Seq<Seq<char>>, more: Seq<Seq<char>>)
    requires
        all_normal(more),
    ensures
        apply_segments(names, more) == names + more,
    decreases more.len(),
{
    if more.len() == 0 {
        assert(names + more =~= names);
    } else {
        lemma_apply_normal_segments(names, more.drop_last());
        assert(is_normal(more.last()));
        lemma_split_plain(more.last());
        let below = names + more.drop_last();
        lemma_apply_single(below, more.last());
        assert(below.push(more.last()) =~= names + more);
    }
}

/// Each `..` removes one name while names are left, and is absorbed once
/// none is.
pub proof fn lemma_apply_parent_dirs(names: Seq<Seq<char>>, parents: Seq<Seq<char>>)
    requires
        all_parent_dirs(parents),
    ensures
        apply_segments(names, parents) == if parents.len() <= names.len() {
            names.take(names.len() - parents.len())
        } else {
            Seq::<Seq<char>>::empty()
        },
    decreases parents.len(),
{
    if parents.len() == 0 {
        assert(names.take(names.len() as int) =~= names);
    } else {
        let fewer = parents.drop_last();
        lemma_apply_parent_dirs(names, fewer);
        let parent = parents.last();
        assert(is_parent_dir(parent));
        assert(has_no_separator(parent));
        lemma_split_plain(parent);
        let below = apply_segments(names, fewer);
        lemma_apply_single(below, parent);
        if parents.len() <= names.len() {
            assert(below.drop_last() =~= names.take(names.len() - parents.len()));
        } else if fewer.len() <= names.len() {
            assert(below =~= Seq::<Seq<char>>::empty());
        }
    }
}

/// Descending through any number of ordinary names and climbing back as
/// many levels leads to the starting point: the normalized path is empty.
pub proof fn lemma_descent_and_ascent_cancel(names: Seq<Seq<char>>, parents: Seq<Seq<char>>)
    requires
        all_normal(names),
        all_parent_dirs(parents),
        parents.len() == names.len(),
    ensures
        normalized(names + parents) == Seq::<Seq<char>>::empty(),
{
    let start = Seq::<Seq<char>>::empty();
    lemma_apply_segments_concat(start, names, parents);
    lemma_apply_normal_segments(start, names);
    lemma_apply_parent_dirs(start + names, parents);
    assert((start + names).take(0) =~= start);
}

/// Attempts to climb above the starting point are absorbed: however many
/// `..` come first, the segments after them are normalized as if they stood
/// alone.
pub proof fn lemma_excess_ascent_is_absorbed(parents: Seq<Seq<char>>, segments: Seq<Seq<char>>)
    requires
        all_parent_dirs(parents),
    ensures
        normalized(parents + segments) == normalized(segments),
{
    let start = Seq::<Seq<char>>::empty();
    lemma_apply_segments_concat(start, parents, segments);
    lemma_apply_parent_dirs(start, parents);
    assert(start.take(0) =~= start);
}

/// The separator that sets the first of `names` off from `base`, if one is
/// needed.
pub open spec fn lead(base: Seq<char>, names: Seq<Seq<char>>) -> Seq<char> {
    if names.len() > 0 && needs_separator(base) {
        seq!['/']
    } else {
        Seq::<char>::empty()
    }
}

/// The names joined by separators, with nothing before them.
pub open spec fn relative(names: Seq<Seq<char>>) -> Seq<char> {
    join(Seq::<char>::empty(), names)
}

/// A relative path of ordinary names ends in a character of its last name.
proof fn lemma_relative_ends_in_name(names: Seq<Seq<char>>)
    requires
        all_normal(names),
        names.len() > 0,
    ensures
        needs_separator(relative(names)),
{
    let name = names.last();
    assert(is_normal(name));
    assert(name.len() > 0);
    assert(name[name.len() - 1] != '/');
    let below = relative(names.drop_last());
    assert(relative(names) == push_name(below, name));
    assert(push_name(below, name).last() == name.last());
}

/// Joining ordinary names to a base leaves the base as it is and appends,
/// after a separator where the base needs one, the names joined among
/// themselves.
pub proof fn lemma_join_extends_base(base: Seq<char>, names: Seq<Seq<char>>)
    requires
        all_normal(names),
    ensures
        join(base, names) == base + lead(base, names) + relative(names),
    decreases names.len(),
{
    let empty = Seq::<char>::empty();
    if names.len() == 0 {
        assert(base + lead(base, names) + relative(names) =~= base);
    } else {
        let fewer = names.drop_last();
        let name = names.last();
        assert(all_normal(fewer)) by {
            assert forall|i: int| 0 <= i < fewer.len() implies is_normal(#[trigger] fewer[i]) by {
                assert(fewer[i] == names[i]);
            }
        }
        lemma_join_extends_base(base, fewer);
        if fewer.len() == 0 {
            assert(join(base, fewer) == base);
            assert(relative(fewer) == empty);
            assert(relative(names) == push_name(empty, name));
            assert(push_name(empty, name) =~= name);
            assert(push_name(base, name) =~= base + lead(base, names) + name);
        } else {
            lemma_relative_ends_in_name(fewer);
            let inner = relative(fewer);
            let outer = base + lead(base, fewer) + inner;
            assert(outer.last() == inner.last());
            assert(needs_separator(outer));
            assert(lead(base, names) == lead(base, fewer));
            assert(outer + seq!['/'] + name =~= base + lead(base, names) + (inner + seq!['/']
                + name));
        }
    }
}

/// Behind text that is empty or ends in a separator, the components of a
/// relative path of ordinary names are those names.
proof fn lemma_split_relative(before: Seq<char>, names: Seq<Seq<char>>)
    requires
        all_normal(names),
        names.len() > 0,
        !needs_separator(before),
    ensures
        split_components(before + relative(names)) == split_components(before).drop_last()
            + names,
    decreases names.len(),
{
    let empty = Seq::<char>::empty();
    let fewer = names.drop_last();
    let name = names.last();
    assert(is_normal(name));
    lemma_split_nonempty(before);
    assert(split_components(before).last() == empty) by {
        if before.len() > 0 {
            lemma_split_nonempty(before.drop_last());
        }
    }
    if fewer.len() == 0 {
        assert(relative(fewer) == empty);
        assert(relative(names) == push_name(empty, name));
        assert(push_name(empty, name) =~= name);
        lemma_split_append_plain(before, name);
        assert(empty + name =~= name);
        assert(split_components(before).drop_last().push(name) =~= split_components(
            before,
        ).drop_last() + names);
    } else {
        assert(all_normal(fewer)) by {
            assert forall|i: int| 0 <= i < fewer.len() implies is_normal(#[trigger] fewer[i]) by {
                assert(fewer[i] == names[i]);
            }
        }
        lemma_split_relative(before, fewer);
        lemma_relative_ends_in_name(fewer);
        let inner = relative(fewer);
        assert(relative(names) == inner + seq!['/'] + name);
        assert(before + relative(names) =~= (before + inner) + seq!['/'] + name);
        lemma_split_append_name(before + inner, name);
        assert((split_components(before).drop_last() + fewer).push(name) =~= split_components(
            before,
        ).drop_last() + names);
    }
}

/// No request leaves the root.
///
/// Whatever the segments hold, the resolved path is the root followed by a
/// tail; every component of the tail is empty or an ordinary name, so no
/// `..` survives into the path; and the tail denotes the normalized path of
/// the request, so the path lies as many levels below the root as that path
/// has names, and never above it.
pub proof fn lemma_resolved_stays_below_root(root: Seq<char>, segments: Seq<Seq<char>>)
    ensures
        root.is_prefix_of(resolved(root, segments)),
        forall|i: int|
            0 <= i < split_components(resolved(root, segments).skip(root.len() as int)).len()
                ==> {
                let component = #[trigger] split_components(
                    resolved(root, segments).skip(root.len() as int),
                )[i];
                component.len() == 0 || is_normal(component)
            },
        apply_segment(Seq::empty(), resolved(root, segments).skip(root.len() as int))
            == normalized(segments),
{
    let empty = Seq::<char>::empty();
    let start = Seq::<Seq<char>>::empty();
    let names = normalized(segments);
    lemma_normalized_is_normal(segments);
    lemma_join_extends_base(root, names);
    let path = resolved(root, segments);
    let tail = lead(root, names) + relative(names);
    assert(path =~= root + tail);
    assert(path.skip(root.len() as int) =~= tail);
    if names.len() == 0 {
        assert(tail =~= empty);
        assert(split_components(tail) == seq![empty]);
        lemma_apply_single(start, empty);
    } else {
        let before = lead(root, names);
        lemma_split_relative(before, names);
        let kept = split_components(before).drop_last();
        assert(split_components(tail) == kept + names);
        if needs_separator(root) {
            assert(before.drop_last() =~= empty);
            assert(split_components(before) == seq![empty].push(empty)) by {
                reveal_with_fuel(split_components, 2);
            }
            assert(kept =~= seq![empty]);
            lemma_apply_single(start, empty);
        } else {
            assert(kept =~= start);
        }
        lemma_apply_components_concat(start, kept, names);
        lemma_apply_normal_components(start, names);
        assert(start + names =~= names);
        assert forall|i: int| 0 <= i < (kept + names).len() implies {
            let component = #[trigger] (kept + names)[i];
            component.len() == 0 || is_normal(component)
        } by {
            if i >= kept.len() {
                assert((kept + names)[i] == names[i - kept.len()]);
            }
        }
    }
}

} // verus!
