//! The order of tags: sorting them, and finding the newest.

use vstd::prelude::*;

use crate::image::{Tag, TagView};

verus! {

/// Older tags stand before newer ones.
pub open spec fn in_order(tags: Seq<TagView>) -> bool {
    forall|i: int, j: int| 0 <= i < j < tags.len() ==> tags[i].order <= tags[j].order
}

/// The tags that take a given place in the order, as they follow each other in `tags`.
pub open spec fn at_place(tags: Seq<TagView>, order: u64) -> Seq<TagView> {
    tags.filter(|tag: TagView| tag.order == order)
}

/// `sorted` holds the tags of `tags` in their order; tags that take the same place follow
/// each other as before.
pub open spec fn is_sorting_of(sorted: Seq<TagView>, tags: Seq<TagView>) -> bool {
    &&& in_order(sorted)
    &&& forall|order: u64| #[trigger] at_place(sorted, order) == at_place(tags, order)
}

/// The newest of the tags that are there; of several that are equally new, the last.
pub open spec fn newest(tags: Seq<Option<TagView>>) -> Option<TagView>
    decreases tags.len(),
{
    if tags.len() == 0 {
        None
    } else {
        match (newest(tags.drop_last()), tags.last()) {
            (Some(best), Some(tag)) => if tag.order >= best.order {
                Some(tag)
            } else {
                Some(best)
            },
            (Some(best), None) => Some(best),
            (None, tag) => tag,
        }
    }
}

/// An optional tag as its view.
pub open spec fn optional_tag(tag: Option<Tag>) -> Option<TagView> {
    match tag {
        Some(tag) => Some(tag@),
        None => None,
    }
}

/// A list of optional tags as their views.
pub open spec fn optional_tags(tags: Seq<Option<Tag>>) -> Seq<Option<TagView>> {
    tags.map_values(|tag: Option<Tag>| optional_tag(tag))
}

/// The newest tag is one of the list, none is newer, and those behind it are older; where no
/// tag is there, none is the newest.
pub proof fn newest_is_the_last_greatest(tags: Seq<Option<TagView>>)
    ensures
        match newest(tags) {
            Some(best) => exists|i: int|
                {
                    &&& 0 <= i < tags.len()
                    &&& #[trigger] tags[i] == Some(best)
                    &&& forall|j: int|
                        0 <= j < tags.len() && (#[trigger] tags[j]) is Some ==> tags[j]->0.order
                            <= best.order
                    &&& forall|j: int|
                        i < j < tags.len() && (#[trigger] tags[j]) is Some ==> tags[j]->0.order
                            < best.order
                },
            None => forall|i: int| 0 <= i < tags.len() ==> (#[trigger] tags[i]) is None,
        },
    decreases tags.len(),
{
    if tags.len() > 0 {
        let rest = tags.drop_last();
        newest_is_the_last_greatest(rest);
        let last = tags.len() - 1;
        assert(tags[last] == tags.last());
        assert(forall|j: int| 0 <= j < rest.len() ==> rest[j] == #[trigger] tags[j]);
        if newest(rest) is Some {
            let best = newest(rest)->0;
            let i = choose|i: int|
                {
                    &&& 0 <= i < rest.len()
                    &&& #[trigger] rest[i] == Some(best)
                    &&& forall|j: int|
                        0 <= j < rest.len() && (#[trigger] rest[j]) is Some ==> rest[j]->0.order
                            <= best.order
                    &&& forall|j: int|
                        i < j < rest.len() && (#[trigger] rest[j]) is Some ==> rest[j]->0.order
                            < best.order
                };
            assert(tags[i] == Some(best));
        }
    }
}

/// All tags of the list that are as new as the newest are the same.
pub open spec fn has_one_newest(tags: Seq<Option<TagView>>) -> bool {
    forall|i: int, j: int|
        0 <= i < tags.len() && 0 <= j < tags.len() && (#[trigger] tags[i]) is Some && (
        #[trigger] tags[j]) is Some && tags[i]->0.order == tags[j]->0.order && newest(tags)
            == Some(tags[i]->0) ==> tags[i] == tags[j]
}

/// How new the newest tag is depends on which tags are there, and not on their order or how
/// often they are there; and so does the newest tag, where all that are as new are the same.
pub proof fn newest_depends_on_the_tags_alone(a: Seq<Option<TagView>>, b: Seq<Option<TagView>>)
    requires
        forall|tag: TagView| a.contains(Some(tag)) <==> b.contains(Some(tag)),
    ensures
        newest(a) is Some <==> newest(b) is Some,
        newest(a) is Some ==> newest(a)->0.order == newest(b)->0.order,
        has_one_newest(a) ==> newest(a) == newest(b),
{
    newest_is_the_last_greatest(a);
    newest_is_the_last_greatest(b);
    if newest(a) is Some {
        assert(b.contains(Some(newest(a)->0)));
    }
    if newest(b) is Some {
        assert(a.contains(Some(newest(b)->0)));
    }
    if newest(a) is Some && has_one_newest(a) {
        let i = choose|i: int| 0 <= i < a.len() && a[i] == Some(newest(a)->0);
        let j = choose|j: int| 0 <= j < a.len() && a[j] == Some(newest(b)->0);
        assert(a[i] == a[j]);
    }
}

/// Sorting leaves only one result.
pub proof fn sorting_is_unique(a: Seq<TagView>, b: Seq<TagView>, tags: Seq<TagView>)
    requires
        is_sorting_of(a, tags),
        is_sorting_of(b, tags),
    ensures
        a == b,
{
    assert forall|order: u64| #[trigger] at_place(a, order) == at_place(b, order) by {
        assert(at_place(a, order) == at_place(tags, order));
    }
    lemma_same_places_same_list(a, b);
}

/// Sorting loses no tag and adds none.
pub proof fn sorting_keeps_all_tags(sorted: Seq<TagView>, tags: Seq<TagView>)
    requires
        is_sorting_of(sorted, tags),
    ensures
        sorted.to_multiset() == tags.to_multiset(),
{
    assert forall|tag: TagView| sorted.to_multiset().count(tag) == tags.to_multiset().count(
        tag,
    ) by {
        lemma_count_at_place(sorted, tag);
        lemma_count_at_place(tags, tag);
        assert(at_place(sorted, tag.order) == at_place(tags, tag.order));
    }
    assert(sorted.to_multiset() =~= tags.to_multiset());
}

/// A tag occurs as often at its place as in the whole list.
proof fn lemma_count_at_place(tags: Seq<TagView>, tag: TagView)
    ensures
        at_place(tags, tag.order).to_multiset().count(tag) == tags.to_multiset().count(tag),
    decreases tags.len(),
{
    broadcast use vstd::seq_lib::group_to_multiset_ensures;

    reveal(Seq::filter);
    if tags.len() > 0 {
        let rest = tags.drop_last();
        lemma_count_at_place(rest, tag);
        assert(tags == rest.push(tags.last()));
    }
}

/// The order in which tags are given does not count when they are sorted, where tags that
/// take the same place are the same.
pub proof fn sorting_does_not_depend_on_the_order(
    a: Seq<TagView>,
    b: Seq<TagView>,
    sorted_a: Seq<TagView>,
    sorted_b: Seq<TagView>,
)
    requires
        is_sorting_of(sorted_a, a),
        is_sorting_of(sorted_b, b),
        a.to_multiset() == b.to_multiset(),
        forall|i: int, j: int|
            0 <= i < a.len() && 0 <= j < a.len() && a[i].order == a[j].order ==> a[i] == a[j],
    ensures
        sorted_a == sorted_b,
{
    broadcast use vstd::seq_lib::group_to_multiset_ensures;

    assert forall|tag: TagView| a.contains(tag) <==> b.contains(tag) by {
        assert(b.contains(tag) <==> b.to_multiset().count(tag) > 0);
    }
    assert forall|order: u64| #[trigger] at_place(sorted_a, order) == at_place(sorted_b, order) by {
        if exists|i: int| 0 <= i < a.len() && (#[trigger] a[i]).order == order {
            let tag = a[choose|i: int| 0 <= i < a.len() && (#[trigger] a[i]).order == order];
            assert forall|j: int| 0 <= j < b.len() && b[j].order == order implies #[trigger] b[j]
                == tag by {
                assert(a.contains(b[j]));
            }
            lemma_only_tag_at_place(a, tag);
            lemma_only_tag_at_place(b, tag);
            lemma_count_at_place(a, tag);
            lemma_count_at_place(b, tag);
        } else {
            assert forall|j: int| 0 <= j < b.len() implies (#[trigger] b[j]).order != order by {
                assert(a.contains(b[j]));
            }
            lemma_none_at_place(a, order);
            lemma_none_at_place(b, order);
        }
    }
    lemma_same_places_same_list(sorted_a, sorted_b);
}

/// Where a tag is the only one at its place, that place holds it as often as it occurs there,
/// and nothing else.
proof fn lemma_only_tag_at_place(tags: Seq<TagView>, tag: TagView)
    requires
        forall|i: int|
            0 <= i < tags.len() && tags[i].order == tag.order ==> #[trigger] tags[i] == tag,
    ensures
        at_place(tags, tag.order).len() == at_place(tags, tag.order).to_multiset().count(tag),
        forall|i: int|
            0 <= i < at_place(tags, tag.order).len() ==> #[trigger] at_place(tags, tag.order)[i]
                == tag,
    decreases tags.len(),
{
    broadcast use vstd::seq_lib::group_to_multiset_ensures;

    reveal(Seq::filter);
    if tags.len() > 0 {
        lemma_only_tag_at_place(tags.drop_last(), tag);
    }
}

/// Tags that stand in order stay as they are when they are sorted.
pub proof fn sorting_keeps_what_is_in_order(sorted: Seq<TagView>, tags: Seq<TagView>)
    requires
        in_order(tags),
        is_sorting_of(sorted, tags),
    ensures
        sorted == tags,
{
    sorting_is_unique(sorted, tags, tags);
}

/// The greatest tag of a list that is in order is its last.
proof fn lemma_last_place(a: Seq<TagView>, b: Seq<TagView>)
    requires
        in_order(a),
        in_order(b),
        a.len() > 0,
        forall|order: u64| #[trigger] at_place(a, order) == at_place(b, order),
    ensures
        b.len() > 0,
        a.last().order <= b.last().order,
{
    let order = a.last().order;
    let here = |tag: TagView| tag.order == order;
    a.lemma_filter_contains(here, a.len() - 1);
    assert(at_place(a, order).contains(a.last()));
    assert(at_place(b, order).contains(a.last()));
    b.lemma_filter_len(here);
    let i = choose|i: int| 0 <= i < b.filter(here).len() && b.filter(here)[i] == a.last();
    lemma_filter_from(b, here, i);
    let k = choose|k: int| 0 <= k < b.len() && b[k] == b.filter(here)[i];
    assert(b[k].order == order);
}

/// What a filter lets through was there before.
proof fn lemma_filter_from(tags: Seq<TagView>, keep: spec_fn(TagView) -> bool, i: int)
    requires
        0 <= i < tags.filter(keep).len(),
    ensures
        exists|k: int| 0 <= k < tags.len() && tags[k] == tags.filter(keep)[i],
    decreases tags.len(),
{
    reveal(Seq::filter);
    if tags.len() > 0 {
        let rest = tags.drop_last();
        if i < rest.filter(keep).len() {
            lemma_filter_from(rest, keep, i);
            let k = choose|k: int| 0 <= k < rest.len() && rest[k] == rest.filter(keep)[i];
            assert(tags[k] == tags.filter(keep)[i]);
        } else {
            assert(tags[tags.len() - 1] == tags.filter(keep)[i]);
        }
    }
}

proof fn lemma_same_places_same_list(a: Seq<TagView>, b: Seq<TagView>)
    requires
        in_order(a),
        in_order(b),
        forall|order: u64| #[trigger] at_place(a, order) == at_place(b, order),
    ensures
        a == b,
    decreases a.len(),
{
    if a.len() == 0 {
        if b.len() > 0 {
            lemma_last_place(b, a);
        }
    } else {
        lemma_last_place(a, b);
        lemma_last_place(b, a);
        let order = a.last().order;
        reveal(Seq::filter);
        assert(at_place(a, order) == at_place(b, order));
        assert(at_place(a, order).last() == a.last());
        assert(at_place(b, order).last() == b.last());
        let rest_a = a.drop_last();
        let rest_b = b.drop_last();
        assert forall|place: u64| #[trigger]
            at_place(rest_a, place) == at_place(rest_b, place) by {
            assert(at_place(a, place) == at_place(b, place));
            if place == order {
                assert(at_place(a, place).drop_last() == at_place(rest_a, place));
                assert(at_place(b, place).drop_last() == at_place(rest_b, place));
            } else {
                assert(at_place(a, place) == at_place(rest_a, place));
                assert(at_place(b, place) == at_place(rest_b, place));
            }
        }
        lemma_same_places_same_list(rest_a, rest_b);
        assert(a == rest_a.push(a.last()));
        assert(b == rest_b.push(b.last()));
    }
}

/// A list of tags of another place has none at this one.
proof fn lemma_none_at_place(tags: Seq<TagView>, order: u64)
    requires
        forall|i: int| 0 <= i < tags.len() ==> (#[trigger] tags[i]).order != order,
    ensures
        at_place(tags, order) == Seq::<TagView>::empty(),
    decreases tags.len(),
{
    reveal(Seq::filter);
    if tags.len() > 0 {
        lemma_none_at_place(tags.drop_last(), order);
    }
}

/// A tag put behind all that are not newer comes last at its own place, and changes no other.
proof fn lemma_place_of_inserted(sorted: Seq<TagView>, tag: TagView, position: int, order: u64)
    requires
        0 <= position <= sorted.len(),
        forall|i: int| position <= i < sorted.len() ==> (#[trigger] sorted[i]).order > tag.order,
    ensures
        at_place(sorted.insert(position, tag), order) == (if order == tag.order {
            at_place(sorted, order).push(tag)
        } else {
            at_place(sorted, order)
        }),
{
    let here = |tag: TagView| tag.order == order;
    let front = sorted.take(position);
    let back = sorted.skip(position);
    assert(sorted == front + back);
    assert(sorted.insert(position, tag) == front.push(tag) + back);
    Seq::filter_distributes_over_add(front, back, here);
    Seq::filter_distributes_over_add(front.push(tag), back, here);
    assert(front.push(tag).drop_last() == front);
    reveal(Seq::filter);
    if order == tag.order {
        lemma_none_at_place(back, order);
    }
}

/// Sorts tags from the oldest to the newest.
pub fn sort_tags(tags: &mut Vec<Tag>)
    ensures
        is_sorting_of(final(tags).deep_view(), old(tags).deep_view()),
{
    let ghost before = tags.deep_view();
    let mut sorted: Vec<Tag> = Vec::new();
    let mut i: usize = 0;
    assert(sorted.deep_view() == before.take(0));
    while i < tags.len()
        invariant
            i <= tags@.len(),
            before == tags.deep_view(),
            sorted@.len() == i,
            is_sorting_of(sorted.deep_view(), before.take(i as int)),
        decreases tags.len() - i,
    {
        let tag: Tag = tags[i].clone();
        let mut position: usize = sorted.len();
        while position > 0 && sorted[position - 1].order > tag.order
            invariant
                position <= sorted@.len(),
                forall|j: int|
                    position <= j < sorted@.len() ==> (#[trigger] sorted@[j]).order > tag.order,
            decreases position,
        {
            position = position - 1;
        }
        let ghost shorter = sorted.deep_view();
        proof {
            assert(tag@ == before[i as int]);
            assert(before.take(i + 1) == before.take(i as int).push(tag@));
            assert forall|order: u64| #[trigger]
                at_place(shorter.insert(position as int, tag@), order) == at_place(
                    before.take(i + 1),
                    order,
                ) by {
                lemma_place_of_inserted(shorter, tag@, position as int, order);
                assert(at_place(shorter, order) == at_place(before.take(i as int), order));
                assert(before.take(i + 1).drop_last() == before.take(i as int));
                reveal(Seq::filter);
            }
        }
        let ghost added = tag@;
        assert(position > 0 ==> shorter[position - 1].order <= added.order);
        sorted.insert(position, tag);
        assert(sorted.deep_view() =~= shorter.insert(position as int, added));
        assert forall|a: int, b: int| 0 <= a < b < sorted@.len() implies sorted.deep_view()[a].order
            <= sorted.deep_view()[b].order by {
            if position > 0 && a < position {
                assert(shorter[a].order <= shorter[position - 1].order);
            }
        }
        i = i + 1;
    }
    assert(before.take(i as int) == before);
    *tags = sorted;
}

/// The newest of the tags that could be read.
pub fn newest_tag(tags: &Vec<Option<Tag>>) -> (best: Option<Tag>)
    ensures
        optional_tag(best) == newest(optional_tags(tags@)),
{
    let ghost views = optional_tags(tags@);
    let mut best: Option<Tag> = None;
    let mut i: usize = 0;
    assert(views.take(0).len() == 0);
    while i < tags.len()
        invariant
            i <= tags@.len(),
            views == optional_tags(tags@),
            optional_tag(best) == newest(views.take(i as int)),
        decreases tags.len() - i,
    {
        assert(views.take(i + 1).drop_last() == views.take(i as int));
        assert(views.take(i + 1).last() == optional_tag(tags@[i as int]));
        if let Some(tag) = &tags[i] {
            let newer: bool = match &best {
                Some(known) => tag.order >= known.order,
                None => true,
            };
            if newer {
                best = Some(tag.clone());
            }
        }
        i = i + 1;
    }
    assert(views.take(i as int) == views);
    best
}

/// Sorting leaves every tag that was there as often as it was, puts older tags before newer
/// ones, and does not change the order of tags that are as new as each other.
pub proof fn sorted_tags_grow_newer(tags: &mut Vec<Tag>, done: (), order: u64)
    requires
        call_ensures(sort_tags, (tags,), done),
    ensures
        forall|i: int, j: int|
            0 <= i < j < final(tags)@.len() ==> final(tags)@[i].order <= final(tags)@[j].order,
        final(tags).deep_view().to_multiset() == old(tags).deep_view().to_multiset(),
        final(tags).deep_view().filter(|tag: TagView| tag.order == order)
            == old(tags).deep_view().filter(|tag: TagView| tag.order == order),
{
    let sorted = final(tags).deep_view();
    sorting_keeps_all_tags(sorted, old(tags).deep_view());
    assert(at_place(sorted, order) == at_place(old(tags).deep_view(), order));
    assert forall|i: int, j: int| 0 <= i < j < final(tags)@.len() implies final(tags)@[i].order
        <= final(tags)@[j].order by {
        assert(sorted[i].order <= sorted[j].order);
    }
}

/// The newest tag of a list is one that is there, none is newer, and those behind it are older;
/// there is none exactly if no tag is there.
pub proof fn newest_tag_is_not_outdone(tags: Vec<Option<Tag>>, found: Option<Tag>)
    requires
        call_ensures(newest_tag, (&tags,), found),
    ensures
        found is None <==> forall|i: int| 0 <= i < tags@.len() ==> (#[trigger] tags@[i]) is None,
        found is Some ==> exists|i: int|
            {
                &&& 0 <= i < tags@.len()
                &&& (#[trigger] tags@[i]) is Some
                &&& tags@[i]->0.text@ == found->0.text@
                &&& tags@[i]->0.order == found->0.order
                &&& forall|j: int|
                    0 <= j < tags@.len() && (#[trigger] tags@[j]) is Some ==> tags@[j]->0.order
                        <= found->0.order
                &&& forall|j: int|
                    i < j < tags@.len() && (#[trigger] tags@[j]) is Some ==> tags@[j]->0.order
                        < found->0.order
            },
{
    let listed = optional_tags(tags@);
    newest_is_the_last_greatest(listed);
    assert(listed.len() == tags@.len());
    assert(forall|i: int| 0 <= i < tags@.len() ==> listed[i] == optional_tag(#[trigger] tags@[i]));
    if let Some(best) = newest(listed) {
        let i = choose|i: int|
            {
                &&& 0 <= i < listed.len()
                &&& #[trigger] listed[i] == Some(best)
                &&& forall|j: int|
                    0 <= j < listed.len() && (#[trigger] listed[j]) is Some ==> listed[j]->0.order
                        <= best.order
                &&& forall|j: int|
                    i < j < listed.len() && (#[trigger] listed[j]) is Some ==> listed[j]->0.order
                        < best.order
            };
        assert(tags@[i]->0@ == best);
        assert forall|j: int| 0 <= j < tags@.len() && (#[trigger] tags@[j]) is Some implies
            tags@[j]->0.order <= best.order && (i < j ==> tags@[j]->0.order < best.order) by {
            assert(listed[j] is Some);
        }
    } else {
        assert forall|i: int| 0 <= i < tags@.len() implies (#[trigger] tags@[i]) is None by {
            assert(listed[i] is None);
        }
    }
}

} // verus!
