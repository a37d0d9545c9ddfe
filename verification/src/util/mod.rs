use vstd::prelude::*;

use crate::config::document::{
    distinct_keys, entries_map, find_key, lemma_entries_dom, lemma_entries_update,
    lemma_entries_value, values_wf, Document, Tree,
};

pub mod adjacency;
pub mod color;
pub mod corners;
pub mod icon_ops;
pub mod raster;
pub mod text;

verus! {

/// The later document laid over the earlier. Two mappings merge key by key:
/// a key of either is a key of the result; where both have it their values
/// are merged, else the value is the one that is there. Two tagged values
/// with the same tag merge what they tag. In every other case the later
/// document stands alone: scalars and sequences are never combined, and a
/// changed tag replaces the whole value.
pub open spec fn merged(first: Tree, second: Tree) -> Tree
    decreases second,
{
    match (first, second) {
        (Tree::Mapping(ours), Tree::Mapping(theirs)) => Tree::Mapping(
            Map::new(
                |key: Seq<char>| ours.dom().contains(key) || theirs.dom().contains(key),
                |key: Seq<char>|
                    if theirs.dom().contains(key) {
                        if ours.dom().contains(key) {
                            merged(ours[key], theirs[key])
                        } else {
                            theirs[key]
                        }
                    } else {
                        ours[key]
                    },
            ),
        ),
        (Tree::Tagged(tag, inner), Tree::Tagged(other_tag, other_inner)) => if tag == other_tag {
            Tree::Tagged(tag, Box::new(merged(*inner, *other_inner)))
        } else {
            second
        },
        _ => second,
    }
}

/// The entries of two merged mappings.
pub open spec fn merged_maps(ours: Map<Seq<char>, Tree>, theirs: Map<Seq<char>, Tree>) -> Map<
    Seq<char>,
    Tree,
> {
    merged(Tree::Mapping(ours), Tree::Mapping(theirs))->Mapping_0
}

/// Merging a document with itself changes nothing.
pub proof fn merge_is_idempotent(doc: Tree)
    ensures
        merged(doc, doc) == doc,
    decreases doc,
{
    match doc {
        Tree::Mapping(entries) => {
            assert forall|key: Seq<char>| #[trigger] entries.dom().contains(key) implies merged(
                entries[key],
                entries[key],
            ) == entries[key] by {
                merge_is_idempotent(entries[key]);
            }
            assert(merged_maps(entries, entries) =~= entries);
        },
        Tree::Tagged(_, inner) => {
            merge_is_idempotent(*inner);
        },
        _ => {},
    }
}

/// Merging two mappings keeps every key of either. A key of the earlier
/// alone keeps its value, a key of the later alone brings its value, and a
/// key of both holds the merge of the two values, which is the later value
/// unless both are mappings or carry the same tag.
pub proof fn merge_of_mappings(
    ours: Map<Seq<char>, Tree>,
    theirs: Map<Seq<char>, Tree>,
    key: Seq<char>,
)
    ensures
        merged(Tree::Mapping(ours), Tree::Mapping(theirs)) is Mapping,
        merged(Tree::Mapping(ours), Tree::Mapping(theirs))->Mapping_0.dom().contains(key) <==> (
        ours.dom().contains(key) || theirs.dom().contains(key)),
        ours.dom().contains(key) && !theirs.dom().contains(key) ==> merged(
            Tree::Mapping(ours),
            Tree::Mapping(theirs),
        )->Mapping_0[key] == ours[key],
        !ours.dom().contains(key) && theirs.dom().contains(key) ==> merged(
            Tree::Mapping(ours),
            Tree::Mapping(theirs),
        )->Mapping_0[key] == theirs[key],
        ours.dom().contains(key) && theirs.dom().contains(key) ==> merged(
            Tree::Mapping(ours),
            Tree::Mapping(theirs),
        )->Mapping_0[key] == merged(ours[key], theirs[key]),
        ours.dom().contains(key) && theirs.dom().contains(key) && !(theirs[key] is Mapping) && !(
        theirs[key] is Tagged) ==> merged(Tree::Mapping(ours), Tree::Mapping(theirs))->Mapping_0[key]
            == theirs[key],
{
}

/// Whether a value holds no mapping: a scalar or a sequence, tagged or not.
pub open spec fn holds_no_mapping(value: Tree) -> bool
    decreases value,
{
    match value {
        Tree::Mapping(_) => false,
        Tree::Tagged(_, inner) => holds_no_mapping(*inner),
        _ => true,
    }
}

/// A later value that holds no mapping wins outright, whatever stood
/// before it.
pub proof fn later_value_wins(first: Tree, second: Tree)
    requires
        holds_no_mapping(second),
    ensures
        merged(first, second) == second,
    decreases second,
{
    match (first, second) {
        (Tree::Tagged(tag, inner), Tree::Tagged(other_tag, other_inner)) => {
            if tag == other_tag {
                later_value_wins(*inner, *other_inner);
            }
        },
        _ => {},
    }
}

/// Laid over an empty mapping, a mapping stands as it is.
pub proof fn merge_onto_empty(theirs: Map<Seq<char>, Tree>)
    ensures
        merged(Tree::Mapping(Map::empty()), Tree::Mapping(theirs)) == Tree::Mapping(theirs),
{
    assert(merged_maps(Map::empty(), theirs) =~= theirs);
}

/// The sequence gone through from its start again and again until `amount`
/// items are had. An empty sequence gives nothing.
pub open spec fn cycled<T>(items: Seq<T>, amount: int) -> Seq<T> {
    if items.len() == 0 {
        Seq::empty()
    } else {
        Seq::new(amount as nat, |i: int| items[i % (items.len() as int)])
    }
}

/// A list that is cycled to `amount` items has that many, and each is the
/// item of the list at its place, counted round the list.
pub proof fn cycled_repeats<T>(items: Seq<T>, amount: int, index: int)
    requires
        items.len() > 0,
        0 <= index < amount,
    ensures
        cycled(items, amount).len() == amount,
        cycled(items, amount)[index] == items[index % (items.len() as int)],
        amount <= items.len() ==> cycled(items, amount) == items.take(amount),
{
    if amount <= items.len() {
        assert forall|i: int| 0 <= i < amount implies cycled(items, amount)[i] == items.take(
            amount,
        )[i] by {
            vstd::arithmetic::div_mod::lemma_small_mod(i as nat, items.len());
        }
        assert(cycled(items, amount) =~= items.take(amount));
    }
}

/// The first `amount` items of `to_repeat` repeated without end: a list
/// that is too short is gone through again from its start, one that is too
/// long is cut. Nothing can be made of an empty list.
#[must_use]
pub fn repeat_for<T: Copy>(to_repeat: &[T], amount: usize) -> (repeated: Vec<T>)
    ensures
        repeated@ == cycled(to_repeat@, amount as int),
{
    let mut repeated: Vec<T> = Vec::new();
    if to_repeat.len() == 0 {
        return repeated;
    }
    let mut index: usize = 0;
    let mut source: usize = 0;
    while index < amount
        invariant
            index <= amount,
            to_repeat.len() > 0,
            source < to_repeat.len(),
            source == (index as int) % (to_repeat.len() as int),
            repeated@ == cycled(to_repeat@, index as int),
        decreases amount - index,
    {
        proof {
            let length = to_repeat.len() as int;
            assert(cycled(to_repeat@, index + 1) =~= cycled(to_repeat@, index as int).push(
                to_repeat@[source as int],
            ));
            assert((index + 1) % length == if source + 1 == length {
                0int
            } else {
                source + 1
            }) by {
                vstd::arithmetic::div_mod::lemma_fundamental_div_mod(index as int, length);
                let quotient = (index as int) / length;
                assert(index == length * quotient + source);
                assert((quotient + 1) * length == length * quotient + length) by (nonlinear_arith);
                assert(quotient * length == length * quotient) by (nonlinear_arith);
                vstd::arithmetic::div_mod::lemma_fundamental_div_mod_converse(
                    index + 1,
                    length,
                    if source + 1 == length {
                        (index as int) / length + 1
                    } else {
                        (index as int) / length
                    },
                    if source + 1 == length {
                        0int
                    } else {
                        source + 1
                    },
                );
            }
        }
        repeated.push(to_repeat[source]);
        index += 1;
        source = if source + 1 == to_repeat.len() {
            0
        } else {
            source + 1
        };
    }
    repeated
}

/// Merges `second` into `first`: mappings key by key and all the way down,
/// anything else by letting `second` take the place of what stood there.
pub fn deep_merge(first: &mut Document, second: Document)
    requires
        old(first).wf(),
        second.wf(),
    ensures
        final(first).wf(),
        final(first)@ == merged(old(first)@, second@),
{
    let mut earlier = Document::Null;
    core::mem::swap(first, &mut earlier);
    *first = overlay(earlier, second);
}

/// The merge of two documents, by value.
#[verifier::loop_isolation(false)]
pub fn overlay(first: Document, second: Document) -> (both: Document)
    requires
        first.wf(),
        second.wf(),
    ensures
        both.wf(),
        both@ == merged(first@, second@),
    decreases second,
{
    match second {
        Document::Mapping(theirs) => {
            match first {
                Document::Mapping(ours) => {
                    let ghost base = entries_map(ours@);
                    let ghost added = theirs@;
                    let mut ours = ours;
                    let mut theirs = theirs;
                    let ghost mut done: int = 0;
                    assert(added.skip(0) =~= added);
                    assert(merged_maps(base, entries_map(added.take(0))) =~= base);
                    while theirs.len() > 0
                        invariant
                            0 <= done <= added.len(),
                            theirs@ == added.skip(done),
                            distinct_keys(ours@),
                            values_wf(ours@),
                            entries_map(ours@) == merged_maps(
                                base,
                                entries_map(added.take(done)),
                            ),
                        decreases theirs.len(),
                    {
                        let ghost seen = entries_map(added.take(done));
                        let ghost current = ours@;
                        let entry = theirs.remove(0);
                        let (key, value) = entry;
                        proof {
                            assert(entry == added[done]);
                            assert(added.take(done + 1).drop_last() =~= added.take(done));
                            assert(added.take(done + 1).last() == added[done]);
                            lemma_entries_dom(added.take(done), key@);
                            if seen.dom().contains(key@) {
                                let i = choose|i: int|
                                    0 <= i < added.take(done).len() && (#[trigger] added.take(
                                        done,
                                    )[i]).0@ == key@;
                                assert(added[i].0@ == added[done].0@);
                            }
                            lemma_entries_dom(current, key@);
                            assert(theirs@ =~= added.skip(done + 1));
                        }
                        match find_key(&ours, key.as_str()) {
                            Some(place) => {
                                proof {
                                    lemma_entries_value(current, place as int);
                                }
                                let held = ours.remove(place);
                                let combined = overlay(held.1, value);
                                proof {
                                    lemma_entries_update(
                                        current,
                                        place as int,
                                        (held.0, combined),
                                    );
                                    assert(ours@.insert(place as int, (held.0, combined))
                                        =~= current.update(place as int, (held.0, combined)));
                                }
                                ours.insert(place, (held.0, combined));
                                proof {
                                    assert forall|i: int| 0 <= i < ours@.len() implies (
                                    #[trigger] ours@[i]).1.wf() by {
                                        if i != place {
                                            assert(ours@[i] == current[i]);
                                        }
                                    }
                                    assert(entries_map(ours@) =~= merged_maps(
                                        base,
                                        entries_map(added.take(done + 1)),
                                    ));
                                }
                            },
                            None => {
                                proof {
                                    assert(current.push((key, value)).drop_last() =~= current);
                                }
                                ours.push((key, value));
                                proof {
                                    assert forall|i: int| 0 <= i < ours@.len() implies (
                                    #[trigger] ours@[i]).1.wf() by {
                                        if i < current.len() {
                                            assert(ours@[i] == current[i]);
                                        }
                                    }
                                    assert(entries_map(ours@) =~= merged_maps(
                                        base,
                                        entries_map(added.take(done + 1)),
                                    ));
                                }
                            },
                        }
                        proof {
                            done = done + 1;
                        }
                    }
                    proof {
                        assert(added.take(done) =~= added);
                    }
                    Document::Mapping(ours)
                },
                _ => Document::Mapping(theirs),
            }
        },
        Document::Tagged(tag, inner) => {
            match first {
                Document::Tagged(held_tag, held) => {
                    if held_tag == tag {
                        Document::Tagged(held_tag, Box::new(overlay(*held, *inner)))
                    } else {
                        Document::Tagged(tag, inner)
                    }
                },
                _ => Document::Tagged(tag, inner),
            }
        },
        later => later,
    }
}

} // verus!
