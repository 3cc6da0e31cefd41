//! Lists of column names without repetition.

use vstd::prelude::*;
use crate::text::has_text;
use crate::text::texts;

verus! {

/// `names` with `name` added at the end unless it is already there.
pub open spec fn with_name(names: Seq<Seq<char>>, name: Seq<char>) -> Seq<Seq<char>> {
    if names.contains(name) {
        names
    } else {
        names.push(name)
    }
}

/// `names` with each of `more` added in turn unless it is already there.
pub open spec fn with_names(names: Seq<Seq<char>>, more: Seq<Seq<char>>) -> Seq<Seq<char>>
    decreases more.len(),
{
    if more.len() == 0 {
        names
    } else {
        with_name(with_names(names, more.drop_last()), more.last())
    }
}

/// Whether no name stands twice in `names`.
pub open spec fn distinct(names: Seq<Seq<char>>) -> bool {
    forall|i: int, j: int| 0 <= i < j < names.len() ==> names[i] != names[j]
}

/// Adding a name keeps a list free of repetition and adds exactly that name.
pub proof fn lemma_with_name(names: Seq<Seq<char>>, name: Seq<char>)
    requires
        distinct(names),
    ensures
        distinct(with_name(names, name)),
        forall|other: Seq<char>|
            with_name(names, name).contains(other) <==> (names.contains(other) || other == name),
{
    let out = with_name(names, name);
    if names.contains(name) {
    } else {
        assert forall|i: int, j: int| 0 <= i < j < out.len() implies out[i] != out[j] by {
            if j == names.len() {
                assert(names[i] == out[i]);
                assert(names.contains(names[i]));
            } else {
                assert(names[i] == out[i] && names[j] == out[j]);
            }
        }
        assert forall|other: Seq<char>|
            out.contains(other) <==> (names.contains(other) || other == name) by {
            if out.contains(other) {
                let k = choose|k: int| 0 <= k < out.len() && out[k] == other;
                if k < names.len() {
                    assert(names[k] == other);
                }
            }
            if names.contains(other) {
                let k = choose|k: int| 0 <= k < names.len() && names[k] == other;
                assert(out[k] == other);
            }
            if other == name {
                assert(out[names.len() as int] == name);
            }
        }
    }
}

/// Adding names keeps a list free of repetition and adds exactly those names.
pub proof fn lemma_with_names(names: Seq<Seq<char>>, more: Seq<Seq<char>>)
    requires
        distinct(names),
    ensures
        distinct(with_names(names, more)),
        forall|other: Seq<char>|
            with_names(names, more).contains(other) <==> (names.contains(other) || more.contains(
                other,
            )),
    decreases more.len(),
{
    if more.len() == 0 {
    } else {
        let before = with_names(names, more.drop_last());
        lemma_with_names(names, more.drop_last());
        lemma_with_name(before, more.last());
        assert forall|other: Seq<char>|
            with_names(names, more).contains(other) <==> (names.contains(other) || more.contains(
                other,
            )) by {
            if more.contains(other) {
                let k = choose|k: int| 0 <= k < more.len() && more[k] == other;
                if k < more.len() - 1 {
                    assert(more.drop_last()[k] == other);
                }
            }
            if more.drop_last().contains(other) {
                let k = choose|k: int|
                    0 <= k < more.drop_last().len() && more.drop_last()[k] == other;
                assert(more[k] == other);
            }
            assert(more.last() == more[more.len() - 1]);
        }
    }
}

/// Adding two runs of names in turn is adding the two runs joined.
pub proof fn lemma_with_names_joined(
    names: Seq<Seq<char>>,
    first: Seq<Seq<char>>,
    second: Seq<Seq<char>>,
)
    ensures
        with_names(with_names(names, first), second) == with_names(names, first + second),
    decreases second.len(),
{
    if second.len() == 0 {
        assert(first + second =~= first);
    } else {
        lemma_with_names_joined(names, first, second.drop_last());
        assert((first + second).drop_last() =~= first + second.drop_last());
        assert((first + second).last() == second.last());
    }
}

/// Adds `name` to `names` unless it is already there.
pub fn add_name(names: &mut Vec<String>, name: &str)
    ensures
        texts(final(names)@) == with_name(texts(old(names)@), name@),
{
    if !has_text(names, name) {
        let ghost before = texts(names@);
        names.push(name.to_owned());
        assert(texts(names@) =~= before.push(name@));
    }
}

/// Adds each of `more` to `names` unless it is already there.
pub fn add_names(names: &mut Vec<String>, more: &Vec<String>)
    ensures
        texts(final(names)@) == with_names(texts(old(names)@), texts(more@)),
{
    let ghost start = texts(names@);
    let ghost all = texts(more@);
    let mut i: usize = 0;
    proof {
        assert(all.take(0) =~= Seq::<Seq<char>>::empty());
    }
    while i < more.len()
        invariant
            i <= more.len(),
            all == texts(more@),
            texts(names@) == with_names(start, all.take(i as int)),
        decreases more.len() - i,
    {
        add_name(names, more[i].as_str());
        proof {
            let upto = all.take(i + 1);
            assert(upto.drop_last() =~= all.take(i as int));
            assert(upto.last() == more@[i as int]@);
        }
        i += 1;
    }
    proof {
        assert(all.take(i as int) =~= all);
    }
}

} // verus!
