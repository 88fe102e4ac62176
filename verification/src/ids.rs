//! Lists of request ids: how often an id occurs in one, and taking one occurrence out.
use vstd::prelude::*;

verus! {

/// How often `id` occurs in `ids`.
pub open spec fn occurrences(ids: Seq<Seq<char>>, id: Seq<char>) -> nat
    decreases ids.len(),
{
    if ids.len() == 0 {
        0
    } else {
        occurrences(ids.drop_last(), id) + if ids.last() == id {
            1nat
        } else {
            0nat
        }
    }
}

/// `ids` without the first occurrence of `id`.
pub open spec fn without_first(ids: Seq<Seq<char>>, id: Seq<char>) -> Seq<Seq<char>>
    decreases ids.len(),
{
    if ids.len() == 0 {
        ids
    } else if ids.first() == id {
        ids.drop_first()
    } else {
        seq![ids.first()] + without_first(ids.drop_first(), id)
    }
}

/// The views of a list of ids.
pub open spec fn id_views(ids: Seq<String>) -> Seq<Seq<char>> {
    Seq::new(ids.len(), |i: int| ids[i]@)
}

pub proof fn lemma_occurrences_concat(a: Seq<Seq<char>>, b: Seq<Seq<char>>, id: Seq<char>)
    ensures
        occurrences(a + b, id) == occurrences(a, id) + occurrences(b, id),
    decreases b.len(),
{
    if b.len() == 0 {
        assert(a + b =~= a);
    } else {
        assert((a + b).drop_last() =~= a + b.drop_last());
        assert((a + b).last() == b.last());
        lemma_occurrences_concat(a, b.drop_last(), id);
    }
}

pub proof fn lemma_occurrences_one(x: Seq<char>, id: Seq<char>)
    ensures
        occurrences(seq![x], id) == if x == id {
            1nat
        } else {
            0nat
        },
{
    assert(seq![x].drop_last() =~= Seq::<Seq<char>>::empty());
    assert(seq![x].last() == x);
    assert(occurrences(seq![x].drop_last(), id) == 0);
}

pub proof fn lemma_occurrences_drop_first(ids: Seq<Seq<char>>, id: Seq<char>)
    requires
        ids.len() > 0,
    ensures
        occurrences(ids, id) == occurrences(ids.drop_first(), id) + if ids.first() == id {
            1nat
        } else {
            0nat
        },
{
    assert(ids =~= seq![ids.first()] + ids.drop_first());
    lemma_occurrences_concat(seq![ids.first()], ids.drop_first(), id);
    lemma_occurrences_one(ids.first(), id);
}

/// An id occurs in a list just where the list contains it.
pub proof fn lemma_occurrences_contains(ids: Seq<Seq<char>>, id: Seq<char>)
    ensures
        occurrences(ids, id) > 0 <==> ids.contains(id),
    decreases ids.len(),
{
    if ids.len() > 0 {
        lemma_occurrences_contains(ids.drop_last(), id);
        if ids.last() == id {
            assert(ids[ids.len() - 1] == id);
        } else {
            if ids.drop_last().contains(id) {
                let i = choose|i: int| 0 <= i < ids.drop_last().len() && ids.drop_last()[i] == id;
                assert(ids[i] == id);
            }
            if ids.contains(id) {
                let i = choose|i: int| 0 <= i < ids.len() && ids[i] == id;
                assert(ids.drop_last()[i] == id);
            }
        }
    }
}

/// Taking the first occurrence of an id out lowers the occurrences of that id by one, where
/// there is one, and leaves those of every other id.
pub proof fn lemma_without_first(ids: Seq<Seq<char>>, id: Seq<char>, other: Seq<char>)
    ensures
        ids.contains(id) ==> occurrences(without_first(ids, id), id) + 1 == occurrences(ids, id),
        !ids.contains(id) ==> without_first(ids, id) == ids,
        other != id ==> occurrences(without_first(ids, id), other) == occurrences(ids, other),
        ids.contains(id) ==> without_first(ids, id).len() + 1 == ids.len(),
    decreases ids.len(),
{
    if ids.len() > 0 {
        let rest = ids.drop_first();
        lemma_occurrences_drop_first(ids, id);
        lemma_occurrences_drop_first(ids, other);
        if ids.first() == id {
            assert(ids[0] == id);
        } else {
            lemma_without_first(rest, id, other);
            let out = without_first(ids, id);
            lemma_occurrences_concat(seq![ids.first()], without_first(rest, id), id);
            lemma_occurrences_concat(seq![ids.first()], without_first(rest, id), other);
            lemma_occurrences_one(ids.first(), id);
            lemma_occurrences_one(ids.first(), other);
            if ids.contains(id) {
                let i = choose|i: int| 0 <= i < ids.len() && ids[i] == id;
                assert(rest[i - 1] == id);
            }
            if rest.contains(id) {
                let i = choose|i: int| 0 <= i < rest.len() && rest[i] == id;
                assert(ids[i + 1] == id);
            } else {
                assert(out =~= ids);
            }
        }
    }
}

/// Whether `id` is among `ids`.
pub fn contains_id(ids: &Vec<String>, id: &str) -> (found: bool)
    ensures
        found == id_views(ids@).contains(id@),
{
    let wanted = String::from_str(id);
    let mut i: usize = 0;
    while i < ids.len()
        invariant
            0 <= i <= ids.len(),
            wanted@ == id@,
            forall|j: int| 0 <= j < i ==> id_views(ids@)[j] != id@,
        decreases ids.len() - i,
    {
        if ids[i] == wanted {
            assert(id_views(ids@)[i as int] == id@);
            return true;
        }
        i += 1;
    }
    false
}

/// Takes the first occurrence of `id` out of `ids`.
pub fn remove_first(ids: &mut Vec<String>, id: &str)
    ensures
        id_views(final(ids)@) == without_first(id_views(old(ids)@), id@),
{
    let wanted = String::from_str(id);
    let ghost before = id_views(ids@);
    let mut i: usize = 0;
    while i < ids.len()
        invariant
            0 <= i <= ids.len(),
            wanted@ == id@,
            id_views(ids@) == before,
            before == id_views(old(ids)@),
            forall|j: int| 0 <= j < i ==> before[j] != id@,
        decreases ids.len() - i,
    {
        if ids[i] == wanted {
            assert(before[i as int] == id@);
            ids.remove(i);
            proof {
                assert(id_views(ids@) =~= before.remove(i as int));
                lemma_without_first_at(before, id@, i as int);
            }
            return ;
        }
        i += 1;
    }
    proof {
        assert(!before.contains(id@));
        lemma_without_first(before, id@, id@);
    }
}

/// Where `i` is the first place that holds `id`, taking the first occurrence out takes out
/// what stands at `i`.
pub proof fn lemma_without_first_at(ids: Seq<Seq<char>>, id: Seq<char>, i: int)
    requires
        0 <= i < ids.len(),
        ids[i] == id,
        forall|j: int| 0 <= j < i ==> ids[j] != id,
    ensures
        without_first(ids, id) == ids.remove(i),
    decreases ids.len(),
{
    if i == 0 {
        assert(ids.remove(0) =~= ids.drop_first());
    } else {
        assert(ids[0] != id);
        lemma_without_first_at(ids.drop_first(), id, i - 1);
        assert(ids.remove(i) =~= seq![ids.first()] + ids.drop_first().remove(i - 1));
    }
}

} // verus!
