//! Finding an identifier in a list of identifiers.

use vstd::prelude::*;

verus! {

/// The position of the first identifier in `ids` that is `id`, or the
/// length of `ids` where there is none.
pub open spec fn first_index(ids: Seq<Seq<char>>, id: Seq<char>) -> nat
    decreases ids.len(),
{
    if ids.len() == 0 {
        0
    } else if ids[0] == id {
        0
    } else {
        1 + first_index(ids.drop_first(), id)
    }
}

/// The first position of `id` is the one that holds `id` and has no `id`
/// before it.
pub proof fn lemma_first_index(ids: Seq<Seq<char>>, id: Seq<char>, i: int)
    requires
        0 <= i <= ids.len(),
        i < ids.len() ==> ids[i] == id,
        forall|j: int| 0 <= j < i ==> #[trigger] ids[j] != id,
    ensures
        first_index(ids, id) == i,
    decreases ids.len(),
{
    if ids.len() > 0 && i > 0 {
        let rest = ids.drop_first();
        assert(ids[0] != id);
        assert forall|j: int| 0 <= j < i - 1 implies #[trigger] rest[j] != id by {
            assert(rest[j] == ids[j + 1]);
        }
        lemma_first_index(rest, id, i - 1);
    }
}

/// The first position of `id` is inside `ids` exactly when `ids` holds `id`,
/// and then it holds `id`.
pub proof fn lemma_first_index_found(ids: Seq<Seq<char>>, id: Seq<char>)
    ensures
        first_index(ids, id) <= ids.len(),
        first_index(ids, id) < ids.len() ==> ids[first_index(ids, id) as int] == id,
        first_index(ids, id) < ids.len() <==> ids.contains(id),
        forall|j: int| 0 <= j < first_index(ids, id) ==> #[trigger] ids[j] != id,
    decreases ids.len(),
{
    if ids.len() > 0 {
        if ids[0] == id {
            assert(ids.contains(id));
        } else {
            let rest = ids.drop_first();
            lemma_first_index_found(rest, id);
            let r = first_index(rest, id);
            if r < rest.len() {
                assert(ids[r as int + 1] == rest[r as int]);
                assert(ids.contains(id));
            }
            if ids.contains(id) {
                let j = choose|j: int| 0 <= j < ids.len() && ids[j] == id;
                assert(rest[j - 1] == id);
                assert(rest.contains(id));
            }
            assert forall|j: int| 0 <= j < first_index(ids, id) implies #[trigger] ids[j]
                != id by {
                if j > 0 {
                    assert(ids[j] == rest[j - 1]);
                }
            }
        }
    }
}

} // verus!
