//! Properties that tie the scheduler's pieces together.

use vstd::prelude::*;
use crate::ids::id_set_of;
use crate::schedule::{count_new, window_start, window_end, write_window, write_chosen, WINDOW_BACK, WINDOW_LEN};
use crate::workout::{WorkoutRecord, remap, workout_ids_of};

verus! {

/// When a write's ids are distinct, the number of new ids it brings is the
/// size of the set of its ids that the user's confirmed set lacks.
pub proof fn lemma_new_count_is_set_size(ids: Seq<u128>, inserted: Set<u128>)
    requires
        ids.no_duplicates(),
    ensures
        count_new(ids, inserted) == id_set_of(ids).difference(inserted).len(),
        id_set_of(ids).difference(inserted).finite(),
    decreases ids.len(),
{
    vstd::seq_lib::seq_to_set_is_finite(ids);
    if ids.len() == 0 {
        assert(id_set_of(ids).difference(inserted) =~= Set::<u128>::empty());
    } else {
        let prev = ids.drop_last();
        let x = ids.last();
        assert(prev.no_duplicates()) by {
            assert forall|j: int, k: int| 0 <= j < prev.len() && 0 <= k < prev.len() && j != k implies prev[j] != prev[k] by {
                assert(prev[j] == ids[j] && prev[k] == ids[k]);
            }
        }
        lemma_new_count_is_set_size(prev, inserted);
        assert(ids =~= prev.push(x));
        crate::ids::lemma_to_set_push(prev, x);
        assert(!prev.to_set().contains(x)) by {
            if prev.to_set().contains(x) {
                let k = choose|k: int| 0 <= k < prev.len() && prev[k] == x;
                assert(ids[k] == ids[ids.len() - 1]);
            }
        }
        let before = id_set_of(prev).difference(inserted);
        if inserted.contains(x) {
            assert(id_set_of(ids).difference(inserted) =~= before);
        } else {
            assert(id_set_of(ids).difference(inserted) =~= before.insert(x));
            assert(!before.contains(x));
        }
    }
}

/// Resending ids the user's confirmed set already holds leaves the set, and
/// so its size, as it was, and counts nothing as new.
pub proof fn lemma_resubmit_keeps_set(inserted: Set<u128>, ids: Seq<u128>)
    requires
        id_set_of(ids).subset_of(inserted),
    ensures
        inserted.union(id_set_of(ids)) == inserted,
        id_set_of(ids).difference(inserted).len() == 0,
        count_new(ids, inserted) == 0,
    decreases ids.len(),
{
    assert(inserted.union(id_set_of(ids)) =~= inserted);
    assert(id_set_of(ids).difference(inserted) =~= Set::<u128>::empty());
    if ids.len() > 0 {
        let prev = ids.drop_last();
        assert(ids =~= prev.push(ids.last()));
        crate::ids::lemma_to_set_push(prev, ids.last());
        assert(id_set_of(ids).contains(ids.last()));
        lemma_resubmit_keeps_set(inserted, prev);
    }
}

/// A write built at a position `p` inside the template starts at
/// `max(p - 10, 0)`: its leading records resend, under the same ids,
/// template entries `max(p - 10, 0)..p`.
pub proof fn lemma_write_resends_before_position(
    template: Seq<WorkoutRecord>,
    ids: Seq<u128>,
    user_id: u128,
    p: int,
)
    requires
        0 <= p < template.len(),
        ids.len() == template.len(),
    ensures
        window_start(p) == if p >= WINDOW_BACK { p - WINDOW_BACK } else { 0 },
        window_end(p, template.len() as int) > p,
        forall|k: int| 0 <= k < p - window_start(p) ==>
            #[trigger] write_window(template, ids, user_id, p)[k]
                == remap(template[window_start(p) + k], user_id, ids[window_start(p) + k]),
{
}

/// With writes off no sampled user ever gets a write, whatever the roll.
pub proof fn lemma_read_only_never_writes(pos: int, template_len: int, draw: int)
    ensures
        !write_chosen(true, pos, template_len, draw),
{
}

/// Counting the ids of `ids[s..e]` that the set of `ids[..p]` lacks gives
/// `e - p`, for distinct ids and `s <= p <= e`.
proof fn lemma_count_new_past_prefix(ids: Seq<u128>, s: int, p: int, e: int)
    requires
        ids.no_duplicates(),
        0 <= s <= p <= e <= ids.len(),
    ensures
        count_new(ids.subrange(s, e), id_set_of(ids.subrange(0, p))) == e - p,
    decreases e - p,
{
    let known = id_set_of(ids.subrange(0, p));
    if e == p {
        assert(id_set_of(ids.subrange(s, e)).subset_of(known)) by {
            assert forall|x: u128| id_set_of(ids.subrange(s, e)).contains(x) implies known.contains(x) by {
                let k = choose|k: int| 0 <= k < e - s && ids.subrange(s, e)[k] == x;
                assert(ids.subrange(0, p)[s + k] == x);
            }
        }
        lemma_resubmit_keeps_set(known, ids.subrange(s, e));
    } else {
        lemma_count_new_past_prefix(ids, s, p, e - 1);
        assert(ids.subrange(s, e).drop_last() =~= ids.subrange(s, e - 1));
        assert(ids.subrange(s, e).last() == ids[e - 1]);
        assert(!known.contains(ids[e - 1])) by {
            if known.contains(ids[e - 1]) {
                let k = choose|k: int| 0 <= k < p && ids.subrange(0, p)[k] == ids[e - 1];
                assert(ids[k] == ids[e - 1]);
            }
        }
    }
}

/// When the confirmed set holds exactly the ids of the entries before the
/// position `p`, and the ids are distinct, a write built at `p` moves the
/// position to the end of its window: never past the template, and at most
/// `WINDOW_LEN - WINDOW_BACK` entries once `p >= WINDOW_BACK`.
pub proof fn lemma_position_stays_within_template(
    template: Seq<WorkoutRecord>,
    ids: Seq<u128>,
    user_id: u128,
    p: int,
    inserted: Set<u128>,
)
    requires
        0 <= p < template.len(),
        ids.len() == template.len(),
        ids.no_duplicates(),
        inserted == id_set_of(ids.subrange(0, p)),
    ensures
        p + count_new(workout_ids_of(write_window(template, ids, user_id, p)), inserted)
            == window_end(p, template.len() as int),
        window_end(p, template.len() as int) <= template.len(),
        p >= WINDOW_BACK ==> window_end(p, template.len() as int) - p <= WINDOW_LEN - WINDOW_BACK,
{
    let s = window_start(p);
    let e = window_end(p, template.len() as int);
    assert(workout_ids_of(write_window(template, ids, user_id, p)) =~= ids.subrange(s, e));
    lemma_count_new_past_prefix(ids, s, p, e);
}

} // verus!
