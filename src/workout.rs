//! Workout records and the templates that write payloads are drawn from.

use vstd::prelude::*;

verus! {

/// One workout as the server stores it. Times are unix seconds, UTC.
#[derive(Clone, Copy, Debug, PartialEq, Eq, Structural)]
pub struct WorkoutRecord {
    pub user_id: u128,
    pub workout_id: u128,
    pub start_time: i64,
    pub end_time: i64,
}

impl WorkoutRecord {
    /// A record ends after it starts.
    pub open spec fn wf(&self) -> bool {
        self.start_time < self.end_time
    }
}

/// The record `w` addressed to `user_id` under the id `workout_id`.
pub open spec fn remap(w: WorkoutRecord, user_id: u128, workout_id: u128) -> WorkoutRecord {
    WorkoutRecord { user_id, workout_id, start_time: w.start_time, end_time: w.end_time }
}

/// The workout ids of `ws`, in order.
pub open spec fn workout_ids_of(ws: Seq<WorkoutRecord>) -> Seq<u128> {
    ws.map_values(|w: WorkoutRecord| w.workout_id)
}

/// The workout ids of `ws`, in order.
pub fn workout_ids(ws: &Vec<WorkoutRecord>) -> (r: Vec<u128>)
    ensures
        r@ == workout_ids_of(ws@),
{
    let mut r: Vec<u128> = Vec::new();
    let mut i: usize = 0;
    while i < ws.len()
        invariant
            i <= ws.len(),
            r@ == workout_ids_of(ws@.subrange(0, i as int)),
        decreases ws.len() - i,
    {
        r.push(ws[i].workout_id);
        proof {
            assert(workout_ids_of(ws@.subrange(0, i + 1)) =~= workout_ids_of(ws@.subrange(0, i as int)).push(ws@[i as int].workout_id));
        }
        i = i + 1;
    }
    assert(ws@.subrange(0, ws@.len() as int) =~= ws@);
    r
}

} // verus!
