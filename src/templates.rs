//! The template library: example workouts grouped by the email they were
//! recorded under, each group sorted by start time.

use vstd::prelude::*;
use crate::workout::WorkoutRecord;
use crate::chance::random_uuid;

verus! {

/// Example workouts start at this local hour ...
pub const START_HOUR: u32 = 6;

/// ... and this minute, in US Pacific time.
pub const START_MINUTE: u32 = 30;

/// One row of the example-workout table.
pub struct ExampleWorkoutsCsvRow {
    pub email: String,
    pub year: i32,
    pub month: u32,
    pub day: u32,
    pub duration_minutes: u32,
}

/// The unix time of `hour:minute` on the given day in US Pacific time, as
/// `chrono-tz` computes it; `None` when there is no such day or that local
/// time is missing or ambiguous.
pub uninterp spec fn pacific_local_seconds(year: i32, month: u32, day: u32, hour: u32, minute: u32) -> Option<i64>;

/// Relies on `chrono::NaiveDate::from_ymd_opt`, `chrono::TimeZone::from_local_date`
/// for `chrono_tz::US::Pacific`, `Date::and_hms_opt` and `DateTime::timestamp`:
/// the result depends on its arguments and the bundled time-zone data alone.
#[verifier::external_body]
#[allow(deprecated)]
fn pacific_time(year: i32, month: u32, day: u32, hour: u32, minute: u32) -> (r: Option<i64>)
    ensures
        r == pacific_local_seconds(year, month, day, hour, minute),
{
    let date = match chrono::NaiveDate::from_ymd_opt(year, month, day) {
        Some(d) => d,
        None => return None,
    };
    match chrono::TimeZone::from_local_date(&chrono_tz::US::Pacific, &date).single() {
        Some(d) => match d.and_hms_opt(hour, minute, 0) {
            Some(t) => Some(t.timestamp()),
            None => None,
        },
        None => None,
    }
}

/// Start times are ascending.
pub open spec fn sorted_by_start(ws: Seq<WorkoutRecord>) -> bool {
    forall|j: int, k: int| 0 <= j < k < ws.len() ==> ws[j].start_time <= ws[k].start_time
}

/// Relies on `slice::sort_unstable_by_key`: the same records, ordered by the
/// key, here the start time.
#[verifier::external_body]
fn sort_by_start(ws: &mut Vec<WorkoutRecord>)
    ensures
        final(ws)@.to_multiset() == old(ws)@.to_multiset(),
        sorted_by_start(final(ws)@),
{
    ws.sort_unstable_by_key(|w| w.start_time)
}

/// The record that starts at `start` (unix seconds) and lasts
/// `duration_minutes`, ids left zero; `None` when the duration is zero or
/// the end is past what `i64` holds.
pub open spec fn record_from(start: i64, duration_minutes: u32) -> Option<WorkoutRecord> {
    let end = start + duration_minutes * 60;
    if duration_minutes > 0 && end <= i64::MAX {
        Some(WorkoutRecord { user_id: 0, workout_id: 0, start_time: start, end_time: end as i64 })
    } else {
        None
    }
}

/// The template record of a row: the record (see `record_from`) that starts
/// at the row's date and `START_HOUR:START_MINUTE` Pacific; `None` also when
/// that time does not exist.
pub open spec fn row_record(row: ExampleWorkoutsCsvRow) -> Option<WorkoutRecord> {
    match pacific_local_seconds(row.year, row.month, row.day, START_HOUR, START_MINUTE) {
        Some(start) => record_from(start, row.duration_minutes),
        None => None,
    }
}

/// The record that starts at `start` and lasts `duration_minutes` (see
/// `record_from`).
pub fn record_at(start: i64, duration_minutes: u32) -> (r: Option<WorkoutRecord>)
    ensures
        r == record_from(start, duration_minutes),
{
    let minutes = duration_minutes as i64;
    if minutes > 0 && start <= i64::MAX - minutes * 60 {
        Some(WorkoutRecord { user_id: 0, workout_id: 0, start_time: start, end_time: start + minutes * 60 })
    } else {
        None
    }
}

/// The template record of a row (see `row_record`).
pub fn template_record(row: &ExampleWorkoutsCsvRow) -> (r: Option<WorkoutRecord>)
    ensures
        r == row_record(*row),
{
    match pacific_time(row.year, row.month, row.day, START_HOUR, START_MINUTE) {
        Some(start) => record_at(start, row.duration_minutes),
        None => None,
    }
}

/// A workout for `user_id` on the given day, starting at
/// `START_HOUR:START_MINUTE` Pacific and lasting `duration_minutes`, under a
/// fresh random workout id; `None` when that time does not exist, the
/// duration is zero, or the end is past what `i64` holds.
pub fn get_workout(user_id: u128, year: i32, month: u32, day: u32, duration_minutes: u32) -> (r: Option<WorkoutRecord>)
    ensures
        match pacific_local_seconds(year, month, day, START_HOUR, START_MINUTE) {
            Some(start) => match record_from(start, duration_minutes) {
                Some(w) => r matches Some(x) && x.user_id == user_id && x.start_time == w.start_time
                    && x.end_time == w.end_time,
                None => r is None,
            },
            None => r is None,
        },
{
    match pacific_time(year, month, day, START_HOUR, START_MINUTE) {
        Some(start) => match record_at(start, duration_minutes) {
            Some(w) => Some(WorkoutRecord { user_id, workout_id: random_uuid(), start_time: w.start_time, end_time: w.end_time }),
            None => None,
        },
        None => None,
    }
}

/// The emails of `rows`, each once, in order of first appearance.
pub open spec fn distinct_emails(rows: Seq<ExampleWorkoutsCsvRow>) -> Seq<Seq<char>>
    decreases rows.len(),
{
    if rows.len() == 0 {
        Seq::empty()
    } else {
        let prev = distinct_emails(rows.drop_last());
        if prev.contains(rows.last().email@) {
            prev
        } else {
            prev.push(rows.last().email@)
        }
    }
}

/// The records of the rows under `email`, in row order.
pub open spec fn records_for(rows: Seq<ExampleWorkoutsCsvRow>, email: Seq<char>) -> Seq<WorkoutRecord>
    decreases rows.len(),
{
    if rows.len() == 0 {
        Seq::empty()
    } else {
        let prev = records_for(rows.drop_last(), email);
        if rows.last().email@ == email {
            prev.push(row_record(rows.last()).unwrap())
        } else {
            prev
        }
    }
}

/// The views of `emails`.
pub open spec fn email_views(emails: Seq<String>) -> Seq<Seq<char>> {
    emails.map_values(|e: String| e@)
}

/// Builds the template library from the example rows: one template per
/// distinct email, in order of first appearance, holding the records of that
/// email's rows sorted by start time. `None` when some row has no record
/// (see `row_record`).
pub fn build_templates(rows: &Vec<ExampleWorkoutsCsvRow>) -> (r: Option<Vec<Vec<WorkoutRecord>>>)
    ensures
        r is None <==> exists|i: int| 0 <= i < rows@.len() && row_record(#[trigger] rows@[i]) is None,
        r matches Some(ts) ==> {
            &&& ts@.len() == distinct_emails(rows@).len()
            &&& forall|g: int| 0 <= g < ts@.len() ==> sorted_by_start(#[trigger] ts@[g]@)
                && ts@[g]@.to_multiset() == records_for(rows@, distinct_emails(rows@)[g]).to_multiset()
            &&& forall|g: int, k: int| 0 <= g < ts@.len() && 0 <= k < ts@[g]@.len() ==> (#[trigger] ts@[g]@[k]).wf()
        },
{
    let mut emails: Vec<String> = Vec::new();
    let mut groups: Vec<Vec<WorkoutRecord>> = Vec::new();
    let mut i: usize = 0;
    while i < rows.len()
        invariant
            i <= rows@.len(),
            emails@.len() == groups@.len(),
            email_views(emails@) == distinct_emails(rows@.subrange(0, i as int)),
            email_views(emails@).no_duplicates(),
            forall|g: int| 0 <= g < groups@.len() ==>
                #[trigger] groups@[g]@ == records_for(rows@.subrange(0, i as int), emails@[g]@),
            forall|k: int| 0 <= k < i ==> row_record(#[trigger] rows@[k]) is Some,
        decreases rows@.len() - i,
    {
        let ghost prefix = rows@.subrange(0, i as int);
        let ghost next = rows@.subrange(0, i + 1);
        assert(next.drop_last() =~= prefix);
        assert(next.last() == rows@[i as int]);
        let rec = match template_record(&rows[i]) {
            Some(rec) => rec,
            None => {
                return None;
            },
        };
        let mut found: Option<usize> = None;
        let mut j: usize = 0;
        while j < emails.len()
            invariant
                i < rows@.len(),
                j <= emails@.len(),
                found is None ==> forall|k: int| 0 <= k < j ==> (#[trigger] emails@[k])@ != rows@[i as int].email@,
                found matches Some(at) ==> at < emails@.len() && emails@[at as int]@ == rows@[i as int].email@,
            decreases emails@.len() - j,
        {
            if found.is_none() && emails[j] == rows[i].email {
                found = Some(j);
            }
            j = j + 1;
        }
        let ghost e = rows@[i as int].email@;
        match found {
            Some(at) => {
                assert(email_views(emails@)[at as int] == e);
                assert(distinct_emails(prefix).contains(e));
                let ghost old_groups = groups@;
                let mut grp = groups.remove(at);
                grp.push(rec);
                groups.insert(at, grp);
                proof {
                    assert forall|g: int| 0 <= g < groups@.len() implies
                        #[trigger] groups@[g]@ == records_for(next, emails@[g]@) by {
                        if g != at {
                            assert(groups@[g] == old_groups[g]);
                            assert(email_views(emails@)[g] != email_views(emails@)[at as int]);
                        }
                    }
                }
            },
            None => {
                assert(!email_views(emails@).contains(e)) by {
                    if email_views(emails@).contains(e) {
                        let k = choose|k: int| 0 <= k < email_views(emails@).len() && email_views(emails@)[k] == e;
                        assert(emails@[k]@ == e);
                    }
                }
                let ghost old_groups = groups@;
                let ghost old_emails = emails@;
                emails.push(rows[i].email.clone());
                let mut grp: Vec<WorkoutRecord> = Vec::new();
                grp.push(rec);
                groups.push(grp);
                proof {
                    assert(email_views(emails@) =~= email_views(old_emails).push(e));
                    assert(records_for(prefix, e) =~= Seq::<WorkoutRecord>::empty()) by {
                        lemma_records_for_absent(prefix, e);
                    }
                    assert forall|g: int| 0 <= g < groups@.len() implies
                        #[trigger] groups@[g]@ == records_for(next, emails@[g]@) by {
                        if g < old_groups.len() {
                            assert(groups@[g] == old_groups[g]);
                            assert(emails@[g] == old_emails[g]);
                            assert(email_views(old_emails)[g] != e);
                        } else {
                            assert(groups@[g]@ =~= seq![rec]);
                        }
                    }
                }
            },
        }
        i = i + 1;
    }
    assert(rows@.subrange(0, rows@.len() as int) =~= rows@);
    let mut g: usize = 0;
    while g < groups.len()
        invariant
            g <= groups@.len(),
            emails@.len() == groups@.len(),
            email_views(emails@) == distinct_emails(rows@),
            forall|k: int| 0 <= k < g ==> sorted_by_start(#[trigger] groups@[k]@)
                && groups@[k]@.to_multiset() == records_for(rows@, emails@[k]@).to_multiset(),
            forall|k: int| g <= k < groups@.len() ==> #[trigger] groups@[k]@ == records_for(rows@, emails@[k]@),
        decreases groups@.len() - g,
    {
        let ghost old_groups = groups@;
        let mut grp = groups.remove(g);
        sort_by_start(&mut grp);
        groups.insert(g, grp);
        proof {
            assert forall|k: int| 0 <= k < g + 1 implies sorted_by_start(#[trigger] groups@[k]@)
                && groups@[k]@.to_multiset() == records_for(rows@, emails@[k]@).to_multiset() by {
                if k < g {
                    assert(groups@[k] == old_groups[k]);
                }
            }
            assert forall|k: int| g + 1 <= k < groups@.len() implies #[trigger] groups@[k]@ == records_for(rows@, emails@[k]@) by {
                assert(groups@[k] == old_groups[k]);
            }
        }
        g = g + 1;
    }
    proof {
        assert forall|g: int, k: int| 0 <= g < groups@.len() && 0 <= k < groups@[g]@.len() implies (#[trigger] groups@[g]@[k]).wf() by {
            let x = groups@[g]@[k];
            let want = records_for(rows@, emails@[g]@);
            groups@[g]@.to_multiset_ensures();
            want.to_multiset_ensures();
            assert(groups@[g]@.contains(x));
            assert(groups@[g]@.to_multiset().count(x) > 0);
            assert(want.to_multiset().count(x) > 0);
            assert(want.contains(x));
            let j = choose|j: int| 0 <= j < want.len() && want[j] == x;
            lemma_records_for_wf(rows@, emails@[g]@);
            assert(want[j].wf());
        }
        assert forall|i: int| 0 <= i < rows@.len() implies !(row_record(#[trigger] rows@[i]) is None) by {}
        assert forall|k: int| 0 <= k < groups@.len() implies distinct_emails(rows@)[k] == emails@[k]@ by {
            assert(email_views(emails@)[k] == emails@[k]@);
        }
    }
    Some(groups)
}

/// When every row has a record, every record under any email ends after it
/// starts.
pub proof fn lemma_records_for_wf(rows: Seq<ExampleWorkoutsCsvRow>, email: Seq<char>)
    requires
        forall|k: int| 0 <= k < rows.len() ==> row_record(#[trigger] rows[k]) is Some,
    ensures
        forall|k: int| 0 <= k < records_for(rows, email).len() ==> (#[trigger] records_for(rows, email)[k]).wf(),
    decreases rows.len(),
{
    if rows.len() > 0 {
        let prev = rows.drop_last();
        assert forall|k: int| 0 <= k < prev.len() implies row_record(#[trigger] prev[k]) is Some by {
            assert(prev[k] == rows[k]);
        }
        lemma_records_for_wf(prev, email);
        let last = rows[rows.len() - 1];
        assert(row_record(last) is Some);
        assert(row_record(last).unwrap().wf());
        let before = records_for(prev, email);
        if last.email@ == email {
            assert forall|k: int| 0 <= k < records_for(rows, email).len() implies (#[trigger] records_for(rows, email)[k]).wf() by {
                if k < before.len() {
                    assert(records_for(rows, email)[k] == before[k]);
                }
            }
        }
    }
}

/// An email that no row carries has no records.
pub proof fn lemma_records_for_absent(rows: Seq<ExampleWorkoutsCsvRow>, email: Seq<char>)
    requires
        !distinct_emails(rows).contains(email),
    ensures
        records_for(rows, email) == Seq::<WorkoutRecord>::empty(),
    decreases rows.len(),
{
    if rows.len() > 0 {
        let prev = distinct_emails(rows.drop_last());
        let x = rows.last().email@;
        if prev.contains(x) {
            assert(distinct_emails(rows) == prev);
        } else {
            assert(distinct_emails(rows) == prev.push(x));
            assert(prev.push(x)[prev.len() as int] == x);
            assert forall|v: Seq<char>| prev.contains(v) implies distinct_emails(rows).contains(v) by {
                let k = choose|k: int| 0 <= k < prev.len() && prev[k] == v;
                assert(prev.push(x)[k] == v);
            }
        }
        assert(!prev.contains(email));
        assert(x != email);
        lemma_records_for_absent(rows.drop_last(), email);
    }
}

} // verus!
