use stress_harness::chance::{random_ids, random_weights, roll_draw, weighted_batch, WEIGHT_SCALE};
use stress_harness::ids::IdSet;
use stress_harness::schedule::{
    build_write, deal_round_robin, shutdown_jobs, wants_write, Dispatcher, IntervalCounts, Job, Manager, DRAW_SCALE,
};
use stress_harness::workout::{workout_ids, WorkoutRecord};

fn template(n: usize) -> Vec<WorkoutRecord> {
    (0..n)
        .map(|i| WorkoutRecord {
            user_id: 0,
            workout_id: 0,
            start_time: 1000 * i as i64,
            end_time: 1000 * i as i64 + 600,
        })
        .collect()
}

fn ids(n: usize) -> Vec<u128> {
    (0..n).map(|i| 500 + i as u128).collect()
}

#[test]
fn write_choice_thresholds() {
    assert!(!wants_write(false, 0, 10, 800));
    assert!(wants_write(false, 0, 10, 801));
    assert!(wants_write(false, 9, 10, 999));
    assert!(!wants_write(false, 10, 10, 999));
    assert!(!wants_write(true, 0, 10, 999));
}

#[test]
fn first_write_carries_first_fifteen() {
    let t = template(20);
    let w = ids(20);
    let (ws, n_new) = build_write(&t, &w, 42, 0, &IdSet::new());
    assert_eq!(ws.len(), 15);
    assert_eq!(n_new, 15);
    for (k, rec) in ws.iter().enumerate() {
        assert_eq!(rec.user_id, 42);
        assert_eq!(rec.workout_id, w[k]);
        assert_eq!(rec.start_time, t[k].start_time);
        assert_eq!(rec.end_time, t[k].end_time);
    }
}

#[test]
fn later_write_overlaps_ten_and_adds_five() {
    let t = template(30);
    let w = ids(30);
    let inserted = IdSet::from_ids(&w[..15].to_vec());
    let (ws, n_new) = build_write(&t, &w, 7, 15, &inserted);
    assert_eq!(ws.len(), 15);
    assert_eq!(n_new, 5);
    assert_eq!(workout_ids(&ws), w[5..20].to_vec());
}

#[test]
fn write_near_end_is_cut_at_template() {
    let t = template(17);
    let w = ids(17);
    let inserted = IdSet::from_ids(&w[..15].to_vec());
    let (ws, n_new) = build_write(&t, &w, 7, 15, &inserted);
    assert_eq!(ws.len(), 12);
    assert_eq!(n_new, 2);
    assert_eq!(workout_ids(&ws), w[5..17].to_vec());
}

#[test]
fn write_counts_unconfirmed_ids_as_new() {
    let t = template(30);
    let w = ids(30);
    let inserted = IdSet::from_ids(&w[..3].to_vec());
    let (ws, n_new) = build_write(&t, &w, 7, 15, &inserted);
    assert_eq!(ws.len(), 15);
    assert_eq!(n_new, 15);
}

fn manager(n_users: usize, template_len: usize, read_only: bool) -> Manager {
    let user_ids: Vec<u128> = (0..n_users).map(|i| 9000 + i as u128).collect();
    let weights = vec![1u32; n_users];
    Manager::new(&user_ids, vec![template(template_len)], weights, read_only).unwrap()
}

#[test]
fn manager_new_rejects_mismatches() {
    assert!(Manager::new(&vec![1, 2], vec![template(3)], vec![1], false).is_none());
    assert!(Manager::new(&vec![1], vec![], vec![1], false).is_none());
    let m = Manager::new(&vec![1, 2, 3], vec![template(3), template(4)], vec![1, 1, 1], false).unwrap();
    assert_eq!(m.users.len(), 3);
    assert_eq!(m.users[0].template, 0);
    assert_eq!(m.users[1].template, 1);
    assert_eq!(m.users[2].template, 0);
    assert_eq!(m.users[1].workout_ids.len(), 4);
    assert_eq!(m.users[2].user_id, 3);
    assert!(m.users.iter().all(|u| u.pos == 0));
    assert!(Manager::new(&vec![], vec![], vec![], true).is_some());
}

#[test]
fn read_only_run_plans_only_reads() {
    let mut m = manager(5, 20, true);
    let sets: Vec<IdSet> = (0..5).map(|_| IdSet::new()).collect();
    for _ in 0..20 {
        for u in m.sample_batch(3) {
            let job = m.plan_job(u, DRAW_SCALE - 1, &sets[u]);
            assert!(matches!(job, Job::Read { user } if user == u));
        }
    }
    assert!(m.users.iter().all(|u| u.pos == 0));
    assert_eq!(m.pending_inserts, 0);
    assert!(m.verification_targets().is_empty());
    let counts = m.take_interval();
    assert_eq!(counts, IntervalCounts { jobs: 60, reads: 60, writes: 0 });
    assert_eq!(m.interval, IntervalCounts { jobs: 0, reads: 0, writes: 0 });
    let exits = shutdown_jobs(4);
    assert_eq!(exits.len(), 4);
    assert!(exits.iter().all(|j| matches!(j, Job::Exit)));
}

#[test]
fn plan_job_write_advances_position() {
    let mut m = manager(2, 20, false);
    let set = IdSet::new();
    let job = m.plan_job(1, 900, &set);
    match job {
        Job::Write { user, workouts } => {
            assert_eq!(user, 1);
            assert_eq!(workouts.len(), 15);
            assert!(workouts.iter().all(|w| w.user_id == 9001));
            assert_eq!(workout_ids(&workouts), m.users[1].workout_ids[..15].to_vec());
        }
        _ => panic!("expected a write"),
    }
    assert_eq!(m.users[1].pos, 15);
    assert_eq!(m.users[0].pos, 0);
    assert_eq!(m.pending_inserts, 15);
    let job = m.plan_job(1, 100, &set);
    assert!(matches!(job, Job::Read { user: 1 }));
    assert_eq!(m.users[1].pos, 15);
    assert_eq!(m.interval, IntervalCounts { jobs: 2, reads: 1, writes: 1 });
    assert_eq!(m.verification_targets(), vec![1]);
}

#[test]
fn single_user_single_worker_run_keeps_position_in_template() {
    let len = 23;
    let mut m = manager(1, len, false);
    let mut confirmed = IdSet::new();
    let mut dispatcher = Dispatcher::new(1).unwrap();
    let mut last = 0;
    let mut writes = 0;
    for _ in 0..10 {
        let batch = m.sample_batch(1);
        assert_eq!(batch, vec![0]);
        let job = m.plan_job(0, 999, &confirmed);
        assert_eq!(dispatcher.target(), 0);
        dispatcher.advance();
        if let Job::Write { workouts, .. } = job {
            confirmed.record_ids(&workout_ids(&workouts));
            let pos = m.users[0].pos;
            if writes == 0 {
                assert_eq!(pos, 15);
            } else {
                assert!(pos - last <= 5);
            }
            writes += 1;
            last = pos;
        }
        assert!(m.users[0].pos >= last);
        assert!(m.users[0].pos <= len);
    }
    assert_eq!(m.users[0].pos, len);
    assert_eq!(writes, 3);
    assert_eq!(confirmed.len(), len);
    assert!(confirmed.matches(&m.users[0].workout_ids));
}

#[test]
fn sampled_batch_has_no_repeats() {
    let weights = random_weights(50);
    assert!(weights.iter().all(|&w| w < WEIGHT_SCALE));
    for _ in 0..20 {
        let mut b = weighted_batch(&weights, 20);
        assert_eq!(b.len(), 20);
        assert!(b.iter().all(|&i| i < 50));
        b.sort();
        b.dedup();
        assert_eq!(b.len(), 20);
    }
    let all = weighted_batch(&weights, 100);
    assert_eq!(all.len(), 50);
    assert!(weighted_batch(&vec![], 3).is_empty());
}

#[test]
fn draws_stay_in_range() {
    for _ in 0..1000 {
        assert!(roll_draw() < DRAW_SCALE);
    }
    let fresh = random_ids(100);
    let mut sorted = fresh.clone();
    sorted.sort();
    sorted.dedup();
    assert_eq!(sorted.len(), 100);
}

#[test]
fn final_check_lists_users_that_wrote() {
    let mut m = manager(4, 20, false);
    let set = IdSet::new();
    m.plan_job(2, 999, &set);
    m.plan_job(0, 999, &set);
    let targets = m.verification_targets();
    assert_eq!(targets, vec![0, 2]);
    let failed = m.failed_users(&targets, &vec![true, false]);
    assert_eq!(failed, vec![9002]);
    assert!(m.failed_users(&targets, &vec![true, true]).is_empty());
}

#[test]
fn dispatcher_rotates_over_workers() {
    assert!(Dispatcher::new(0).is_none());
    let mut d = Dispatcher::new(3).unwrap();
    let mut seen = Vec::new();
    for _ in 0..7 {
        seen.push(d.target());
        d.advance();
    }
    assert_eq!(seen, vec![0, 1, 2, 0, 1, 2, 0]);
}

#[test]
fn deal_round_robin_by_index() {
    let t = template(7);
    let piles = deal_round_robin(&t, 3);
    assert_eq!(piles.len(), 3);
    assert_eq!(piles[0], vec![t[0], t[3], t[6]]);
    assert_eq!(piles[1], vec![t[1], t[4]]);
    assert_eq!(piles[2], vec![t[2], t[5]]);
}

#[test]
fn job_lock_rules() {
    let w = Job::Write { user: 0, workouts: vec![] };
    let r = Job::Read { user: 0 };
    assert!(w.locks_user(false));
    assert!(r.locks_user(false));
    assert!(!r.locks_user(true));
    assert!(!Job::Exit.locks_user(false));
}
