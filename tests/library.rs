use stress_harness::credentials::{find_by_email, find_by_id, select_user, UserPrivateEncoded};
use stress_harness::templates::{build_templates, get_workout, record_at, template_record, ExampleWorkoutsCsvRow};

fn row(email: &str, year: i32, month: u32, day: u32, duration_minutes: u32) -> ExampleWorkoutsCsvRow {
    ExampleWorkoutsCsvRow { email: email.to_string(), year, month, day, duration_minutes }
}

#[test]
fn template_record_uses_pacific_morning() {
    let w = template_record(&row("a@x", 2020, 1, 15, 45)).unwrap();
    assert_eq!(w.start_time, 1579098600);
    assert_eq!(w.end_time, 1579098600 + 45 * 60);
    let w = template_record(&row("a@x", 2020, 7, 1, 30)).unwrap();
    assert_eq!(w.start_time, 1593610200);
    assert_eq!((w.user_id, w.workout_id), (0, 0));
}

#[test]
fn template_record_rejects_bad_rows() {
    assert!(template_record(&row("a@x", 2020, 2, 30, 10)).is_none());
    assert!(template_record(&row("a@x", 2020, 2, 3, 0)).is_none());
}

#[test]
fn templates_grouped_by_email_and_sorted() {
    let rows = vec![
        row("b@x", 2020, 3, 5, 10),
        row("a@x", 2020, 1, 2, 20),
        row("b@x", 2020, 1, 9, 30),
        row("b@x", 2020, 2, 1, 40),
        row("a@x", 2019, 12, 31, 50),
    ];
    let ts = build_templates(&rows).unwrap();
    assert_eq!(ts.len(), 2);
    let durations = |t: &Vec<stress_harness::workout::WorkoutRecord>| -> Vec<i64> {
        t.iter().map(|w| (w.end_time - w.start_time) / 60).collect()
    };
    assert_eq!(durations(&ts[0]), vec![30, 40, 10]);
    assert_eq!(durations(&ts[1]), vec![50, 20]);
    for t in &ts {
        assert!(t.windows(2).all(|p| p[0].start_time <= p[1].start_time));
    }
    assert!(build_templates(&vec![row("a@x", 2020, 13, 1, 5)]).is_none());
    assert!(build_templates(&vec![]).unwrap().is_empty());
}

#[test]
fn get_workout_addresses_user() {
    let w = get_workout(77, 2020, 1, 15, 60).unwrap();
    assert_eq!(w.user_id, 77);
    assert_eq!(w.start_time, 1579098600);
    assert_eq!(w.end_time, 1579098600 + 3600);
    assert!(get_workout(77, 2021, 2, 29, 60).is_none());
}

fn creds() -> Vec<UserPrivateEncoded> {
    vec![
        UserPrivateEncoded { user_id: 1, email: "one@x".to_string(), private_key: "AAEC".to_string(), public_key: String::new() },
        UserPrivateEncoded { user_id: 2, email: "two@x".to_string(), private_key: "!!!".to_string(), public_key: String::new() },
    ]
}

#[test]
fn private_key_decoding() {
    let rows = creds();
    let u = rows[0].decode().unwrap();
    assert_eq!(u.user_id, 1);
    assert_eq!(u.key, vec![0u8, 1, 2]);
    assert!(rows[1].decode().is_none());
}

#[test]
fn user_selection() {
    let rows = creds();
    assert_eq!(find_by_id(&rows, 2), Some(1));
    assert_eq!(find_by_id(&rows, 3), None);
    assert_eq!(find_by_email(&rows, &"one@x".to_string()), Some(0));
    assert_eq!(select_user(&rows, Some(2), None, 0), Some(1));
    assert_eq!(select_user(&rows, Some(9), None, 0), None);
    assert_eq!(select_user(&rows, None, Some("two@x".to_string()), 0), Some(1));
    assert_eq!(select_user(&rows, None, Some("none@x".to_string()), 0), None);
    assert_eq!(select_user(&rows, None, None, 1), Some(1));
    assert_eq!(select_user(&rows, None, None, 2), None);
}

#[test]
fn record_at_adds_duration() {
    let w = record_at(1000, 90).unwrap();
    assert_eq!((w.start_time, w.end_time, w.user_id, w.workout_id), (1000, 1000 + 5400, 0, 0));
    assert!(record_at(1000, 0).is_none());
    assert!(record_at(i64::MAX - 59, 1).is_none());
    assert_eq!(record_at(i64::MAX - 60, 1).unwrap().end_time, i64::MAX);
}
