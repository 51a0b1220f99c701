use gosibang::models::{MedicationLog, MedicationSchedule, MedicationStatus, PatientName};
use gosibang::notification::{
    has_recent_notification, in_quiet_window, DedupKey, is_do_not_disturb, Alert, LedgerEntry,
    NotificationPriority, NotificationScheduler, NotificationSettings, NotificationType, Tick,
    TodayRecords,
};

const DAY_START: i64 = 1_700_000_000;

fn tick_at(hour: u32, minute: u32) -> Tick {
    let m = hour * 60 + minute;
    Tick { now: DAY_START + 60 * m as i64, today_start: DAY_START, minute_of_day: m }
}

fn settings(pre: i32) -> NotificationSettings {
    let mut s = NotificationSettings::default();
    s.pre_reminder_minutes = pre;
    s
}

fn schedule(id: &str, patient: &str, times: &[&str]) -> MedicationSchedule {
    MedicationSchedule {
        id: id.to_string(),
        patient_id: patient.to_string(),
        prescription_id: "rx-1".to_string(),
        start_date: "2026-10-01".to_string(),
        end_date: "2026-10-31".to_string(),
        times_per_day: times.len() as i32,
        medication_times: times.iter().map(|t| t.to_string()).collect(),
        notes: None,
    }
}

fn taken(schedule_id: &str, hour: u32, minute: u32, status: MedicationStatus) -> MedicationLog {
    MedicationLog {
        id: format!("log-{}-{}", hour, minute),
        schedule_id: schedule_id.to_string(),
        taken_at: DAY_START + 60 * (hour * 60 + minute) as i64,
        status,
        notes: None,
    }
}

fn records(schedules: Vec<MedicationSchedule>, logs: Vec<MedicationLog>) -> TodayRecords {
    TodayRecords {
        schedules,
        logs,
        patients: vec![PatientName { patient_id: "p1".to_string(), name: "Kim".to_string() }],
    }
}

fn quiet(start: &str, end: &str) -> NotificationSettings {
    let mut s = NotificationSettings::default();
    s.do_not_disturb_start = Some(start.to_string());
    s.do_not_disturb_end = Some(end.to_string());
    s
}

#[test]
fn quiet_hours_overnight_window() {
    let s = quiet("22:00", "06:00");
    for (h, m) in [(23, 0), (0, 0), (5, 59)] {
        assert!(is_do_not_disturb(&s, h * 60 + m), "{}:{} should be quiet", h, m);
    }
    for (h, m) in [(6, 1), (12, 0), (21, 59)] {
        assert!(!is_do_not_disturb(&s, h * 60 + m), "{}:{} should not be quiet", h, m);
    }
}

#[test]
fn quiet_hours_same_day_window_includes_bounds() {
    let s = quiet("09:00", "17:00");
    assert!(is_do_not_disturb(&s, 9 * 60));
    assert!(is_do_not_disturb(&s, 17 * 60));
    assert!(!is_do_not_disturb(&s, 17 * 60 + 1));
    assert!(!is_do_not_disturb(&s, 8 * 60 + 59));
}

#[test]
fn quiet_hours_need_both_bounds() {
    let mut s = NotificationSettings::default();
    s.do_not_disturb_start = Some("00:00".to_string());
    assert!(!is_do_not_disturb(&s, 0));
    assert!(!is_do_not_disturb(&NotificationSettings::default(), 720));
}

#[test]
fn quiet_window_arithmetic() {
    assert!(in_quiet_window(1320, 360, 0));
    assert!(in_quiet_window(1320, 360, 1320));
    assert!(!in_quiet_window(1320, 360, 361));
    assert!(in_quiet_window(600, 600, 600));
    assert!(!in_quiet_window(600, 600, 601));
}

#[test]
fn reminder_fires_only_at_lead_minute() {
    let scheduler = NotificationScheduler::new();
    let rec = records(vec![schedule("s1", "p1", &["08:30"])], vec![]);
    let s = settings(5);
    for m in 0..1440u32 {
        let mut ledger = Vec::new();
        let tick = Tick { now: DAY_START + 60 * m as i64, today_start: DAY_START, minute_of_day: m };
        let alerts = scheduler.check_medication_times(&s, &tick, &rec, &mut ledger);
        if m == 8 * 60 + 25 {
            assert_eq!(alerts.len(), 1);
            assert_eq!(ledger.len(), 1);
        } else {
            assert!(alerts.is_empty(), "fired at minute {}", m);
            assert!(ledger.is_empty());
        }
    }
}

#[test]
fn reminder_text_and_record() {
    let scheduler = NotificationScheduler::new();
    let rec = records(vec![schedule("s1", "p1", &["08:30"])], vec![]);
    let mut ledger = Vec::new();
    let alerts = scheduler.check_medication_times(&settings(5), &tick_at(8, 25), &rec, &mut ledger);
    let a: &Alert = &alerts[0];
    assert_eq!(a.kind, NotificationType::MedicationReminder);
    assert_eq!(a.title, "복약 알림 - Kim");
    assert_eq!(a.body, "08:30에 복약 예정입니다.\n처방: rx-1");
    assert_eq!(a.priority, NotificationPriority::Normal);
    assert_eq!(a.schedule_id, Some("s1".to_string()));
    assert_eq!(a.patient_id, Some("p1".to_string()));
    assert_eq!(ledger[0].kind, NotificationType::MedicationReminder);
    assert!(matches!(&ledger[0].key, DedupKey::Schedule(id) if id == "s1"));
    assert_eq!(ledger[0].created_at, tick_at(8, 25).now);
}

#[test]
fn unknown_patient_gets_generic_name() {
    let scheduler = NotificationScheduler::new();
    let rec = records(vec![schedule("s1", "p9", &["08:30"])], vec![]);
    let mut ledger = Vec::new();
    let alerts = scheduler.check_medication_times(&settings(5), &tick_at(8, 25), &rec, &mut ledger);
    assert_eq!(alerts[0].title, "복약 알림 - 환자");
}

#[test]
fn reminder_lead_crossing_midnight() {
    let scheduler = NotificationScheduler::new();
    let rec = records(vec![schedule("s1", "p1", &["00:02"])], vec![]);
    let mut ledger = Vec::new();
    let alerts = scheduler.check_medication_times(&settings(5), &tick_at(23, 57), &rec, &mut ledger);
    assert_eq!(alerts.len(), 1);
}

#[test]
fn disabled_or_quiet_raises_nothing() {
    let scheduler = NotificationScheduler::new();
    let rec = records(vec![schedule("s1", "p1", &["08:30"])], vec![]);
    let mut off = settings(5);
    off.enabled = false;
    let mut ledger = Vec::new();
    assert!(scheduler.check_medication_times(&off, &tick_at(8, 25), &rec, &mut ledger).is_empty());
    let mut q = quiet("08:00", "09:00");
    q.pre_reminder_minutes = 5;
    assert!(scheduler.check_medication_times(&q, &tick_at(8, 25), &rec, &mut ledger).is_empty());
    assert!(ledger.is_empty());
}

#[test]
fn missed_dose_fires_without_taken_log() {
    let scheduler = NotificationScheduler::new();
    let mut s = NotificationSettings::default();
    s.missed_reminder_delay_minutes = 30;
    let at = tick_at(9, 0);
    let cases: Vec<(Vec<MedicationLog>, usize)> = vec![
        (vec![], 1),
        (vec![taken("s1", 8, 0, MedicationStatus::Taken)], 0),
        (vec![taken("s1", 9, 0, MedicationStatus::Taken)], 0),
        (vec![taken("s1", 7, 59, MedicationStatus::Taken)], 1),
        (vec![taken("s1", 9, 1, MedicationStatus::Taken)], 1),
        (vec![taken("s1", 8, 30, MedicationStatus::Skipped)], 1),
        (vec![taken("s2", 8, 30, MedicationStatus::Taken)], 1),
    ];
    for (logs, expected) in cases {
        let rec = records(vec![schedule("s1", "p1", &["08:30"])], logs);
        let mut ledger = Vec::new();
        let alerts = scheduler.check_missed_medications(&s, &at, &rec, &mut ledger);
        assert_eq!(alerts.len(), expected);
    }
    let rec = records(vec![schedule("s1", "p1", &["08:30"])], vec![]);
    let mut ledger = Vec::new();
    assert!(scheduler.check_missed_medications(&s, &tick_at(8, 59), &rec, &mut ledger).is_empty());
    let alerts = scheduler.check_missed_medications(&s, &at, &rec, &mut ledger);
    assert_eq!(alerts[0].kind, NotificationType::MissedMedication);
    assert_eq!(alerts[0].priority, NotificationPriority::High);
    assert_eq!(alerts[0].title, "복약 누락 알림 - Kim");
    assert_eq!(alerts[0].body, "08:30에 예정된 복약이 기록되지 않았습니다.");
}

#[test]
fn missed_alerts_can_be_switched_off() {
    let scheduler = NotificationScheduler::new();
    let mut s = NotificationSettings::default();
    s.missed_reminder_enabled = false;
    let rec = records(vec![schedule("s1", "p1", &["08:30"])], vec![]);
    let mut ledger = Vec::new();
    assert!(scheduler.check_missed_medications(&s, &tick_at(9, 0), &rec, &mut ledger).is_empty());
}

#[test]
fn reminder_dedup_same_window() {
    let scheduler = NotificationScheduler::new();
    let rec = records(vec![schedule("s1", "p1", &["08:30"])], vec![]);
    let s = settings(5);
    let mut ledger = Vec::new();
    let first = scheduler.check_medication_times(&s, &tick_at(8, 25), &rec, &mut ledger);
    let mut again = tick_at(8, 25);
    again.now += 30;
    let second = scheduler.check_medication_times(&s, &again, &rec, &mut ledger);
    assert_eq!(first.len() + second.len(), 1);
    assert_eq!(ledger.len(), 1);
}

#[test]
fn duplicate_dose_times_fire_once() {
    let scheduler = NotificationScheduler::new();
    let rec = records(vec![schedule("s1", "p1", &["08:30", "08:30"])], vec![]);
    let mut ledger = Vec::new();
    let alerts = scheduler.check_medication_times(&settings(5), &tick_at(8, 25), &rec, &mut ledger);
    assert_eq!(alerts.len(), 1);
}

#[test]
fn reminder_after_window_fires_again() {
    let scheduler = NotificationScheduler::new();
    let rec = records(vec![schedule("s1", "p1", &["08:30"])], vec![]);
    let mut ledger = vec![LedgerEntry {
        kind: NotificationType::MedicationReminder,
        key: DedupKey::Schedule("s1".to_string()),
        created_at: tick_at(8, 25).now - 300,
    }];
    let alerts = scheduler.check_medication_times(&settings(5), &tick_at(8, 25), &rec, &mut ledger);
    assert_eq!(alerts.len(), 1);
}

#[test]
fn recent_query_window_is_strict() {
    let now = 10_000;
    let ledger = vec![LedgerEntry {
        kind: NotificationType::MissedMedication,
        key: DedupKey::Schedule("s1".to_string()),
        created_at: now - 30 * 60,
    }];
    let key = DedupKey::Schedule("s1".to_string());
    assert!(!has_recent_notification(&ledger, &key, NotificationType::MissedMedication, 30, now));
    assert!(has_recent_notification(&ledger, &key, NotificationType::MissedMedication, 30, now - 1));
    assert!(!has_recent_notification(&ledger, &key, NotificationType::MedicationReminder, 30, now - 1));
    assert!(!has_recent_notification(&ledger, &DedupKey::Global, NotificationType::MissedMedication, 30, now - 1));
    assert!(!has_recent_notification(
        &ledger,
        &DedupKey::Schedule("s2".to_string()),
        NotificationType::MissedMedication,
        30,
        now - 1
    ));
}

fn summary_settings() -> NotificationSettings {
    let mut s = NotificationSettings::default();
    s.daily_summary_enabled = true;
    s.daily_summary_time = "21:00".to_string();
    s
}

#[test]
fn daily_summary_counts_slots() {
    let scheduler = NotificationScheduler::new();
    let rec = records(
        vec![schedule("s1", "p1", &["08:00", "20:00"]), schedule("s2", "p1", &["12:00"])],
        vec![taken("s1", 8, 10, MedicationStatus::Taken), taken("s2", 14, 0, MedicationStatus::Taken)],
    );
    let mut ledger = Vec::new();
    let alert = scheduler.send_daily_summary(&summary_settings(), &tick_at(21, 0), &rec, &mut ledger).unwrap();
    assert_eq!(alert.kind, NotificationType::DailySummary);
    assert_eq!(alert.title, "일일 복약 요약");
    assert_eq!(alert.body, "오늘 예정된 복약: 3회\n완료: 1회\n미완료: 2회");
    assert_eq!(alert.priority, NotificationPriority::Low);
    assert_eq!(alert.schedule_id, None);
    assert_eq!(ledger.len(), 1);
    assert!(matches!(ledger[0].key, DedupKey::Global));
}

#[test]
fn daily_summary_only_at_its_time() {
    let scheduler = NotificationScheduler::new();
    let rec = records(vec![schedule("s1", "p1", &["08:00"])], vec![]);
    let mut ledger = Vec::new();
    assert!(scheduler.send_daily_summary(&summary_settings(), &tick_at(20, 0), &rec, &mut ledger).is_none());
    let mut off = summary_settings();
    off.daily_summary_enabled = false;
    assert!(scheduler.send_daily_summary(&off, &tick_at(21, 0), &rec, &mut ledger).is_none());
    assert!(ledger.is_empty());
}

#[test]
fn daily_summary_ignores_quiet_hours() {
    let scheduler = NotificationScheduler::new();
    let mut s = summary_settings();
    s.do_not_disturb_start = Some("20:00".to_string());
    s.do_not_disturb_end = Some("23:00".to_string());
    let rec = records(vec![], vec![]);
    let mut ledger = Vec::new();
    let alert = scheduler.send_daily_summary(&s, &tick_at(21, 0), &rec, &mut ledger).unwrap();
    assert_eq!(alert.body, "오늘 예정된 복약: 0회\n완료: 0회\n미완료: 0회");
}

#[test]
fn summary_hourly_cap() {
    let scheduler = NotificationScheduler::new();
    let rec = records(vec![schedule("s1", "p1", &["08:00"])], vec![]);
    let s = summary_settings();
    let mut ledger = Vec::new();
    let first = scheduler.send_daily_summary(&s, &tick_at(21, 0), &rec, &mut ledger);
    let mut later = tick_at(21, 0);
    later.now += 59 * 60;
    let second = scheduler.send_daily_summary(&s, &later, &rec, &mut ledger);
    assert!(first.is_some());
    assert!(second.is_none());
    later.now += 60;
    assert!(scheduler.send_daily_summary(&s, &later, &rec, &mut ledger).is_some());
}

#[test]
fn end_to_end_tick_scenario() {
    let mut scheduler = NotificationScheduler::new();
    assert!(!scheduler.is_running());
    scheduler.start();
    assert!(scheduler.is_running());
    let s = settings(5);
    let rec = records(vec![schedule("s1", "p1", &["08:00"])], vec![]);
    let mut ledger = Vec::new();
    let alerts = scheduler.run_checks(&s, &tick_at(7, 55), &rec, &mut ledger);
    assert_eq!(alerts.len(), 1);
    assert_eq!(alerts[0].kind, NotificationType::MedicationReminder);
    assert_eq!(ledger.len(), 1);
    let alerts = scheduler.run_checks(&s, &tick_at(7, 56), &rec, &mut ledger);
    assert!(alerts.is_empty());
    assert_eq!(ledger.len(), 1);
    scheduler.stop();
    assert!(!scheduler.is_running());
}

#[test]
fn tick_runs_summary_on_the_hour_only() {
    let scheduler = NotificationScheduler::new();
    let mut s = summary_settings();
    s.daily_summary_time = "21:30".to_string();
    let rec = records(vec![], vec![]);
    let mut ledger = Vec::new();
    assert!(scheduler.run_checks(&s, &tick_at(21, 30), &rec, &mut ledger).is_empty());
    s.daily_summary_time = "21:00".to_string();
    let alerts = scheduler.run_checks(&s, &tick_at(21, 0), &rec, &mut ledger);
    assert_eq!(alerts.len(), 1);
    assert_eq!(alerts[0].kind, NotificationType::DailySummary);
}

#[test]
fn store_names() {
    assert_eq!(NotificationType::MedicationReminder.as_str(), "medication_reminder");
    assert_eq!(NotificationType::MissedMedication.as_str(), "missed_medication");
    assert_eq!(NotificationType::DailySummary.as_str(), "daily_summary");
    assert_eq!(NotificationPriority::Critical.as_str(), "critical");
    assert_eq!(MedicationStatus::Skipped.as_str(), "skipped");
}
