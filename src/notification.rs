//! Decisions of the notification dispatcher.
//!
//! Each minute the scheduler runs three checks against what the store
//! reports for today: dose reminders, missed-dose alerts and the daily
//! summary. A check returns the alerts to show and records each of them in
//! the dedup ledger (the notification history), which later checks consult
//! so that the same alert is not raised twice within its window.
use crate::clock::{clock_value, hhmm_minutes, is_hhmm, parse_clock_time, shift_clock, wrap_minutes};
use crate::models::{MedicationLog, MedicationSchedule, MedicationStatus, PatientName};
use vstd::prelude::*;

verus! {

/// Kinds of notification the dispatcher raises.
#[derive(Clone, Copy, Debug, PartialEq, Eq, Structural)]
pub enum NotificationType {
    MedicationReminder,
    MissedMedication,
    DailySummary,
}

impl NotificationType {
    /// Name under which the store keeps the kind.
    pub fn as_str(&self) -> (r: &'static str)
        ensures
            r@ == notification_type_text(*self),
    {
        match self {
            NotificationType::MedicationReminder => "medication_reminder",
            NotificationType::MissedMedication => "missed_medication",
            NotificationType::DailySummary => "daily_summary",
        }
    }
}

pub open spec fn notification_type_text(t: NotificationType) -> Seq<char> {
    match t {
        NotificationType::MedicationReminder => "medication_reminder"@,
        NotificationType::MissedMedication => "missed_medication"@,
        NotificationType::DailySummary => "daily_summary"@,
    }
}

#[derive(Clone, Copy, Debug, PartialEq, Eq, Structural)]
pub enum NotificationPriority {
    Low,
    Normal,
    High,
    Critical,
}

impl NotificationPriority {
    /// Name under which the store keeps the priority.
    pub fn as_str(&self) -> (r: &'static str)
        ensures
            r@ == priority_text(*self),
    {
        match self {
            NotificationPriority::Low => "low",
            NotificationPriority::Normal => "normal",
            NotificationPriority::High => "high",
            NotificationPriority::Critical => "critical",
        }
    }
}

pub open spec fn priority_text(p: NotificationPriority) -> Seq<char> {
    match p {
        NotificationPriority::Low => "low"@,
        NotificationPriority::Normal => "normal"@,
        NotificationPriority::High => "high"@,
        NotificationPriority::Critical => "critical"@,
    }
}

#[derive(Clone, Copy, Debug, PartialEq, Eq, Structural)]
pub enum SoundPreset {
    Default,
    Gentle,
    Urgent,
}

/// The global notification configuration. Times of day are "HH:MM" texts.
pub struct NotificationSettings {
    pub enabled: bool,
    pub pre_reminder_minutes: i32,
    pub missed_reminder_enabled: bool,
    pub missed_reminder_delay_minutes: i32,
    pub daily_summary_enabled: bool,
    pub daily_summary_time: String,
    pub sound_enabled: bool,
    pub sound_preset: SoundPreset,
    pub do_not_disturb_start: Option<String>,
    pub do_not_disturb_end: Option<String>,
}

impl Default for NotificationSettings {
    /// The configuration used while none has been saved.
    fn default() -> (r: NotificationSettings)
        ensures
            r.enabled,
            r.pre_reminder_minutes == 10,
            r.missed_reminder_enabled,
            r.missed_reminder_delay_minutes == 30,
            !r.daily_summary_enabled,
            r.daily_summary_time@ == "21:00"@,
            r.sound_enabled,
            r.sound_preset == SoundPreset::Default,
            r.do_not_disturb_start.is_none(),
            r.do_not_disturb_end.is_none(),
    {
        NotificationSettings {
            enabled: true,
            pre_reminder_minutes: 10,
            missed_reminder_enabled: true,
            missed_reminder_delay_minutes: 30,
            daily_summary_enabled: false,
            daily_summary_time: String::from_str("21:00"),
            sound_enabled: true,
            sound_preset: SoundPreset::Default,
            do_not_disturb_start: None,
            do_not_disturb_end: None,
        }
    }
}

/// The moment of one scheduler tick: `now` and `today_start` (local
/// midnight) in seconds since the Unix epoch, and the local minute of the day.
pub struct Tick {
    pub now: i64,
    pub today_start: i64,
    pub minute_of_day: u32,
}

/// What the store reports for today: the schedules active today, the
/// medication logs that may match today's doses, and patient names.
pub struct TodayRecords {
    pub schedules: Vec<MedicationSchedule>,
    pub logs: Vec<MedicationLog>,
    pub patients: Vec<PatientName>,
}

/// Key under which the ledger deduplicates notifications.
pub enum DedupKey {
    /// Sentinel for notifications that concern no schedule (the daily
    /// summary): it stands for the whole system and is not a schedule id.
    Global,
    Schedule(String),
}

pub enum DedupKeyView {
    Global,
    Schedule(Seq<char>),
}

impl View for DedupKey {
    type V = DedupKeyView;

    open spec fn view(&self) -> DedupKeyView {
        match self {
            DedupKey::Global => DedupKeyView::Global,
            DedupKey::Schedule(id) => DedupKeyView::Schedule(id@),
        }
    }
}

/// The dedup key of a notification about `schedule_id`, if any.
pub open spec fn key_of(schedule_id: Option<Seq<char>>) -> DedupKeyView {
    match schedule_id {
        Some(id) => DedupKeyView::Schedule(id),
        None => DedupKeyView::Global,
    }
}

/// One entry of the dedup ledger: a notification of `kind` under `key`,
/// created at `created_at` (seconds since the Unix epoch).
pub struct LedgerEntry {
    pub kind: NotificationType,
    pub key: DedupKey,
    pub created_at: i64,
}

pub struct LedgerEntryView {
    pub kind: NotificationType,
    pub key: DedupKeyView,
    pub created_at: int,
}

/// A notification to show and to store.
pub struct Alert {
    pub kind: NotificationType,
    pub title: String,
    pub body: String,
    pub priority: NotificationPriority,
    pub schedule_id: Option<String>,
    pub patient_id: Option<String>,
}

pub struct AlertView {
    pub kind: NotificationType,
    pub title: Seq<char>,
    pub body: Seq<char>,
    pub priority: NotificationPriority,
    pub schedule_id: Option<Seq<char>>,
    pub patient_id: Option<Seq<char>>,
}

pub open spec fn opt_text(o: Option<String>) -> Option<Seq<char>> {
    match o {
        Some(s) => Some(s@),
        None => None,
    }
}

impl View for LedgerEntry {
    type V = LedgerEntryView;

    open spec fn view(&self) -> LedgerEntryView {
        LedgerEntryView {
            kind: self.kind,
            key: self.key@,
            created_at: self.created_at as int,
        }
    }
}

impl View for Alert {
    type V = AlertView;

    open spec fn view(&self) -> AlertView {
        AlertView {
            kind: self.kind,
            title: self.title@,
            body: self.body@,
            priority: self.priority,
            schedule_id: opt_text(self.schedule_id),
            patient_id: opt_text(self.patient_id),
        }
    }
}

pub open spec fn entries_view(l: Seq<LedgerEntry>) -> Seq<LedgerEntryView> {
    l.map_values(|e: LedgerEntry| e@)
}

pub open spec fn alerts_view(l: Seq<Alert>) -> Seq<AlertView> {
    l.map_values(|a: Alert| a@)
}

/// `now` lies in the window from `start` to `end`, both included; the
/// window wraps past midnight when it starts later than it ends.
pub open spec fn in_window(start: int, end: int, now: int) -> bool {
    if start <= end {
        start <= now && now <= end
    } else {
        now >= start || now <= end
    }
}

/// Quiet hours: both bounds set and readable, and `now` inside the window.
pub open spec fn quiet_at(settings: NotificationSettings, now: int) -> bool {
    match (settings.do_not_disturb_start, settings.do_not_disturb_end) {
        (Some(s), Some(e)) => match (clock_value(s@), clock_value(e@)) {
            (Some(a), Some(b)) => in_window(a, b, now),
            _ => false,
        },
        _ => false,
    }
}

/// Minutes during which a notification of a kind suppresses another of the
/// same kind and key.
pub open spec fn dedup_window(kind: NotificationType) -> int {
    match kind {
        NotificationType::MedicationReminder => 5,
        NotificationType::MissedMedication => 30,
        NotificationType::DailySummary => 60,
    }
}

/// The ledger holds an entry of this kind and key created less than
/// `window` minutes before `now`.
pub open spec fn recent_exists(
    ledger: Seq<LedgerEntryView>,
    key: DedupKeyView,
    kind: NotificationType,
    window: int,
    now: int,
) -> bool {
    exists|k: int|
        #![trigger ledger[k]]
        0 <= k < ledger.len() && ledger[k].kind == kind && ledger[k].key == key
            && ledger[k].created_at > now - 60 * window
}

/// Half-width, in seconds, of the window in which a log counts for a dose.
pub const LOG_MATCH_SECONDS: i64 = 1800;

/// A `Taken` log of the schedule lies within half an hour of today's dose
/// at minute `dose`.
pub open spec fn taken_near(logs: Seq<MedicationLog>, schedule_id: Seq<char>, tick: Tick, dose: int) -> bool {
    exists|k: int|
        #![trigger logs[k]]
        0 <= k < logs.len() && logs[k].schedule_id@ == schedule_id && logs[k].status
            == MedicationStatus::Taken && tick.today_start + 60 * dose - LOG_MATCH_SECONDS
            <= logs[k].taken_at && logs[k].taken_at <= tick.today_start + 60 * dose
            + LOG_MATCH_SECONDS
}

/// Minute of the day at which a dose at minute `dose` is checked: before
/// it for a reminder, after it for a missed dose.
pub open spec fn trigger_minute(kind: NotificationType, settings: NotificationSettings, dose: int) -> int {
    match kind {
        NotificationType::MissedMedication => wrap_minutes(
            dose,
            settings.missed_reminder_delay_minutes as int,
        ),
        _ => wrap_minutes(dose, -(settings.pre_reminder_minutes as int)),
    }
}

/// A dose at minute `dose` of schedule `schedule_id` calls for a
/// notification of this kind at this tick, before deduplication: the tick
/// is at its trigger minute and, for a missed dose, no `Taken` log matches.
pub open spec fn dose_due(
    kind: NotificationType,
    settings: NotificationSettings,
    tick: Tick,
    logs: Seq<MedicationLog>,
    schedule_id: Seq<char>,
    dose: int,
) -> bool {
    trigger_minute(kind, settings, dose) == tick.minute_of_day && (kind
        == NotificationType::MissedMedication ==> !taken_near(logs, schedule_id, tick, dose))
}

/// The dose slot `t` of schedule `s` calls for a notification of this kind
/// at this tick, before deduplication.
pub open spec fn slot_due(
    kind: NotificationType,
    settings: NotificationSettings,
    tick: Tick,
    logs: Seq<MedicationLog>,
    s: MedicationSchedule,
    t: Seq<char>,
) -> bool {
    match clock_value(t) {
        Some(dose) => dose_due(kind, settings, tick, logs, s.id@, dose),
        None => false,
    }
}

/// Name of the patient, from the first matching entry at or after `k`;
/// a generic word when there is none.
pub open spec fn patient_name(names: Seq<PatientName>, patient_id: Seq<char>, k: int) -> Seq<char>
    decreases names.len() - k,
{
    if 0 <= k < names.len() {
        if names[k].patient_id@ == patient_id {
            names[k].name@
        } else {
            patient_name(names, patient_id, k + 1)
        }
    } else {
        "환자"@
    }
}

/// The alert raised for dose slot `t` of schedule `s`.
pub open spec fn dose_alert(kind: NotificationType, s: MedicationSchedule, t: Seq<char>, name: Seq<char>) -> AlertView {
    if kind == NotificationType::MissedMedication {
        AlertView {
            kind,
            title: "복약 누락 알림 - "@ + name,
            body: t + "에 예정된 복약이 기록되지 않았습니다."@,
            priority: NotificationPriority::High,
            schedule_id: Some(s.id@),
            patient_id: Some(s.patient_id@),
        }
    } else {
        AlertView {
            kind,
            title: "복약 알림 - "@ + name,
            body: t + "에 복약 예정입니다.\n처방: "@ + s.prescription_id@,
            priority: NotificationPriority::Normal,
            schedule_id: Some(s.id@),
            patient_id: Some(s.patient_id@),
        }
    }
}

/// The ledger entry that records an alert raised at `now`.
pub open spec fn entry_for(a: AlertView, now: int) -> LedgerEntryView {
    LedgerEntryView { kind: a.kind, key: key_of(a.schedule_id), created_at: now }
}

/// One dose slot: raise its alert when it is due and not deduplicated.
pub open spec fn dose_step(
    kind: NotificationType,
    settings: NotificationSettings,
    tick: Tick,
    rec: TodayRecords,
    s: MedicationSchedule,
    t: Seq<char>,
    st: (Seq<LedgerEntryView>, Seq<AlertView>),
) -> (Seq<LedgerEntryView>, Seq<AlertView>) {
    if slot_due(kind, settings, tick, rec.logs@, s, t) && !recent_exists(
        st.0,
        DedupKeyView::Schedule(s.id@),
        kind,
        dedup_window(kind),
        tick.now as int,
    ) {
        let a = dose_alert(kind, s, t, patient_name(rec.patients@, s.patient_id@, 0));
        (st.0.push(entry_for(a, tick.now as int)), st.1.push(a))
    } else {
        st
    }
}

/// Every dose slot from slot `j` of schedule `i` on, in order.
pub open spec fn dose_scan(
    kind: NotificationType,
    settings: NotificationSettings,
    tick: Tick,
    rec: TodayRecords,
    i: int,
    j: int,
    st: (Seq<LedgerEntryView>, Seq<AlertView>),
) -> (Seq<LedgerEntryView>, Seq<AlertView>)
    decreases rec.schedules@.len() - i, if 0 <= i < rec.schedules@.len() {
        rec.schedules@[i].medication_times@.len() - j
    } else {
        0
    },
{
    if 0 <= i < rec.schedules@.len() {
        let s = rec.schedules@[i];
        if 0 <= j < s.medication_times@.len() {
            dose_scan(
                kind,
                settings,
                tick,
                rec,
                i,
                j + 1,
                dose_step(kind, settings, tick, rec, s, s.medication_times@[j]@, st),
            )
        } else {
            dose_scan(kind, settings, tick, rec, i + 1, 0, st)
        }
    } else {
        st
    }
}


/// The reminder check: every due, not yet deduplicated reminder, unless
/// notifications are off or quiet hours are on.
pub open spec fn reminder_check(
    settings: NotificationSettings,
    tick: Tick,
    rec: TodayRecords,
    ledger: Seq<LedgerEntryView>,
) -> (Seq<LedgerEntryView>, Seq<AlertView>) {
    if settings.enabled && !quiet_at(settings, tick.minute_of_day as int) {
        dose_scan(NotificationType::MedicationReminder, settings, tick, rec, 0, 0, (ledger, seq![]))
    } else {
        (ledger, seq![])
    }
}

/// The missed-dose check: every due, not yet deduplicated missed-dose
/// alert, unless notifications or missed-dose alerts are off or quiet hours
/// are on.
pub open spec fn missed_check(
    settings: NotificationSettings,
    tick: Tick,
    rec: TodayRecords,
    ledger: Seq<LedgerEntryView>,
) -> (Seq<LedgerEntryView>, Seq<AlertView>) {
    if settings.enabled && settings.missed_reminder_enabled && !quiet_at(
        settings,
        tick.minute_of_day as int,
    ) {
        dose_scan(NotificationType::MissedMedication, settings, tick, rec, 0, 0, (ledger, seq![]))
    } else {
        (ledger, seq![])
    }
}

/// Number of dose slots of the schedules.
pub open spec fn total_slots(ss: Seq<MedicationSchedule>) -> int
    decreases ss.len(),
{
    if ss.len() == 0 {
        0
    } else {
        total_slots(ss.drop_last()) + ss.last().medication_times@.len()
    }
}

/// Dose slot `t` of schedule `s` is matched by a `Taken` log today.
pub open spec fn slot_taken(logs: Seq<MedicationLog>, tick: Tick, s: MedicationSchedule, t: Seq<char>) -> bool {
    match clock_value(t) {
        Some(dose) => taken_near(logs, s.id@, tick, dose),
        None => false,
    }
}

/// Number of the first `n` dose slots of `s` matched by a `Taken` log today.
pub open spec fn taken_in(logs: Seq<MedicationLog>, tick: Tick, s: MedicationSchedule, n: int) -> int
    decreases n,
{
    if n <= 0 {
        0
    } else {
        taken_in(logs, tick, s, n - 1) + if slot_taken(
            logs,
            tick,
            s,
            s.medication_times@[n - 1]@,
        ) {
            1int
        } else {
            0int
        }
    }
}

/// Number of dose slots of the schedules matched by a `Taken` log today.
pub open spec fn taken_slots(logs: Seq<MedicationLog>, tick: Tick, ss: Seq<MedicationSchedule>) -> int
    decreases ss.len(),
{
    if ss.len() == 0 {
        0
    } else {
        taken_slots(logs, tick, ss.drop_last()) + taken_in(
            logs,
            tick,
            ss.last(),
            ss.last().medication_times@.len() as int,
        )
    }
}

pub open spec fn digit_char(d: int) -> char {
    seq!['0', '1', '2', '3', '4', '5', '6', '7', '8', '9'][d]
}

/// Decimal digits of `n`, without sign or padding.
pub open spec fn decimal_text(n: int) -> Seq<char>
    decreases n,
{
    if n < 10 {
        seq![digit_char(n)]
    } else {
        decimal_text(n / 10).push(digit_char(n % 10))
    }
}

/// The daily summary reporting `total` dose slots of which `taken` were taken.
pub open spec fn summary_alert(total: int, taken: int) -> AlertView {
    AlertView {
        kind: NotificationType::DailySummary,
        title: "일일 복약 요약"@,
        body: "오늘 예정된 복약: "@ + decimal_text(total) + "회\n완료: "@ + decimal_text(taken)
            + "회\n미완료: "@ + decimal_text(total - taken) + "회"@,
        priority: NotificationPriority::Low,
        schedule_id: None,
        patient_id: None,
    }
}

/// The daily summary is due: notifications and the summary are on, the tick
/// is at the summary time, and no summary was raised in the last hour.
pub open spec fn summary_due(settings: NotificationSettings, tick: Tick, ledger: Seq<LedgerEntryView>) -> bool {
    &&& settings.enabled
    &&& settings.daily_summary_enabled
    &&& clock_value(settings.daily_summary_time@) == Some(tick.minute_of_day as int)
    &&& !recent_exists(
        ledger,
        DedupKeyView::Global,
        NotificationType::DailySummary,
        dedup_window(NotificationType::DailySummary),
        tick.now as int,
    )
}

/// The summary check: the summary of today's slots when it is due.
pub open spec fn summary_check(
    settings: NotificationSettings,
    tick: Tick,
    rec: TodayRecords,
    ledger: Seq<LedgerEntryView>,
) -> (Seq<LedgerEntryView>, Seq<AlertView>) {
    if summary_due(settings, tick, ledger) {
        let a = summary_alert(
            total_slots(rec.schedules@),
            taken_slots(rec.logs@, tick, rec.schedules@),
        );
        (ledger.push(entry_for(a, tick.now as int)), seq![a])
    } else {
        (ledger, seq![])
    }
}

/// One scheduler tick: reminders, then missed doses, then, on the hour,
/// the daily summary; each check sees the ledger the previous one left.
pub open spec fn tick_checks(
    settings: NotificationSettings,
    tick: Tick,
    rec: TodayRecords,
    ledger: Seq<LedgerEntryView>,
) -> (Seq<LedgerEntryView>, Seq<AlertView>) {
    let r1 = reminder_check(settings, tick, rec, ledger);
    let r2 = missed_check(settings, tick, rec, r1.0);
    let r3 = if tick.minute_of_day % 60 == 0 {
        summary_check(settings, tick, rec, r2.0)
    } else {
        (r2.0, seq![])
    };
    (r3.0, r1.1 + r2.1 + r3.1)
}

proof fn lemma_total_prefix(ss: Seq<MedicationSchedule>, k: int)
    requires
        0 <= k <= ss.len(),
    ensures
        0 <= total_slots(ss.take(k)) <= total_slots(ss),
    decreases ss.len() - k,
{
    if k == ss.len() {
        assert(ss.take(k) =~= ss);
        lemma_total_nonneg(ss);
    } else {
        lemma_total_prefix(ss, k + 1);
        assert(ss.take(k + 1).drop_last() =~= ss.take(k));
        lemma_total_nonneg(ss.take(k));
    }
}

proof fn lemma_total_nonneg(ss: Seq<MedicationSchedule>)
    ensures
        total_slots(ss) >= 0,
    decreases ss.len(),
{
    if ss.len() > 0 {
        lemma_total_nonneg(ss.drop_last());
    }
}

proof fn lemma_taken_in_bound(logs: Seq<MedicationLog>, tick: Tick, s: MedicationSchedule, n: int)
    requires
        n >= 0,
    ensures
        0 <= taken_in(logs, tick, s, n) <= n,
    decreases n,
{
    if n > 0 {
        lemma_taken_in_bound(logs, tick, s, n - 1);
    }
}

proof fn lemma_taken_in_mono(logs: Seq<MedicationLog>, tick: Tick, s: MedicationSchedule, a: int, b: int)
    requires
        0 <= a <= b,
    ensures
        taken_in(logs, tick, s, a) <= taken_in(logs, tick, s, b),
    decreases b - a,
{
    if a < b {
        lemma_taken_in_mono(logs, tick, s, a, b - 1);
    }
}

proof fn lemma_taken_bound(logs: Seq<MedicationLog>, tick: Tick, ss: Seq<MedicationSchedule>)
    ensures
        0 <= taken_slots(logs, tick, ss) <= total_slots(ss),
    decreases ss.len(),
{
    if ss.len() > 0 {
        lemma_taken_bound(logs, tick, ss.drop_last());
        lemma_taken_in_bound(logs, tick, ss.last(), ss.last().medication_times@.len() as int);
    }
}

/// Quiet-hours gate: whether `minute_of_day` falls in the do-not-disturb
/// window. A window with a bound unset, or not a time, is never quiet.
pub fn is_do_not_disturb(settings: &NotificationSettings, minute_of_day: u32) -> (r: bool)
    ensures
        r == quiet_at(*settings, minute_of_day as int),
        settings.do_not_disturb_start matches Some(s) ==> settings.do_not_disturb_end matches Some(
            e,
        ) ==> is_hhmm(s@) ==> is_hhmm(e@) ==> r == in_window(
            hhmm_minutes(s@),
            hhmm_minutes(e@),
            minute_of_day as int,
        ),
{
    match (&settings.do_not_disturb_start, &settings.do_not_disturb_end) {
        (Some(s), Some(e)) => match (parse_clock_time(s.as_str()), parse_clock_time(e.as_str())) {
            (Some(a), Some(b)) => in_quiet_window(a, b, minute_of_day),
            _ => false,
        },
        _ => false,
    }
}

/// Whether `now` lies in the quiet window from `start` to `end` (minutes
/// of the day, both included), wrapping past midnight when `start > end`.
pub fn in_quiet_window(start: u32, end: u32, now: u32) -> (r: bool)
    ensures
        r == in_window(start as int, end as int, now as int),
{
    if start <= end {
        start <= now && now <= end
    } else {
        now >= start || now <= end
    }
}

/// Length in minutes of the dedup window of a kind.
pub fn dedup_minutes(kind: NotificationType) -> (r: i64)
    ensures
        r == dedup_window(kind),
{
    match kind {
        NotificationType::MedicationReminder => 5,
        NotificationType::MissedMedication => 30,
        NotificationType::DailySummary => 60,
    }
}

fn same_key(a: &DedupKey, b: &DedupKey) -> (r: bool)
    ensures
        r == (a@ == b@),
{
    match a {
        DedupKey::Schedule(x) => match b {
            DedupKey::Schedule(y) => *x == *y,
            DedupKey::Global => false,
        },
        DedupKey::Global => match b {
            DedupKey::Schedule(_) => false,
            DedupKey::Global => true,
        },
    }
}

/// Dedup query: the ledger holds an entry of `kind` for `key` created less
/// than `window` minutes before `now`.
pub fn has_recent_notification(
    ledger: &Vec<LedgerEntry>,
    key: &DedupKey,
    kind: NotificationType,
    window: i64,
    now: i64,
) -> (r: bool)
    ensures
        r == recent_exists(entries_view(ledger@), key@, kind, window as int, now as int),
{
    let threshold: i128 = now as i128 - 60 * (window as i128);
    let mut k: usize = 0;
    while k < ledger.len()
        invariant
            0 <= k <= ledger.len(),
            threshold == now - 60 * window,
            forall|m: int|
                0 <= m < k ==> !(#[trigger] entries_view(ledger@)[m].kind == kind
                    && entries_view(ledger@)[m].key == key@
                    && entries_view(ledger@)[m].created_at > now - 60 * window),
        decreases ledger.len() - k,
    {
        let e = &ledger[k];
        if e.kind == kind && same_key(&e.key, key) && (e.created_at as i128) > threshold {
            assert(entries_view(ledger@)[k as int] == ledger@[k as int]@);
            return true;
        }
        assert(entries_view(ledger@)[k as int] == ledger@[k as int]@);
        k += 1;
    }
    false
}

/// Log query: a `Taken` log of the schedule lies within half an hour of
/// today's dose at minute `dose`.
pub fn has_medication_log_for_time(
    logs: &Vec<MedicationLog>,
    schedule_id: &String,
    tick: &Tick,
    dose: u32,
) -> (r: bool)
    ensures
        r == taken_near(logs@, schedule_id@, *tick, dose as int),
{
    let at: i128 = tick.today_start as i128 + 60 * (dose as i128);
    let lo: i128 = at - LOG_MATCH_SECONDS as i128;
    let hi: i128 = at + LOG_MATCH_SECONDS as i128;
    let mut k: usize = 0;
    while k < logs.len()
        invariant
            0 <= k <= logs.len(),
            lo == tick.today_start + 60 * dose - LOG_MATCH_SECONDS,
            hi == tick.today_start + 60 * dose + LOG_MATCH_SECONDS,
            forall|m: int|
                0 <= m < k ==> !(#[trigger] logs@[m].schedule_id@ == schedule_id@
                    && logs@[m].status == MedicationStatus::Taken && lo <= logs@[m].taken_at
                    && logs@[m].taken_at <= hi),
        decreases logs.len() - k,
    {
        let g = &logs[k];
        if g.status == MedicationStatus::Taken && g.schedule_id == *schedule_id && lo
            <= g.taken_at as i128 && g.taken_at as i128 <= hi {
            return true;
        }
        k += 1;
    }
    false
}

/// Name of a patient, or a generic word when the list does not hold it.
pub fn patient_name_of(names: &Vec<PatientName>, patient_id: &String) -> (r: String)
    ensures
        r@ == patient_name(names@, patient_id@, 0),
{
    let mut k: usize = 0;
    while k < names.len()
        invariant
            0 <= k <= names.len(),
            patient_name(names@, patient_id@, 0) == patient_name(names@, patient_id@, k as int),
        decreases names.len() - k,
    {
        if names[k].patient_id == *patient_id {
            return names[k].name.clone();
        }
        k += 1;
    }
    String::from_str("환자")
}

fn build_dose_alert(kind: NotificationType, s: &MedicationSchedule, t: &String, name: String) -> (r: Alert)
    ensures
        r@ == dose_alert(kind, *s, t@, name@),
{
    if kind == NotificationType::MissedMedication {
        let mut title = String::from_str("복약 누락 알림 - ");
        title.append(name.as_str());
        let mut body = t.clone();
        body.append("에 예정된 복약이 기록되지 않았습니다.");
        Alert {
            kind,
            title,
            body,
            priority: NotificationPriority::High,
            schedule_id: Some(s.id.clone()),
            patient_id: Some(s.patient_id.clone()),
        }
    } else {
        let mut title = String::from_str("복약 알림 - ");
        title.append(name.as_str());
        let mut body = t.clone();
        body.append("에 복약 예정입니다.\n처방: ");
        body.append(s.prescription_id.as_str());
        Alert {
            kind,
            title,
            body,
            priority: NotificationPriority::Normal,
            schedule_id: Some(s.id.clone()),
            patient_id: Some(s.patient_id.clone()),
        }
    }
}

fn trigger_minute_of(kind: NotificationType, settings: &NotificationSettings, dose: u32) -> (r: u32)
    ensures
        r == trigger_minute(kind, *settings, dose as int),
{
    if kind == NotificationType::MissedMedication {
        shift_clock(dose, settings.missed_reminder_delay_minutes as i64)
    } else {
        shift_clock(dose, -(settings.pre_reminder_minutes as i64))
    }
}

/// Whether a dose at minute `dose` of a schedule calls for a notification
/// of this kind at this tick, before deduplication.
pub fn is_dose_due(
    kind: NotificationType,
    settings: &NotificationSettings,
    tick: &Tick,
    logs: &Vec<MedicationLog>,
    schedule_id: &String,
    dose: u32,
) -> (r: bool)
    ensures
        r == dose_due(kind, *settings, *tick, logs@, schedule_id@, dose as int),
{
    trigger_minute_of(kind, settings, dose) == tick.minute_of_day && (kind
        != NotificationType::MissedMedication || !has_medication_log_for_time(
        logs,
        schedule_id,
        tick,
        dose,
    ))
}

fn slot_is_due(
    kind: NotificationType,
    settings: &NotificationSettings,
    tick: &Tick,
    logs: &Vec<MedicationLog>,
    s: &MedicationSchedule,
    t: &String,
) -> (r: bool)
    ensures
        r == slot_due(kind, *settings, *tick, logs@, *s, t@),
{
    match parse_clock_time(t.as_str()) {
        Some(dose) => is_dose_due(kind, settings, tick, logs, &s.id, dose),
        None => false,
    }
}

/// Walks every dose slot of today's schedules in order, raising and
/// recording the alerts of this kind that are due and not deduplicated.
fn scan_doses(
    kind: NotificationType,
    settings: &NotificationSettings,
    tick: &Tick,
    rec: &TodayRecords,
    ledger: &mut Vec<LedgerEntry>,
) -> (r: Vec<Alert>)
    requires
        kind != NotificationType::DailySummary,
    ensures
        (entries_view(final(ledger)@), alerts_view(r@)) == dose_scan(
            kind,
            *settings,
            *tick,
            *rec,
            0,
            0,
            (entries_view(old(ledger)@), seq![]),
        ),
{
    let ghost target = dose_scan(
        kind,
        *settings,
        *tick,
        *rec,
        0,
        0,
        (entries_view(old(ledger)@), seq![]),
    );
    let mut alerts: Vec<Alert> = Vec::new();
    assert(alerts_view(alerts@) =~= seq![]);
    let mut i: usize = 0;
    while i < rec.schedules.len()
        invariant
            0 <= i <= rec.schedules@.len(),
            target == dose_scan(
                kind,
                *settings,
                *tick,
                *rec,
                i as int,
                0,
                (entries_view(ledger@), alerts_view(alerts@)),
            ),
        decreases rec.schedules@.len() - i,
    {
        let s = &rec.schedules[i];
        let mut j: usize = 0;
        while j < s.medication_times.len()
            invariant
                0 <= i < rec.schedules@.len(),
                *s == rec.schedules@[i as int],
                0 <= j <= s.medication_times@.len(),
                target == dose_scan(
                    kind,
                    *settings,
                    *tick,
                    *rec,
                    i as int,
                    j as int,
                    (entries_view(ledger@), alerts_view(alerts@)),
                ),
            decreases s.medication_times@.len() - j,
        {
            let t = &s.medication_times[j];
            let key = DedupKey::Schedule(s.id.clone());
            if slot_is_due(kind, settings, tick, &rec.logs, s, t) && !has_recent_notification(
                ledger,
                &key,
                kind,
                dedup_minutes(kind),
                tick.now,
            ) {
                let name = patient_name_of(&rec.patients, &s.patient_id);
                let alert = build_dose_alert(kind, s, t, name);
                let ghost a = alert@;
                let ghost before = entries_view(ledger@);
                let ghost before_alerts = alerts_view(alerts@);
                ledger.push(LedgerEntry { kind, key, created_at: tick.now });
                alerts.push(alert);
                assert(entries_view(ledger@) =~= before.push(entry_for(a, tick.now as int)));
                assert(alerts_view(alerts@) =~= before_alerts.push(a));
            }
            j += 1;
        }
        i += 1;
    }
    alerts
}

/// Number of dose slots of the schedules.
pub fn count_dose_slots(schedules: &Vec<MedicationSchedule>) -> (r: usize)
    requires
        total_slots(schedules@) <= usize::MAX,
    ensures
        r == total_slots(schedules@),
{
    let mut total: usize = 0;
    let mut i: usize = 0;
    while i < schedules.len()
        invariant
            0 <= i <= schedules@.len(),
            total_slots(schedules@) <= usize::MAX,
            total == total_slots(schedules@.take(i as int)),
        decreases schedules@.len() - i,
    {
        proof {
            assert(schedules@.take(i + 1).drop_last() =~= schedules@.take(i as int));
            lemma_total_prefix(schedules@, i + 1);
        }
        total = total + schedules[i].medication_times.len();
        i += 1;
    }
    assert(schedules@.take(i as int) =~= schedules@);
    total
}

/// Number of dose slots of the schedules matched by a `Taken` log today.
pub fn count_taken_slots(logs: &Vec<MedicationLog>, tick: &Tick, schedules: &Vec<MedicationSchedule>) -> (r: usize)
    requires
        total_slots(schedules@) <= usize::MAX,
    ensures
        r == taken_slots(logs@, *tick, schedules@),
{
    let mut taken: usize = 0;
    let mut i: usize = 0;
    while i < schedules.len()
        invariant
            0 <= i <= schedules@.len(),
            total_slots(schedules@) <= usize::MAX,
            taken == taken_slots(logs@, *tick, schedules@.take(i as int)),
        decreases schedules@.len() - i,
    {
        let s = &schedules[i];
        proof {
            assert(schedules@.take(i + 1).drop_last() =~= schedules@.take(i as int));
            lemma_total_prefix(schedules@, i + 1);
            lemma_taken_bound(logs@, *tick, schedules@.take(i + 1));
            assert(schedules@.take(i + 1).last() == *s);
            lemma_taken_in_bound(logs@, *tick, *s, s.medication_times@.len() as int);
        }
        let mut j: usize = 0;
        while j < s.medication_times.len()
            invariant
                0 <= i < schedules@.len(),
                *s == schedules@[i as int],
                0 <= j <= s.medication_times@.len(),
                taken_slots(logs@, *tick, schedules@.take(i as int)) + taken_in(
                    logs@,
                    *tick,
                    *s,
                    s.medication_times@.len() as int,
                ) <= usize::MAX,
                taken == taken_slots(logs@, *tick, schedules@.take(i as int)) + taken_in(
                    logs@,
                    *tick,
                    *s,
                    j as int,
                ),
            decreases s.medication_times@.len() - j,
        {
            proof {
                lemma_taken_in_bound(logs@, *tick, *s, j as int);
                lemma_taken_in_mono(logs@, *tick, *s, j + 1, s.medication_times@.len() as int);
            }
            let hit = match parse_clock_time(s.medication_times[j].as_str()) {
                Some(dose) => has_medication_log_for_time(logs, &s.id, tick, dose),
                None => false,
            };
            if hit {
                taken = taken + 1;
            }
            j += 1;
        }
        i += 1;
    }
    assert(schedules@.take(i as int) =~= schedules@);
    taken
}

/// Relies on the standard library's `Display` for integers, which writes the
/// plain decimal digits of an unsigned number.
#[verifier::external_body]
fn decimal(n: usize) -> (r: String)
    ensures
        r@ == decimal_text(n as int),
{
    n.to_string()
}

/// The scheduler's running flag. Checks are decided by its methods; the loop
/// that drives them stops at the first tick after the flag is cleared.
pub struct NotificationScheduler {
    pub running: bool,
}

impl NotificationScheduler {
    /// A stopped scheduler.
    pub fn new() -> (r: NotificationScheduler)
        ensures
            !r.running,
    {
        NotificationScheduler { running: false }
    }

    pub fn is_running(&self) -> (r: bool)
        ensures
            r == self.running,
    {
        self.running
    }

    pub fn start(&mut self)
        ensures
            final(self).running,
    {
        self.running = true;
    }

    pub fn stop(&mut self)
        ensures
            !final(self).running,
    {
        self.running = false;
    }

    /// Raises the reminders due at this tick and records them in the ledger.
    pub fn check_medication_times(
        &self,
        settings: &NotificationSettings,
        tick: &Tick,
        rec: &TodayRecords,
        ledger: &mut Vec<LedgerEntry>,
    ) -> (r: Vec<Alert>)
        ensures
            (entries_view(final(ledger)@), alerts_view(r@)) == reminder_check(
                *settings,
                *tick,
                *rec,
                entries_view(old(ledger)@),
            ),
    {
        if !settings.enabled || is_do_not_disturb(settings, tick.minute_of_day) {
            let none: Vec<Alert> = Vec::new();
            assert(alerts_view(none@) =~= seq![]);
            return none;
        }
        scan_doses(NotificationType::MedicationReminder, settings, tick, rec, ledger)
    }

    /// Raises the missed-dose alerts due at this tick and records them in
    /// the ledger.
    pub fn check_missed_medications(
        &self,
        settings: &NotificationSettings,
        tick: &Tick,
        rec: &TodayRecords,
        ledger: &mut Vec<LedgerEntry>,
    ) -> (r: Vec<Alert>)
        ensures
            (entries_view(final(ledger)@), alerts_view(r@)) == missed_check(
                *settings,
                *tick,
                *rec,
                entries_view(old(ledger)@),
            ),
    {
        if !settings.enabled || !settings.missed_reminder_enabled || is_do_not_disturb(
            settings,
            tick.minute_of_day,
        ) {
            let none: Vec<Alert> = Vec::new();
            assert(alerts_view(none@) =~= seq![]);
            return none;
        }
        scan_doses(NotificationType::MissedMedication, settings, tick, rec, ledger)
    }

    /// Raises the daily summary when it is due and records it in the ledger.
    pub fn send_daily_summary(
        &self,
        settings: &NotificationSettings,
        tick: &Tick,
        rec: &TodayRecords,
        ledger: &mut Vec<LedgerEntry>,
    ) -> (r: Option<Alert>)
        requires
            total_slots(rec.schedules@) <= usize::MAX,
        ensures
            summary_check(*settings, *tick, *rec, entries_view(old(ledger)@)) == (
                entries_view(final(ledger)@),
                match r {
                    Some(a) => seq![a@],
                    None => seq![],
                },
            ),
    {
        if !settings.enabled || !settings.daily_summary_enabled {
            return None;
        }
        match parse_clock_time(settings.daily_summary_time.as_str()) {
            Some(m) => {
                if m != tick.minute_of_day {
                    return None;
                }
            },
            None => {
                return None;
            },
        }
        let kind = NotificationType::DailySummary;
        if has_recent_notification(ledger, &DedupKey::Global, kind, dedup_minutes(kind), tick.now) {
            return None;
        }
        let total = count_dose_slots(&rec.schedules);
        let taken = count_taken_slots(&rec.logs, tick, &rec.schedules);
        proof {
            lemma_taken_bound(rec.logs@, *tick, rec.schedules@);
        }
        let mut body = String::from_str("오늘 예정된 복약: ");
        body.append(decimal(total).as_str());
        body.append("회\n완료: ");
        body.append(decimal(taken).as_str());
        body.append("회\n미완료: ");
        body.append(decimal(total - taken).as_str());
        body.append("회");
        let alert = Alert {
            kind,
            title: String::from_str("일일 복약 요약"),
            body,
            priority: NotificationPriority::Low,
            schedule_id: None,
            patient_id: None,
        };
        let ghost before = entries_view(ledger@);
        ledger.push(LedgerEntry { kind, key: DedupKey::Global, created_at: tick.now });
        assert(entries_view(ledger@) =~= before.push(entry_for(alert@, tick.now as int)));
        Some(alert)
    }

    /// Runs the checks of one tick in order and returns every alert raised.
    pub fn run_checks(
        &self,
        settings: &NotificationSettings,
        tick: &Tick,
        rec: &TodayRecords,
        ledger: &mut Vec<LedgerEntry>,
    ) -> (r: Vec<Alert>)
        requires
            total_slots(rec.schedules@) <= usize::MAX,
        ensures
            (entries_view(final(ledger)@), alerts_view(r@)) == tick_checks(
                *settings,
                *tick,
                *rec,
                entries_view(old(ledger)@),
            ),
    {
        let mut alerts = self.check_medication_times(settings, tick, rec, ledger);
        let ghost first = alerts_view(alerts@);
        let mut missed = self.check_missed_medications(settings, tick, rec, ledger);
        let ghost second = alerts_view(missed@);
        alerts.append(&mut missed);
        assert(alerts_view(alerts@) =~= first + second);
        if tick.minute_of_day % 60 == 0 {
            match self.send_daily_summary(settings, tick, rec, ledger) {
                Some(a) => {
                    let ghost before = alerts_view(alerts@);
                    alerts.push(a);
                    assert(alerts_view(alerts@) =~= before + seq![a@]);
                },
                None => {
                    assert(alerts_view(alerts@) =~= alerts_view(alerts@) + seq![]);
                },
            }
        } else {
            assert(alerts_view(alerts@) =~= alerts_view(alerts@) + seq![]);
        }
        alerts
    }
}

/// The ledger holds an entry recording an alert raised at `now`.
pub open spec fn records(ledger: Seq<LedgerEntryView>, a: AlertView, now: int) -> bool {
    exists|k: int| #![trigger ledger[k]] 0 <= k < ledger.len() && ledger[k] == entry_for(a, now)
}

/// What a scan from state `st` adds: the ledger and the alerts only grow;
/// every new alert is of the scanned kind, belongs to a schedule, is
/// recorded in the ledger, and had no recent entry in the ledger the scan
/// started from; no two new alerts share a schedule.
proof fn lemma_scan_facts(
    kind: NotificationType,
    settings: NotificationSettings,
    tick: Tick,
    rec: TodayRecords,
    i: int,
    j: int,
    st: (Seq<LedgerEntryView>, Seq<AlertView>),
)
    ensures
        ({
            let r = dose_scan(kind, settings, tick, rec, i, j, st);
            &&& r.0.len() >= st.0.len()
            &&& forall|k: int| 0 <= k < st.0.len() ==> #[trigger] r.0[k] == st.0[k]
            &&& r.1.len() >= st.1.len()
            &&& forall|k: int| 0 <= k < st.1.len() ==> #[trigger] r.1[k] == st.1[k]
            &&& forall|a: int|
                #![trigger r.1[a]]
                st.1.len() <= a < r.1.len() ==> r.1[a].kind == kind && r.1[a].schedule_id.is_some()
                    && records(r.0, r.1[a], tick.now as int) && !recent_exists(
                    st.0,
                    key_of(r.1[a].schedule_id),
                    kind,
                    dedup_window(kind),
                    tick.now as int,
                )
            &&& forall|a: int, b: int|
                #![trigger r.1[a], r.1[b]]
                st.1.len() <= a < r.1.len() && st.1.len() <= b < r.1.len() && a != b
                    ==> r.1[a].schedule_id != r.1[b].schedule_id
        }),
    decreases rec.schedules@.len() - i, if 0 <= i < rec.schedules@.len() {
        rec.schedules@[i].medication_times@.len() - j
    } else {
        0
    },
{
    if 0 <= i < rec.schedules@.len() {
        let s = rec.schedules@[i];
        if 0 <= j < s.medication_times@.len() {
            let t = s.medication_times@[j]@;
            let st2 = dose_step(kind, settings, tick, rec, s, t, st);
            lemma_scan_facts(kind, settings, tick, rec, i, j + 1, st2);
            let r = dose_scan(kind, settings, tick, rec, i, j, st);
            assert(r == dose_scan(kind, settings, tick, rec, i, j + 1, st2));
            if st2 != st {
                let a0 = dose_alert(kind, s, t, patient_name(rec.patients@, s.patient_id@, 0));
                let e = entry_for(a0, tick.now as int);
                assert(st2 == (st.0.push(e), st.1.push(a0)));
                assert(r.1[st.1.len() as int] == st2.1[st.1.len() as int]);
                assert(r.0[st.0.len() as int] == st2.0[st.0.len() as int]);
                assert(records(r.0, a0, tick.now as int));
                assert forall|a: int|
                    #![trigger r.1[a]]
                    st2.1.len() <= a < r.1.len() implies !recent_exists(
                    st.0,
                    key_of(r.1[a].schedule_id),
                    kind,
                    dedup_window(kind),
                    tick.now as int,
                ) && r.1[a].schedule_id != a0.schedule_id by {
                    if recent_exists(
                        st.0,
                        key_of(r.1[a].schedule_id),
                        kind,
                        dedup_window(kind),
                        tick.now as int,
                    ) {
                        let k = choose|k: int|
                            #![trigger st.0[k]]
                            0 <= k < st.0.len() && st.0[k].kind == kind && st.0[k].key == key_of(
                                r.1[a].schedule_id,
                            ) && st.0[k].created_at > tick.now - 60
                                * dedup_window(kind);
                        assert(st2.0[k] == st.0[k]);
                    }
                    if r.1[a].schedule_id == a0.schedule_id {
                        assert(st2.0[st.0.len() as int] == e);
                    }
                }
            }
        } else {
            lemma_scan_facts(kind, settings, tick, rec, i + 1, 0, st);
        }
    }
}

/// Running the reminder check twice, the second time less than the
/// reminder window after the first and against the ledger the first left,
/// raises at most one reminder per schedule over both runs.
pub proof fn lemma_reminder_dedup(
    settings: NotificationSettings,
    first: Tick,
    second: Tick,
    rec: TodayRecords,
    ledger: Seq<LedgerEntryView>,
)
    requires
        second.now < first.now + 60 * dedup_window(NotificationType::MedicationReminder),
    ensures
        ({
            let r1 = reminder_check(settings, first, rec, ledger);
            let r2 = reminder_check(settings, second, rec, r1.0);
            let all = r1.1 + r2.1;
            forall|a: int, b: int|
                #![trigger all[a], all[b]]
                0 <= a < all.len() && 0 <= b < all.len() && a != b ==> all[a].schedule_id
                    != all[b].schedule_id
        }),
{
    let kind = NotificationType::MedicationReminder;
    let r1 = reminder_check(settings, first, rec, ledger);
    let r2 = reminder_check(settings, second, rec, r1.0);
    let all = r1.1 + r2.1;
    let e: Seq<AlertView> = seq![];
    lemma_scan_facts(kind, settings, first, rec, 0, 0, (ledger, e));
    lemma_scan_facts(kind, settings, second, rec, 0, 0, (r1.0, e));
    assert forall|a: int, b: int|
        #![trigger all[a], all[b]]
        0 <= a < all.len() && 0 <= b < all.len() && a != b implies all[a].schedule_id
        != all[b].schedule_id by {
        if a >= r1.1.len() && b < r1.1.len() {
            assert(all[a] == r2.1[a - r1.1.len()] && all[b] == r1.1[b]);
            let k = choose|k: int| #![trigger r1.0[k]] 0 <= k < r1.0.len() && r1.0[k] == entry_for(r1.1[b], first.now as int);
            assert(r1.0[k].created_at > second.now - 60 * dedup_window(kind));
        } else if a < r1.1.len() && b >= r1.1.len() {
            assert(all[b] == r2.1[b - r1.1.len()] && all[a] == r1.1[a]);
            let k = choose|k: int| #![trigger r1.0[k]] 0 <= k < r1.0.len() && r1.0[k] == entry_for(r1.1[a], first.now as int);
            assert(r1.0[k].created_at > second.now - 60 * dedup_window(kind));
        } else if a < r1.1.len() {
            assert(all[a] == r1.1[a] && all[b] == r1.1[b]);
        } else {
            assert(all[a] == r2.1[a - r1.1.len()] && all[b] == r2.1[b - r1.1.len()]);
        }
    }
}

/// Two runs of the summary check, the second less than an hour after the
/// first and against the ledger the first left, raise at most one summary.
pub proof fn lemma_summary_hourly_cap(
    settings: NotificationSettings,
    first: Tick,
    second: Tick,
    rec: TodayRecords,
    ledger: Seq<LedgerEntryView>,
)
    requires
        second.now < first.now + 60 * dedup_window(NotificationType::DailySummary),
    ensures
        ({
            let r1 = summary_check(settings, first, rec, ledger);
            let r2 = summary_check(settings, second, rec, r1.0);
            r1.1.len() + r2.1.len() <= 1
        }),
{
    let r1 = summary_check(settings, first, rec, ledger);
    if r1.1.len() > 0 {
        let k = ledger.len() as int;
        assert(r1.0[k].key == DedupKeyView::Global);
        assert(recent_exists(
            r1.0,
            DedupKeyView::Global,
            NotificationType::DailySummary,
            dedup_window(NotificationType::DailySummary),
            second.now as int,
        ));
    }
}

} // verus!
