//! The queue of records waiting to be mirrored to the remote service.
//!
//! A record is first sent right away; when that cannot happen it waits in
//! the queue, at most once per record id. A retry pass takes a snapshot of
//! the queue, the caller tries to deliver each item outside any lock, and
//! the outcomes are folded back: delivered items leave, failed ones stay
//! with one more failure counted, and an item that has used up its retries
//! is dropped without another attempt. Items queued while the pass ran are
//! kept.
use vstd::prelude::*;

verus! {

/// Delivery attempts a queued item gets from retry passes.
pub const MAX_RETRIES: u32 = 5;

/// Where mirrored records are sent.
pub struct SupabaseConfig {
    pub url: String,
    pub anon_key: String,
}

/// Kinds of record that are mirrored.
#[derive(Clone, Copy, Debug, PartialEq, Eq, Structural)]
pub enum SyncItemType {
    SurveyResponse,
}

/// A record waiting for delivery. `id` is the record's own id, `data` its
/// serialized form, `created_at` when it was queued.
pub struct PendingSyncItem {
    pub id: String,
    pub item_type: SyncItemType,
    pub data: String,
    pub created_at: String,
    pub retry_count: u32,
}

pub struct PendingSyncItemView {
    pub id: Seq<char>,
    pub item_type: SyncItemType,
    pub data: Seq<char>,
    pub created_at: Seq<char>,
    pub retry_count: int,
}

impl View for PendingSyncItem {
    type V = PendingSyncItemView;

    open spec fn view(&self) -> PendingSyncItemView {
        PendingSyncItemView {
            id: self.id@,
            item_type: self.item_type,
            data: self.data@,
            created_at: self.created_at@,
            retry_count: self.retry_count as int,
        }
    }
}

pub open spec fn items_view(q: Seq<PendingSyncItem>) -> Seq<PendingSyncItemView> {
    q.map_values(|it: PendingSyncItem| it@)
}

pub open spec fn has_id(q: Seq<PendingSyncItemView>, id: Seq<char>) -> bool {
    exists|k: int| #![trigger q[k]] 0 <= k < q.len() && q[k].id == id
}

/// No two items share an id.
pub open spec fn unique_ids(q: Seq<PendingSyncItemView>) -> bool {
    forall|a: int, b: int|
        #![trigger q[a], q[b]]
        0 <= a < q.len() && 0 <= b < q.len() && a != b ==> q[a].id != q[b].id
}

/// The queue after offering `it`: unchanged when an item with its id waits
/// already, else with `it` at the end.
pub open spec fn enqueued(q: Seq<PendingSyncItemView>, it: PendingSyncItemView) -> Seq<PendingSyncItemView> {
    if has_id(q, it.id) {
        q
    } else {
        q.push(it)
    }
}

/// A retry pass tries to deliver the item.
pub open spec fn attempted(it: PendingSyncItemView) -> bool {
    it.retry_count < MAX_RETRIES
}

/// Outcome reported for the `k`-th item of a pass; a missing report is a failure.
pub open spec fn delivered_at(delivered: Seq<bool>, k: int) -> bool {
    0 <= k < delivered.len() && delivered[k]
}

pub open spec fn bumped(it: PendingSyncItemView) -> PendingSyncItemView {
    PendingSyncItemView { retry_count: it.retry_count + 1, ..it }
}

/// The first `n` items of a snapshot that stay queued after the pass:
/// those attempted and not delivered, with one more failure counted.
pub open spec fn kept_after(snap: Seq<PendingSyncItemView>, delivered: Seq<bool>, n: int) -> Seq<
    PendingSyncItemView,
>
    decreases n,
{
    if n <= 0 {
        seq![]
    } else {
        let p = kept_after(snap, delivered, n - 1);
        if attempted(snap[n - 1]) && !delivered_at(delivered, n - 1) {
            p.push(bumped(snap[n - 1]))
        } else {
            p
        }
    }
}

/// Number of the first `n` items of a snapshot delivered by the pass.
pub open spec fn delivered_count(snap: Seq<PendingSyncItemView>, delivered: Seq<bool>, n: int) -> int
    decreases n,
{
    if n <= 0 {
        0
    } else {
        delivered_count(snap, delivered, n - 1) + if attempted(snap[n - 1]) && delivered_at(
            delivered,
            n - 1,
        ) {
            1int
        } else {
            0int
        }
    }
}

/// The first `n` items of `q` whose ids the snapshot does not hold: those
/// queued while the pass ran.
pub open spec fn queued_meanwhile(q: Seq<PendingSyncItemView>, snap: Seq<PendingSyncItemView>, n: int) -> Seq<
    PendingSyncItemView,
>
    decreases n,
{
    if n <= 0 {
        seq![]
    } else {
        let p = queued_meanwhile(q, snap, n - 1);
        if has_id(snap, q[n - 1].id) {
            p
        } else {
            p.push(q[n - 1])
        }
    }
}

/// The queue after a retry pass over `snap` whose outcomes are `delivered`,
/// when the queue holds `q` at the time the outcomes come back.
pub open spec fn after_retry(
    q: Seq<PendingSyncItemView>,
    snap: Seq<PendingSyncItemView>,
    delivered: Seq<bool>,
) -> Seq<PendingSyncItemView> {
    kept_after(snap, delivered, snap.len() as int) + queued_meanwhile(q, snap, q.len() as int)
}


/// Some item among the first `n` of `q` has this id.
pub open spec fn id_among(q: Seq<PendingSyncItemView>, n: int, id: Seq<char>) -> bool {
    exists|k: int| #![trigger q[k]] 0 <= k < n && q[k].id == id
}

proof fn lemma_kept_ids(snap: Seq<PendingSyncItemView>, delivered: Seq<bool>, n: int)
    requires
        unique_ids(snap),
        0 <= n <= snap.len(),
    ensures
        unique_ids(kept_after(snap, delivered, n)),
        forall|a: int|
            0 <= a < kept_after(snap, delivered, n).len() ==> id_among(
                snap,
                n,
                #[trigger] kept_after(snap, delivered, n)[a].id,
            ),
    decreases n,
{
    if n > 0 {
        lemma_kept_ids(snap, delivered, n - 1);
        let p = kept_after(snap, delivered, n - 1);
        let c = kept_after(snap, delivered, n);
        assert forall|a: int| 0 <= a < p.len() implies id_among(snap, n, #[trigger] p[a].id)
            && p[a].id != snap[n - 1].id by {
            let k = choose|k: int| #![trigger snap[k]] 0 <= k < n - 1 && snap[k].id == p[a].id;
            assert(snap[k].id == p[a].id);
        }
        if attempted(snap[n - 1]) && !delivered_at(delivered, n - 1) {
            assert(c == p.push(bumped(snap[n - 1])));
            assert forall|a: int| 0 <= a < c.len() implies id_among(snap, n, #[trigger] c[a].id) by {
                if a == p.len() {
                    assert(snap[n - 1].id == c[a].id);
                } else {
                    assert(c[a] == p[a]);
                }
            }
            assert forall|a: int, b: int|
                0 <= a < c.len() && 0 <= b < c.len() && a != b implies #[trigger] c[a].id
                != #[trigger] c[b].id by {
                if a < p.len() && b < p.len() {
                    assert(c[a] == p[a] && c[b] == p[b]);
                } else if a < p.len() {
                    assert(c[a] == p[a]);
                } else {
                    assert(c[b] == p[b]);
                }
            }
        }
    }
}

proof fn lemma_meanwhile_ids(q: Seq<PendingSyncItemView>, snap: Seq<PendingSyncItemView>, n: int)
    requires
        unique_ids(q),
        0 <= n <= q.len(),
    ensures
        unique_ids(queued_meanwhile(q, snap, n)),
        forall|a: int|
            0 <= a < queued_meanwhile(q, snap, n).len() ==> id_among(
                q,
                n,
                #[trigger] queued_meanwhile(q, snap, n)[a].id,
            ) && !has_id(snap, queued_meanwhile(q, snap, n)[a].id),
    decreases n,
{
    if n > 0 {
        lemma_meanwhile_ids(q, snap, n - 1);
        let p = queued_meanwhile(q, snap, n - 1);
        let c = queued_meanwhile(q, snap, n);
        assert forall|a: int| 0 <= a < p.len() implies id_among(q, n, #[trigger] p[a].id) && p[a].id
            != q[n - 1].id by {
            let k = choose|k: int| #![trigger q[k]] 0 <= k < n - 1 && q[k].id == p[a].id;
            assert(q[k].id == p[a].id);
        }
        if !has_id(snap, q[n - 1].id) {
            assert(c == p.push(q[n - 1]));
            assert forall|a: int| 0 <= a < c.len() implies id_among(q, n, #[trigger] c[a].id)
                && !has_id(snap, c[a].id) by {
                if a == p.len() {
                    assert(q[n - 1].id == c[a].id);
                } else {
                    assert(c[a] == p[a]);
                }
            }
            assert forall|a: int, b: int|
                0 <= a < c.len() && 0 <= b < c.len() && a != b implies #[trigger] c[a].id
                != #[trigger] c[b].id by {
                if a < p.len() && b < p.len() {
                    assert(c[a] == p[a] && c[b] == p[b]);
                } else if a < p.len() {
                    assert(c[a] == p[a]);
                } else {
                    assert(c[b] == p[b]);
                }
            }
        }
    }
}

/// A retry pass never leaves two queued items with one id.
pub proof fn lemma_after_retry_unique(
    q: Seq<PendingSyncItemView>,
    snap: Seq<PendingSyncItemView>,
    delivered: Seq<bool>,
)
    requires
        unique_ids(q),
        unique_ids(snap),
    ensures
        unique_ids(after_retry(q, snap, delivered)),
{
    let k = kept_after(snap, delivered, snap.len() as int);
    let m = queued_meanwhile(q, snap, q.len() as int);
    lemma_kept_ids(snap, delivered, snap.len() as int);
    lemma_meanwhile_ids(q, snap, q.len() as int);
    let r = k + m;
    assert forall|a: int, b: int|
        0 <= a < r.len() && 0 <= b < r.len() && a != b implies #[trigger] r[a].id
        != #[trigger] r[b].id by {
        if a < k.len() && b < k.len() {
            assert(r[a] == k[a] && r[b] == k[b]);
        } else if a >= k.len() && b >= k.len() {
            assert(r[a] == m[a - k.len()] && r[b] == m[b - k.len()]);
        } else if a < k.len() {
            assert(r[a] == k[a] && r[b] == m[b - k.len()]);
            assert(id_among(snap, snap.len() as int, k[a].id));
            assert(!has_id(snap, m[b - k.len()].id));
        } else {
            assert(r[b] == k[b] && r[a] == m[a - k.len()]);
            assert(id_among(snap, snap.len() as int, k[b].id));
            assert(!has_id(snap, m[a - k.len()].id));
        }
    }
}

/// Enqueueing never leaves two queued items with one id.
pub proof fn lemma_enqueued_unique(q: Seq<PendingSyncItemView>, it: PendingSyncItemView)
    requires
        unique_ids(q),
    ensures
        unique_ids(enqueued(q, it)),
        has_id(enqueued(q, it), it.id),
{
    let r = enqueued(q, it);
    if !has_id(q, it.id) {
        assert(r[q.len() as int] == it);
        assert forall|a: int, b: int|
            0 <= a < r.len() && 0 <= b < r.len() && a != b implies #[trigger] r[a].id
            != #[trigger] r[b].id by {
            if a < q.len() && b < q.len() {
                assert(r[a] == q[a] && r[b] == q[b]);
            } else if a < q.len() {
                assert(r[a] == q[a]);
            } else {
                assert(r[b] == q[b]);
            }
        }
    }
}

/// The record-mirroring state: whether sync is on, and the queue.
pub struct SyncState {
    enabled: bool,
    queue: Vec<PendingSyncItem>,
}

impl SyncState {
    #[verifier::type_invariant]
    spec fn inv(self) -> bool {
        unique_ids(items_view(self.queue@))
    }

    /// The queued items, oldest first.
    pub closed spec fn pending(self) -> Seq<PendingSyncItemView> {
        items_view(self.queue@)
    }

    pub closed spec fn sync_on(self) -> bool {
        self.enabled
    }
}

fn copy_item(it: &PendingSyncItem) -> (r: PendingSyncItem)
    ensures
        r@ == it@,
{
    PendingSyncItem {
        id: it.id.clone(),
        item_type: it.item_type,
        data: it.data.clone(),
        created_at: it.created_at.clone(),
        retry_count: it.retry_count,
    }
}

fn copy_items(v: &Vec<PendingSyncItem>) -> (r: Vec<PendingSyncItem>)
    ensures
        items_view(r@) == items_view(v@),
{
    let mut r: Vec<PendingSyncItem> = Vec::new();
    let mut k: usize = 0;
    while k < v.len()
        invariant
            0 <= k <= v@.len(),
            items_view(r@) == items_view(v@).take(k as int),
        decreases v@.len() - k,
    {
        let ghost before = items_view(r@);
        r.push(copy_item(&v[k]));
        assert(items_view(r@) =~= before.push(v@[k as int]@));
        assert(items_view(v@).take(k + 1) =~= items_view(v@).take(k as int).push(v@[k as int]@));
        k += 1;
    }
    assert(items_view(v@).take(k as int) =~= items_view(v@));
    r
}

/// A fresh state: sync on, nothing queued.
pub fn init_sync() -> (r: SyncState)
    ensures
        r.sync_on(),
        r.pending() == Seq::<PendingSyncItemView>::empty(),
{
    let r = SyncState { enabled: true, queue: Vec::new() };
    assert(r.pending() =~= Seq::<PendingSyncItemView>::empty());
    r
}

pub fn is_sync_enabled(state: &SyncState) -> (r: bool)
    ensures
        r == state.sync_on(),
{
    state.enabled
}

pub fn set_sync_enabled(state: &mut SyncState, enabled: bool)
    ensures
        final(state).sync_on() == enabled,
        final(state).pending() == old(state).pending(),
{
    proof {
        use_type_invariant(&*state);
    }
    state.enabled = enabled;
}

pub fn get_pending_count(state: &SyncState) -> (r: usize)
    ensures
        r == state.pending().len(),
{
    state.queue.len()
}

/// Copies of the queued items, oldest first.
pub fn pending_items(state: &SyncState) -> (r: Vec<PendingSyncItem>)
    ensures
        items_view(r@) == state.pending(),
{
    copy_items(&state.queue)
}

pub open spec fn new_item(
    item_type: SyncItemType,
    id: Seq<char>,
    data: Seq<char>,
    created_at: Seq<char>,
) -> PendingSyncItemView {
    PendingSyncItemView { id, item_type, data, created_at, retry_count: 0 }
}

fn queue_has_id(q: &Vec<PendingSyncItem>, id: &String) -> (r: bool)
    ensures
        r == has_id(items_view(q@), id@),
{
    let mut k: usize = 0;
    while k < q.len()
        invariant
            0 <= k <= q@.len(),
            forall|m: int| 0 <= m < k ==> #[trigger] items_view(q@)[m].id != id@,
        decreases q@.len() - k,
    {
        if q[k].id == *id {
            assert(items_view(q@)[k as int].id == id@);
            return true;
        }
        assert(items_view(q@)[k as int] == q@[k as int]@);
        k += 1;
    }
    false
}

/// Queues a record for a later delivery, unless an item with its id waits
/// already; returns whether it was added.
pub fn queue_for_sync(
    state: &mut SyncState,
    item_type: SyncItemType,
    id: &String,
    data: &String,
    created_at: &String,
) -> (r: bool)
    ensures
        final(state).pending() == enqueued(
            old(state).pending(),
            new_item(item_type, id@, data@, created_at@),
        ),
        r == !has_id(old(state).pending(), id@),
        final(state).sync_on() == old(state).sync_on(),
{
    proof {
        use_type_invariant(&*state);
    }
    if queue_has_id(&state.queue, id) {
        return false;
    }
    let item = PendingSyncItem {
        id: id.clone(),
        item_type,
        data: data.clone(),
        created_at: created_at.clone(),
        retry_count: 0,
    };
    let ghost before = items_view(state.queue@);
    let mut q = copy_items(&state.queue);
    q.push(item);
    assert(items_view(q@) =~= before.push(new_item(item_type, id@, data@, created_at@)));
    proof {
        lemma_enqueued_unique(before, new_item(item_type, id@, data@, created_at@));
    }
    state.queue = q;
    true
}

/// What to do with a freshly saved record.
#[derive(Clone, Copy, Debug, PartialEq, Eq, Structural)]
pub enum SubmitStep {
    /// Sync is off: nothing to do.
    Skipped,
    /// No remote is configured: the record was queued.
    Queued,
    /// Send it now, then report the outcome with `record_delivery`.
    Deliver,
}

/// Decides the first step for a freshly saved record. The caller never
/// sees a delivery failure: a failed send only queues the record.
pub fn sync_survey_response(
    state: &mut SyncState,
    config: &Option<SupabaseConfig>,
    id: &String,
    data: &String,
    created_at: &String,
) -> (r: SubmitStep)
    ensures
        final(state).sync_on() == old(state).sync_on(),
        !old(state).sync_on() ==> r == SubmitStep::Skipped
            && final(state).pending() == old(state).pending(),
        old(state).sync_on() && config.is_none() ==> r == SubmitStep::Queued
            && final(state).pending() == enqueued(
                old(state).pending(),
                new_item(SyncItemType::SurveyResponse, id@, data@, created_at@),
            ),
        old(state).sync_on() && config.is_some() ==> r == SubmitStep::Deliver
            && final(state).pending() == old(state).pending(),
{
    if !state.enabled {
        return SubmitStep::Skipped;
    }
    match config {
        None => {
            queue_for_sync(state, SyncItemType::SurveyResponse, id, data, created_at);
            SubmitStep::Queued
        },
        Some(_) => SubmitStep::Deliver,
    }
}

/// Folds the outcome of an immediate send into the queue: a failed send
/// queues the record (once per id), a delivered one changes nothing.
/// Returns whether the record was queued.
pub fn record_delivery(
    state: &mut SyncState,
    id: &String,
    data: &String,
    created_at: &String,
    delivered: bool,
) -> (r: bool)
    ensures
        final(state).sync_on() == old(state).sync_on(),
        delivered ==> !r && final(state).pending() == old(state).pending(),
        !delivered ==> r == !has_id(old(state).pending(), id@) && final(state).pending() == enqueued(
            old(state).pending(),
            new_item(SyncItemType::SurveyResponse, id@, data@, created_at@),
        ),
{
    if delivered {
        return false;
    }
    queue_for_sync(state, SyncItemType::SurveyResponse, id, data, created_at)
}

/// A snapshot of the queue taken at the start of a retry pass.
pub struct RetryPass {
    items: Vec<PendingSyncItem>,
}

impl RetryPass {
    #[verifier::type_invariant]
    spec fn inv(self) -> bool {
        unique_ids(items_view(self.items@))
    }

    pub closed spec fn snapshot(self) -> Seq<PendingSyncItemView> {
        items_view(self.items@)
    }

    /// The items of the pass; outcomes are reported in this order.
    pub fn items(&self) -> (r: &Vec<PendingSyncItem>)
        ensures
            items_view(r@) == self.snapshot(),
    {
        &self.items
    }
}

/// Whether a retry pass tries to deliver the item.
pub fn should_retry(item: &PendingSyncItem) -> (r: bool)
    ensures
        r == attempted(item@),
{
    item.retry_count < MAX_RETRIES
}

/// Starts a retry pass; there is none while sync is off or nobody is signed in.
pub fn begin_retry(state: &SyncState, authenticated: bool) -> (r: Option<RetryPass>)
    ensures
        r.is_some() == (state.sync_on() && authenticated),
        r matches Some(p) ==> p.snapshot() == state.pending(),
{
    proof {
        use_type_invariant(state);
    }
    if !state.enabled || !authenticated {
        return None;
    }
    Some(RetryPass { items: copy_items(&state.queue) })
}

/// Folds the outcomes of a retry pass into the queue: `delivered[k]` tells
/// whether the `k`-th item of the pass was delivered. Returns how many were.
pub fn retry_pending_sync(state: &mut SyncState, pass: &RetryPass, delivered: &Vec<bool>) -> (r: usize)
    ensures
        final(state).pending() == after_retry(old(state).pending(), pass.snapshot(), delivered@),
        r == delivered_count(pass.snapshot(), delivered@, pass.snapshot().len() as int),
        final(state).sync_on() == old(state).sync_on(),
{
    proof {
        use_type_invariant(&*state);
        use_type_invariant(pass);
    }
    let ghost snap = pass.snapshot();
    let ghost d = delivered@;
    let items = &pass.items;
    let mut kept: Vec<PendingSyncItem> = Vec::new();
    let mut count: usize = 0;
    let mut k: usize = 0;
    assert(items_view(kept@) =~= kept_after(snap, d, 0));
    while k < items.len()
        invariant
            0 <= k <= items@.len(),
            snap == items_view(items@),
            d == delivered@,
            items_view(kept@) == kept_after(snap, d, k as int),
            count == delivered_count(snap, d, k as int),
            count <= k,
        decreases items@.len() - k,
    {
        let it = &items[k];
        assert(snap[k as int] == it@);
        let ok = k < delivered.len() && delivered[k];
        if it.retry_count < MAX_RETRIES {
            if ok {
                count = count + 1;
            } else {
                let ghost before = items_view(kept@);
                let mut again = copy_item(it);
                again.retry_count = it.retry_count + 1;
                kept.push(again);
                assert(items_view(kept@) =~= before.push(bumped(snap[k as int])));
            }
        }
        k += 1;
    }
    let q = &state.queue;
    let ghost qv = items_view(q@);
    let mut meanwhile: Vec<PendingSyncItem> = Vec::new();
    let mut n: usize = 0;
    assert(items_view(meanwhile@) =~= queued_meanwhile(qv, snap, 0));
    while n < q.len()
        invariant
            0 <= n <= q@.len(),
            qv == items_view(q@),
            snap == items_view(items@),
            items_view(meanwhile@) == queued_meanwhile(qv, snap, n as int),
        decreases q@.len() - n,
    {
        assert(qv[n as int] == q@[n as int]@);
        if !queue_has_id(items, &q[n].id) {
            let ghost before = items_view(meanwhile@);
            meanwhile.push(copy_item(&q[n]));
            assert(items_view(meanwhile@) =~= before.push(qv[n as int]));
        }
        n += 1;
    }
    let ghost kv = items_view(kept@);
    let ghost mv = items_view(meanwhile@);
    kept.append(&mut meanwhile);
    assert(items_view(kept@) =~= kv + mv);
    proof {
        lemma_after_retry_unique(qv, snap, d);
    }
    state.queue = kept;
    count
}

/// The queue holds an item with this id and this many failures counted.
pub open spec fn waits_with(q: Seq<PendingSyncItemView>, id: Seq<char>, failures: int) -> bool {
    exists|k: int| #![trigger q[k]] 0 <= k < q.len() && q[k].id == id && q[k].retry_count == failures
}

/// The queue after `n` retry passes in which every delivery fails and
/// nothing new is queued.
pub open spec fn failing_passes(q: Seq<PendingSyncItemView>, n: nat) -> Seq<PendingSyncItemView>
    decreases n,
{
    if n == 0 {
        q
    } else {
        let p = failing_passes(q, (n - 1) as nat);
        after_retry(p, p, seq![])
    }
}

proof fn lemma_meanwhile_none(q: Seq<PendingSyncItemView>, n: int)
    requires
        0 <= n <= q.len(),
    ensures
        queued_meanwhile(q, q, n) == Seq::<PendingSyncItemView>::empty(),
    decreases n,
{
    if n > 0 {
        lemma_meanwhile_none(q, n - 1);
        assert(q[n - 1].id == q[n - 1].id);
        assert(has_id(q, q[n - 1].id));
    }
}

proof fn lemma_kept_origin(snap: Seq<PendingSyncItemView>, delivered: Seq<bool>, n: int)
    requires
        0 <= n <= snap.len(),
    ensures
        forall|a: int|
            #![trigger kept_after(snap, delivered, n)[a]]
            0 <= a < kept_after(snap, delivered, n).len() ==> exists|k: int|
                #![trigger snap[k]]
                0 <= k < n && attempted(snap[k]) && kept_after(snap, delivered, n)[a] == bumped(
                    snap[k],
                ),
    decreases n,
{
    if n > 0 {
        lemma_kept_origin(snap, delivered, n - 1);
        let p = kept_after(snap, delivered, n - 1);
        let c = kept_after(snap, delivered, n);
        assert forall|a: int| #![trigger c[a]] 0 <= a < c.len() implies exists|k: int|
            #![trigger snap[k]]
            0 <= k < n && attempted(snap[k]) && c[a] == bumped(snap[k]) by {
            if a < p.len() {
                assert(c[a] == p[a]);
                let k = choose|k: int|
                    #![trigger snap[k]]
                    0 <= k < n - 1 && attempted(snap[k]) && p[a] == bumped(snap[k]);
                assert(attempted(snap[k]) && c[a] == bumped(snap[k]));
            } else {
                assert(c[a] == bumped(snap[n - 1]));
            }
        }
    }
}

proof fn lemma_kept_contains(snap: Seq<PendingSyncItemView>, delivered: Seq<bool>, n: int, k: int)
    requires
        0 <= k < n <= snap.len(),
        attempted(snap[k]),
        !delivered_at(delivered, k),
    ensures
        exists|a: int|
            #![trigger kept_after(snap, delivered, n)[a]]
            0 <= a < kept_after(snap, delivered, n).len() && kept_after(snap, delivered, n)[a]
                == bumped(snap[k]),
    decreases n,
{
    let c = kept_after(snap, delivered, n);
    if k == n - 1 {
        assert(c[c.len() - 1] == bumped(snap[k]));
    } else {
        lemma_kept_contains(snap, delivered, n - 1, k);
        let p = kept_after(snap, delivered, n - 1);
        let a = choose|a: int| #![trigger p[a]] 0 <= a < p.len() && p[a] == bumped(snap[k]);
        assert(c[a] == p[a]);
    }
}

proof fn lemma_one_failing_pass(q: Seq<PendingSyncItemView>, id: Seq<char>, c: int)
    requires
        unique_ids(q),
        waits_with(q, id, c),
    ensures
        unique_ids(after_retry(q, q, seq![])),
        c < MAX_RETRIES ==> waits_with(after_retry(q, q, seq![]), id, c + 1),
        c >= MAX_RETRIES ==> !has_id(after_retry(q, q, seq![]), id),
{
    let d: Seq<bool> = seq![];
    lemma_after_retry_unique(q, q, d);
    lemma_meanwhile_none(q, q.len() as int);
    let kept = kept_after(q, d, q.len() as int);
    let r = after_retry(q, q, d);
    assert(r =~= kept);
    let k = choose|k: int| #![trigger q[k]] 0 <= k < q.len() && q[k].id == id && q[k].retry_count == c;
    if c < MAX_RETRIES {
        lemma_kept_contains(q, d, q.len() as int, k);
        let a = choose|a: int| #![trigger kept[a]] 0 <= a < kept.len() && kept[a] == bumped(q[k]);
        assert(r[a].id == id && r[a].retry_count == c + 1);
    } else {
        lemma_kept_origin(q, d, q.len() as int);
        if has_id(r, id) {
            let a = choose|a: int| #![trigger r[a]] 0 <= a < r.len() && r[a].id == id;
            assert(kept[a] == r[a]);
            let j = choose|j: int|
                #![trigger q[j]]
                0 <= j < q.len() && attempted(q[j]) && kept[a] == bumped(q[j]);
            assert(q[j].id == q[k].id);
        }
    }
}

/// An item that fails every delivery is tried by exactly the first
/// `MAX_RETRIES` retry passes and is gone after the next one. Before pass
/// `n + 1`, for `n <= MAX_RETRIES`, it waits with `n` failures counted, so
/// passes 1 to `MAX_RETRIES` try it and pass `MAX_RETRIES + 1` drops it
/// without a try.
pub proof fn lemma_retry_bound(q: Seq<PendingSyncItemView>, id: Seq<char>, n: nat)
    requires
        unique_ids(q),
        waits_with(q, id, 0),
    ensures
        unique_ids(failing_passes(q, n)),
        n <= MAX_RETRIES ==> waits_with(failing_passes(q, n), id, n as int),
        n > MAX_RETRIES ==> !has_id(failing_passes(q, n), id),
    decreases n,
{
    if n > 0 {
        let m = (n - 1) as nat;
        lemma_retry_bound(q, id, m);
        let p = failing_passes(q, m);
        if m <= MAX_RETRIES {
            lemma_one_failing_pass(p, id, m as int);
        } else {
            lemma_after_retry_unique(p, p, seq![]);
            lemma_meanwhile_none(p, p.len() as int);
            lemma_kept_origin(p, seq![], p.len() as int);
            let r = after_retry(p, p, seq![]);
            if has_id(r, id) {
                let a = choose|a: int| #![trigger r[a]] 0 <= a < r.len() && r[a].id == id;
                let kept = kept_after(p, seq![], p.len() as int);
                assert(r =~= kept);
                let j = choose|j: int|
                    #![trigger p[j]]
                    0 <= j < p.len() && attempted(p[j]) && kept[a] == bumped(p[j]);
                assert(has_id(p, id));
            }
        }
    }
}

/// Offering a record whose id is already queued changes nothing, so two
/// offers of one record leave exactly one queued item with its id.
pub proof fn lemma_enqueue_twice(q: Seq<PendingSyncItemView>, a: PendingSyncItemView, b: PendingSyncItemView)
    requires
        unique_ids(q),
        a.id == b.id,
    ensures
        enqueued(enqueued(q, a), b) == enqueued(q, a),
        has_id(enqueued(enqueued(q, a), b), a.id),
        unique_ids(enqueued(enqueued(q, a), b)),
{
    lemma_enqueued_unique(q, a);
}

} // verus!
