use vstd::prelude::*;

use crate::text::{chars_of, str_eq, string_of};
use crate::now_millis;

verus! {

/// The view of an optional string.
pub open spec fn opt_string_view(o: Option<String>) -> Option<Seq<char>> {
    match o {
        Some(s) => Some(s@),
        None => None,
    }
}

/// A copy of an optional string.
pub fn clone_opt_string(o: &Option<String>) -> (r: Option<String>)
    ensures
        opt_string_view(r) == opt_string_view(*o),
{
    match o {
        Some(s) => Some(s.clone()),
        None => None,
    }
}

/// One quota window as the UI shows it. `limit_amount` and `used_amount` carry the IEEE-754
/// bits of the amounts the server reported, which this library passes through unread.
#[derive(Debug, Clone)]
pub struct QuotaWindow {
    pub key: String,
    pub limit_id: String,
    pub limit_name: Option<String>,
    pub kind: String,
    pub used_percent: u8,
    pub remaining_percent: u8,
    pub window_duration_mins: u64,
    pub resets_at: u64,
    pub plan_type: Option<String>,
    pub limit_amount: Option<u64>,
    pub used_amount: Option<u64>,
}

/// The mathematical content of a [`QuotaWindow`].
pub struct QuotaWindowView {
    pub key: Seq<char>,
    pub limit_id: Seq<char>,
    pub limit_name: Option<Seq<char>>,
    pub kind: Seq<char>,
    pub used_percent: u8,
    pub remaining_percent: u8,
    pub window_duration_mins: u64,
    pub resets_at: u64,
    pub plan_type: Option<Seq<char>>,
    pub limit_amount: Option<u64>,
    pub used_amount: Option<u64>,
}

impl View for QuotaWindow {
    type V = QuotaWindowView;

    open spec fn view(&self) -> QuotaWindowView {
        QuotaWindowView {
            key: self.key@,
            limit_id: self.limit_id@,
            limit_name: opt_string_view(self.limit_name),
            kind: self.kind@,
            used_percent: self.used_percent,
            remaining_percent: self.remaining_percent,
            window_duration_mins: self.window_duration_mins,
            resets_at: self.resets_at,
            plan_type: opt_string_view(self.plan_type),
            limit_amount: self.limit_amount,
            used_amount: self.used_amount,
        }
    }
}

/// The views of a sequence of windows.
pub open spec fn windows_view(v: Seq<QuotaWindow>) -> Seq<QuotaWindowView> {
    v.map_values(|w: QuotaWindow| w@)
}

/// The quota as last read, with when and from where.
#[derive(Debug, Clone)]
pub struct QuotaSnapshot {
    pub windows: Vec<QuotaWindow>,
    pub fetched_at: u64,
    pub source: String,
    pub stale: bool,
}

/// The mathematical content of a [`QuotaSnapshot`].
pub struct QuotaSnapshotView {
    pub windows: Seq<QuotaWindowView>,
    pub fetched_at: u64,
    pub source: Seq<char>,
    pub stale: bool,
}

impl View for QuotaSnapshot {
    type V = QuotaSnapshotView;

    open spec fn view(&self) -> QuotaSnapshotView {
        QuotaSnapshotView {
            windows: windows_view(self.windows@),
            fetched_at: self.fetched_at,
            source: self.source@,
            stale: self.stale,
        }
    }
}

/// A `primary` or `secondary` rate-limit window as the server reported it, its numbers
/// already read: the used percentage rounded and clamped to 0..=100, the duration in
/// minutes, and the raw reset time (seconds or milliseconds since the epoch).
#[derive(Debug, Clone, Copy)]
pub struct WindowDoc {
    pub used_percent: u8,
    pub window_duration_mins: u64,
    pub resets_at: u64,
}

impl WindowDoc {
    /// The used percentage is at most 100.
    pub open spec fn wf(self) -> bool {
        self.used_percent <= 100
    }
}

/// An account usage limit (`individualLimit`) as the server reported it: the remaining
/// percentage rounded and clamped to 0..=100, the IEEE-754 bits of the `limit` and `used`
/// amounts where present, and the raw reset time.
#[derive(Debug, Clone, Copy)]
pub struct IndividualLimitDoc {
    pub remaining_percent: u8,
    pub limit_amount: Option<u64>,
    pub used_amount: Option<u64>,
    pub resets_at: u64,
}

impl IndividualLimitDoc {
    /// The remaining percentage is at most 100.
    pub open spec fn wf(self) -> bool {
        self.remaining_percent <= 100
    }
}

/// One rate-limit bucket: what `parse_limits` reads of it.
#[derive(Debug, Clone)]
pub struct BucketDoc {
    pub limit_id: Option<String>,
    pub limit_name: Option<String>,
    pub individual_limit: Option<IndividualLimitDoc>,
    pub primary: Option<WindowDoc>,
    pub secondary: Option<WindowDoc>,
}

/// The mathematical content of a [`BucketDoc`].
pub struct BucketDocView {
    pub limit_id: Option<Seq<char>>,
    pub limit_name: Option<Seq<char>>,
    pub individual_limit: Option<IndividualLimitDoc>,
    pub primary: Option<WindowDoc>,
    pub secondary: Option<WindowDoc>,
}

impl View for BucketDoc {
    type V = BucketDocView;

    open spec fn view(&self) -> BucketDocView {
        BucketDocView {
            limit_id: opt_string_view(self.limit_id),
            limit_name: opt_string_view(self.limit_name),
            individual_limit: self.individual_limit,
            primary: self.primary,
            secondary: self.secondary,
        }
    }
}

impl BucketDocView {
    /// Every percentage in the bucket is at most 100.
    pub open spec fn wf(self) -> bool {
        &&& self.individual_limit matches Some(l) ==> l.wf()
        &&& self.primary matches Some(w) ==> w.wf()
        &&& self.secondary matches Some(w) ==> w.wf()
    }
}

/// The reply to `account/rateLimits/read`: the buckets by limit id, in the order the reply
/// lists them, where the reply has that object, and the single `rateLimits` bucket.
#[derive(Debug, Clone)]
pub struct LimitsDoc {
    pub rate_limits_by_limit_id: Option<Vec<(String, BucketDoc)>>,
    pub rate_limits: Option<BucketDoc>,
}

/// The mathematical content of a [`LimitsDoc`].
pub struct LimitsDocView {
    pub rate_limits_by_limit_id: Option<Seq<(Seq<char>, BucketDocView)>>,
    pub rate_limits: Option<BucketDocView>,
}

impl View for LimitsDoc {
    type V = LimitsDocView;

    open spec fn view(&self) -> LimitsDocView {
        LimitsDocView {
            rate_limits_by_limit_id: match self.rate_limits_by_limit_id {
                Some(v) => Some(v@.map_values(|e: (String, BucketDoc)| (e.0@, e.1@))),
                None => None,
            },
            rate_limits: match self.rate_limits {
                Some(b) => Some(b@),
                None => None,
            },
        }
    }
}

impl LimitsDocView {
    /// Every percentage in every bucket is at most 100.
    pub open spec fn wf(self) -> bool {
        &&& self.rate_limits_by_limit_id matches Some(v) ==> forall|i: int|
            0 <= i < v.len() ==> (#[trigger] v[i]).1.wf()
        &&& self.rate_limits matches Some(b) ==> b.wf()
    }
}

/// A reset time in milliseconds: values above 10^12 already are, smaller ones are seconds
/// (multiplied by 1000, saturating).
pub open spec fn timestamp_millis_spec(raw: u64) -> u64 {
    if raw > 1_000_000_000_000 {
        raw
    } else if raw * 1000 > u64::MAX {
        u64::MAX
    } else {
        (raw * 1000) as u64
    }
}

/// `limit_id:kind`.
pub open spec fn window_key(limit_id: Seq<char>, kind: Seq<char>) -> Seq<char> {
    limit_id + seq![':'] + kind
}

/// The window that a `primary` or `secondary` entry of a bucket becomes.
pub open spec fn bucket_window(
    limit_id: Seq<char>,
    limit_name: Option<Seq<char>>,
    kind: Seq<char>,
    w: WindowDoc,
    plan: Option<Seq<char>>,
) -> QuotaWindowView {
    QuotaWindowView {
        key: window_key(limit_id, kind),
        limit_id: limit_id,
        limit_name: limit_name,
        kind: kind,
        used_percent: w.used_percent,
        remaining_percent: (100 - w.used_percent) as u8,
        window_duration_mins: w.window_duration_mins,
        resets_at: timestamp_millis_spec(w.resets_at),
        plan_type: plan,
        limit_amount: None,
        used_amount: None,
    }
}

/// The windows of a bucket without an account usage limit: its `primary` window, then its
/// `secondary` one, each where present.
pub open spec fn bucket_windows(
    limit_id: Seq<char>,
    b: BucketDocView,
    plan: Option<Seq<char>>,
) -> Seq<QuotaWindowView> {
    let p = match b.primary {
        Some(w) => seq![bucket_window(limit_id, b.limit_name, "primary"@, w, plan)],
        None => Seq::empty(),
    };
    let s = match b.secondary {
        Some(w) => seq![bucket_window(limit_id, b.limit_name, "secondary"@, w, plan)],
        None => Seq::empty(),
    };
    p + s
}

/// The name of an account usage limit: the bucket's name where it is given and not empty,
/// `Monthly usage limit` otherwise.
pub open spec fn individual_limit_name(name: Option<Seq<char>>) -> Seq<char> {
    match name {
        Some(n) => if n.len() > 0 {
            n
        } else {
            "Monthly usage limit"@
        },
        None => "Monthly usage limit"@,
    }
}

/// The window that an account usage limit becomes.
pub open spec fn individual_window(
    limit_id: Seq<char>,
    limit_name: Option<Seq<char>>,
    l: IndividualLimitDoc,
    plan: Option<Seq<char>>,
) -> QuotaWindowView {
    QuotaWindowView {
        key: window_key(limit_id, "individual"@),
        limit_id: limit_id,
        limit_name: Some(individual_limit_name(limit_name)),
        kind: "individual"@,
        used_percent: (100 - l.remaining_percent) as u8,
        remaining_percent: l.remaining_percent,
        window_duration_mins: 0,
        resets_at: timestamp_millis_spec(l.resets_at),
        plan_type: plan,
        limit_amount: l.limit_amount,
        used_amount: l.used_amount,
    }
}

/// The windows of a bucket read for its account usage limit: that one window, or none
/// where the bucket has no such limit.
pub open spec fn individual_windows(
    limit_id: Seq<char>,
    b: BucketDocView,
    plan: Option<Seq<char>>,
) -> Seq<QuotaWindowView> {
    match b.individual_limit {
        Some(l) => seq![individual_window(limit_id, b.limit_name, l, plan)],
        None => Seq::empty(),
    }
}

/// The windows of one bucket, read for account usage limits or for time windows.
pub open spec fn windows_of_bucket(
    limit_id: Seq<char>,
    b: BucketDocView,
    individual: bool,
    plan: Option<Seq<char>>,
) -> Seq<QuotaWindowView> {
    if individual {
        individual_windows(limit_id, b, plan)
    } else {
        bucket_windows(limit_id, b, plan)
    }
}

/// The windows of the buckets, in order.
pub open spec fn entries_windows(
    entries: Seq<(Seq<char>, BucketDocView)>,
    individual: bool,
    plan: Option<Seq<char>>,
) -> Seq<QuotaWindowView>
    decreases entries.len(),
{
    if entries.len() == 0 {
        Seq::empty()
    } else {
        entries_windows(entries.drop_last(), individual, plan) + windows_of_bucket(
            entries.last().0,
            entries.last().1,
            individual,
            plan,
        )
    }
}

/// Some bucket has an account usage limit.
pub open spec fn has_individual_limit(entries: Seq<(Seq<char>, BucketDocView)>) -> bool {
    exists|i: int| 0 <= i < entries.len() && (#[trigger] entries[i]).1.individual_limit is Some
}

/// The windows of a rate-limit reply. With buckets by limit id: every bucket, read for its
/// account usage limit where any bucket has one, and for its time windows otherwise.
/// Else with a single bucket: the same for it, under its `limitId` or `codex`. Else none.
pub open spec fn limits_windows(doc: LimitsDocView, plan: Option<Seq<char>>) -> Seq<
    QuotaWindowView,
> {
    match doc.rate_limits_by_limit_id {
        Some(entries) => entries_windows(entries, has_individual_limit(entries), plan),
        None => match doc.rate_limits {
            Some(b) => {
                let id = match b.limit_id {
                    Some(i) => i,
                    None => "codex"@,
                };
                windows_of_bucket(id, b, b.individual_limit is Some, plan)
            },
            None => Seq::empty(),
        },
    }
}

/// A reset time in milliseconds: values above 10^12 already are, smaller ones are seconds.
pub fn timestamp_millis(raw: u64) -> (ms: u64)
    ensures
        ms == timestamp_millis_spec(raw),
{
    if raw > 1_000_000_000_000 {
        raw
    } else if raw > u64::MAX / 1000 {
        u64::MAX
    } else {
        raw * 1000
    }
}

/// `limit_id:kind`.
fn make_key(limit_id: &str, kind: &str) -> (k: String)
    ensures
        k@ == window_key(limit_id@, kind@),
{
    let mut v = chars_of(limit_id);
    v.push(':');
    let rest = chars_of(kind);
    let mut i: usize = 0;
    let ghost start = v@;
    while i < rest.len()
        invariant
            i <= rest.len(),
            v@ == start + rest@.take(i as int),
        decreases rest.len() - i,
    {
        v.push(rest[i]);
        i = i + 1;
        assert(rest@.take(i as int) =~= rest@.take(i - 1) + seq![rest@[i - 1]]);
    }
    assert(rest@.take(rest.len() as int) =~= rest@);
    string_of(&v)
}

/// Appends the windows of a bucket without an account usage limit: `primary`, then
/// `secondary`, each where present.
pub fn push_bucket(
    output: &mut Vec<QuotaWindow>,
    limit_id: &str,
    bucket: &BucketDoc,
    plan: Option<String>,
)
    requires
        bucket@.wf(),
    ensures
        windows_view(final(output)@) == windows_view(old(output)@) + bucket_windows(
            limit_id@,
            bucket@,
            opt_string_view(plan),
        ),
{
    let ghost start = windows_view(output@);
    match bucket.primary {
        Some(w) => {
            let kind = "primary";
            output.push(
                QuotaWindow {
                    key: make_key(limit_id, kind),
                    limit_id: limit_id.to_owned(),
                    limit_name: clone_opt_string(&bucket.limit_name),
                    kind: kind.to_owned(),
                    used_percent: w.used_percent,
                    remaining_percent: 100 - w.used_percent,
                    window_duration_mins: w.window_duration_mins,
                    resets_at: timestamp_millis(w.resets_at),
                    plan_type: clone_opt_string(&plan),
                    limit_amount: None,
                    used_amount: None,
                },
            );
        },
        None => {},
    }
    let ghost mid = windows_view(output@);
    match bucket.secondary {
        Some(w) => {
            let kind = "secondary";
            output.push(
                QuotaWindow {
                    key: make_key(limit_id, kind),
                    limit_id: limit_id.to_owned(),
                    limit_name: clone_opt_string(&bucket.limit_name),
                    kind: kind.to_owned(),
                    used_percent: w.used_percent,
                    remaining_percent: 100 - w.used_percent,
                    window_duration_mins: w.window_duration_mins,
                    resets_at: timestamp_millis(w.resets_at),
                    plan_type: clone_opt_string(&plan),
                    limit_amount: None,
                    used_amount: None,
                },
            );
        },
        None => {},
    }
    let ghost p = match bucket@.primary {
        Some(w) => seq![bucket_window(limit_id@, bucket@.limit_name, "primary"@, w, opt_string_view(plan))],
        None => Seq::empty(),
    };
    assert(mid =~= start + p);
    assert(windows_view(output@) =~= start + bucket_windows(
        limit_id@,
        bucket@,
        opt_string_view(plan),
    ));
}

/// Appends the window of a bucket's account usage limit, where it has one.
pub fn push_individual_limit(
    output: &mut Vec<QuotaWindow>,
    limit_id: &str,
    bucket: &BucketDoc,
    plan: Option<String>,
)
    requires
        bucket@.wf(),
    ensures
        windows_view(final(output)@) == windows_view(old(output)@) + individual_windows(
            limit_id@,
            bucket@,
            opt_string_view(plan),
        ),
{
    let limit = match bucket.individual_limit {
        Some(l) => l,
        None => {
            assert(windows_view(output@) =~= windows_view(output@) + Seq::<QuotaWindowView>::empty());
            return;
        },
    };
    let limit_name = match &bucket.limit_name {
        Some(n) => if !n.as_str().is_empty() {
            n.clone()
        } else {
            "Monthly usage limit".to_owned()
        },
        None => "Monthly usage limit".to_owned(),
    };
    let kind = "individual";
    let ghost start = windows_view(output@);
    output.push(
        QuotaWindow {
            key: make_key(limit_id, kind),
            limit_id: limit_id.to_owned(),
            limit_name: Some(limit_name),
            kind: kind.to_owned(),
            used_percent: 100 - limit.remaining_percent,
            remaining_percent: limit.remaining_percent,
            window_duration_mins: 0,
            resets_at: timestamp_millis(limit.resets_at),
            plan_type: plan,
            limit_amount: limit.limit_amount,
            used_amount: limit.used_amount,
        },
    );
    assert(windows_view(output@) =~= start + individual_windows(
        limit_id@,
        bucket@,
        opt_string_view(plan),
    ));
}

/// The windows of a rate-limit reply (see [`limits_windows`]); it always succeeds.
pub fn parse_limits(result: &LimitsDoc, plan: Option<String>) -> (out: Result<
    Vec<QuotaWindow>,
    String,
>)
    requires
        result@.wf(),
    ensures
        out matches Ok(w) && windows_view(w@) == limits_windows(result@, opt_string_view(plan)),
{
    let mut windows: Vec<QuotaWindow> = Vec::new();
    match &result.rate_limits_by_limit_id {
        Some(buckets) => {
            let ghost ev = buckets@.map_values(|e: (String, BucketDoc)| (e.0@, e.1@));
            assert(ev == result@.rate_limits_by_limit_id->0);
            let mut has_individual = false;
            let mut i: usize = 0;
            while i < buckets.len()
                invariant
                    i <= buckets.len(),
                    ev == buckets@.map_values(|e: (String, BucketDoc)| (e.0@, e.1@)),
                    has_individual <==> exists|j: int|
                        0 <= j < i && (#[trigger] ev[j]).1.individual_limit is Some,
                decreases buckets.len() - i,
            {
                if buckets[i].1.individual_limit.is_some() {
                    has_individual = true;
                    assert(ev[i as int].1.individual_limit is Some);
                }
                i = i + 1;
            }
            assert(has_individual == has_individual_limit(ev));
            let mut k: usize = 0;
            assert(ev.take(0) =~= Seq::<(Seq<char>, BucketDocView)>::empty());
            assert(windows_view(windows@) =~= Seq::<QuotaWindowView>::empty());
            while k < buckets.len()
                invariant
                    k <= buckets.len(),
                    result@.wf(),
                    result@.rate_limits_by_limit_id == Some(ev),
                    ev == buckets@.map_values(|e: (String, BucketDoc)| (e.0@, e.1@)),
                    windows_view(windows@) == entries_windows(
                        ev.take(k as int),
                        has_individual,
                        opt_string_view(plan),
                    ),
                decreases buckets.len() - k,
            {
                let entry = &buckets[k];
                assert(ev[k as int] == (entry.0@, entry.1@));
                let ghost rv = result@.rate_limits_by_limit_id->0;
                assert(forall|j: int| 0 <= j < rv.len() ==> (#[trigger] rv[j]).1.wf());
                assert(ev[k as int].1.wf());
                if has_individual {
                    push_individual_limit(
                        &mut windows,
                        entry.0.as_str(),
                        &entry.1,
                        clone_opt_string(&plan),
                    );
                } else {
                    push_bucket(&mut windows, entry.0.as_str(), &entry.1, clone_opt_string(&plan));
                }
                assert(ev.take(k + 1).drop_last() =~= ev.take(k as int));
                k = k + 1;
            }
            assert(ev.take(buckets.len() as int) =~= ev);
        },
        None => {
            match &result.rate_limits {
                Some(bucket) => {
                    let limit_id: &str = match &bucket.limit_id {
                        Some(id) => id.as_str(),
                        None => "codex",
                    };
                    if bucket.individual_limit.is_some() {
                        push_individual_limit(&mut windows, limit_id, bucket, plan);
                    } else {
                        push_bucket(&mut windows, limit_id, bucket, plan);
                    }
                    assert(windows_view(windows@) =~= limits_windows(
                        result@,
                        opt_string_view(plan),
                    ));
                },
                None => {
                    assert(windows_view(windows@) =~= Seq::<QuotaWindowView>::empty());
                },
            }
        },
    }
    Ok(windows)
}

/// The account types whose quota can be read.
pub open spec fn supported_account_type(t: Seq<char>) -> bool {
    t == "chatgpt"@ || t == "chatgptAuthTokens"@ || t == "personalAccessToken"@ || t
        == "agentIdentity"@
}

/// Checks the `account.type` of the `account/read` reply: without one the user is signed
/// out (`AUTH_REQUIRED`); a type whose quota cannot be read is `AUTH_UNSUPPORTED`.
pub fn check_account_type(account_type: Option<&str>) -> (r: Result<(), String>)
    ensures
        account_type is None ==> (r matches Err(e) && e@ == "AUTH_REQUIRED"@),
        account_type matches Some(t) && supported_account_type(t@) ==> r is Ok,
        account_type matches Some(t) && !supported_account_type(t@) ==> (r matches Err(e) && e@
            == "AUTH_UNSUPPORTED"@),
{
    match account_type {
        None => Err("AUTH_REQUIRED".to_owned()),
        Some(t) => {
            if str_eq(t, "chatgpt") || str_eq(t, "chatgptAuthTokens") || str_eq(
                t,
                "personalAccessToken",
            ) || str_eq(t, "agentIdentity") {
                Ok(())
            } else {
                Err("AUTH_UNSUPPORTED".to_owned())
            }
        },
    }
}

/// A fresh snapshot of the given windows, read at `fetched_at`.
pub open spec fn live_snapshot(windows: Seq<QuotaWindowView>, fetched_at: u64) -> QuotaSnapshotView {
    QuotaSnapshotView { windows: windows, fetched_at: fetched_at, source: "live"@, stale: false }
}

/// The snapshot of the windows read at `fetched_at`; no window at all is
/// `RATE_LIMITS_EMPTY`.
pub fn snapshot_at(windows: Vec<QuotaWindow>, fetched_at: u64) -> (r: Result<QuotaSnapshot, String>)
    ensures
        windows@.len() == 0 ==> (r matches Err(e) && e@ == "RATE_LIMITS_EMPTY"@),
        windows@.len() > 0 ==> (r matches Ok(s) && s@ == live_snapshot(
            windows_view(windows@),
            fetched_at,
        )),
{
    if windows.len() == 0 {
        return Err("RATE_LIMITS_EMPTY".to_owned());
    }
    Ok(QuotaSnapshot { windows, fetched_at, source: "live".to_owned(), stale: false })
}

/// The snapshot of a rate-limit reply read at `now`: its windows (see [`limits_windows`]),
/// or `RATE_LIMITS_EMPTY` where it has none.
pub fn quota_from_limits_at(limits: &LimitsDoc, plan: Option<String>, now: u64) -> (r: Result<
    QuotaSnapshot,
    String,
>)
    requires
        limits@.wf(),
    ensures
        limits_windows(limits@, opt_string_view(plan)).len() == 0 ==> (r matches Err(e) && e@
            == "RATE_LIMITS_EMPTY"@),
        limits_windows(limits@, opt_string_view(plan)).len() > 0 ==> (r matches Ok(s) && s@
            == live_snapshot(limits_windows(limits@, opt_string_view(plan)), now)),
{
    let windows = match parse_limits(limits, plan) {
        Ok(w) => w,
        Err(e) => {
            return Err(e);
        },
    };
    assert(windows@.len() == windows_view(windows@).len());
    snapshot_at(windows, now)
}

/// The snapshot of a rate-limit reply read now; as [`quota_from_limits_at`], with the
/// current time as `fetched_at`.
pub fn quota_from_limits(limits: &LimitsDoc, plan: Option<String>) -> (r: Result<
    QuotaSnapshot,
    String,
>)
    requires
        limits@.wf(),
    ensures
        limits_windows(limits@, opt_string_view(plan)).len() == 0 ==> (r matches Err(e) && e@
            == "RATE_LIMITS_EMPTY"@),
        limits_windows(limits@, opt_string_view(plan)).len() > 0 ==> (r matches Ok(s) && s@
            == live_snapshot(limits_windows(limits@, opt_string_view(plan)), s.fetched_at)),
{
    let now = now_millis();
    quota_from_limits_at(limits, plan, now)
}

/// How old, in milliseconds, a cached snapshot may be before it counts as stale.
pub open spec fn cache_max_age_millis() -> int {
    86_400_000
}

/// `now - then`, or 0 where `then` is later.
pub open spec fn elapsed(now: u64, then: u64) -> int {
    if now >= then {
        now - then
    } else {
        0
    }
}

impl QuotaSnapshot {
    /// A copy of the snapshot.
    pub fn duplicate(&self) -> (r: QuotaSnapshot)
        ensures
            r@ == self@,
    {
        let mut windows: Vec<QuotaWindow> = Vec::new();
        let mut i: usize = 0;
        while i < self.windows.len()
            invariant
                i <= self.windows.len(),
                windows_view(windows@) == windows_view(self.windows@.take(i as int)),
            decreases self.windows.len() - i,
        {
            let w = &self.windows[i];
            let ghost prev = windows@;
            windows.push(
                QuotaWindow {
                    key: w.key.clone(),
                    limit_id: w.limit_id.clone(),
                    limit_name: clone_opt_string(&w.limit_name),
                    kind: w.kind.clone(),
                    used_percent: w.used_percent,
                    remaining_percent: w.remaining_percent,
                    window_duration_mins: w.window_duration_mins,
                    resets_at: w.resets_at,
                    plan_type: clone_opt_string(&w.plan_type),
                    limit_amount: w.limit_amount,
                    used_amount: w.used_amount,
                },
            );
            assert(windows@.last()@ == self.windows@[i as int]@);
            assert(windows_view(windows@) =~= windows_view(prev).push(self.windows@[i as int]@));
            assert(self.windows@.take(i + 1) =~= self.windows@.take(i as int).push(
                self.windows@[i as int],
            ));
            assert(windows_view(self.windows@.take(i + 1)) =~= windows_view(
                self.windows@.take(i as int),
            ).push(self.windows@[i as int]@));
            i = i + 1;
        }
        assert(self.windows@.take(self.windows.len() as int) =~= self.windows@);
        QuotaSnapshot {
            windows,
            fetched_at: self.fetched_at,
            source: self.source.clone(),
            stale: self.stale,
        }
    }

    /// The snapshot as loaded from the cache at `now`: its source is `cache`, and it is
    /// stale when it was read more than a day before `now`.
    pub fn into_cached(self, now: u64) -> (r: QuotaSnapshot)
        ensures
            r@ == (QuotaSnapshotView {
                source: "cache"@,
                stale: elapsed(now, self.fetched_at) > cache_max_age_millis(),
                ..self@
            }),
    {
        let age = now.saturating_sub(self.fetched_at);
        QuotaSnapshot {
            windows: self.windows,
            fetched_at: self.fetched_at,
            source: "cache".to_owned(),
            stale: age > 24 * 60 * 60 * 1000,
        }
    }

    /// Marks the snapshot as the stale cached one that stays on screen after a failed
    /// refresh.
    pub fn mark_stale(&mut self)
        ensures
            final(self)@ == (QuotaSnapshotView { source: "cache"@, stale: true, ..old(self)@ }),
    {
        self.source = "cache".to_owned();
        self.stale = true;
    }
}

/// The used and remaining percentages of a window add up to 100.
pub open spec fn percents_add_up(w: QuotaWindowView) -> bool {
    w.used_percent + w.remaining_percent == 100
}

proof fn lemma_entries_windows_facts(
    entries: Seq<(Seq<char>, BucketDocView)>,
    individual: bool,
    plan: Option<Seq<char>>,
)
    requires
        forall|i: int| 0 <= i < entries.len() ==> (#[trigger] entries[i]).1.wf(),
    ensures
        forall|k: int|
            0 <= k < entries_windows(entries, individual, plan).len() ==> percents_add_up(
                #[trigger] entries_windows(entries, individual, plan)[k],
            ),
        individual ==> forall|k: int|
            0 <= k < entries_windows(entries, individual, plan).len() ==> (#[trigger] entries_windows(
                entries,
                individual,
                plan,
            )[k]).kind == "individual"@,
    decreases entries.len(),
{
    if entries.len() > 0 {
        let init = entries.drop_last();
        assert forall|i: int| 0 <= i < init.len() implies (#[trigger] init[i]).1.wf() by {
            assert(init[i] == entries[i]);
        }
        lemma_entries_windows_facts(init, individual, plan);
        assert(entries[entries.len() - 1].1.wf());
    }
}

/// Law: every window of a rate-limit reply has used and remaining percentages that add up
/// to 100, both within 0..=100.
pub proof fn law_window_percents_add_up(doc: LimitsDocView, plan: Option<Seq<char>>)
    requires
        doc.wf(),
    ensures
        forall|k: int|
            0 <= k < limits_windows(doc, plan).len() ==> percents_add_up(
                #[trigger] limits_windows(doc, plan)[k],
            ),
{
    match doc.rate_limits_by_limit_id {
        Some(entries) => {
            lemma_entries_windows_facts(entries, has_individual_limit(entries), plan);
        },
        None => {},
    }
}

/// Law: where any bucket of the reply has an account usage limit, every window shown is
/// such a limit; time windows are then not shown.
pub proof fn law_account_limit_preferred(doc: LimitsDocView, plan: Option<Seq<char>>)
    requires
        doc.wf(),
        doc.rate_limits_by_limit_id matches Some(entries) && has_individual_limit(entries),
    ensures
        forall|k: int|
            0 <= k < limits_windows(doc, plan).len() ==> (#[trigger] limits_windows(
                doc,
                plan,
            )[k]).kind == "individual"@,
{
    let entries = doc.rate_limits_by_limit_id->0;
    lemma_entries_windows_facts(entries, true, plan);
}

proof fn lemma_entries_keep_buckets(
    entries: Seq<(Seq<char>, BucketDocView)>,
    plan: Option<Seq<char>>,
    i: int,
)
    requires
        0 <= i < entries.len(),
        entries[i].1.primary is Some,
    ensures
        exists|k: int|
            0 <= k < entries_windows(entries, false, plan).len() && (#[trigger] entries_windows(
                entries,
                false,
                plan,
            )[k]).limit_id == entries[i].0 && entries_windows(entries, false, plan)[k].kind
                == "primary"@,
    decreases entries.len(),
{
    let init = entries.drop_last();
    let w = entries_windows(entries, false, plan);
    let wi = entries_windows(init, false, plan);
    if i < entries.len() - 1 {
        assert(init[i] == entries[i]);
        lemma_entries_keep_buckets(init, plan, i);
        let k = choose|k: int|
            0 <= k < wi.len() && (#[trigger] wi[k]).limit_id == init[i].0 && wi[k].kind == "primary"@;
        assert(w[k] == wi[k]);
    } else {
        assert(w[wi.len() as int] == bucket_window(
            entries[i].0,
            entries[i].1.limit_name,
            "primary"@,
            entries[i].1.primary->0,
            plan,
        ));
    }
}

/// Law: without account usage limits, no bucket is dropped, whatever its limit id: each
/// bucket with a `primary` window shows a `primary` window under its own limit id.
pub proof fn law_every_bucket_shown(doc: LimitsDocView, plan: Option<Seq<char>>, i: int)
    requires
        doc.rate_limits_by_limit_id matches Some(entries) && !has_individual_limit(entries) && 0
            <= i < entries.len() && entries[i].1.primary is Some,
    ensures
        exists|k: int|
            0 <= k < limits_windows(doc, plan).len() && (#[trigger] limits_windows(doc, plan)[k]).limit_id
                == doc.rate_limits_by_limit_id->0[i].0 && limits_windows(doc, plan)[k].kind
                == "primary"@,
{
    let entries = doc.rate_limits_by_limit_id->0;
    lemma_entries_keep_buckets(entries, plan, i);
    let w = entries_windows(entries, false, plan);
    assert(limits_windows(doc, plan) == w);
    let k = choose|k: int|
        0 <= k < w.len() && (#[trigger] w[k]).limit_id == entries[i].0 && w[k].kind == "primary"@;
    assert(limits_windows(doc, plan)[k] == w[k]);
}

/// Every window of bucket `i` is among the windows of all the buckets.
proof fn lemma_bucket_windows_kept(
    entries: Seq<(Seq<char>, BucketDocView)>,
    individual: bool,
    plan: Option<Seq<char>>,
    i: int,
    j: int,
)
    requires
        0 <= i < entries.len(),
        0 <= j < windows_of_bucket(entries[i].0, entries[i].1, individual, plan).len(),
    ensures
        exists|k: int|
            0 <= k < entries_windows(entries, individual, plan).len() && #[trigger] entries_windows(
                entries,
                individual,
                plan,
            )[k] == windows_of_bucket(entries[i].0, entries[i].1, individual, plan)[j],
    decreases entries.len(),
{
    let init = entries.drop_last();
    let w = entries_windows(entries, individual, plan);
    let wi = entries_windows(init, individual, plan);
    let target = windows_of_bucket(entries[i].0, entries[i].1, individual, plan)[j];
    if i < entries.len() - 1 {
        assert(init[i] == entries[i]);
        lemma_bucket_windows_kept(init, individual, plan, i, j);
        let k = choose|k: int| 0 <= k < wi.len() && #[trigger] wi[k] == target;
        assert(w[k] == wi[k]);
    } else {
        assert(w[wi.len() + j] == target);
    }
}

/// Law: a reply that has no buckets by limit id and whose single `rateLimits` bucket has
/// an account usage limit shows exactly one window: that limit, under the bucket's limit id
/// (`codex` where it has none), with the limit's remaining percentage and the rest as used;
/// the bucket's time windows are not shown.
pub proof fn law_single_bucket_account_limit(doc: LimitsDocView, plan: Option<Seq<char>>)
    requires
        doc.wf(),
        doc.rate_limits_by_limit_id is None,
        doc.rate_limits matches Some(b) && b.individual_limit is Some,
    ensures
        ({
            let b = doc.rate_limits->0;
            let l = b.individual_limit->0;
            let ws = limits_windows(doc, plan);
            &&& ws.len() == 1
            &&& ws[0].kind == "individual"@
            &&& ws[0].limit_id == (if b.limit_id is Some { b.limit_id->0 } else { "codex"@ })
            &&& ws[0].remaining_percent == l.remaining_percent
            &&& ws[0].used_percent + l.remaining_percent == 100
            &&& ws[0].key == ws[0].limit_id + seq![':'] + "individual"@
            &&& ws[0].limit_name == Some(
                if b.limit_name is Some && b.limit_name->0.len() > 0 {
                    b.limit_name->0
                } else {
                    "Monthly usage limit"@
                },
            )
            &&& ws[0].window_duration_mins == 0
            &&& ws[0].plan_type == plan
            &&& ws[0].limit_amount == l.limit_amount
            &&& ws[0].used_amount == l.used_amount
            &&& l.resets_at > 1_000_000_000_000 ==> ws[0].resets_at == l.resets_at
            &&& l.resets_at <= 1_000_000_000_000 ==> ws[0].resets_at == l.resets_at * 1000
        }),
{
}

/// Law: a reply that has no buckets by limit id and whose single `rateLimits` bucket has
/// no account usage limit shows that bucket's time windows, `primary` first and then
/// `secondary`, each where reported and each as the server reported it: its used
/// percentage (and the rest as remaining), its length in minutes, and its reset time in
/// milliseconds.
pub proof fn law_single_bucket_time_windows(doc: LimitsDocView, plan: Option<Seq<char>>)
    requires
        doc.wf(),
        doc.rate_limits_by_limit_id is None,
        doc.rate_limits matches Some(b) && b.individual_limit is None,
    ensures
        ({
            let b = doc.rate_limits->0;
            let ws = limits_windows(doc, plan);
            let id = if b.limit_id is Some { b.limit_id->0 } else { "codex"@ };
            let n = (if b.primary is Some { 1int } else { 0 });
            &&& ws.len() == n + (if b.secondary is Some { 1int } else { 0 })
            &&& b.primary matches Some(w) ==> shows_reported_window(ws[0], id, b.limit_name, "primary"@, w, plan)
            &&& b.secondary matches Some(w) ==> shows_reported_window(ws[n], id, b.limit_name, "secondary"@, w, plan)
        }),
{
    let b = doc.rate_limits->0;
    assert(b.wf());
    let id = if b.limit_id is Some { b.limit_id->0 } else { "codex"@ };
    let ws = limits_windows(doc, plan);
    assert(ws == bucket_windows(id, b, plan));
    if b.primary is Some {
        assert(ws[0] == bucket_window(id, b.limit_name, "primary"@, b.primary->0, plan));
    }
    if b.secondary is Some {
        let n = (if b.primary is Some { 1int } else { 0 });
        assert(ws[n] == bucket_window(id, b.limit_name, "secondary"@, b.secondary->0, plan));
    }
}

/// `v` is the time window `w` of kind `kind` reported in the bucket `limit_id` named
/// `limit_name`, read field by field: key `limit_id:kind`, the reported used percentage
/// with the rest as remaining, the reported length in minutes, the reset time in
/// milliseconds (seconds up to 10^12 are multiplied by 1000), and no amounts.
pub open spec fn shows_reported_window(
    v: QuotaWindowView,
    limit_id: Seq<char>,
    limit_name: Option<Seq<char>>,
    kind: Seq<char>,
    w: WindowDoc,
    plan: Option<Seq<char>>,
) -> bool {
    &&& v.key == limit_id + seq![':'] + kind
    &&& v.limit_id == limit_id
    &&& v.limit_name == limit_name
    &&& v.kind == kind
    &&& v.used_percent == w.used_percent
    &&& v.used_percent + v.remaining_percent == 100
    &&& v.window_duration_mins == w.window_duration_mins
    &&& w.resets_at > 1_000_000_000_000 ==> v.resets_at == w.resets_at
    &&& w.resets_at <= 1_000_000_000_000 ==> v.resets_at == w.resets_at * 1000
    &&& v.plan_type == plan
    &&& v.limit_amount is None
    &&& v.used_amount is None
}

/// Law: without account usage limits, each `primary` and `secondary` window that a bucket
/// by limit id reports is shown under that bucket's limit id, as the server reported it
/// (see [`shows_reported_window`]).
pub proof fn law_time_windows_as_reported(doc: LimitsDocView, plan: Option<Seq<char>>, i: int)
    requires
        doc.wf(),
        doc.rate_limits_by_limit_id matches Some(entries) && !has_individual_limit(entries) && 0
            <= i < entries.len(),
    ensures
        ({
            let e = doc.rate_limits_by_limit_id->0[i];
            let ws = limits_windows(doc, plan);
            &&& e.1.primary matches Some(w) ==> exists|k: int|
                0 <= k < ws.len() && shows_reported_window(#[trigger] ws[k], e.0, e.1.limit_name, "primary"@, w, plan)
            &&& e.1.secondary matches Some(w) ==> exists|k: int|
                0 <= k < ws.len() && shows_reported_window(#[trigger] ws[k], e.0, e.1.limit_name, "secondary"@, w, plan)
        }),
{
    let entries = doc.rate_limits_by_limit_id->0;
    let e = entries[i];
    assert(e.1.wf());
    let ws = limits_windows(doc, plan);
    let bw = windows_of_bucket(e.0, e.1, false, plan);
    assert(ws == entries_windows(entries, false, plan));
    if e.1.primary is Some {
        lemma_bucket_windows_kept(entries, false, plan, i, 0);
        let k = choose|k: int| 0 <= k < ws.len() && #[trigger] ws[k] == bw[0];
        assert(bw[0] == bucket_window(e.0, e.1.limit_name, "primary"@, e.1.primary->0, plan));
        assert(shows_reported_window(ws[k], e.0, e.1.limit_name, "primary"@, e.1.primary->0, plan));
    }
    if e.1.secondary is Some {
        let j = if e.1.primary is Some { 1int } else { 0 };
        lemma_bucket_windows_kept(entries, false, plan, i, j);
        let k = choose|k: int| 0 <= k < ws.len() && #[trigger] ws[k] == bw[j];
        assert(bw[j] == bucket_window(e.0, e.1.limit_name, "secondary"@, e.1.secondary->0, plan));
        assert(shows_reported_window(ws[k], e.0, e.1.limit_name, "secondary"@, e.1.secondary->0, plan));
    }
}

/// Law: where some bucket by limit id has an account usage limit, each bucket's limit is
/// shown under that bucket's limit id with the limit's remaining percentage and the rest
/// as used.
pub proof fn law_account_limits_as_reported(doc: LimitsDocView, plan: Option<Seq<char>>, i: int)
    requires
        doc.wf(),
        doc.rate_limits_by_limit_id matches Some(entries) && 0 <= i < entries.len()
            && entries[i].1.individual_limit is Some,
    ensures
        ({
            let e = doc.rate_limits_by_limit_id->0[i];
            let l = e.1.individual_limit->0;
            let ws = limits_windows(doc, plan);
            exists|k: int|
                0 <= k < ws.len() && shows_reported_limit(#[trigger] ws[k], e.0, e.1.limit_name, l, plan)
        }),
{
    let entries = doc.rate_limits_by_limit_id->0;
    let e = entries[i];
    assert(e.1.wf());
    assert(has_individual_limit(entries));
    let ws = limits_windows(doc, plan);
    let bw = windows_of_bucket(e.0, e.1, true, plan);
    lemma_bucket_windows_kept(entries, true, plan, i, 0);
    let k = choose|k: int| 0 <= k < ws.len() && #[trigger] ws[k] == bw[0];
    assert(bw[0] == individual_window(e.0, e.1.limit_name, e.1.individual_limit->0, plan));
    assert(shows_reported_limit(ws[k], e.0, e.1.limit_name, e.1.individual_limit->0, plan));
}

/// `v` is the account usage limit `l` reported in the bucket `limit_id` named
/// `limit_name`, read field by field: key `limit_id:individual`, the bucket's name where
/// given and not empty (else `Monthly usage limit`), the reported remaining percentage with
/// the rest as used, no window length, the reset time in milliseconds (seconds up to
/// 10^12 are multiplied by 1000), and the reported amounts.
pub open spec fn shows_reported_limit(
    v: QuotaWindowView,
    limit_id: Seq<char>,
    limit_name: Option<Seq<char>>,
    l: IndividualLimitDoc,
    plan: Option<Seq<char>>,
) -> bool {
    &&& v.key == limit_id + seq![':'] + "individual"@
    &&& v.limit_id == limit_id
    &&& v.limit_name == Some(
        if limit_name is Some && limit_name->0.len() > 0 {
            limit_name->0
        } else {
            "Monthly usage limit"@
        },
    )
    &&& v.kind == "individual"@
    &&& v.remaining_percent == l.remaining_percent
    &&& v.used_percent + v.remaining_percent == 100
    &&& v.window_duration_mins == 0
    &&& l.resets_at > 1_000_000_000_000 ==> v.resets_at == l.resets_at
    &&& l.resets_at <= 1_000_000_000_000 ==> v.resets_at == l.resets_at * 1000
    &&& v.plan_type == plan
    &&& v.limit_amount == l.limit_amount
    &&& v.used_amount == l.used_amount
}

/// Law: a signed-in account's quota is read exactly for the account types `chatgpt`,
/// `chatgptAuthTokens`, `personalAccessToken` and `agentIdentity`.
pub proof fn law_supported_account_types(t: Seq<char>)
    ensures
        supported_account_type(t) <==> (t == "chatgpt"@ || t == "chatgptAuthTokens"@ || t
            == "personalAccessToken"@ || t == "agentIdentity"@),
        supported_account_type("chatgpt"@),
        supported_account_type("chatgptAuthTokens"@),
        supported_account_type("personalAccessToken"@),
        supported_account_type("agentIdentity"@),
{
}

} // verus!
