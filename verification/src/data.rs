//! Status-line records and the store of live sessions.
use vstd::prelude::*;
use std::collections::VecDeque;
use crate::model::{model_rank, model_rank_of};
use crate::text::str_eq;
use crate::clock::unix_now_secs;

verus! {

/// How many usage samples a session keeps for its chart.
pub const MAX_HISTORY_SAMPLES: usize = 21;

/// Seconds without an update of its session file after which a session is
/// dropped.
pub const STALE_THRESHOLD_SECS: u64 = 120;

/// The `context_window` part of a status-line record.
#[derive(Debug, Clone)]
pub struct ContextWindow {
    pub used_percentage: Option<u32>,
    pub remaining_percentage: Option<u32>,
    pub context_window_size: u32,
    pub total_input_tokens: u32,
    pub total_output_tokens: u32,
}

/// The `model` part of a status-line record.
#[derive(Debug, Clone)]
pub struct Model {
    pub id: String,
    pub display_name: String,
}

/// The `cost` part of a status-line record. The dollar amount is carried as
/// the bit pattern of its IEEE-754 double (`f64::to_bits`); the library only
/// passes it on.
#[derive(Debug, Clone)]
pub struct Cost {
    pub total_cost_usd_bits: u64,
    pub total_duration_ms: u64,
}

/// One status-line record, as written for a session on every reply.
#[derive(Debug, Clone)]
pub struct StatusLineData {
    pub context_window: ContextWindow,
    pub model: Model,
    pub session_id: String,
    pub cost: Cost,
}

/// What the store knows of one session. The cost is the bit pattern of an
/// IEEE-754 double; the history holds usage percentages, oldest first.
#[derive(Debug, Clone)]
pub struct SessionData {
    pub session_id: String,
    pub project_dir: String,
    pub model_name: String,
    pub context_used_percent: u32,
    pub cost_usd_bits: u64,
    pub duration_ms: u64,
    pub peak_usage_percent: u32,
    pub subagent_completed_count: u32,
    pub last_updated_at: u64,
    pub usage_history: VecDeque<u32>,
}

/// The mathematical value of a [`SessionData`].
pub ghost struct SessionView {
    pub session_id: Seq<char>,
    pub project_dir: Seq<char>,
    pub model_name: Seq<char>,
    pub context_used_percent: u32,
    pub cost_usd_bits: u64,
    pub duration_ms: u64,
    pub peak_usage_percent: u32,
    pub subagent_completed_count: u32,
    pub last_updated_at: u64,
    pub usage_history: Seq<u32>,
}

impl View for SessionData {
    type V = SessionView;

    open spec fn view(&self) -> SessionView {
        SessionView {
            session_id: self.session_id@,
            project_dir: self.project_dir@,
            model_name: self.model_name@,
            context_used_percent: self.context_used_percent,
            cost_usd_bits: self.cost_usd_bits,
            duration_ms: self.duration_ms,
            peak_usage_percent: self.peak_usage_percent,
            subagent_completed_count: self.subagent_completed_count,
            last_updated_at: self.last_updated_at,
            usage_history: self.usage_history@,
        }
    }
}

/// The usage percentage a record reports, 0 when it reports none.
pub open spec fn reported_usage(status: StatusLineData) -> u32 {
    match status.context_window.used_percentage {
        Some(u) => u,
        None => 0,
    }
}

/// The larger of two percentages.
pub open spec fn max_percent(a: u32, b: u32) -> u32 {
    if b > a {
        b
    } else {
        a
    }
}

/// A history after one more sample: appended at the back, and the oldest
/// sample dropped when that makes it longer than [`MAX_HISTORY_SAMPLES`].
pub open spec fn bounded_push(history: Seq<u32>, sample: u32) -> Seq<u32> {
    let pushed = history.push(sample);
    if pushed.len() > MAX_HISTORY_SAMPLES {
        pushed.subrange(1, pushed.len() as int)
    } else {
        pushed
    }
}

/// No two sessions share an id.
pub open spec fn ids_unique(s: Seq<SessionView>) -> bool {
    forall|i: int, j: int|
        0 <= i < s.len() && 0 <= j < s.len() && i != j ==> #[trigger] s[i].session_id
            != #[trigger] s[j].session_id
}

/// Where the session with id `id` stands, if there is one.
pub open spec fn index_of(s: Seq<SessionView>, id: Seq<char>) -> Option<int> {
    if exists|i: int| 0 <= i < s.len() && #[trigger] s[i].session_id == id {
        Some(choose|i: int| 0 <= i < s.len() && #[trigger] s[i].session_id == id)
    } else {
        None
    }
}

/// The session with id `id`, if there is one.
pub open spec fn lookup(s: Seq<SessionView>, id: Seq<char>) -> Option<SessionView> {
    match index_of(s, id) {
        Some(i) => Some(s[i]),
        None => None,
    }
}

/// A known session after a status-line record: model, usage, cost, duration
/// and time are replaced, the peak is raised to the usage if that is higher,
/// and the usage joins the history; id, project and agent count stay.
pub open spec fn refreshed_by_status(old: SessionView, status: StatusLineData, now: u64) -> SessionView {
    let used = reported_usage(status);
    SessionView {
        session_id: old.session_id,
        project_dir: old.project_dir,
        model_name: status.model.display_name@,
        context_used_percent: used,
        cost_usd_bits: status.cost.total_cost_usd_bits,
        duration_ms: status.cost.total_duration_ms,
        peak_usage_percent: max_percent(old.peak_usage_percent, used),
        subagent_completed_count: old.subagent_completed_count,
        last_updated_at: now,
        usage_history: bounded_push(old.usage_history, used),
    }
}

/// A session first seen in a status-line record.
pub open spec fn created_by_status(status: StatusLineData, project_dir: Seq<char>, now: u64) -> SessionView {
    let used = reported_usage(status);
    SessionView {
        session_id: status.session_id@,
        project_dir: project_dir,
        model_name: status.model.display_name@,
        context_used_percent: used,
        cost_usd_bits: status.cost.total_cost_usd_bits,
        duration_ms: status.cost.total_duration_ms,
        peak_usage_percent: used,
        subagent_completed_count: 0,
        last_updated_at: now,
        usage_history: seq![used],
    }
}

/// The sessions after a status-line record arrived at time `now`.
pub open spec fn apply_status(
    s: Seq<SessionView>,
    status: StatusLineData,
    project_dir: Seq<char>,
    now: u64,
) -> Seq<SessionView> {
    match index_of(s, status.session_id@) {
        Some(i) => s.update(i, refreshed_by_status(s[i], status, now)),
        None => s.push(created_by_status(status, project_dir, now)),
    }
}

/// A known session after a directly supplied record: usage, cost, duration
/// and time are replaced, the peak is raised to the usage if that is higher,
/// and the usage joins the history; id, project, model and agent count stay.
pub open spec fn refreshed_by_session(old: SessionView, new: SessionView, now: u64) -> SessionView {
    SessionView {
        session_id: old.session_id,
        project_dir: old.project_dir,
        model_name: old.model_name,
        context_used_percent: new.context_used_percent,
        cost_usd_bits: new.cost_usd_bits,
        duration_ms: new.duration_ms,
        peak_usage_percent: max_percent(old.peak_usage_percent, new.context_used_percent),
        subagent_completed_count: old.subagent_completed_count,
        last_updated_at: now,
        usage_history: bounded_push(old.usage_history, new.context_used_percent),
    }
}

/// A directly supplied record that is new to the store: stamped with `now`,
/// with its own usage joining its own history.
pub open spec fn inserted_session(new: SessionView, now: u64) -> SessionView {
    SessionView {
        session_id: new.session_id,
        project_dir: new.project_dir,
        model_name: new.model_name,
        context_used_percent: new.context_used_percent,
        cost_usd_bits: new.cost_usd_bits,
        duration_ms: new.duration_ms,
        peak_usage_percent: new.peak_usage_percent,
        subagent_completed_count: new.subagent_completed_count,
        last_updated_at: now,
        usage_history: bounded_push(new.usage_history, new.context_used_percent),
    }
}

/// The sessions after a directly supplied record arrived at time `now`.
pub open spec fn apply_session(s: Seq<SessionView>, new: SessionView, now: u64) -> Seq<SessionView> {
    match index_of(s, new.session_id) {
        Some(i) => s.update(i, refreshed_by_session(s[i], new, now)),
        None => s.push(inserted_session(new, now)),
    }
}

/// The sessions without the one with id `id`.
pub open spec fn without_session(s: Seq<SessionView>, id: Seq<char>) -> Seq<SessionView> {
    match index_of(s, id) {
        Some(i) => s.remove(i),
        None => s,
    }
}

/// The sessions whose model is of rank `rank`, in their order.
pub open spec fn of_rank(s: Seq<SessionView>, rank: nat) -> Seq<SessionView>
    decreases s.len(),
{
    if s.len() == 0 {
        Seq::empty()
    } else {
        let rest = of_rank(s.drop_last(), rank);
        if model_rank(s.last().model_name) == rank {
            rest.push(s.last())
        } else {
            rest
        }
    }
}

/// The sessions ordered by model, Opus first, then Sonnet, Haiku and the
/// rest; sessions of one model keep their order.
pub open spec fn by_model(s: Seq<SessionView>) -> Seq<SessionView> {
    of_rank(s, 0) + of_rank(s, 1) + of_rank(s, 2) + of_rank(s, 3)
}

/// The sessions of the ranks below `r`, rank by rank.
pub open spec fn ranks_below(s: Seq<SessionView>, r: nat) -> Seq<SessionView>
    decreases r,
{
    if r == 0 {
        Seq::empty()
    } else {
        ranks_below(s, (r - 1) as nat) + of_rank(s, (r - 1) as nat)
    }
}

/// What is known of a session's file.
#[derive(Debug, Clone, Copy)]
pub enum FileStatus {
    /// The file does not exist or cannot be read.
    Missing,
    /// The file exists but has no readable modification time.
    MtimeUnavailable,
    /// The modification time lies after the current time.
    ModifiedInFuture,
    /// The file was last modified this many whole seconds ago.
    Age(u64),
}

/// Whether a session whose file has status `status` is still live.
pub open spec fn is_fresh(status: FileStatus, threshold_secs: u64) -> bool {
    match status {
        FileStatus::Missing => false,
        FileStatus::MtimeUnavailable => false,
        FileStatus::ModifiedInFuture => true,
        FileStatus::Age(secs) => secs < threshold_secs,
    }
}

/// The sessions whose file status (given in the same order) is fresh.
pub open spec fn keep_fresh(s: Seq<SessionView>, statuses: Seq<FileStatus>, threshold_secs: u64) -> Seq<SessionView>
    decreases s.len(),
{
    if s.len() == 0 || statuses.len() == 0 {
        Seq::empty()
    } else {
        let rest = keep_fresh(s.drop_last(), statuses.drop_last(), threshold_secs);
        if is_fresh(statuses.last(), threshold_secs) {
            rest.push(s.last())
        } else {
            rest
        }
    }
}

/// Whether a session whose file has status `status` is still live: a missing
/// file or an unreadable modification time means stale, a modification time
/// in the future means live, and otherwise the file must be younger than
/// `threshold_secs`.
pub fn file_is_fresh(status: &FileStatus, threshold_secs: u64) -> (r: bool)
    ensures
        r == is_fresh(*status, threshold_secs),
        *status matches FileStatus::Age(a) ==> (r <==> a < threshold_secs),
        *status is Missing ==> !r,
        *status is MtimeUnavailable ==> !r,
        *status is ModifiedInFuture ==> r,
{
    match status {
        FileStatus::Missing => false,
        FileStatus::MtimeUnavailable => false,
        FileStatus::ModifiedInFuture => true,
        FileStatus::Age(secs) => *secs < threshold_secs,
    }
}

/// A copy of a usage history.
fn copy_history(h: &VecDeque<u32>) -> (r: VecDeque<u32>)
    ensures
        r@ == h@,
{
    let mut r: VecDeque<u32> = VecDeque::new();
    let n = h.len();
    let mut i: usize = 0;
    while i < n
        invariant
            n == h@.len(),
            i <= n,
            r@ == h@.take(i as int),
        decreases n - i,
    {
        r.push_back(h[i]);
        assert(r@ =~= h@.take(i + 1));
        i = i + 1;
    }
    assert(r@ =~= h@);
    r
}

/// Appends a sample to a history, dropping the oldest when it grows past
/// [`MAX_HISTORY_SAMPLES`].
fn push_bounded(h: &mut VecDeque<u32>, sample: u32)
    ensures
        final(h)@ == bounded_push(old(h)@, sample),
{
    h.push_back(sample);
    if h.len() > MAX_HISTORY_SAMPLES {
        let _ = h.pop_front();
    }
}

impl SessionData {
    /// A copy of this session.
    pub fn duplicate(&self) -> (r: SessionData)
        ensures
            r@ == self@,
    {
        SessionData {
            session_id: self.session_id.clone(),
            project_dir: self.project_dir.clone(),
            model_name: self.model_name.clone(),
            context_used_percent: self.context_used_percent,
            cost_usd_bits: self.cost_usd_bits,
            duration_ms: self.duration_ms,
            peak_usage_percent: self.peak_usage_percent,
            subagent_completed_count: self.subagent_completed_count,
            last_updated_at: self.last_updated_at,
            usage_history: copy_history(&self.usage_history),
        }
    }
}

} // verus!

verus! {

/// The live sessions, at most one per session id.
pub struct SessionStore {
    sessions: Vec<SessionData>,
}

impl View for SessionStore {
    type V = Seq<SessionView>;

    closed spec fn view(&self) -> Seq<SessionView> {
        self.sessions@.map_values(|s: SessionData| s@)
    }
}

/// Replacing a session by one with the same id keeps the ids distinct.
pub proof fn lemma_unique_update(s: Seq<SessionView>, k: int, v: SessionView)
    requires
        ids_unique(s),
        0 <= k < s.len(),
        v.session_id == s[k].session_id,
    ensures
        ids_unique(s.update(k, v)),
{
    let t = s.update(k, v);
    assert forall|i: int, j: int|
        0 <= i < t.len() && 0 <= j < t.len() && i != j implies #[trigger] t[i].session_id
            != #[trigger] t[j].session_id by {
        assert(t[i].session_id == s[i].session_id);
        assert(t[j].session_id == s[j].session_id);
    }
}

/// Adding a session whose id is not yet present keeps the ids distinct.
pub proof fn lemma_unique_push(s: Seq<SessionView>, v: SessionView)
    requires
        ids_unique(s),
        index_of(s, v.session_id) is None,
    ensures
        ids_unique(s.push(v)),
{
    let t = s.push(v);
    assert forall|i: int, j: int|
        0 <= i < t.len() && 0 <= j < t.len() && i != j implies #[trigger] t[i].session_id
            != #[trigger] t[j].session_id by {
        if i < s.len() {
            assert(t[i] == s[i]);
        }
        if j < s.len() {
            assert(t[j] == s[j]);
        }
    }
}

/// Removing a session keeps the ids distinct.
pub proof fn lemma_unique_remove(s: Seq<SessionView>, k: int)
    requires
        ids_unique(s),
        0 <= k < s.len(),
    ensures
        ids_unique(s.remove(k)),
{
    let t = s.remove(k);
    assert forall|i: int, j: int|
        0 <= i < t.len() && 0 <= j < t.len() && i != j implies #[trigger] t[i].session_id
            != #[trigger] t[j].session_id by {
        let si = if i < k { i } else { i + 1 };
        let sj = if j < k { j } else { j + 1 };
        assert(t[i] == s[si]);
        assert(t[j] == s[sj]);
    }
}

/// With distinct ids, the session that carries `id` is the one `index_of` finds.
pub proof fn lemma_index_of(s: Seq<SessionView>, id: Seq<char>, k: int)
    requires
        ids_unique(s),
        0 <= k < s.len(),
        s[k].session_id == id,
    ensures
        index_of(s, id) == Some(k),
{
    let i = choose|i: int| 0 <= i < s.len() && #[trigger] s[i].session_id == id;
    assert(s[i].session_id == s[k].session_id);
}

impl SessionStore {
    #[verifier::type_invariant]
    spec fn inv(self) -> bool {
        ids_unique(self@)
    }

    /// States the store's invariant: no two sessions share an id. It does
    /// nothing at run time; its use is the guarantee, which the laws of the
    /// store take as their premise.
    pub fn ids_are_distinct(&self)
        ensures
            ids_unique(self@),
    {
        proof {
            use_type_invariant(self);
        }
    }

    /// An empty store.
    pub fn new() -> (s: SessionStore)
        ensures
            s@ == Seq::<SessionView>::empty(),
    {
        let s = SessionStore { sessions: Vec::new() };
        assert(s@ =~= Seq::<SessionView>::empty());
        s
    }

    /// The number of sessions.
    pub fn session_count(&self) -> (n: usize)
        ensures
            n == self@.len(),
    {
        self.sessions.len()
    }

    /// Where the session with id `id` stands.
    fn position(&self, id: &str) -> (r: Option<usize>)
        ensures
            match r {
                Some(k) => k < self@.len() && index_of(self@, id@) == Some(k as int),
                None => index_of(self@, id@) is None,
            },
    {
        proof {
            use_type_invariant(self);
        }
        let n = self.sessions.len();
        let mut k: usize = 0;
        while k < n
            invariant
                n == self.sessions@.len(),
                n == self@.len(),
                k <= n,
                forall|j: int| 0 <= j < k ==> self@[j].session_id != id@,
                self@ == self.sessions@.map_values(|s: SessionData| s@),
                ids_unique(self@),
            decreases n - k,
        {
            if str_eq(self.sessions[k].session_id.as_str(), id) {
                proof {
                    assert(self@[k as int] == self.sessions@[k as int]@);
                    lemma_index_of(self@, id@, k as int);
                }
                return Some(k);
            }
            assert(self@[k as int] == self.sessions@[k as int]@);
            k = k + 1;
        }
        assert(!(exists|i: int| 0 <= i < self@.len() && #[trigger] self@[i].session_id == id@));
        None
    }

    /// Records a status-line record that arrived at time `now` (seconds since
    /// the Unix epoch): a known session is refreshed, an unknown one is added
    /// with `project_dir`.
    pub fn update_from_status_line_at(&mut self, status: StatusLineData, project_dir: String, now: u64)
        ensures
            final(self)@ == apply_status(old(self)@, status, project_dir@, now),
    {
        proof {
            use_type_invariant(&*self);
        }
        let ghost old_view = self@;
        let ghost st = status;
        let used: u32 = match status.context_window.used_percentage {
            Some(u) => u,
            None => 0,
        };
        let pos = self.position(status.session_id.as_str());
        let mut sessions: Vec<SessionData> = Vec::new();
        std::mem::swap(&mut sessions, &mut self.sessions);
        assert(old_view == sessions@.map_values(|s: SessionData| s@));
        match pos {
            Some(k) => {
                let cur = &sessions[k];
                let mut hist = copy_history(&cur.usage_history);
                push_bounded(&mut hist, used);
                let peak = if used > cur.peak_usage_percent {
                    used
                } else {
                    cur.peak_usage_percent
                };
                let updated = SessionData {
                    session_id: cur.session_id.clone(),
                    project_dir: cur.project_dir.clone(),
                    model_name: status.model.display_name,
                    context_used_percent: used,
                    cost_usd_bits: status.cost.total_cost_usd_bits,
                    duration_ms: status.cost.total_duration_ms,
                    peak_usage_percent: peak,
                    subagent_completed_count: cur.subagent_completed_count,
                    last_updated_at: now,
                    usage_history: hist,
                };
                assert(updated@ == refreshed_by_status(old_view[k as int], st, now));
                sessions.set(k, updated);
                proof {
                    let nv = sessions@.map_values(|s: SessionData| s@);
                    assert(nv =~= old_view.update(k as int, refreshed_by_status(old_view[k as int], st, now)));
                    assert(index_of(old_view, st.session_id@) == Some(k as int));
                    lemma_unique_update(old_view, k as int, refreshed_by_status(old_view[k as int], st, now));
                }
            },
            None => {
                let mut hist: VecDeque<u32> = VecDeque::new();
                hist.push_back(used);
                let created = SessionData {
                    session_id: status.session_id,
                    project_dir: project_dir,
                    model_name: status.model.display_name,
                    context_used_percent: used,
                    cost_usd_bits: status.cost.total_cost_usd_bits,
                    duration_ms: status.cost.total_duration_ms,
                    peak_usage_percent: used,
                    subagent_completed_count: 0,
                    last_updated_at: now,
                    usage_history: hist,
                };
                assert(created@ == created_by_status(st, project_dir@, now)) by {
                    assert(created.usage_history@ =~= seq![used]);
                }
                sessions.push(created);
                proof {
                    let nv = sessions@.map_values(|s: SessionData| s@);
                    assert(nv =~= old_view.push(created_by_status(st, project_dir@, now)));
                    assert(index_of(old_view, st.session_id@) is None);
                    lemma_unique_push(old_view, created_by_status(st, project_dir@, now));
                }
            },
        }
        self.sessions = sessions;
    }

    /// Records a status-line record at the current time (0 when the clock
    /// reads a time before the Unix epoch).
    pub fn update_from_status_line(&mut self, status: StatusLineData, project_dir: String)
        ensures
            exists|now: u64| final(self)@ == apply_status(old(self)@, status, project_dir@, now),
    {
        let now = match unix_now_secs() {
            Some(t) => t,
            None => 0,
        };
        self.update_from_status_line_at(status, project_dir, now);
    }

    /// Records a directly supplied session record at the current time (0 when
    /// the clock reads a time before the Unix epoch).
    pub fn update_session(&mut self, session: SessionData)
        ensures
            exists|now: u64| final(self)@ == apply_session(old(self)@, session@, now),
    {
        let now = match unix_now_secs() {
            Some(t) => t,
            None => 0,
        };
        self.update_session_at(session, now);
    }

    /// Records a directly supplied session record that arrived at time `now`:
    /// a known session takes its usage, cost and duration, an unknown one is
    /// added as given.
    pub fn update_session_at(&mut self, session: SessionData, now: u64)
        ensures
            final(self)@ == apply_session(old(self)@, session@, now),
    {
        proof {
            use_type_invariant(&*self);
        }
        let ghost old_view = self@;
        let ghost new = session@;
        let used = session.context_used_percent;
        let pos = self.position(session.session_id.as_str());
        let mut sessions: Vec<SessionData> = Vec::new();
        std::mem::swap(&mut sessions, &mut self.sessions);
        assert(old_view == sessions@.map_values(|s: SessionData| s@));
        match pos {
            Some(k) => {
                let cur = &sessions[k];
                let mut hist = copy_history(&cur.usage_history);
                push_bounded(&mut hist, used);
                let peak = if used > cur.peak_usage_percent {
                    used
                } else {
                    cur.peak_usage_percent
                };
                let updated = SessionData {
                    session_id: cur.session_id.clone(),
                    project_dir: cur.project_dir.clone(),
                    model_name: cur.model_name.clone(),
                    context_used_percent: used,
                    cost_usd_bits: session.cost_usd_bits,
                    duration_ms: session.duration_ms,
                    peak_usage_percent: peak,
                    subagent_completed_count: cur.subagent_completed_count,
                    last_updated_at: now,
                    usage_history: hist,
                };
                assert(updated@ == refreshed_by_session(old_view[k as int], new, now));
                sessions.set(k, updated);
                proof {
                    let nv = sessions@.map_values(|s: SessionData| s@);
                    assert(nv =~= old_view.update(k as int, refreshed_by_session(old_view[k as int], new, now)));
                    lemma_unique_update(old_view, k as int, refreshed_by_session(old_view[k as int], new, now));
                }
            },
            None => {
                let mut inserted = session;
                inserted.last_updated_at = now;
                push_bounded(&mut inserted.usage_history, used);
                assert(inserted@ == inserted_session(new, now));
                sessions.push(inserted);
                proof {
                    let nv = sessions@.map_values(|s: SessionData| s@);
                    assert(nv =~= old_view.push(inserted_session(new, now)));
                    lemma_unique_push(old_view, inserted_session(new, now));
                }
            },
        }
        self.sessions = sessions;
    }

    /// Drops the session with id `session_id`, if there is one.
    pub fn remove_session(&mut self, session_id: &str)
        ensures
            final(self)@ == without_session(old(self)@, session_id@),
    {
        proof {
            use_type_invariant(&*self);
        }
        let ghost old_view = self@;
        let pos = self.position(session_id);
        if let Some(k) = pos {
            let mut sessions: Vec<SessionData> = Vec::new();
            std::mem::swap(&mut sessions, &mut self.sessions);
            assert(old_view == sessions@.map_values(|s: SessionData| s@));
            let _ = sessions.remove(k);
            proof {
                let nv = sessions@.map_values(|s: SessionData| s@);
                assert(nv =~= old_view.remove(k as int));
                lemma_unique_remove(old_view, k as int);
            }
            self.sessions = sessions;
        }
    }

    /// All sessions, Opus first, then Sonnet, Haiku and the rest (by the
    /// first word of the model name); sessions of one model keep store order.
    pub fn get_all_sessions(&self) -> (out: Vec<SessionData>)
        ensures
            out@.map_values(|s: SessionData| s@) == by_model(self@),
    {
        let ghost sv = self@;
        let n = self.sessions.len();
        let mut out: Vec<SessionData> = Vec::new();
        let mut rank: u8 = 0;
        while rank < 4
            invariant
                n == self.sessions@.len(),
                sv == self@,
                sv == self.sessions@.map_values(|s: SessionData| s@),
                rank <= 4,
                out@.map_values(|s: SessionData| s@) == ranks_below(sv, rank as nat),
            decreases 4 - rank,
        {
            let mut i: usize = 0;
            while i < n
                invariant
                    n == self.sessions@.len(),
                    sv == self.sessions@.map_values(|s: SessionData| s@),
                    rank < 4,
                    i <= n,
                    out@.map_values(|s: SessionData| s@) == ranks_below(sv, rank as nat) + of_rank(
                        sv.take(i as int),
                        rank as nat,
                    ),
                decreases n - i,
            {
                let ghost before = out@;
                assert(sv[i as int] == self.sessions@[i as int]@);
                let r = model_rank_of(self.sessions[i].model_name.as_str());
                if r == rank {
                    out.push(self.sessions[i].duplicate());
                }
                proof {
                    let t = sv.take(i + 1);
                    assert(t.drop_last() =~= sv.take(i as int));
                    assert(t.last() == sv[i as int]);
                    if r == rank {
                        assert(out@ == before.push(out@.last()));
                        assert(out@.map_values(|s: SessionData| s@) =~= before.map_values(
                            |s: SessionData| s@,
                        ).push(sv[i as int]));
                    } else {
                        assert(out@ == before);
                    }
                }
                i = i + 1;
            }
            assert(sv.take(n as int) =~= sv);
            rank = rank + 1;
        }
        assert(ranks_below(sv, 4) =~= by_model(sv)) by {
            reveal_with_fuel(ranks_below, 5);
        }
        out
    }

    /// Drops the sessions whose file is stale. `statuses[i]` describes the
    /// file of the `i`-th session of [`SessionStore::session_ids`]; a session
    /// stays iff [`file_is_fresh`] holds of its status.
    pub fn remove_stale_by_mtime(&mut self, statuses: &Vec<FileStatus>, threshold_secs: u64)
        requires
            statuses@.len() == old(self)@.len(),
        ensures
            final(self)@ == keep_fresh(old(self)@, statuses@, threshold_secs),
    {
        proof {
            use_type_invariant(&*self);
        }
        let ghost sv = self@;
        let mut sessions: Vec<SessionData> = Vec::new();
        std::mem::swap(&mut sessions, &mut self.sessions);
        assert(sv == sessions@.map_values(|s: SessionData| s@));
        let n = sessions.len();
        let mut kept: Vec<SessionData> = Vec::new();
        let mut i: usize = 0;
        while i < n
            invariant
                n == sessions@.len(),
                n == sv.len(),
                n == statuses@.len(),
                sv == sessions@.map_values(|s: SessionData| s@),
                ids_unique(sv),
                i <= n,
                kept@.map_values(|s: SessionData| s@) == keep_fresh(
                    sv.take(i as int),
                    statuses@.take(i as int),
                    threshold_secs,
                ),
                forall|a: int|
                    0 <= a < kept@.len() ==> exists|j: int|
                        0 <= j < i && #[trigger] kept@[a]@ == sv[j],
                ids_unique(kept@.map_values(|s: SessionData| s@)),
            decreases n - i,
        {
            let ghost before = kept@;
            assert(sv[i as int] == sessions@[i as int]@);
            if file_is_fresh(&statuses[i], threshold_secs) {
                kept.push(sessions[i].duplicate());
                proof {
                    assert forall|a: int| 0 <= a < kept@.len() implies exists|j: int|
                        0 <= j < i + 1 && #[trigger] kept@[a]@ == sv[j] by {
                        if a < before.len() {
                            assert(kept@[a] == before[a]);
                        } else {
                            assert(kept@[a]@ == sv[i as int]);
                        }
                    }
                    let bv = before.map_values(|s: SessionData| s@);
                    assert(kept@.map_values(|s: SessionData| s@) =~= bv.push(sv[i as int]));
                    assert forall|a: int| 0 <= a < bv.len() implies #[trigger] bv[a].session_id
                        != sv[i as int].session_id by {
                        assert(bv[a] == before[a]@);
                        let j = choose|j: int| 0 <= j < i && #[trigger] before[a]@ == sv[j];
                    }
                    assert(index_of(bv, sv[i as int].session_id) is None);
                    lemma_unique_push(bv, sv[i as int]);
                }
            }
            proof {
                let t = sv.take(i + 1);
                let u = statuses@.take(i + 1);
                assert(t.drop_last() =~= sv.take(i as int));
                assert(u.drop_last() =~= statuses@.take(i as int));
                assert(t.last() == sv[i as int]);
                assert(u.last() == statuses@[i as int]);
            }
            i = i + 1;
        }
        assert(sv.take(n as int) =~= sv);
        assert(statuses@.take(n as int) =~= statuses@);
        self.sessions = kept;
    }

    /// The session ids, in store order.
    pub fn session_ids(&self) -> (ids: Vec<String>)
        ensures
            ids@.len() == self@.len(),
            forall|i: int| 0 <= i < ids@.len() ==> #[trigger] ids@[i]@ == self@[i].session_id,
    {
        let n = self.sessions.len();
        let mut ids: Vec<String> = Vec::new();
        let mut i: usize = 0;
        while i < n
            invariant
                n == self.sessions@.len(),
                n == self@.len(),
                i <= n,
                ids@.len() == i,
                self@ == self.sessions@.map_values(|s: SessionData| s@),
                forall|j: int| 0 <= j < i ==> #[trigger] ids@[j]@ == self@[j].session_id,
            decreases n - i,
        {
            assert(self@[i as int] == self.sessions@[i as int]@);
            ids.push(self.sessions[i].session_id.clone());
            i = i + 1;
        }
        ids
    }
}

} // verus!

verus! {

impl Default for SessionStore {
    fn default() -> (s: SessionStore)
        ensures
            s@ == Seq::<SessionView>::empty(),
    {
        SessionStore::new()
    }
}

} // verus!
