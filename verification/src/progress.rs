//! Progress of SQL-file executions: which progress is final, the store of
//! final progress that late subscribers read, and the decisions of the
//! progress stream.
use crate::error::{AppError, ErrorKind};
use crate::registry::Registry;
use vstd::prelude::*;

verus! {

/// How long, in nanoseconds, a final progress stays readable after it was stored.
pub const TERMINAL_PROGRESS_TTL_NS: u64 = 300000000000;

/// How long, in nanoseconds, a subscriber waits for an execution to appear.
pub const CHANNEL_WAIT_TIMEOUT_NS: u64 = 30000000000;

/// The pause, in nanoseconds, between two looks for an execution.
pub const CHANNEL_POLL_INTERVAL_NS: u64 = 100000000;

/// The state of an SQL-file execution as its progress reports it.
#[derive(Clone, Copy, Debug, PartialEq, Eq, Structural)]
pub enum SqlFileStatus {
    Started,
    Running,
    Done,
    Error,
    Cancelled,
}

/// One progress report of an SQL-file execution.
#[derive(Debug)]
pub struct SqlFileProgress {
    pub execution_id: String,
    pub status: SqlFileStatus,
    pub statement_index: u64,
    pub success_count: u64,
    pub failure_count: u64,
    pub affected_rows: u64,
    pub elapsed_ms: u64,
    pub statement_summary: String,
    pub error: Option<String>,
}

impl Clone for SqlFileProgress {
    fn clone(&self) -> (r: Self)
        ensures
            r == *self,
    {
        let error = match &self.error {
            Some(e) => Some(e.clone()),
            None => None,
        };
        SqlFileProgress {
            execution_id: self.execution_id.clone(),
            status: self.status,
            statement_index: self.statement_index,
            success_count: self.success_count,
            failure_count: self.failure_count,
            affected_rows: self.affected_rows,
            elapsed_ms: self.elapsed_ms,
            statement_summary: self.statement_summary.clone(),
            error,
        }
    }
}

impl SqlFileProgress {
    /// The report of an execution that has started: nothing executed yet.
    pub fn started(execution_id: &String, elapsed_ms: u64) -> (r: SqlFileProgress)
        ensures
            r.execution_id@ == execution_id@,
            r.status == SqlFileStatus::Started,
            r.statement_index == 0 && r.success_count == 0 && r.failure_count == 0,
            r.affected_rows == 0,
            r.elapsed_ms == elapsed_ms,
            r.statement_summary@ == Seq::<char>::empty(),
            r.error is None,
    {
        SqlFileProgress {
            execution_id: execution_id.clone(),
            status: SqlFileStatus::Started,
            statement_index: 0,
            success_count: 0,
            failure_count: 0,
            affected_rows: 0,
            elapsed_ms,
            statement_summary: String::new(),
            error: None,
        }
    }

    /// The report of an execution that failed with `message` before or
    /// outside its statements.
    pub fn failed(execution_id: &String, elapsed_ms: u64, message: String) -> (r: SqlFileProgress)
        ensures
            r.execution_id@ == execution_id@,
            r.status == SqlFileStatus::Error,
            is_terminal(r.status),
            r.statement_index == 0 && r.success_count == 0 && r.failure_count == 0,
            r.affected_rows == 0,
            r.elapsed_ms == elapsed_ms,
            r.statement_summary@ == Seq::<char>::empty(),
            r.error == Some(message),
    {
        SqlFileProgress {
            execution_id: execution_id.clone(),
            status: SqlFileStatus::Error,
            statement_index: 0,
            success_count: 0,
            failure_count: 0,
            affected_rows: 0,
            elapsed_ms,
            statement_summary: String::new(),
            error: Some(message),
        }
    }
}

/// A final progress and the time (nanoseconds on the server's monotonic
/// clock) at which it was stored.
#[derive(Debug)]
pub struct StoredProgress {
    pub progress: SqlFileProgress,
    pub stored_at_ns: u64,
}

/// The statuses after which an execution reports nothing more.
pub open spec fn is_terminal(status: SqlFileStatus) -> bool {
    status == SqlFileStatus::Done || status == SqlFileStatus::Error || status
        == SqlFileStatus::Cancelled
}

/// Whether `status` ends an execution.
pub fn is_terminal_status(status: SqlFileStatus) -> (r: bool)
    ensures
        r == is_terminal(status),
        status == SqlFileStatus::Started ==> !r,
        status == SqlFileStatus::Running ==> !r,
        status == SqlFileStatus::Done ==> r,
        status == SqlFileStatus::Error ==> r,
        status == SqlFileStatus::Cancelled ==> r,
{
    match status {
        SqlFileStatus::Done | SqlFileStatus::Error | SqlFileStatus::Cancelled => true,
        _ => false,
    }
}

/// The reports of a running execution (its start and its progress) are not
/// final; each of its three outcomes (done, failed, cancelled) is. So a
/// subscriber that arrives while an execution runs follows the live
/// channel, and every way an execution ends leaves its report for late
/// subscribers.
pub proof fn lemma_final_statuses(status: SqlFileStatus)
    ensures
        is_terminal(status) <==> !(status == SqlFileStatus::Started || status
            == SqlFileStatus::Running),
        status == SqlFileStatus::Cancelled ==> is_terminal(status),
        status == SqlFileStatus::Done ==> is_terminal(status),
        status == SqlFileStatus::Error ==> is_terminal(status),
{
}

/// Time elapsed from `since` to `now`, zero when the clock reads earlier.
pub open spec fn elapsed_ns(since: u64, now: u64) -> nat {
    if now >= since {
        (now - since) as nat
    } else {
        0
    }
}

/// A stored progress is still readable at `now`.
pub open spec fn is_fresh(entry: StoredProgress, now: u64) -> bool {
    elapsed_ns(entry.stored_at_ns, now) <= TERMINAL_PROGRESS_TTL_NS
}

/// The store as it stands after the expired entries are dropped.
pub open spec fn fresh_part(store: Map<Seq<char>, StoredProgress>, now: u64) -> Map<
    Seq<char>,
    StoredProgress,
> {
    store.restrict(store.dom().filter(|k: Seq<char>| is_fresh(store[k], now)))
}

/// Records `progress` in the store of final progress when its status is
/// final (replacing an earlier entry of the same execution), stamped `now_ns`.
/// Answers whether it was recorded. A progress is recorded before it is
/// broadcast, so a subscriber that misses the broadcast finds it here.
pub fn record_terminal_progress(
    store: &mut Registry<StoredProgress>,
    progress: &SqlFileProgress,
    now_ns: u64,
) -> (recorded: bool)
    requires
        old(store).wf(),
    ensures
        final(store).wf(),
        recorded == is_terminal(progress.status),
        progress.status == SqlFileStatus::Started || progress.status == SqlFileStatus::Running
            ==> !recorded && final(store)@ == old(store)@,
        progress.status == SqlFileStatus::Done || progress.status == SqlFileStatus::Error
            || progress.status == SqlFileStatus::Cancelled ==> recorded && final(store)@.contains_key(
            progress.execution_id@,
        ) && final(store)@[progress.execution_id@].progress == *progress,
        recorded ==> final(store)@ == old(store)@.insert(
            progress.execution_id@,
            StoredProgress { progress: *progress, stored_at_ns: now_ns },
        ),
        !recorded ==> final(store)@ == old(store)@,
{
    if is_terminal_status(progress.status) {
        let stored = StoredProgress { progress: progress.clone(), stored_at_ns: now_ns };
        store.insert(progress.execution_id.clone(), stored);
        true
    } else {
        false
    }
}

/// Drops every stored progress older than the time to live.
pub fn evict_expired_progress(store: &mut Registry<StoredProgress>, now_ns: u64)
    requires
        old(store).wf(),
    ensures
        final(store).wf(),
        final(store)@ == fresh_part(old(store)@, now_ns),
        forall|k: Seq<char>| #[trigger]
            final(store)@.contains_key(k) <==> old(store)@.contains_key(k) && (now_ns
                < old(store)@[k].stored_at_ns || now_ns - old(store)@[k].stored_at_ns
                <= TERMINAL_PROGRESS_TTL_NS),
        forall|k: Seq<char>| #[trigger] final(store)@.contains_key(k) ==> final(store)@[k] == old(store)@[k],
{
    let keep = |entry: &StoredProgress| -> (fresh: bool)
        ensures
            fresh == is_fresh(*entry, now_ns),
        {
            let age = if now_ns >= entry.stored_at_ns {
                now_ns - entry.stored_at_ns
            } else {
                0
            };
            age <= TERMINAL_PROGRESS_TTL_NS
        };
    store.retain(&keep);
    proof {
        let o = old(store)@;
        let f = fresh_part(o, now_ns);
        assert forall|k: Seq<char>| #[trigger] store@.contains_key(k) <==> f.contains_key(k) by {
            if o.contains_key(k) && !store@.contains_key(k) {
                assert(keep.ensures((&o[k],), false));
            }
            if store@.contains_key(k) {
                assert(keep.ensures((&o[k],), true));
            }
        }
        assert(store@ =~= f);
    }
}

/// The final progress of `execution_id` that is still readable at `now_ns`,
/// after the store has dropped its expired entries.
pub fn terminal_progress(
    store: &mut Registry<StoredProgress>,
    execution_id: &String,
    now_ns: u64,
) -> (r: Option<SqlFileProgress>)
    requires
        old(store).wf(),
    ensures
        final(store).wf(),
        final(store)@ == fresh_part(old(store)@, now_ns),
        r == (if fresh_part(old(store)@, now_ns).contains_key(execution_id@) {
            Some(old(store)@[execution_id@].progress)
        } else {
            None
        }),
        r matches Some(p) ==> old(store)@.contains_key(execution_id@) && p == old(
            store,
        )@[execution_id@].progress,
        old(store)@.contains_key(execution_id@) ==> (r is Some <==> (now_ns < old(
            store,
        )@[execution_id@].stored_at_ns || now_ns - old(store)@[execution_id@].stored_at_ns
            <= TERMINAL_PROGRESS_TTL_NS)),
        !old(store)@.contains_key(execution_id@) ==> r is None,
{
    evict_expired_progress(store, now_ns);
    match store.get(execution_id) {
        Some(entry) => Some(entry.progress.clone()),
        None => None,
    }
}

/// Stored final progress stays readable for its time to live: recording a
/// final progress and reading it back no later than the time to live gives
/// the same progress.
pub proof fn lemma_recorded_terminal_is_readable(
    store: Map<Seq<char>, StoredProgress>,
    progress: SqlFileProgress,
    stored_at_ns: u64,
    now_ns: u64,
)
    requires
        is_terminal(progress.status),
        elapsed_ns(stored_at_ns, now_ns) <= TERMINAL_PROGRESS_TTL_NS,
    ensures
        ({
            let after = store.insert(
                progress.execution_id@,
                StoredProgress { progress, stored_at_ns },
            );
            &&& fresh_part(after, now_ns).contains_key(progress.execution_id@)
            &&& after[progress.execution_id@].progress == progress
        }),
{
}

/// Where a subscriber's progress comes from.
#[derive(Debug)]
pub enum ProgressSource {
    /// The execution has finished: its final progress (JSON) is sent once.
    Replay(String),
    /// The execution is running: the subscriber follows its channel.
    Live,
    /// Neither a channel nor a final progress exists (yet).
    Missing,
}

/// The decision of a subscriber, who first subscribed to the live channel
/// (if there is one) and then read the store of final progress: a stored
/// final progress always wins, because a broadcast made before subscribing
/// would be missed on the channel.
pub open spec fn chosen_source(has_live_channel: bool, terminal_json: Option<Seq<char>>) -> (
    int,
    Seq<char>,
) {
    match terminal_json {
        Some(json) => (0, json),
        None => if has_live_channel {
            (1, Seq::empty())
        } else {
            (2, Seq::empty())
        },
    }
}

/// The view of a source: its variant's number and the replayed JSON.
pub open spec fn source_view(source: ProgressSource) -> (int, Seq<char>) {
    match source {
        ProgressSource::Replay(json) => (0, json@),
        ProgressSource::Live => (1, Seq::empty()),
        ProgressSource::Missing => (2, Seq::empty()),
    }
}

/// The view of an optional text.
pub open spec fn opt_view(o: Option<String>) -> Option<Seq<char>> {
    match o {
        Some(s) => Some(s@),
        None => None,
    }
}

/// A late subscriber is served the stored final progress: whether or not
/// the live channel still exists, a final progress found in the store is
/// replayed rather than waiting on a channel that already broadcast it.
pub proof fn lemma_stored_terminal_wins(has_live_channel: bool, terminal_json: Seq<char>)
    ensures
        chosen_source(has_live_channel, Some(terminal_json)) == (0int, terminal_json),
{
}

/// Without a stored final progress, a subscriber is served live exactly when
/// a channel exists, and otherwise keeps waiting: it is never served a
/// channel that does not exist, and a stored final progress is always
/// replayed, whatever it holds.
pub proof fn lemma_source_needs_channel_or_final(has_live_channel: bool, terminal_json: Option<Seq<char>>)
    ensures
        terminal_json is None ==> (chosen_source(has_live_channel, terminal_json).0 == 1 <==> has_live_channel),
        terminal_json is None ==> (chosen_source(has_live_channel, terminal_json).0 == 2 <==> !has_live_channel),
        terminal_json matches Some(j) ==> chosen_source(has_live_channel, terminal_json) == (0int, j),
{
}

/// Chooses between a stored final progress and the live channel.
pub fn progress_source(has_live_channel: bool, terminal_json: Option<String>) -> (r: ProgressSource)
    ensures
        source_view(r) == chosen_source(has_live_channel, opt_view(terminal_json)),
        terminal_json matches Some(json) ==> r matches ProgressSource::Replay(j) && j@ == json@,
        terminal_json is None && has_live_channel ==> r is Live,
        terminal_json is None && !has_live_channel ==> r is Missing,
{
    match terminal_json {
        Some(json) => ProgressSource::Replay(json),
        None => if has_live_channel {
            ProgressSource::Live
        } else {
            ProgressSource::Missing
        },
    }
}

/// The next move of a subscriber that waits for an execution to appear.
#[derive(Debug)]
pub enum WaitStep {
    /// Serve the subscriber from this source.
    Serve(ProgressSource),
    /// Stop waiting and answer with this error.
    GiveUp(AppError),
    /// Look again after this many nanoseconds.
    RetryAfter(u64),
}

/// A subscriber waiting, until a deadline, for an execution to appear.
pub struct ProgressWait {
    pub deadline_ns: u64,
}

impl ProgressWait {
    /// Starts waiting at `now_ns`; the deadline is the wait timeout later.
    pub fn start(now_ns: u64) -> (r: ProgressWait)
        requires
            now_ns + CHANNEL_WAIT_TIMEOUT_NS <= u64::MAX,
        ensures
            r.deadline_ns == now_ns + CHANNEL_WAIT_TIMEOUT_NS,
    {
        ProgressWait { deadline_ns: now_ns + CHANNEL_WAIT_TIMEOUT_NS }
    }

    /// One look for the execution at `now_ns`: serve a found source; give up
    /// with "Execution not found" once the deadline has passed; else wait.
    pub fn poll(&self, source: ProgressSource, now_ns: u64) -> (r: WaitStep)
        ensures
            !(source is Missing) ==> r == WaitStep::Serve(source),
            source is Missing && now_ns >= self.deadline_ns ==> (r matches WaitStep::GiveUp(e) && e.kind
                == ErrorKind::Internal && e.message@ == "Execution not found"@),
            source is Missing && now_ns < self.deadline_ns ==> r == WaitStep::RetryAfter(
                CHANNEL_POLL_INTERVAL_NS,
            ),
    {
        match source {
            ProgressSource::Missing => {
                if now_ns >= self.deadline_ns {
                    WaitStep::GiveUp(AppError::from_message(String::from_str("Execution not found")))
                } else {
                    WaitStep::RetryAfter(CHANNEL_POLL_INTERVAL_NS)
                }
            },
            _ => WaitStep::Serve(source),
        }
    }
}

/// What the live channel of an execution delivered to a subscriber. For a
/// lag or the channel's end, the final progress (JSON) found in the store
/// at that moment, if any.
#[derive(Debug)]
pub enum ChannelEvent {
    Message(String),
    Lagged(Option<String>),
    Closed(Option<String>),
}

/// What the stream does after an event: the data it sends, if any, and
/// whether it ends.
#[derive(Debug)]
pub struct StreamStep {
    pub emit: Option<String>,
    pub finished: bool,
}

/// The progress stream of one subscriber: it remembers the last data sent.
pub struct ProgressStream {
    pub last_data: Option<String>,
}

/// The data that replaying `terminal` sends, given the last data sent: none
/// when the subscriber already has exactly that progress.
pub open spec fn replay_emit(last: Option<Seq<char>>, terminal: Seq<char>) -> Option<Seq<char>> {
    if last == Some(terminal) {
        None
    } else {
        Some(terminal)
    }
}

/// The final progress is withheld only when the subscriber's last data is
/// exactly that progress: after any other data, or none, it is sent as is.
pub proof fn lemma_replay_withheld_only_when_already_sent(last: Option<Seq<char>>, terminal: Seq<char>)
    ensures
        replay_emit(last, terminal) is None <==> last == Some(terminal),
        replay_emit(last, terminal) matches Some(t) ==> t == terminal,
        last matches Some(a) && a != terminal ==> replay_emit(last, terminal) == Some(terminal),
{
}

impl ProgressStream {
    /// A stream that has sent nothing yet.
    pub fn new() -> (r: ProgressStream)
        ensures
            r.last_data is None,
    {
        ProgressStream { last_data: None }
    }

    /// Handles one event of the channel.
    ///
    /// A message is forwarded and remembered. On a lag the stream goes on
    /// unless a final progress is stored, which it then sends (unless it was
    /// the last data sent) and ends. When the channel closes it sends the
    /// stored final progress under the same rule and ends.
    pub fn on_event(&mut self, event: ChannelEvent) -> (r: StreamStep)
        ensures
            match event {
                ChannelEvent::Message(data) => {
                    &&& opt_view(r.emit) == Some(data@)
                    &&& !r.finished
                    &&& opt_view(final(self).last_data) == Some(data@)
                },
                ChannelEvent::Lagged(None) => {
                    &&& r.emit is None
                    &&& !r.finished
                    &&& opt_view(final(self).last_data) == opt_view(old(self).last_data)
                },
                ChannelEvent::Lagged(Some(terminal)) => {
                    &&& opt_view(r.emit) == replay_emit(opt_view(old(self).last_data), terminal@)
                    &&& (r.emit is None <==> opt_view(old(self).last_data) == Some(terminal@))
                    &&& (r.emit matches Some(t) ==> t@ == terminal@)
                    &&& r.finished
                    &&& opt_view(final(self).last_data) == opt_view(old(self).last_data)
                },
                ChannelEvent::Closed(terminal) => {
                    &&& opt_view(r.emit) == match terminal {
                        Some(t) => replay_emit(opt_view(old(self).last_data), t@),
                        None => None,
                    }
                    &&& (terminal matches Some(t) ==> (r.emit is None <==> opt_view(old(self).last_data)
                        == Some(t@)))
                    &&& (r.emit matches Some(e) ==> terminal matches Some(t) && e@ == t@)
                    &&& r.finished
                    &&& opt_view(final(self).last_data) == opt_view(old(self).last_data)
                },
            },
    {
        match event {
            ChannelEvent::Message(data) => {
                self.last_data = Some(data.clone());
                StreamStep { emit: Some(data), finished: false }
            },
            ChannelEvent::Lagged(None) => StreamStep { emit: None, finished: false },
            ChannelEvent::Lagged(Some(terminal)) => {
                let emit = self.replay(terminal);
                StreamStep { emit, finished: true }
            },
            ChannelEvent::Closed(terminal) => {
                let emit = match terminal {
                    Some(t) => self.replay(t),
                    None => None,
                };
                StreamStep { emit, finished: true }
            },
        }
    }

    /// The replay of a final progress: nothing when it was the last data sent.
    fn replay(&self, terminal: String) -> (r: Option<String>)
        ensures
            opt_view(r) == replay_emit(opt_view(self.last_data), terminal@),
            r is None <==> opt_view(self.last_data) == Some(terminal@),
            r matches Some(t) ==> t@ == terminal@,
    {
        let already_sent = match &self.last_data {
            Some(last) => *last == terminal,
            None => false,
        };
        if already_sent {
            None
        } else {
            Some(terminal)
        }
    }
}

} // verus!
