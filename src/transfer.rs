use vstd::prelude::*;
use vstd::arithmetic::div_mod::lemma_div_is_ordered;
use crate::error::SessionError;
use crate::events::SftpDownloadEvent;
use crate::table::IdTable;

verus! {

/// The most bytes read from a remote file in one step of a download.
pub const CHUNK_SIZE: usize = 32768;

/// Where a download stands.
pub enum DownloadState {
    Running,
    Finished,
    Cancelled,
}

/// Progress in whole percent, rounded down, of `done` bytes out of `total`,
/// capped at 100. A file announced as empty counts as complete once any byte
/// arrived.
pub open spec fn percent(done: nat, total: nat) -> nat {
    if total == 0 {
        if done == 0 {
            0
        } else {
            100
        }
    } else if done * 100 / total > 100 {
        100
    } else {
        done * 100 / total
    }
}

/// The values of the progress events of `log`, in order.
pub open spec fn progress_values(log: Seq<SftpDownloadEvent>) -> Seq<u32>
    decreases log.len(),
{
    if log.len() == 0 {
        Seq::empty()
    } else {
        let rest = progress_values(log.drop_last());
        match log.last() {
            SftpDownloadEvent::Process { val } => rest.push(val),
            _ => rest,
        }
    }
}

/// How many cancellation events `log` holds.
pub open spec fn count_cancelled(log: Seq<SftpDownloadEvent>) -> nat
    decreases log.len(),
{
    if log.len() == 0 {
        0
    } else {
        count_cancelled(log.drop_last()) + if log.last() is Cancelled {
            1nat
        } else {
            0nat
        }
    }
}

/// How many completion events `log` holds.
pub open spec fn count_finished(log: Seq<SftpDownloadEvent>) -> nat
    decreases log.len(),
{
    if log.len() == 0 {
        0
    } else {
        count_finished(log.drop_last()) + if log.last() is Finished {
            1nat
        } else {
            0nat
        }
    }
}

pub open spec fn strictly_increasing(s: Seq<u32>) -> bool {
    forall|i: int, j: int| 0 <= i < j < s.len() ==> s[i] < s[j]
}

pub open spec fn non_decreasing(s: Seq<u32>) -> bool {
    forall|i: int, j: int| 0 <= i < j < s.len() ==> s[i] <= s[j]
}

pub open spec fn at_most_100(s: Seq<u32>) -> bool {
    forall|i: int| 0 <= i < s.len() ==> s[i] <= 100
}

/// The percentage of `done` out of `total`, as `percent` states it.
pub fn progress_percent(done: u64, total: u64) -> (r: u32)
    ensures
        r == percent(done as nat, total as nat),
{
    if total == 0 {
        if done == 0 {
            0
        } else {
            100
        }
    } else {
        let scaled: u128 = (done as u128) * 100;
        let p: u128 = scaled / (total as u128);
        if p > 100 {
            100
        } else {
            p as u32
        }
    }
}

proof fn lemma_percent_monotonic(d1: nat, d2: nat, total: nat)
    requires
        d1 <= d2,
    ensures
        percent(d1, total) <= percent(d2, total),
        percent(d2, total) <= 100,
{
    if total > 0 {
        lemma_div_is_ordered((d1 * 100) as int, (d2 * 100) as int, total as int);
    }
}

/// The events of one download, and what they are computed from: the size
/// seen at the start, the bytes received so far, and the last progress value
/// sent.
pub struct DownloadProgress {
    total: u64,
    downloaded: u64,
    last: u32,
    state: DownloadState,
    log: Ghost<Seq<SftpDownloadEvent>>,
}

impl DownloadProgress {
    /// Every event this download has emitted, in order.
    pub closed spec fn events(&self) -> Seq<SftpDownloadEvent> {
        self.log@
    }

    pub closed spec fn state(&self) -> DownloadState {
        self.state
    }

    pub closed spec fn total(&self) -> nat {
        self.total as nat
    }

    pub closed spec fn downloaded(&self) -> nat {
        self.downloaded as nat
    }

    /// The last progress value sent, 0 before the first.
    pub closed spec fn last_progress(&self) -> nat {
        self.last as nat
    }

    pub closed spec fn wf(&self) -> bool {
        let pv = progress_values(self.log@);
        &&& at_most_100(pv)
        &&& match self.state {
            DownloadState::Running => {
                &&& strictly_increasing(pv)
                &&& self.last as nat == percent(self.downloaded as nat, self.total as nat)
                &&& (pv.len() == 0 ==> self.last == 0)
                &&& (pv.len() > 0 ==> pv.last() == self.last)
                &&& count_cancelled(self.log@) == 0
                &&& count_finished(self.log@) == 0
            },
            DownloadState::Finished => {
                &&& self.log@.len() >= 2
                &&& self.log@.last() is Finished
                &&& self.log@[self.log@.len() - 2] == (SftpDownloadEvent::Process { val: 100 })
                &&& pv.len() >= 1
                &&& strictly_increasing(pv.drop_last())
                &&& pv.last() == 100
                &&& count_cancelled(self.log@) == 0
                &&& count_finished(self.log@) == 1
            },
            DownloadState::Cancelled => {
                &&& self.log@.len() >= 1
                &&& self.log@.last() is Cancelled
                &&& count_cancelled(self.log@) == 1
                &&& count_finished(self.log@) == 0
            },
        }
    }

    /// A download of a file of `total` bytes, nothing received yet.
    pub fn new(total: u64) -> (r: Self)
        ensures
            r.wf(),
            r.state() is Running,
            r.total() == total,
            r.downloaded() == 0,
            r.last_progress() == 0,
            r.events() == Seq::<SftpDownloadEvent>::empty(),
    {
        DownloadProgress { total, downloaded: 0, last: 0, state: DownloadState::Running, log: Ghost(Seq::empty()) }
    }

    /// Whether the download still runs.
    pub fn is_running(&self) -> (r: bool)
        ensures
            r == (self.state() is Running),
    {
        matches!(self.state, DownloadState::Running)
    }

    proof fn lemma_push(log: Seq<SftpDownloadEvent>, e: SftpDownloadEvent)
        ensures
            progress_values(log.push(e)) == match e {
                SftpDownloadEvent::Process { val } => progress_values(log).push(val),
                _ => progress_values(log),
            },
            count_cancelled(log.push(e)) == count_cancelled(log) + if e is Cancelled {
                1nat
            } else {
                0nat
            },
            count_finished(log.push(e)) == count_finished(log) + if e is Finished {
                1nat
            } else {
                0nat
            },
    {
        assert(log.push(e).drop_last() =~= log);
    }

    /// Takes a chunk of the file: emits it, then the new progress value if it
    /// differs from the last one sent. Once the download is over, nothing
    /// is emitted and nothing changes.
    pub fn on_chunk(&mut self, data: Vec<u8>) -> (r: Vec<SftpDownloadEvent>)
        requires
            old(self).wf(),
        ensures
            final(self).wf(),
            final(self).events() == old(self).events() + r@,
            final(self).total() == old(self).total(),
            !(old(self).state() is Running) ==> r@.len() == 0 && *final(self) == *old(self),
            old(self).state() is Running ==> {
                let done = if old(self).downloaded() + data@.len() > u64::MAX {
                    u64::MAX as nat
                } else {
                    old(self).downloaded() + data@.len()
                };
                let p = percent(done, old(self).total());
                &&& final(self).state() is Running
                &&& final(self).downloaded() == done
                &&& r@.len() >= 1
                &&& r@[0] == (SftpDownloadEvent::Chunk { data })
                &&& (p != old(self).last_progress() ==> r@ == seq![
                    SftpDownloadEvent::Chunk { data },
                    SftpDownloadEvent::Process { val: p as u32 },
                ])
                &&& (p == old(self).last_progress() ==> r@ == seq![SftpDownloadEvent::Chunk { data }])
            },
    {
        let mut out: Vec<SftpDownloadEvent> = Vec::new();
        if !self.is_running() {
            assert(self.log@ + out@ =~= self.log@);
            return out;
        }
        let n = data.len() as u64;
        let done = self.downloaded.saturating_add(n);
        proof {
            lemma_percent_monotonic(self.downloaded as nat, done as nat, self.total as nat);
            Self::lemma_push(self.log@, SftpDownloadEvent::Chunk { data });
        }
        let p = progress_percent(done, self.total);
        self.downloaded = done;
        let ghost chunk = SftpDownloadEvent::Chunk { data };
        self.log = Ghost(self.log@.push(chunk));
        out.push(SftpDownloadEvent::Chunk { data });
        if p != self.last {
            let ghost before = self.log@;
            proof {
                Self::lemma_push(before, SftpDownloadEvent::Process { val: p });
            }
            self.last = p;
            self.log = Ghost(self.log@.push(SftpDownloadEvent::Process { val: p }));
            out.push(SftpDownloadEvent::Process { val: p });
        }
        assert(self.log@ =~= old(self).log@ + out@);
        out
    }

    /// Ends the download at the end of the file: emits a progress of 100,
    /// whatever was computed before, then the completion event. Once the
    /// download is over, nothing is emitted and nothing changes.
    pub fn on_eof(&mut self) -> (r: Vec<SftpDownloadEvent>)
        requires
            old(self).wf(),
        ensures
            final(self).wf(),
            final(self).events() == old(self).events() + r@,
            !(old(self).state() is Running) ==> r@.len() == 0 && *final(self) == *old(self),
            old(self).state() is Running ==> final(self).state() is Finished && r@ == seq![
                SftpDownloadEvent::Process { val: 100 },
                SftpDownloadEvent::Finished,
            ],
    {
        let mut out: Vec<SftpDownloadEvent> = Vec::new();
        if !self.is_running() {
            assert(self.log@ + out@ =~= self.log@);
            return out;
        }
        let ghost l0 = self.log@;
        let ghost l1 = l0.push(SftpDownloadEvent::Process { val: 100 });
        proof {
            Self::lemma_push(l0, SftpDownloadEvent::Process { val: 100 });
            Self::lemma_push(l1, SftpDownloadEvent::Finished);
            assert(progress_values(l1.push(SftpDownloadEvent::Finished)).drop_last() =~= progress_values(l0));
        }
        self.log = Ghost(l1.push(SftpDownloadEvent::Finished));
        self.state = DownloadState::Finished;
        out.push(SftpDownloadEvent::Process { val: 100 });
        out.push(SftpDownloadEvent::Finished);
        assert(self.log@ =~= old(self).log@ + out@);
        out
    }

    /// Ends the download on request: emits the cancellation event. Once the
    /// download is over, nothing is emitted and nothing changes.
    pub fn on_cancel(&mut self) -> (r: Vec<SftpDownloadEvent>)
        requires
            old(self).wf(),
        ensures
            final(self).wf(),
            final(self).events() == old(self).events() + r@,
            !(old(self).state() is Running) ==> r@.len() == 0 && *final(self) == *old(self),
            old(self).state() is Running ==> final(self).state() is Cancelled && r@ == seq![
                SftpDownloadEvent::Cancelled,
            ],
    {
        let mut out: Vec<SftpDownloadEvent> = Vec::new();
        if !self.is_running() {
            assert(self.log@ + out@ =~= self.log@);
            return out;
        }
        proof {
            Self::lemma_push(self.log@, SftpDownloadEvent::Cancelled);
        }
        self.log = Ghost(self.log@.push(SftpDownloadEvent::Cancelled));
        self.state = DownloadState::Cancelled;
        out.push(SftpDownloadEvent::Cancelled);
        assert(self.log@ =~= old(self).log@ + out@);
        out
    }
}

/// A download that ran to the end of its file emitted progress values that
/// never decrease and that rise strictly up to the final, forced 100; its
/// last two events are a progress of 100 and the completion event.
pub proof fn lemma_finished_progress(p: DownloadProgress)
    requires
        p.wf(),
        p.state() is Finished,
    ensures
        ({
            let pv = progress_values(p.events());
            let log = p.events();
            &&& pv.len() >= 1
            &&& pv.last() == 100
            &&& strictly_increasing(pv.drop_last())
            &&& non_decreasing(pv)
            &&& at_most_100(pv)
            &&& log.len() >= 2
            &&& log[log.len() - 2] == (SftpDownloadEvent::Process { val: 100 })
            &&& log.last() is Finished
            &&& count_cancelled(log) == 0
        }),
{
    let pv = progress_values(p.events());
    assert forall|i: int, j: int| 0 <= i < j < pv.len() implies pv[i] <= pv[j] by {
        if j < pv.len() - 1 {
            assert(pv.drop_last()[i] < pv.drop_last()[j]);
        } else {
            assert(pv[i] <= 100);
        }
    }
}

/// A cancelled download emitted exactly one cancellation event, as its last
/// event, and never the completion event. Every later call on it emits
/// nothing (see `on_chunk`, `on_eof` and `on_cancel`).
pub proof fn lemma_cancelled_once(p: DownloadProgress)
    requires
        p.wf(),
        p.state() is Cancelled,
    ensures
        count_cancelled(p.events()) == 1,
        p.events().last() is Cancelled,
        count_finished(p.events()) == 0,
{
}

/// The cancellation tokens `T` of the live transfers, by task id.
pub struct TaskTable<T> {
    tasks: IdTable<T>,
}

impl<T> TaskTable<T> {
    /// The live tasks by id.
    pub closed spec fn tasks(&self) -> Map<Seq<char>, T> {
        self.tasks@
    }

    pub closed spec fn wf(&self) -> bool {
        self.tasks.wf()
    }

    /// No live task.
    pub fn new() -> (r: Self)
        ensures
            r.wf(),
            r.tasks() == Map::<Seq<char>, T>::empty(),
    {
        TaskTable { tasks: IdTable::new() }
    }

    /// Whether task `task_id` is live.
    pub fn contains(&self, task_id: &String) -> (r: bool)
        requires
            self.wf(),
        ensures
            r == self.tasks().contains_key(task_id@),
    {
        self.tasks.contains(task_id)
    }

    /// Registers the token of a starting transfer; a token already held under
    /// that id is handed back.
    pub fn register(&mut self, task_id: String, token: T) -> (r: Option<T>)
        requires
            old(self).wf(),
        ensures
            final(self).wf(),
            final(self).tasks() == old(self).tasks().insert(task_id@, token),
            r is Some <==> old(self).tasks().contains_key(task_id@),
            r is Some ==> r->0 == old(self).tasks()[task_id@],
    {
        self.tasks.insert(task_id, token)
    }

    /// Removes task `task_id` and hands its token back for the caller to
    /// signal. An unknown id is an error: it names no live transfer.
    pub fn cancel(&mut self, task_id: &String) -> (r: Result<T, SessionError>)
        requires
            old(self).wf(),
        ensures
            final(self).wf(),
            final(self).tasks() == old(self).tasks().remove(task_id@),
            !old(self).tasks().contains_key(task_id@) ==> r == Err::<T, SessionError>(
                SessionError::TaskNotFound,
            ),
            old(self).tasks().contains_key(task_id@) ==> r == Ok::<T, SessionError>(
                old(self).tasks()[task_id@],
            ),
    {
        match self.tasks.remove(task_id) {
            Some(t) => Ok(t),
            None => Err(SessionError::TaskNotFound),
        }
    }

    /// Removes task `task_id` once its transfer reached an end; an unknown id
    /// changes nothing.
    pub fn finish(&mut self, task_id: &String) -> (r: Option<T>)
        requires
            old(self).wf(),
        ensures
            final(self).wf(),
            final(self).tasks() == old(self).tasks().remove(task_id@),
            r is Some <==> old(self).tasks().contains_key(task_id@),
    {
        self.tasks.remove(task_id)
    }
}

} // verus!
