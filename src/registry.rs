use vstd::prelude::*;
use crate::error::SessionError;
use crate::events::{PortForwardConfig, PortForwardResult};
use crate::session::SshSession;
use crate::table::IdTable;

verus! {

/// The live sessions by id, and the file-subsystem handle `F` opened on each,
/// once one was asked for.
pub struct SessionRegistry<H, W, C, F> {
    sessions: IdTable<SshSession<H, W, C>>,
    sftp: IdTable<F>,
}

impl<H, W, C, F> SessionRegistry<H, W, C, F> {
    /// The live sessions by id.
    pub closed spec fn sessions(&self) -> Map<Seq<char>, SshSession<H, W, C>> {
        self.sessions@
    }

    /// The cached file-subsystem handles by session id.
    pub closed spec fn sftp_cache(&self) -> Map<Seq<char>, F> {
        self.sftp@
    }

    /// Each session is stored under its own id and is well formed.
    pub closed spec fn wf(&self) -> bool {
        &&& self.sessions.wf()
        &&& self.sftp.wf()
        &&& forall|k: Seq<char>| #[trigger]
            self.sessions@.contains_key(k) ==> self.sessions@[k].wf() && self.sessions@[k].id() == k
    }

    /// An empty registry.
    pub fn new() -> (r: Self)
        ensures
            r.wf(),
            r.sessions() == Map::<Seq<char>, SshSession<H, W, C>>::empty(),
            r.sftp_cache() == Map::<Seq<char>, F>::empty(),
    {
        SessionRegistry { sessions: IdTable::new(), sftp: IdTable::new() }
    }

    /// Whether a session with id `id` is live.
    pub fn contains(&self, id: &String) -> (r: bool)
        requires
            self.wf(),
        ensures
            r == self.sessions().contains_key(id@),
    {
        self.sessions.contains(id)
    }

    /// Registers `session` under its id. A session already registered under
    /// that id is replaced and handed back, and its file-subsystem handle is
    /// dropped from the cache.
    pub fn insert(&mut self, session: SshSession<H, W, C>) -> (r: Option<SshSession<H, W, C>>)
        requires
            old(self).wf(),
            session.wf(),
        ensures
            final(self).wf(),
            final(self).sessions() == old(self).sessions().insert(session.id(), session),
            final(self).sftp_cache() == old(self).sftp_cache().remove(session.id()),
            r is Some <==> old(self).sessions().contains_key(session.id()),
            r is Some ==> r->0 == old(self).sessions()[session.id()],
    {
        let id = session.session_id().clone();
        self.sftp.remove(&id);
        self.sessions.insert(id, session)
    }

    /// The transport handle of session `id`.
    pub fn handle(&self, id: &String) -> (r: Result<&H, SessionError>)
        requires
            self.wf(),
        ensures
            !self.sessions().contains_key(id@) ==> r == Err::<&H, SessionError>(SessionError::SessionNotFound),
            self.sessions().contains_key(id@) ==> r is Ok && *r->Ok_0 == self.sessions()[id@].handle_of(),
    {
        match self.sessions.get(id) {
            Some(s) => Ok(s.handle()),
            None => Err(SessionError::SessionNotFound),
        }
    }

    /// Moves the writer of session `id` out of its slot for one write (input
    /// or a window change). An empty slot, left by a closed channel, yields
    /// `Ok(None)` and changes nothing: the write is then a no-op success.
    pub fn take_writer(&mut self, id: &String) -> (r: Result<Option<W>, SessionError>)
        requires
            old(self).wf(),
        ensures
            final(self).wf(),
            final(self).sftp_cache() == old(self).sftp_cache(),
            !old(self).sessions().contains_key(id@) ==> r == Err::<Option<W>, SessionError>(
                SessionError::SessionNotFound,
            ) && final(self).sessions() == old(self).sessions(),
            old(self).sessions().contains_key(id@) ==> r == Ok::<Option<W>, SessionError>(
                old(self).sessions()[id@].writer(),
            ) && final(self).sessions() == old(self).sessions().insert(
                id@,
                old(self).sessions()[id@].with_writer(None),
            ),
            old(self).sessions().contains_key(id@) && old(self).sessions()[id@].writer() is None
                ==> r == Ok::<Option<W>, SessionError>(None) && final(self).sessions() == old(
                self,
            ).sessions(),
    {
        match self.sessions.remove(id) {
            None => Err(SessionError::SessionNotFound),
            Some(mut s) => {
                let ghost before = s;
                proof {
                    before.lemma_with_writer(None);
                }
                let w = s.take_writer();
                self.sessions.insert(id.clone(), s);
                proof {
                    assert(self.sessions@ =~= old(self).sessions@.insert(id@, before.with_writer(None)));
                    if before.writer() is None {
                        assert(self.sessions@ =~= old(self).sessions@);
                    }
                }
                Ok(w)
            },
        }
    }

    /// Puts `w` back into the writer slot of session `id`. If the session was
    /// closed meanwhile, `w` is handed back for the caller to drop.
    pub fn restore_writer(&mut self, id: &String, w: W) -> (r: Option<W>)
        requires
            old(self).wf(),
        ensures
            final(self).wf(),
            final(self).sftp_cache() == old(self).sftp_cache(),
            !old(self).sessions().contains_key(id@) ==> r == Some(w) && final(self).sessions() == old(
                self,
            ).sessions(),
            old(self).sessions().contains_key(id@) ==> r == old(self).sessions()[id@].writer()
                && final(self).sessions() == old(self).sessions().insert(
                id@,
                old(self).sessions()[id@].with_writer(Some(w)),
            ),
    {
        match self.sessions.remove(id) {
            None => {
                assert(self.sessions@ =~= old(self).sessions@);
                Some(w)
            },
            Some(mut s) => {
                let ghost before = s;
                proof {
                    before.lemma_with_writer(Some(w));
                }
                let previous = s.restore_writer(w);
                self.sessions.insert(id.clone(), s);
                assert(self.sessions@ =~= old(self).sessions@.insert(id@, before.with_writer(Some(w))));
                previous
            },
        }
    }

    /// Records a forwarded-connection channel opened over session `id`.
    pub fn local_port_forward(
        &mut self,
        id: &String,
        channel_id: u32,
        channel: C,
        config: &PortForwardConfig,
    ) -> (r: Result<PortForwardResult, SessionError>)
        requires
            old(self).wf(),
        ensures
            final(self).wf(),
            final(self).sftp_cache() == old(self).sftp_cache(),
            !old(self).sessions().contains_key(id@) ==> r == Err::<PortForwardResult, SessionError>(
                SessionError::SessionNotFound,
            ) && final(self).sessions() == old(self).sessions(),
            old(self).sessions().contains_key(id@) ==> {
                &&& r is Ok
                &&& r->Ok_0.channel_id == channel_id
                &&& r->Ok_0.local_host == config.local_host
                &&& r->Ok_0.local_port == config.local_port
                &&& final(self).sessions() == old(self).sessions().insert(id@, final(self).sessions()[id@])
                &&& final(self).sessions()[id@].same_but_forwards(old(self).sessions()[id@])
                &&& final(self).sessions()[id@].forwards() == old(self).sessions()[id@].forwards().insert(
                    channel_id,
                    channel,
                )
            },
    {
        match self.sessions.remove(id) {
            None => {
                assert(self.sessions@ =~= old(self).sessions@);
                Err(SessionError::SessionNotFound)
            },
            Some(mut s) => {
                let result = s.local_port_forward(channel_id, channel, config);
                self.sessions.insert(id.clone(), s);
                assert(self.sessions@ =~= old(self).sessions@.insert(id@, self.sessions@[id@]));
                Ok(result)
            },
        }
    }

    /// Takes forward `channel_id` of session `id` out of its table, for the
    /// caller to close. An unknown channel id changes nothing.
    pub fn close_port_forward(&mut self, id: &String, channel_id: u32) -> (r: Result<Option<C>, SessionError>)
        requires
            old(self).wf(),
        ensures
            final(self).wf(),
            final(self).sftp_cache() == old(self).sftp_cache(),
            !old(self).sessions().contains_key(id@) ==> r == Err::<Option<C>, SessionError>(
                SessionError::SessionNotFound,
            ) && final(self).sessions() == old(self).sessions(),
            old(self).sessions().contains_key(id@) ==> {
                &&& r is Ok
                &&& r->Ok_0 is Some <==> old(self).sessions()[id@].forwards().contains_key(channel_id)
                &&& final(self).sessions() == old(self).sessions().insert(id@, final(self).sessions()[id@])
                &&& final(self).sessions()[id@].same_but_forwards(old(self).sessions()[id@])
                &&& final(self).sessions()[id@].forwards() == old(self).sessions()[id@].forwards().remove(
                    channel_id,
                )
            },
    {
        match self.sessions.remove(id) {
            None => {
                assert(self.sessions@ =~= old(self).sessions@);
                Err(SessionError::SessionNotFound)
            },
            Some(mut s) => {
                let channel = s.close_port_forward(channel_id);
                self.sessions.insert(id.clone(), s);
                assert(self.sessions@ =~= old(self).sessions@.insert(id@, self.sessions@[id@]));
                Ok(channel)
            },
        }
    }

    /// The ids of the forwards open over session `id`, each once.
    pub fn list_port_forwards(&self, id: &String) -> (r: Result<Vec<u32>, SessionError>)
        requires
            self.wf(),
        ensures
            !self.sessions().contains_key(id@) ==> r == Err::<Vec<u32>, SessionError>(
                SessionError::SessionNotFound,
            ),
            self.sessions().contains_key(id@) ==> r is Ok && r->Ok_0@.no_duplicates()
                && r->Ok_0@.to_set() == self.sessions()[id@].forwards().dom(),
    {
        match self.sessions.get(id) {
            Some(s) => Ok(s.list_port_forwards()),
            None => Err(SessionError::SessionNotFound),
        }
    }

    /// Removes session `id` and its cached file-subsystem handle, handing the
    /// session back for the caller to close its channel. Closing an id that
    /// is not live changes nothing and is no error.
    pub fn close(&mut self, id: &String) -> (r: Option<SshSession<H, W, C>>)
        requires
            old(self).wf(),
        ensures
            final(self).wf(),
            closed_from(*old(self), *final(self), id@),
            r is Some <==> old(self).sessions().contains_key(id@),
            r is Some ==> r->0 == old(self).sessions()[id@],
    {
        let session = self.sessions.remove(id);
        self.sftp.remove(id);
        session
    }

    /// The cached file-subsystem handle of session `id`, if one was opened.
    pub fn sftp(&self, id: &String) -> (r: Result<Option<&F>, SessionError>)
        requires
            self.wf(),
        ensures
            !self.sessions().contains_key(id@) ==> r == Err::<Option<&F>, SessionError>(
                SessionError::SessionNotFound,
            ),
            self.sessions().contains_key(id@) ==> r is Ok && (r->Ok_0 is Some
                <==> self.sftp_cache().contains_key(id@)),
            self.sessions().contains_key(id@) && self.sftp_cache().contains_key(id@) ==> *r->Ok_0->0
                == self.sftp_cache()[id@],
    {
        if !self.sessions.contains(id) {
            return Err(SessionError::SessionNotFound);
        }
        Ok(self.sftp.get(id))
    }

    /// Caches `handle` as the file-subsystem handle of session `id`.
    pub fn cache_sftp(&mut self, id: &String, handle: F) -> (r: Result<(), SessionError>)
        requires
            old(self).wf(),
        ensures
            final(self).wf(),
            final(self).sessions() == old(self).sessions(),
            !old(self).sessions().contains_key(id@) ==> r == Err::<(), SessionError>(
                SessionError::SessionNotFound,
            ) && final(self).sftp_cache() == old(self).sftp_cache(),
            old(self).sessions().contains_key(id@) ==> r == Ok::<(), SessionError>(())
                && final(self).sftp_cache() == old(self).sftp_cache().insert(id@, handle),
    {
        if !self.sessions.contains(id) {
            return Err(SessionError::SessionNotFound);
        }
        self.sftp.insert(id.clone(), handle);
        Ok(())
    }
}

/// `after` is `before` with session `id` and its file-subsystem handle removed.
pub open spec fn closed_from<H, W, C, F>(
    before: SessionRegistry<H, W, C, F>,
    after: SessionRegistry<H, W, C, F>,
    id: Seq<char>,
) -> bool {
    &&& after.sessions() == before.sessions().remove(id)
    &&& after.sftp_cache() == before.sftp_cache().remove(id)
}

/// Closing is idempotent: after a close the id is gone, a second close of
/// the same id changes nothing, and neither can fail.
pub proof fn lemma_close_idempotent<H, W, C, F>(
    a: SessionRegistry<H, W, C, F>,
    b: SessionRegistry<H, W, C, F>,
    c: SessionRegistry<H, W, C, F>,
    id: Seq<char>,
)
    requires
        closed_from(a, b, id),
        closed_from(b, c, id),
    ensures
        !b.sessions().contains_key(id),
        c.sessions() == b.sessions(),
        c.sftp_cache() == b.sftp_cache(),
        !a.sessions().contains_key(id) ==> b.sessions() == a.sessions(),
{
    assert(c.sessions() =~= b.sessions());
    assert(c.sftp_cache() =~= b.sftp_cache());
    if !a.sessions().contains_key(id) {
        assert(b.sessions() =~= a.sessions());
    }
}

/// Opening a forward and then closing the same id leaves the forwards as
/// they were without that id; in particular the id is no longer listed.
pub proof fn lemma_forward_open_close<H, W, C>(
    s0: SshSession<H, W, C>,
    s1: SshSession<H, W, C>,
    s2: SshSession<H, W, C>,
    a: u32,
    channel: C,
)
    requires
        s1.forwards() == s0.forwards().insert(a, channel),
        s2.forwards() == s1.forwards().remove(a),
    ensures
        !s2.forwards().contains_key(a),
        s2.forwards().dom() == s0.forwards().dom().remove(a),
{
    assert(s2.forwards().dom() =~= s0.forwards().dom().remove(a));
}

/// Opening forwards `a` and `b` and closing `a` leaves `b` open and `a`
/// closed; from no forwards, exactly `b` is left.
pub proof fn lemma_forward_two_close_one<H, W, C>(
    s0: SshSession<H, W, C>,
    s1: SshSession<H, W, C>,
    s2: SshSession<H, W, C>,
    s3: SshSession<H, W, C>,
    a: u32,
    b: u32,
    ca: C,
    cb: C,
)
    requires
        a != b,
        s1.forwards() == s0.forwards().insert(a, ca),
        s2.forwards() == s1.forwards().insert(b, cb),
        s3.forwards() == s2.forwards().remove(a),
    ensures
        s3.forwards().dom() == s0.forwards().dom().insert(b).remove(a),
        s3.forwards().contains_key(b) && s3.forwards()[b] == cb,
        s0.forwards().dom().is_empty() ==> s3.forwards().dom() == set![b],
{
    assert(s3.forwards().dom() =~= s0.forwards().dom().insert(b).remove(a));
    if s0.forwards().dom().is_empty() {
        assert(s3.forwards().dom() =~= set![b]);
    }
}

} // verus!
