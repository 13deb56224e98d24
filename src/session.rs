use vstd::prelude::*;
use crate::channels::ChannelTable;
use crate::error::SessionError;
use crate::events::{PortForwardConfig, PortForwardResult};
use crate::table::IdTable;

verus! {

/// A live session: the transport handle `H`, the interactive channel's write
/// half `W` in a takeable slot, and the open port-forward channels `C`.
///
/// The write half is moved out of its slot for each write and put back after
/// it, so that at most one write is in flight and no lock is held while it runs.
pub struct SshSession<H, W, C> {
    session_id: String,
    config_id: String,
    handle: H,
    writer: Option<W>,
    port_forwards: ChannelTable<C>,
}

impl<H, W, C> SshSession<H, W, C> {
    pub closed spec fn wf(&self) -> bool {
        self.port_forwards.wf()
    }

    /// The id the client gave the session.
    pub closed spec fn id(&self) -> Seq<char> {
        self.session_id@
    }

    /// The id of the profile the session was opened from.
    pub closed spec fn profile_id(&self) -> Seq<char> {
        self.config_id@
    }

    pub closed spec fn handle_of(&self) -> H {
        self.handle
    }

    /// What the writer slot holds.
    pub closed spec fn writer(&self) -> Option<W> {
        self.writer
    }

    /// The open port forwards by channel id.
    pub closed spec fn forwards(&self) -> Map<u32, C> {
        self.port_forwards@
    }

    /// This session with `w` in its writer slot.
    pub closed spec fn with_writer(self, w: Option<W>) -> Self {
        SshSession { writer: w, ..self }
    }

    /// The parts other than the forward table are those of `other`.
    pub open spec fn same_but_forwards(&self, other: Self) -> bool {
        &&& self.id() == other.id()
        &&& self.profile_id() == other.profile_id()
        &&& self.handle_of() == other.handle_of()
        &&& self.writer() == other.writer()
    }

    pub proof fn lemma_with_writer(self, w: Option<W>)
        ensures
            self.with_writer(w).writer() == w,
            self.with_writer(w).same_but_forwards(self) <== w == self.writer(),
            self.with_writer(w).forwards() == self.forwards(),
            self.with_writer(w).handle_of() == self.handle_of(),
            self.with_writer(w).id() == self.id(),
            self.with_writer(w).profile_id() == self.profile_id(),
            self.wf() ==> self.with_writer(w).wf(),
            w == self.writer() ==> self.with_writer(w) == self,
    {
    }

    /// A session with its writer in place and no port forwards.
    pub fn new(session_id: String, config_id: String, handle: H, writer: W) -> (r: Self)
        ensures
            r.wf(),
            r.id() == session_id@,
            r.profile_id() == config_id@,
            r.handle_of() == handle,
            r.writer() == Some(writer),
            r.forwards() == Map::<u32, C>::empty(),
    {
        SshSession {
            session_id,
            config_id,
            handle,
            writer: Some(writer),
            port_forwards: ChannelTable::new(),
        }
    }

    /// The id the client gave the session.
    pub fn session_id(&self) -> (r: &String)
        ensures
            r@ == self.id(),
    {
        &self.session_id
    }

    /// The id of the profile the session was opened from.
    pub fn config_id(&self) -> (r: &String)
        ensures
            r@ == self.profile_id(),
    {
        &self.config_id
    }

    /// The transport handle.
    pub fn handle(&self) -> (r: &H)
        ensures
            *r == self.handle_of(),
    {
        &self.handle
    }

    /// Whether the writer is in its slot.
    pub fn has_writer(&self) -> (r: bool)
        ensures
            r == (self.writer() is Some),
    {
        self.writer.is_some()
    }

    /// Moves the writer out of its slot, leaving the slot empty.
    pub fn take_writer(&mut self) -> (r: Option<W>)
        ensures
            r == old(self).writer(),
            *final(self) == old(self).with_writer(None),
    {
        self.writer.take()
    }

    /// Puts `w` into the writer slot and hands back what the slot held.
    pub fn restore_writer(&mut self, w: W) -> (r: Option<W>)
        ensures
            r == old(self).writer(),
            *final(self) == old(self).with_writer(Some(w)),
    {
        let previous = self.writer.take();
        self.writer = Some(w);
        previous
    }

    /// Records the forwarded-connection channel `channel`, opened for
    /// `config` with the transport-assigned id `channel_id`.
    pub fn local_port_forward(&mut self, channel_id: u32, channel: C, config: &PortForwardConfig) -> (r:
        PortForwardResult)
        requires
            old(self).wf(),
        ensures
            final(self).wf(),
            final(self).same_but_forwards(*old(self)),
            final(self).forwards() == old(self).forwards().insert(channel_id, channel),
            r.channel_id == channel_id,
            r.local_host == config.local_host,
            r.local_port == config.local_port,
    {
        self.port_forwards.insert(channel_id, channel);
        PortForwardResult {
            channel_id,
            local_host: config.local_host.clone(),
            local_port: config.local_port,
        }
    }

    /// Takes the forward with id `channel_id` out of the table, for the caller
    /// to close. An unknown id changes nothing.
    pub fn close_port_forward(&mut self, channel_id: u32) -> (r: Option<C>)
        requires
            old(self).wf(),
        ensures
            final(self).wf(),
            final(self).same_but_forwards(*old(self)),
            final(self).forwards() == old(self).forwards().remove(channel_id),
            r is Some <==> old(self).forwards().contains_key(channel_id),
            r is Some ==> r->0 == old(self).forwards()[channel_id],
    {
        self.port_forwards.remove(&channel_id)
    }

    /// The ids of the open forwards, each once, in no promised order.
    pub fn list_port_forwards(&self) -> (r: Vec<u32>)
        requires
            self.wf(),
        ensures
            r@.no_duplicates(),
            r@.to_set() == self.forwards().dom(),
    {
        self.port_forwards.ids()
    }

    /// Takes the writer out for the caller to close the interactive channel.
    pub fn close(&mut self) -> (r: Option<W>)
        ensures
            r == old(self).writer(),
            *final(self) == old(self).with_writer(None),
    {
        self.writer.take()
    }
}

} // verus!
