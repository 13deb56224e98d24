use vstd::prelude::*;
use crate::error::SessionError;

verus! {

/// What the caller must do next to establish a connection.
pub enum ConnectAction {
    /// Open a transport straight to hop `hop` and authenticate on it.
    Dial { hop: usize },
    /// Open a forwarded-connection channel from hop `via` to hop `hop`,
    /// and authenticate hop `hop` over it.
    Tunnel { via: usize, hop: usize },
    /// Open the interactive channel on the last hop and request a
    /// pseudo-terminal and a shell.
    OpenShell,
    /// The session is up: register it.
    Register,
    /// Give up: emit the open-failure event and report `error`.
    Abort { error: SessionError },
    /// Nothing is left to do.
    Idle,
}

/// The outcome of the action the caller performed last.
pub enum ConnectEvent {
    Succeeded,
    Failed { error: SessionError },
}

/// Where an establishment stands.
pub enum ConnectPhase {
    /// Hop `index` is being connected.
    Hop { index: usize },
    /// The interactive channel is being opened.
    Shell,
    Established,
    Failed,
}

/// Drives the establishment of one connection over a planned route.
pub struct ConnectMachine {
    hops: usize,
    phase: ConnectPhase,
}

/// The next phase and action after `event` in `phase`, on a route of `hops` hops.
pub open spec fn step_spec(hops: nat, phase: ConnectPhase, event: ConnectEvent) -> (ConnectPhase, ConnectAction) {
    match phase {
        ConnectPhase::Hop { index } => match event {
            ConnectEvent::Succeeded => if index + 1 < hops {
                (
                    ConnectPhase::Hop { index: (index + 1) as usize },
                    ConnectAction::Tunnel { via: index, hop: (index + 1) as usize },
                )
            } else {
                (ConnectPhase::Shell, ConnectAction::OpenShell)
            },
            ConnectEvent::Failed { error } => (ConnectPhase::Failed, ConnectAction::Abort { error }),
        },
        ConnectPhase::Shell => match event {
            ConnectEvent::Succeeded => (ConnectPhase::Established, ConnectAction::Register),
            ConnectEvent::Failed { error } => (ConnectPhase::Failed, ConnectAction::Abort { error }),
        },
        ConnectPhase::Established => (ConnectPhase::Established, ConnectAction::Idle),
        ConnectPhase::Failed => (ConnectPhase::Failed, ConnectAction::Idle),
    }
}

/// The actions issued when `events` arrive one after the other from `phase`.
pub open spec fn run(hops: nat, phase: ConnectPhase, events: Seq<ConnectEvent>) -> Seq<ConnectAction>
    decreases events.len(),
{
    if events.len() == 0 {
        Seq::empty()
    } else {
        let (next, action) = step_spec(hops, phase, events[0]);
        seq![action] + run(hops, next, events.drop_first())
    }
}

/// Every action of an establishment over `hops` hops that meets `events`:
/// the first dial, then one action per event.
pub open spec fn trace(hops: nat, events: Seq<ConnectEvent>) -> Seq<ConnectAction> {
    seq![ConnectAction::Dial { hop: 0 }] + run(hops, ConnectPhase::Hop { index: 0 }, events)
}

/// `n` successes in a row.
pub open spec fn successes(n: nat) -> Seq<ConnectEvent> {
    Seq::new(n, |i: int| ConnectEvent::Succeeded)
}

impl ConnectMachine {
    pub closed spec fn hops(&self) -> nat {
        self.hops as nat
    }

    pub closed spec fn phase(&self) -> ConnectPhase {
        self.phase
    }

    pub closed spec fn wf(&self) -> bool {
        &&& self.hops >= 1
        &&& self.phase is Hop ==> self.phase->index < self.hops
    }

    /// Starts an establishment over `hops` hops; its first action dials hop 0.
    pub fn start(hops: usize) -> (r: (ConnectMachine, ConnectAction))
        requires
            hops >= 1,
        ensures
            r.0.wf(),
            r.0.hops() == hops,
            r.0.phase() == (ConnectPhase::Hop { index: 0 }),
            r.1 == (ConnectAction::Dial { hop: 0 }),
    {
        (ConnectMachine { hops, phase: ConnectPhase::Hop { index: 0 } }, ConnectAction::Dial { hop: 0 })
    }

    /// Whether the connection is established.
    pub fn is_established(&self) -> (r: bool)
        ensures
            r == (self.phase() is Established),
    {
        matches!(self.phase, ConnectPhase::Established)
    }

    /// Takes the outcome of the last action and says what to do next.
    pub fn step(&mut self, event: ConnectEvent) -> (r: ConnectAction)
        requires
            old(self).wf(),
        ensures
            final(self).wf(),
            final(self).hops() == old(self).hops(),
            (final(self).phase(), r) == step_spec(old(self).hops(), old(self).phase(), event),
    {
        match self.phase {
            ConnectPhase::Hop { index } => match event {
                ConnectEvent::Succeeded => {
                    if index + 1 < self.hops {
                        self.phase = ConnectPhase::Hop { index: index + 1 };
                        ConnectAction::Tunnel { via: index, hop: index + 1 }
                    } else {
                        self.phase = ConnectPhase::Shell;
                        ConnectAction::OpenShell
                    }
                },
                ConnectEvent::Failed { error } => {
                    self.phase = ConnectPhase::Failed;
                    ConnectAction::Abort { error }
                },
            },
            ConnectPhase::Shell => match event {
                ConnectEvent::Succeeded => {
                    self.phase = ConnectPhase::Established;
                    ConnectAction::Register
                },
                ConnectEvent::Failed { error } => {
                    self.phase = ConnectPhase::Failed;
                    ConnectAction::Abort { error }
                },
            },
            ConnectPhase::Established => ConnectAction::Idle,
            ConnectPhase::Failed => ConnectAction::Idle,
        }
    }
}

proof fn lemma_run_succeeds_from(hops: nat, i: nat)
    requires
        i < hops <= usize::MAX,
    ensures
        run(hops, ConnectPhase::Hop { index: i as usize }, successes((hops - i + 1) as nat)).len() == hops - i + 1,
        forall|j: int|
            0 <= j < hops - 1 - i ==> #[trigger] run(
                hops,
                ConnectPhase::Hop { index: i as usize },
                successes((hops - i + 1) as nat),
            )[j] == (ConnectAction::Tunnel { via: (i + j) as usize, hop: (i + j + 1) as usize }),
        run(hops, ConnectPhase::Hop { index: i as usize }, successes((hops - i + 1) as nat))[hops - 1 - i]
            == ConnectAction::OpenShell,
        run(hops, ConnectPhase::Hop { index: i as usize }, successes((hops - i + 1) as nat))[hops - i]
            == ConnectAction::Register,
    decreases hops - i,
{
    let evs = successes((hops - i + 1) as nat);
    let r = run(hops, ConnectPhase::Hop { index: i as usize }, evs);
    assert(evs.drop_first() =~= successes((hops - i) as nat));
    if i + 1 < hops {
        lemma_run_succeeds_from(hops, i + 1);
        assert(successes((hops - (i + 1) + 1) as nat) =~= evs.drop_first());
        let rest = run(hops, ConnectPhase::Hop { index: (i + 1) as usize }, evs.drop_first());
        assert(r == seq![ConnectAction::Tunnel { via: i as usize, hop: (i + 1) as usize }] + rest);
        assert forall|j: int| 0 <= j < hops - 1 - i implies #[trigger] r[j] == (ConnectAction::Tunnel {
            via: (i + j) as usize,
            hop: (i + j + 1) as usize,
        }) by {
            if j > 0 {
                assert(r[j] == rest[j - 1]);
            }
        }
    } else {
        let shell_evs = evs.drop_first();
        assert(evs[0] == ConnectEvent::Succeeded);
        assert(shell_evs[0] == ConnectEvent::Succeeded);
        assert(r == seq![ConnectAction::OpenShell] + run(hops, ConnectPhase::Shell, shell_evs));
        assert(shell_evs.drop_first() =~= Seq::<ConnectEvent>::empty());
        assert(run(hops, ConnectPhase::Established, shell_evs.drop_first()) =~= Seq::<ConnectAction>::empty());
        assert(run(hops, ConnectPhase::Shell, shell_evs) =~= seq![ConnectAction::Register]);
    }
}

/// Over a chain of `bastions` jump hosts that all connect and authenticate,
/// establishment dials exactly once, to the outermost hop, opens exactly
/// `bastions` forwarded-connection tunnels, one to each further hop up to the
/// target, then opens the interactive channel and registers the session.
pub proof fn lemma_chain_all_succeed(bastions: nat)
    requires
        bastions < usize::MAX,
    ensures
        ({
            let t = trace(bastions + 1, successes(bastions + 2));
            &&& t.len() == bastions + 3
            &&& t[0] == (ConnectAction::Dial { hop: 0 })
            &&& forall|k: int|
                1 <= k <= bastions ==> #[trigger] t[k] == (ConnectAction::Tunnel {
                    via: (k - 1) as usize,
                    hop: k as usize,
                })
            &&& t[bastions + 1int] == ConnectAction::OpenShell
            &&& t[bastions + 2int] == ConnectAction::Register
        }),
{
    let hops = bastions + 1;
    lemma_run_succeeds_from(hops, 0);
    assert(successes((hops - 0 + 1) as nat) =~= successes(bastions + 2));
    let r = run(hops, ConnectPhase::Hop { index: 0 }, successes(bastions + 2));
    let t = trace(hops, successes(bastions + 2));
    assert forall|k: int| 1 <= k <= bastions implies #[trigger] t[k] == (ConnectAction::Tunnel {
        via: (k - 1) as usize,
        hop: k as usize,
    }) by {
        assert(t[k] == r[k - 1]);
    }
    assert(t[bastions + 1int] == r[bastions as int]);
    assert(t[bastions + 2int] == r[bastions + 1int]);
}

proof fn lemma_run_failed(hops: nat, events: Seq<ConnectEvent>)
    ensures
        forall|j: int| 0 <= j < events.len() ==> #[trigger] run(hops, ConnectPhase::Failed, events)[j] == ConnectAction::Idle,
        run(hops, ConnectPhase::Failed, events).len() == events.len(),
    decreases events.len(),
{
    if events.len() > 0 {
        lemma_run_failed(hops, events.drop_first());
        let r = run(hops, ConnectPhase::Failed, events);
        assert forall|j: int| 0 <= j < events.len() implies #[trigger] r[j] == ConnectAction::Idle by {
            if j > 0 {
                assert(r[j] == run(hops, ConnectPhase::Failed, events.drop_first())[j - 1]);
            }
        }
    }
}

proof fn lemma_run_fails_from(hops: nat, i: nat, k: nat, error: SessionError, later: Seq<ConnectEvent>)
    requires
        i <= k < hops <= usize::MAX,
    ensures
        ({
            let evs = successes((k - i) as nat) + seq![ConnectEvent::Failed { error }] + later;
            let r = run(hops, ConnectPhase::Hop { index: i as usize }, evs);
            &&& r.len() == evs.len()
            &&& r[k - i] == (ConnectAction::Abort { error })
            &&& forall|j: int| 0 <= j < r.len() ==> !(#[trigger] r[j] is OpenShell) && !(r[j] is Register)
        }),
    decreases k - i,
{
    let evs = successes((k - i) as nat) + seq![ConnectEvent::Failed { error }] + later;
    let r = run(hops, ConnectPhase::Hop { index: i as usize }, evs);
    if i == k {
        assert(evs[0] == ConnectEvent::Failed { error });
        assert(evs.drop_first() =~= later);
        lemma_run_failed(hops, later);
        assert(r == seq![ConnectAction::Abort { error }] + run(hops, ConnectPhase::Failed, later));
        assert forall|j: int| 0 <= j < r.len() implies !(#[trigger] r[j] is OpenShell) && !(r[j] is Register) by {
            if j > 0 {
                assert(r[j] == run(hops, ConnectPhase::Failed, later)[j - 1]);
            }
        }
    } else {
        let tail = successes((k - (i + 1)) as nat) + seq![ConnectEvent::Failed { error }] + later;
        assert(evs[0] == ConnectEvent::Succeeded);
        assert(evs.drop_first() =~= tail);
        lemma_run_fails_from(hops, i + 1, k, error, later);
        let rest = run(hops, ConnectPhase::Hop { index: (i + 1) as usize }, tail);
        assert(r == seq![ConnectAction::Tunnel { via: i as usize, hop: (i + 1) as usize }] + rest);
        assert(r[k - i] == rest[k - i - 1]);
        assert forall|j: int| 0 <= j < r.len() implies !(#[trigger] r[j] is OpenShell) && !(r[j] is Register) by {
            if j > 0 {
                assert(r[j] == rest[j - 1]);
            }
        }
    }
}

/// When hop `k` of a route (counted from 1 at the outermost hop) fails, the
/// establishment aborts with that hop's error as its `k`-th action, and no
/// interactive channel is ever opened, whatever arrives afterwards.
pub proof fn lemma_chain_hop_fails(hops: nat, k: nat, error: SessionError, later: Seq<ConnectEvent>)
    requires
        1 <= k <= hops <= usize::MAX,
    ensures
        ({
            let t = trace(hops, successes((k - 1) as nat) + seq![ConnectEvent::Failed { error }] + later);
            &&& t[k as int] == (ConnectAction::Abort { error })
            &&& forall|j: int| 0 <= j < t.len() ==> !(#[trigger] t[j] is OpenShell) && !(t[j] is Register)
        }),
{
    lemma_run_fails_from(hops, 0, (k - 1) as nat, error, later);
    let evs = successes((k - 1) as nat) + seq![ConnectEvent::Failed { error }] + later;
    let r = run(hops, ConnectPhase::Hop { index: 0 }, evs);
    let t = trace(hops, evs);
    assert(t[k as int] == r[k - 1]);
    assert forall|j: int| 0 <= j < t.len() implies !(#[trigger] t[j] is OpenShell) && !(t[j] is Register) by {
        if j > 0 {
            assert(t[j] == r[j - 1]);
        }
    }
}

} // verus!
