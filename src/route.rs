use vstd::prelude::*;
use crate::error::SessionError;
use crate::profile::{AuthMethod, SshConfig, auth_of, link_of};
use crate::table::IdTable;

verus! {

/// The most bastion links a route may follow; longer chains are refused.
pub const MAX_BASTION_HOPS: usize = 16;

/// The registry after the profiles of `entries` were stored in order: a later
/// entry overwrites an earlier one with the same id.
pub open spec fn synced(
    m: Map<Seq<char>, SshConfig>,
    entries: Seq<(String, SshConfig)>,
) -> Map<Seq<char>, SshConfig>
    decreases entries.len(),
{
    if entries.len() == 0 {
        m
    } else {
        synced(m, entries.drop_last()).insert(entries.last().0@, entries.last().1)
    }
}

/// Stores each profile of `entries` under its id, overwriting what was there.
pub fn sync_config(registry: &mut IdTable<SshConfig>, entries: &Vec<(String, SshConfig)>)
    requires
        old(registry).wf(),
    ensures
        final(registry).wf(),
        final(registry)@ == synced(old(registry)@, entries@),
{
    let mut i: usize = 0;
    while i < entries.len()
        invariant
            registry.wf(),
            i <= entries@.len(),
            registry@ == synced(old(registry)@, entries@.subrange(0, i as int)),
        decreases entries@.len() - i,
    {
        let key = entries[i].0.clone();
        let value = entries[i].1.copy();
        registry.insert(key, value);
        proof {
            let next = entries@.subrange(0, i + 1);
            assert(next.drop_last() =~= entries@.subrange(0, i as int));
        }
        i = i + 1;
    }
    assert(entries@.subrange(0, entries@.len() as int) =~= entries@);
}

/// The profiles reached from `c` by following bastion links, `c` first,
/// where the ids in `seen` were followed already and at most `fuel` more
/// links may be followed.
pub open spec fn chain_after(
    reg: Map<Seq<char>, SshConfig>,
    c: SshConfig,
    seen: Seq<Seq<char>>,
    fuel: nat,
) -> Result<Seq<SshConfig>, SessionError>
    decreases fuel,
{
    match link_of(c) {
        None => Ok(seq![c]),
        Some(id) => if seen.contains(id) {
            Err(SessionError::BastionCycle)
        } else if !reg.contains_key(id) {
            Err(SessionError::MissingBastion)
        } else if fuel == 0 {
            Err(SessionError::BastionChainTooLong)
        } else {
            prefixed(seq![c], chain_after(reg, reg[id], seen.push(id), (fuel - 1) as nat))
        },
    }
}

/// The bastion chain of `c`: `c`, then each profile its links lead to, until
/// a profile has no link. A link back to an id already followed is a cycle.
pub open spec fn chain_from(reg: Map<Seq<char>, SshConfig>, c: SshConfig) -> Result<Seq<SshConfig>, SessionError> {
    chain_after(reg, c, Seq::empty(), MAX_BASTION_HOPS as nat)
}

/// `p` put in front of a successful chain; an error is kept.
pub open spec fn prefixed(
    p: Seq<SshConfig>,
    r: Result<Seq<SshConfig>, SessionError>,
) -> Result<Seq<SshConfig>, SessionError> {
    match r {
        Ok(s) => Ok(p + s),
        Err(e) => Err(e),
    }
}

proof fn lemma_prefixed_twice(p: Seq<SshConfig>, q: Seq<SshConfig>, r: Result<Seq<SshConfig>, SessionError>)
    ensures
        prefixed(p, prefixed(q, r)) == prefixed(p + q, r),
{
    if let Ok(s) = r {
        assert(p + (q + s) =~= (p + q) + s);
    }
}

/// A chain that resolves starts with the profile it was resolved from; a chain
/// that does not fails with a configuration error.
pub proof fn lemma_chain_shape(reg: Map<Seq<char>, SshConfig>, c: SshConfig, seen: Seq<Seq<char>>, fuel: nat)
    ensures
        chain_after(reg, c, seen, fuel) is Ok ==> chain_after(reg, c, seen, fuel)->Ok_0.len() >= 1
            && chain_after(reg, c, seen, fuel)->Ok_0[0] == c,
        chain_after(reg, c, seen, fuel) is Err ==> chain_after(reg, c, seen, fuel)->Err_0.is_configuration(),
    decreases fuel,
{
    if let Some(id) = link_of(c) {
        if !seen.contains(id) && reg.contains_key(id) && fuel > 0 {
            lemma_chain_shape(reg, reg[id], seen.push(id), (fuel - 1) as nat);
        }
    }
}

/// Whether `id` is one of `ids`.
fn followed(ids: &Vec<String>, id: &String) -> (r: bool)
    ensures
        r == ids@.map_values(|s: String| s@).contains(id@),
{
    let mut i: usize = 0;
    while i < ids.len()
        invariant
            i <= ids@.len(),
            forall|j: int| 0 <= j < i ==> ids@[j]@ != id@,
        decreases ids@.len() - i,
    {
        if ids[i] == *id {
            assert(ids@.map_values(|s: String| s@)[i as int] == id@);
            return true;
        }
        i = i + 1;
    }
    proof {
        if ids@.map_values(|s: String| s@).contains(id@) {
            let view = ids@.map_values(|s: String| s@);
            let j = choose|j: int| 0 <= j < view.len() && #[trigger] view[j] == id@;
            assert(ids@[j]@ != id@);
        }
    }
    false
}

/// The bastion chain of `start`: `start`, then each profile its links lead
/// to, until a profile has no link.
pub fn bastion_chain(registry: &IdTable<SshConfig>, start: &SshConfig) -> (r: Result<
    Vec<SshConfig>,
    SessionError,
>)
    requires
        registry.wf(),
    ensures
        match chain_from(registry@, *start) {
            Ok(s) => r is Ok && r->Ok_0@ == s,
            Err(e) => r == Err::<Vec<SshConfig>, SessionError>(e),
        },
{
    let mut chain: Vec<SshConfig> = Vec::new();
    chain.push(start.copy());
    let mut seen: Vec<String> = Vec::new();
    let mut fuel: usize = MAX_BASTION_HOPS;
    assert(prefixed(seq![], chain_from(registry@, *start)) == chain_from(registry@, *start)) by {
        if let Ok(s) = chain_from(registry@, *start) {
            assert(Seq::<SshConfig>::empty() + s =~= s);
        }
    }
    assert(chain@.drop_last() =~= Seq::<SshConfig>::empty());
    assert(seen@.map_values(|s: String| s@) =~= Seq::<Seq<char>>::empty());
    loop
        invariant
            registry.wf(),
            chain@.len() >= 1,
            fuel <= MAX_BASTION_HOPS,
            chain_from(registry@, *start) == prefixed(
                chain@.drop_last(),
                chain_after(registry@, chain@.last(), seen@.map_values(|s: String| s@), fuel as nat),
            ),
        decreases fuel,
    {
        let last = chain.len() - 1;
        let (next, id) = match chain[last].bastion_link() {
            None => {
                assert(chain@.drop_last() + seq![chain@.last()] =~= chain@);
                return Ok(chain);
            },
            Some(id) => {
                let id = id.to_owned();
                if followed(&seen, &id) {
                    return Err(SessionError::BastionCycle);
                }
                match registry.get(&id) {
                    None => {
                        return Err(SessionError::MissingBastion);
                    },
                    Some(cfg) => {
                        if fuel == 0 {
                            return Err(SessionError::BastionChainTooLong);
                        }
                        (cfg.copy(), id)
                    },
                }
            },
        };
        let ghost before = chain@;
        let ghost seen_before = seen@.map_values(|s: String| s@);
        let ghost seen_after = seen_before.push(id@);
        proof {
            assert(chain_after(registry@, before.last(), seen_before, fuel as nat) == prefixed(
                seq![before.last()],
                chain_after(registry@, next, seen_after, (fuel - 1) as nat),
            ));
            lemma_prefixed_twice(
                chain@.drop_last(),
                seq![chain@.last()],
                chain_after(registry@, next, seen_after, (fuel - 1) as nat),
            );
            assert(chain@.drop_last() + seq![chain@.last()] =~= chain@);
        }
        chain.push(next);
        seen.push(id);
        fuel = fuel - 1;
        assert(chain@.drop_last() =~= before);
        assert(seen@.map_values(|s: String| s@) =~= seen_after);
    }
}

/// One hop of a connection plan: where to connect and how to authenticate.
///
/// The first hop of a plan is dialled directly; every later hop is reached
/// through a forwarded-connection channel of the hop before it.
pub struct HopStep {
    pub host: String,
    pub port: u16,
    pub username: String,
    pub auth: AuthMethod,
    pub keepalive_interval: u64,
    pub timeout: u64,
}

/// `h` connects to and authenticates as profile `c` says.
pub open spec fn hop_matches(h: HopStep, c: SshConfig) -> bool {
    &&& h.host == c.host
    &&& h.port == c.port
    &&& h.username == c.username
    &&& auth_of(c) == Some(h.auth)
    &&& h.keepalive_interval == c.keepalive_interval
    &&& h.timeout == c.timeout
}

/// Some profile of `chain` has no authentication method.
pub open spec fn lacks_auth(chain: Seq<SshConfig>) -> bool {
    exists|i: int| 0 <= i < chain.len() && #[trigger] auth_of(chain[i]) is None
}

/// Why the route to `target` cannot be planned, if it cannot.
pub open spec fn plan_error(reg: Map<Seq<char>, SshConfig>, target: SshConfig) -> Option<SessionError> {
    match chain_from(reg, target) {
        Err(e) => Some(e),
        Ok(chain) => if lacks_auth(chain) {
            Some(SessionError::NoAuthMethod)
        } else {
            None
        },
    }
}

/// `steps` walks `chain` from its outermost profile in to its first one.
pub open spec fn plan_matches(chain: Seq<SshConfig>, steps: Seq<HopStep>) -> bool {
    &&& steps.len() == chain.len()
    &&& forall|i: int| 0 <= i < steps.len() ==> hop_matches(#[trigger] steps[i], chain[chain.len() - 1 - i])
}

/// The hops that reach `target`: the outermost bastion first, `target` last,
/// each with its authentication method resolved. Nothing of the network is
/// touched, so every configuration error is found here.
pub fn plan_route(registry: &IdTable<SshConfig>, target: &SshConfig) -> (r: Result<
    Vec<HopStep>,
    SessionError,
>)
    requires
        registry.wf(),
    ensures
        match plan_error(registry@, *target) {
            Some(e) => r == Err::<Vec<HopStep>, SessionError>(e),
            None => r is Ok && plan_matches(
                chain_from(registry@, *target)->Ok_0,
                r->Ok_0@,
            ),
        },
{
    let chain = match bastion_chain(registry, target) {
        Ok(c) => c,
        Err(e) => {
            return Err(e);
        },
    };
    let mut steps: Vec<HopStep> = Vec::new();
    let mut i: usize = chain.len();
    while i > 0
        invariant
            i <= chain@.len(),
            chain_from(registry@, *target) is Ok,
            chain_from(registry@, *target)->Ok_0 == chain@,
            steps@.len() == chain@.len() - i,
            forall|j: int| 0 <= j < steps@.len() ==> hop_matches(#[trigger] steps@[j], chain@[chain@.len() - 1 - j]),
            forall|j: int| i <= j < chain@.len() ==> #[trigger] auth_of(chain@[j]) is Some,
        decreases i,
    {
        i = i - 1;
        let c = &chain[i];
        match c.resolve_auth() {
            Err(e) => {
                assert(auth_of(chain@[i as int]) is None);
                assert(lacks_auth(chain@));
                return Err(e);
            },
            Ok(auth) => {
                steps.push(
                    HopStep {
                        host: c.host.clone(),
                        port: c.port,
                        username: c.username.clone(),
                        auth,
                        keepalive_interval: c.keepalive_interval,
                        timeout: c.timeout,
                    },
                );
            },
        }
    }
    assert(!lacks_auth(chain@)) by {
        assert forall|j: int| 0 <= j < chain@.len() implies #[trigger] auth_of(chain@[j]) is Some by {}
    }
    Ok(steps)
}

/// A profile without any authentication method is refused with a
/// configuration error while the route is planned, before any network call.
pub proof fn lemma_missing_auth_refused(reg: Map<Seq<char>, SshConfig>, target: SshConfig)
    requires
        auth_of(target) is None,
    ensures
        plan_error(reg, target) is Some,
        plan_error(reg, target)->0.is_configuration(),
{
    lemma_chain_shape(reg, target, Seq::empty(), MAX_BASTION_HOPS as nat);
    if let Ok(chain) = chain_from(reg, target) {
        assert(auth_of(chain[0]) is None);
        assert(lacks_auth(chain));
    }
}

} // verus!
