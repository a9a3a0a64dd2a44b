//! The fixed table of provider connections and the binding of pools to them.
//!
//! Policy: every connection must be established before monitoring starts, and
//! a single unreachable endpoint is fatal to startup. Pools may outnumber
//! connections; pool `i` is then bound to connection `i mod n`, so that pools
//! share connections round-robin.

use vstd::prelude::*;

verus! {

/// Why the provider pool could not be set up.
#[derive(Clone, Copy, Debug, PartialEq, Eq, Structural)]
pub enum ConnectionError {
    /// No endpoint was given, so no pool could be served.
    NoConnections,
    /// The endpoint for this slot could not be reached.
    Unreachable { slot: usize },
}

/// The connection that serves a pool: pools are dealt out to the connections
/// in turn.
pub open spec fn slot_of(pool_index: nat, connections: nat) -> nat
    recommends
        connections > 0,
{
    pool_index % connections
}

/// The first position of `outcomes` that holds no handle, or the length of
/// `outcomes` when every position holds one.
pub open spec fn first_unreachable<H>(outcomes: Seq<Option<H>>) -> nat
    decreases outcomes.len(),
{
    if outcomes.len() == 0 || outcomes[0] is None {
        0
    } else {
        1 + first_unreachable(outcomes.drop_first())
    }
}

/// A non-empty table of provider handles, one per connection, fixed once it
/// has been established.
pub struct ProviderPool<H> {
    handles: Vec<H>,
}

impl<H> View for ProviderPool<H> {
    type V = Seq<H>;

    closed spec fn view(&self) -> Seq<H> {
        self.handles@
    }
}

impl<H> ProviderPool<H> {
    #[verifier::type_invariant]
    spec fn holds_a_connection(self) -> bool {
        self.handles@.len() > 0
    }

    /// Builds the table from the outcome of each connection attempt, in slot
    /// order: `Some` holds the handle of an established connection, `None`
    /// stands for an endpoint that could not be reached.
    pub fn establish(outcomes: Vec<Option<H>>) -> (r: Result<ProviderPool<H>, ConnectionError>)
        ensures
            outcomes@.len() == 0 ==> r == Err::<ProviderPool<H>, ConnectionError>(
                ConnectionError::NoConnections,
            ),
            0 < outcomes@.len() && first_unreachable(outcomes@) < outcomes@.len() ==> r == Err::<
                ProviderPool<H>,
                ConnectionError,
            >(ConnectionError::Unreachable { slot: first_unreachable(outcomes@) as usize }),
            0 < outcomes@.len() && first_unreachable(outcomes@) == outcomes@.len() ==> (r matches Ok(
                pool,
            ) && pool@.len() == outcomes@.len() && forall|i: int|
                0 <= i < pool@.len() ==> (#[trigger] outcomes@[i]) == Some(pool@[i])),
    {
        if outcomes.len() == 0 {
            return Err(ConnectionError::NoConnections);
        }
        let ghost all = outcomes@;
        let mut outcomes = outcomes;
        let mut reversed: Vec<H> = Vec::new();
        // Take the handles out from the back, so that each move is cheap.
        let mut missing: Option<usize> = None;
        while outcomes.len() > 0
            invariant
                outcomes@ == all.take(outcomes@.len() as int),
                outcomes@.len() <= all.len(),
                match missing {
                    Some(slot) => outcomes@.len() <= slot < all.len() && all[slot as int] is None
                        && forall|i: int| outcomes@.len() <= i < slot ==> all[i] is Some,
                    None => reversed@.len() == all.len() - outcomes@.len() && forall|i: int|
                        outcomes@.len() <= i < all.len() ==> (#[trigger] all[i]) == Some(
                            reversed@[all.len() - 1 - i],
                        ),
                },
            decreases outcomes@.len(),
        {
            let ghost before = outcomes@;
            let last = outcomes.pop();
            assert(outcomes@ == all.take(outcomes@.len() as int));
            match last {
                Some(Some(handle)) => {
                    if missing.is_none() {
                        reversed.push(handle);
                    }
                },
                _ => {
                    missing = Some(outcomes.len());
                },
            }
        }
        proof {
            lemma_first_unreachable(all);
        }
        match missing {
            Some(slot) => {
                proof {
                    lemma_first_unreachable_is(all, slot as nat);
                }
                Err(ConnectionError::Unreachable { slot })
            },
            None => {
                proof {
                    lemma_first_unreachable_all(all);
                }
                let mut handles: Vec<H> = Vec::new();
                let ghost back = reversed@;
                while reversed.len() > 0
                    invariant
                        reversed@ == back.take(reversed@.len() as int),
                        reversed@.len() <= back.len(),
                        handles@.len() == back.len() - reversed@.len(),
                        forall|i: int|
                            0 <= i < handles@.len() ==> #[trigger] handles@[i] == back[back.len()
                                - 1 - i],
                    decreases reversed@.len(),
                {
                    let handle = reversed.pop();
                    assert(reversed@ == back.take(reversed@.len() as int));
                    match handle {
                        Some(handle) => {
                            handles.push(handle);
                        },
                        None => {},
                    }
                }
                Ok(ProviderPool { handles })
            },
        }
    }

    /// The number of connections, which is never zero.
    pub fn len(&self) -> (n: usize)
        ensures
            n == self@.len(),
            n > 0,
    {
        proof {
            use_type_invariant(self);
        }
        self.handles.len()
    }

    /// The slot of the connection that serves the pool with this index.
    pub fn slot_for(&self, pool_index: usize) -> (slot: usize)
        ensures
            slot == slot_of(pool_index as nat, self@.len()),
            slot < self@.len(),
    {
        proof {
            use_type_invariant(self);
        }
        pool_index % self.handles.len()
    }

    /// The handle of the connection that serves the pool with this index.
    pub fn handle_for(&self, pool_index: usize) -> (handle: &H)
        ensures
            *handle == self@[slot_of(pool_index as nat, self@.len()) as int],
    {
        proof {
            use_type_invariant(self);
        }
        &self.handles[pool_index % self.handles.len()]
    }
}

/// With at least as many connections as pools, every pool has a connection
/// of its own.
pub proof fn lemma_distinct_pools_distinct_connections(
    first: nat,
    second: nat,
    pools: nat,
    connections: nat,
)
    requires
        first < pools,
        second < pools,
        first != second,
        pools <= connections,
    ensures
        slot_of(first, connections) == first,
        slot_of(second, connections) == second,
        slot_of(first, connections) != slot_of(second, connections),
{
    vstd::arithmetic::div_mod::lemma_small_mod(first, connections);
    vstd::arithmetic::div_mod::lemma_small_mod(second, connections);
}

/// The binding is round-robin: it names a connection of the table, the first
/// pools take the connections in order, and the pool that follows takes the
/// connection that follows, the first one again after the last.
pub proof fn lemma_round_robin(pool_index: nat, connections: nat)
    requires
        connections > 0,
    ensures
        slot_of(pool_index, connections) < connections,
        pool_index < connections ==> slot_of(pool_index, connections) == pool_index,
        slot_of(pool_index + 1, connections) == if slot_of(pool_index, connections) + 1
            == connections {
            0
        } else {
            slot_of(pool_index, connections) + 1
        },
        slot_of(pool_index + connections, connections) == slot_of(pool_index, connections),
{
    let n = connections as int;
    let i = pool_index as int;
    vstd::arithmetic::div_mod::lemma_mod_bound(i, n);
    vstd::arithmetic::div_mod::lemma_fundamental_div_mod(i, n);
    let q = i / n;
    let r = i % n;
    assert(i == q * n + r && i + n == (q + 1) * n + r) by (nonlinear_arith)
        requires
            i == n * q + r,
    ;
    if pool_index < connections {
        vstd::arithmetic::div_mod::lemma_small_mod(pool_index, connections);
    }
    if r + 1 == n {
        assert(i + 1 == (q + 1) * n + 0) by (nonlinear_arith)
            requires
                i == q * n + r,
                r + 1 == n,
        ;
        vstd::arithmetic::div_mod::lemma_fundamental_div_mod_converse(i + 1, n, q + 1, 0);
    } else {
        vstd::arithmetic::div_mod::lemma_fundamental_div_mod_converse(i + 1, n, q, r + 1);
    }
    vstd::arithmetic::div_mod::lemma_fundamental_div_mod_converse(i + n, n, q + 1, r);
}

/// Two pools share a connection exactly when their indices differ by a
/// multiple of the number of connections.
pub proof fn lemma_shared_connection(first: nat, second: nat, connections: nat)
    requires
        connections > 0,
        first <= second,
    ensures
        slot_of(first, connections) == slot_of(second, connections) <==> (second - first)
            % (connections as int) == 0,
{
    vstd::arithmetic::div_mod::lemma_mod_equivalence(
        second as int,
        first as int,
        connections as int,
    );
}

/// With more pools than connections, some connection is shared: the pool
/// whose index is the number of connections is bound to the connection of
/// pool zero.
pub proof fn lemma_outnumbered_connections_are_shared(pools: nat, connections: nat)
    requires
        0 < connections < pools,
    ensures
        slot_of(0, connections) == slot_of(connections, connections),
        exists|first: nat, second: nat|
            first < second < pools && slot_of(first, connections) == slot_of(second, connections),
{
    lemma_round_robin(0, connections);
    assert(0 < connections < pools && slot_of(0, connections) == slot_of(connections, connections));
}

/// `first_unreachable` never points past the end.
proof fn lemma_first_unreachable<H>(outcomes: Seq<Option<H>>)
    ensures
        first_unreachable(outcomes) <= outcomes.len(),
        first_unreachable(outcomes) < outcomes.len() ==> outcomes[first_unreachable(
            outcomes,
        ) as int] is None,
        forall|i: int| 0 <= i < first_unreachable(outcomes) ==> (#[trigger] outcomes[i]) is Some,
    decreases outcomes.len(),
{
    if outcomes.len() == 0 || outcomes[0] is None {
    } else {
        let rest = outcomes.drop_first();
        lemma_first_unreachable(rest);
        assert forall|i: int| 0 <= i < first_unreachable(outcomes) implies (
        #[trigger] outcomes[i]) is Some by {
            if i > 0 {
                assert(outcomes[i] == rest[i - 1]);
            }
        }
    }
}

/// A `None` that only `Some` precede is the first unreachable slot.
proof fn lemma_first_unreachable_is<H>(outcomes: Seq<Option<H>>, slot: nat)
    requires
        slot < outcomes.len(),
        outcomes[slot as int] is None,
        forall|i: int| 0 <= i < slot ==> (#[trigger] outcomes[i]) is Some,
    ensures
        first_unreachable(outcomes) == slot,
{
    lemma_first_unreachable(outcomes);
    let first = first_unreachable(outcomes);
    if first < slot {
        assert(outcomes[first as int] is Some);
    } else if first > slot {
        assert(outcomes[slot as int] is Some);
    }
}

/// Where every slot holds a handle, no slot is unreachable.
proof fn lemma_first_unreachable_all<H>(outcomes: Seq<Option<H>>)
    requires
        forall|i: int| 0 <= i < outcomes.len() ==> (#[trigger] outcomes[i]) is Some,
    ensures
        first_unreachable(outcomes) == outcomes.len(),
{
    lemma_first_unreachable(outcomes);
    let first = first_unreachable(outcomes);
    if first < outcomes.len() {
        assert(outcomes[first as int] is Some);
    }
}

} // verus!
