//! The storage router: from a tenant to the store that holds its secrets.
//!
//! A tenant without an external store is served by the shared store. A
//! tenant with one is served through a pooled connection to exactly that
//! descriptor. The router decides; opening and closing connections is the
//! caller's work, which reports back what happened:
//!
//! * [`StorageRouter::connection_request`] says which descriptor has to be
//!   connected before the tenant can be served;
//! * [`StorageRouter::connected`] pools a connection that was opened;
//! * [`StorageRouter::evict`] drops the connection of a descriptor after it
//!   failed, so that the next request asks for a fresh one.
//!
//! A tenant whose external store is not connected is never served from the
//! shared store instead.

use vstd::prelude::*;
use crate::error::{ErrorKind, VaultError, VaultErrorView};
use crate::models::{DbConnection, DbConnectionView, StoreTargetView, User};

verus! {

/// The resolved target of a tenant's reads and writes.
#[derive(Clone, Copy, Debug, PartialEq, Eq, Structural)]
pub enum StoreHandle {
    /// The tenant's part of the shared store.
    Shared { tenant: u128 },
    /// The tenant's external store, reached through a pooled connection.
    External { tenant: u128, connection: u64 },
}

/// The mathematical value of one pooled connection.
pub struct PooledView {
    pub descriptor: DbConnectionView,
    pub connection: u64,
}

/// The mathematical value of a router: its pool.
pub struct RouterModel {
    pub pool: Seq<PooledView>,
}

impl RouterModel {
    /// The router with nothing pooled.
    pub open spec fn empty() -> RouterModel {
        RouterModel { pool: Seq::empty() }
    }

    /// Whether position `i` of the pool holds the connection of
    /// `descriptor`.
    pub open spec fn pooled_at(self, i: int, descriptor: DbConnectionView) -> bool {
        0 <= i < self.pool.len() && self.pool[i].descriptor == descriptor
    }

    /// Whether a connection to `descriptor` is pooled.
    pub open spec fn has(self, descriptor: DbConnectionView) -> bool {
        exists|i: int| self.pooled_at(i, descriptor)
    }

    /// The position of the pooled connection to `descriptor`.
    pub open spec fn position(self, descriptor: DbConnectionView) -> int {
        choose|i: int| self.pooled_at(i, descriptor)
    }

    /// The pooled connection to `descriptor`.
    pub open spec fn connection(self, descriptor: DbConnectionView) -> u64 {
        self.pool[self.position(descriptor)].connection
    }

    /// No descriptor is pooled twice.
    pub open spec fn wf(self) -> bool {
        forall|i: int, j: int|
            0 <= i < self.pool.len() && 0 <= j < self.pool.len() && i != j ==> (
            #[trigger] self.pool[i]).descriptor != (#[trigger] self.pool[j]).descriptor
    }

    /// The handle that serves tenant `tenant`, routed to `target`; the
    /// tenant's external store is unavailable while no connection to it is
    /// pooled.
    pub open spec fn resolve(self, tenant: u128, target: StoreTargetView) -> Result<
        StoreHandle,
        ErrorKind,
    > {
        match target {
            StoreTargetView::Shared => Ok(StoreHandle::Shared { tenant }),
            StoreTargetView::External(descriptor) => if self.has(descriptor) {
                Ok(StoreHandle::External { tenant, connection: self.connection(descriptor) })
            } else {
                Err(ErrorKind::StoreUnavailable)
            },
        }
    }

    /// The descriptor that has to be connected before a tenant routed to
    /// `target` can be served, if there is one.
    pub open spec fn connection_request(self, target: StoreTargetView) -> Option<
        DbConnectionView,
    > {
        match target {
            StoreTargetView::Shared => None,
            StoreTargetView::External(descriptor) => if self.has(descriptor) {
                None
            } else {
                Some(descriptor)
            },
        }
    }

    /// The router after `connection` was offered for `descriptor`: the
    /// connection is pooled unless the descriptor already has one.
    pub open spec fn with_connection(self, descriptor: DbConnectionView, connection: u64) -> RouterModel {
        if self.has(descriptor) {
            self
        } else {
            RouterModel { pool: self.pool.push(PooledView { descriptor, connection }) }
        }
    }

    /// The router after the connection to `descriptor` was dropped.
    pub open spec fn evicted(self, descriptor: DbConnectionView) -> RouterModel {
        if self.has(descriptor) {
            RouterModel { pool: self.pool.remove(self.position(descriptor)) }
        } else {
            self
        }
    }
}

/// A live connection to one external store.
struct PooledConnection {
    descriptor: DbConnection,
    connection: u64,
}

impl View for PooledConnection {
    type V = PooledView;

    closed spec fn view(&self) -> PooledView {
        PooledView { descriptor: self.descriptor@, connection: self.connection }
    }
}

/// The router with its pool of connections to external stores.
pub struct StorageRouter {
    pool: Vec<PooledConnection>,
}

impl View for StorageRouter {
    type V = RouterModel;

    closed spec fn view(&self) -> RouterModel {
        RouterModel { pool: self.pool@.map_values(|p: PooledConnection| p@) }
    }
}

impl StorageRouter {
    #[verifier::type_invariant]
    closed spec fn inv(&self) -> bool {
        self@.wf()
    }

    /// A router with nothing pooled.
    pub fn new() -> (router: StorageRouter)
        ensures
            router@ == RouterModel::empty(),
            router@.wf(),
    {
        let router = StorageRouter { pool: Vec::new() };
        assert(router@.pool =~= Seq::empty());
        router
    }

    /// Moves the pool out and leaves an empty one behind.
    fn take_pool(&mut self) -> (pool: Vec<PooledConnection>)
        ensures
            pool@.map_values(|p: PooledConnection| p@) == old(self)@.pool,
            old(self)@.wf(),
    {
        proof {
            use_type_invariant(&*self);
        }
        let mut taken = StorageRouter::new();
        std::mem::swap(self, &mut taken);
        taken.pool
    }

    /// The position of the pooled connection to `descriptor`.
    fn find(&self, descriptor: &DbConnection) -> (found: Option<usize>)
        ensures
            self@.wf(),
            match found {
                Some(i) => self@.pooled_at(i as int, descriptor@) && self@.position(descriptor@)
                    == i,
                None => !self@.has(descriptor@),
            },
    {
        proof {
            use_type_invariant(self);
        }
        let mut i: usize = 0;
        while i < self.pool.len()
            invariant
                i <= self.pool.len(),
                self@.wf(),
                forall|j: int| 0 <= j < i ==> !self@.pooled_at(j, descriptor@),
            decreases self.pool.len() - i,
        {
            assert(self.pool[i as int]@ == self@.pool[i as int]);
            if self.pool[i].descriptor.same_target(descriptor) {
                assert(self@.pooled_at(i as int, descriptor@));
                return Some(i);
            }
            i += 1;
        }
        None
    }

    /// Resolves the store that serves `tenant`.
    ///
    /// A tenant without an external store gets its part of the shared
    /// store. A tenant with one gets the pooled connection to exactly that
    /// descriptor, and fails with `StoreUnavailable`, carrying the tenant's
    /// identifier, while none is pooled.
    pub fn resolve(&self, tenant: &User) -> (r: Result<StoreHandle, VaultError>)
        ensures
            match r {
                Ok(handle) => self@.resolve(tenant.id, tenant.target()) == Ok::<_, ErrorKind>(
                    handle,
                ),
                Err(e) => {
                    &&& self@.resolve(tenant.id, tenant.target()) == Err::<StoreHandle, _>(
                        ErrorKind::StoreUnavailable,
                    )
                    &&& e@ == (VaultErrorView {
                        kind: ErrorKind::StoreUnavailable,
                        tenant: tenant.id,
                        secret: None,
                        version: None,
                    })
                },
            },
    {
        match &tenant.db_connection {
            None => Ok(StoreHandle::Shared { tenant: tenant.id }),
            Some(descriptor) => match self.find(descriptor) {
                Some(i) => {
                    assert(self.pool[i as int]@ == self@.pool[i as int]);
                    Ok(
                        StoreHandle::External {
                            tenant: tenant.id,
                            connection: self.pool[i].connection,
                        },
                    )
                },
                None => Err(VaultError::of_tenant(ErrorKind::StoreUnavailable, tenant.id)),
            },
        }
    }

    /// The descriptor that has to be connected before `tenant` can be
    /// served: the tenant's external store, while no connection to it is
    /// pooled.
    pub fn connection_request(&self, tenant: &User) -> (request: Option<DbConnection>)
        ensures
            match request {
                Some(descriptor) => self@.connection_request(tenant.target()) == Some(
                    descriptor@,
                ),
                None => self@.connection_request(tenant.target()) is None,
            },
    {
        match &tenant.db_connection {
            None => None,
            Some(descriptor) => match self.find(descriptor) {
                Some(_) => None,
                None => Some(descriptor.duplicate()),
            },
        }
    }

    /// Pools `connection` for `descriptor`, unless the descriptor already
    /// has a pooled connection, which then stays. Gives the connection that
    /// serves the descriptor from now on.
    pub fn connected(&mut self, descriptor: DbConnection, connection: u64) -> (serving: u64)
        ensures
            final(self)@ == old(self)@.with_connection(descriptor@, connection),
            final(self)@.wf(),
            final(self)@.has(descriptor@),
            serving == final(self)@.connection(descriptor@),
            serving == if old(self)@.has(descriptor@) {
                old(self)@.connection(descriptor@)
            } else {
                connection
            },
    {
        match self.find(&descriptor) {
            Some(i) => {
                assert(self.pool[i as int]@ == self@.pool[i as int]);
                self.pool[i].connection
            },
            None => {
                let ghost before = self@;
                let ghost d = descriptor@;
                let mut pool = self.take_pool();
                pool.push(PooledConnection { descriptor, connection });
                proof {
                    let after = before.with_connection(d, connection);
                    assert(pool@.map_values(|p: PooledConnection| p@) =~= after.pool);
                    lemma_with_connection(before, d, connection);
                }
                *self = StorageRouter { pool };
                connection
            },
        }
    }

    /// Drops the pooled connection to `descriptor`, if there is one, and
    /// gives it back for closing. Every other pooled connection stays.
    pub fn evict(&mut self, descriptor: &DbConnection) -> (dropped: Option<u64>)
        ensures
            final(self)@ == old(self)@.evicted(descriptor@),
            final(self)@.wf(),
            !final(self)@.has(descriptor@),
            dropped == if old(self)@.has(descriptor@) {
                Some(old(self)@.connection(descriptor@))
            } else {
                None
            },
    {
        match self.find(descriptor) {
            Some(i) => {
                let ghost before = self@;
                let mut pool = self.take_pool();
                let entry = pool.remove(i);
                proof {
                    let after = before.evicted(descriptor@);
                    assert(pool@.map_values(|p: PooledConnection| p@) =~= after.pool);
                    lemma_evicted(before, descriptor@);
                }
                *self = StorageRouter { pool };
                Some(entry.connection)
            },
            None => None,
        }
    }

    /// The number of pooled connections.
    pub fn pooled(&self) -> (n: usize)
        ensures
            n == self@.pool.len(),
    {
        self.pool.len()
    }
}

/// Offering a connection keeps a router well formed and leaves the
/// descriptor served: by the connection it had, or else by the one offered.
pub proof fn lemma_with_connection(r: RouterModel, descriptor: DbConnectionView, connection: u64)
    requires
        r.wf(),
    ensures
        r.with_connection(descriptor, connection).wf(),
        r.with_connection(descriptor, connection).has(descriptor),
        r.with_connection(descriptor, connection).connection(descriptor) == if r.has(descriptor) {
            r.connection(descriptor)
        } else {
            connection
        },
{
    let t = r.with_connection(descriptor, connection);
    if !r.has(descriptor) {
        let n = r.pool.len() as int;
        assert(t.pooled_at(n, descriptor));
        assert forall|i: int, j: int|
            0 <= i < t.pool.len() && 0 <= j < t.pool.len() && i != j implies (
        #[trigger] t.pool[i]).descriptor != (#[trigger] t.pool[j]).descriptor by {
            if i < n && j < n {
                assert(t.pool[i] == r.pool[i] && t.pool[j] == r.pool[j]);
            } else if i < n {
                assert(!r.pooled_at(i, descriptor));
            } else {
                assert(!r.pooled_at(j, descriptor));
            }
        }
        let at = t.position(descriptor);
        assert(t.pooled_at(at, descriptor));
        if at != n {
            assert(r.pooled_at(at, descriptor));
        }
    }
}

/// Dropping the connection of a descriptor keeps a router well formed,
/// leaves that descriptor without a connection, and leaves every other
/// descriptor exactly as it was served before.
pub proof fn lemma_evicted(r: RouterModel, descriptor: DbConnectionView)
    requires
        r.wf(),
    ensures
        r.evicted(descriptor).wf(),
        !r.evicted(descriptor).has(descriptor),
        forall|other: DbConnectionView|
            other != descriptor ==> {
                &&& #[trigger] r.evicted(descriptor).has(other) == r.has(other)
                &&& r.has(other) ==> r.evicted(descriptor).connection(other) == r.connection(
                    other,
                )
            },
{
    let t = r.evicted(descriptor);
    if r.has(descriptor) {
        let at = r.position(descriptor);
        assert(r.pooled_at(at, descriptor));
        assert forall|i: int| 0 <= i < t.pool.len() implies #[trigger] t.pool[i] == r.pool[if i
            < at {
            i
        } else {
            i + 1
        }] by {}
        assert forall|i: int, j: int|
            0 <= i < t.pool.len() && 0 <= j < t.pool.len() && i != j implies (
        #[trigger] t.pool[i]).descriptor != (#[trigger] t.pool[j]).descriptor by {
            let a = if i < at { i } else { i + 1 };
            let b = if j < at { j } else { j + 1 };
            assert(t.pool[i] == r.pool[a] && t.pool[j] == r.pool[b]);
        }
        if t.has(descriptor) {
            let i = choose|i: int| t.pooled_at(i, descriptor);
            let a = if i < at { i } else { i + 1 };
            assert(t.pool[i] == r.pool[a]);
            assert(r.pooled_at(a, descriptor));
        }
        assert forall|other: DbConnectionView| other != descriptor implies {
            &&& #[trigger] t.has(other) == r.has(other)
            &&& r.has(other) ==> t.connection(other) == r.connection(other)
        } by {
            if r.has(other) {
                let a = r.position(other);
                assert(r.pooled_at(a, other));
                let i = if a < at { a } else { a - 1 };
                assert(t.pool[i] == r.pool[a]);
                assert(t.pooled_at(i, other));
                let chosen = t.position(other);
                assert(t.pooled_at(chosen, other));
                let back = if chosen < at { chosen } else { chosen + 1 };
                assert(t.pool[chosen] == r.pool[back]);
                assert(r.pooled_at(back, other));
            }
            if t.has(other) {
                let i = choose|i: int| t.pooled_at(i, other);
                let a = if i < at { i } else { i + 1 };
                assert(t.pool[i] == r.pool[a]);
                assert(r.pooled_at(a, other));
            }
        }
    }
}

/// A tenant with an external store is only ever served through a
/// connection to that store: never from the shared store.
pub proof fn lemma_no_silent_fallback(r: RouterModel, tenant: u128, descriptor: DbConnectionView)
    requires
        r.wf(),
    ensures
        match r.resolve(tenant, StoreTargetView::External(descriptor)) {
            Ok(handle) => r.has(descriptor) && handle == (StoreHandle::External {
                tenant,
                connection: r.connection(descriptor),
            }),
            Err(e) => !r.has(descriptor) && e == ErrorKind::StoreUnavailable,
        },
        r.resolve(tenant, StoreTargetView::Shared) == Ok::<_, ErrorKind>(
            StoreHandle::Shared { tenant },
        ),
{
}

/// Two tenants with the same descriptor are served through one pooled
/// connection. When that connection fails and is evicted, neither tenant is
/// served through it again: the router asks for a fresh connection to the
/// same descriptor, and serves the second tenant through it as soon as it
/// is pooled. Tenants routed anywhere else are served throughout exactly as
/// before.
pub proof fn lemma_eviction_is_isolated(
    r: RouterModel,
    descriptor: DbConnectionView,
    first: u128,
    second: u128,
    offered: u64,
    fresh: u64,
    bystander: u128,
    elsewhere: StoreTargetView,
)
    requires
        r.wf(),
        elsewhere != StoreTargetView::External(descriptor),
    ensures
        ({
            let target = StoreTargetView::External(descriptor);
            let pooled = r.with_connection(descriptor, offered);
            let serving = pooled.connection(descriptor);
            let broken = pooled.evicted(descriptor);
            let mended = broken.with_connection(descriptor, fresh);
            &&& pooled.resolve(first, target) == Ok::<_, ErrorKind>(
                StoreHandle::External { tenant: first, connection: serving },
            )
            &&& pooled.resolve(second, target) == Ok::<_, ErrorKind>(
                StoreHandle::External { tenant: second, connection: serving },
            )
            &&& broken.resolve(second, target) == Err::<StoreHandle, _>(
                ErrorKind::StoreUnavailable,
            )
            &&& broken.connection_request(target) == Some(descriptor)
            &&& mended.resolve(second, target) == Ok::<_, ErrorKind>(
                StoreHandle::External { tenant: second, connection: fresh },
            )
            &&& broken.resolve(bystander, elsewhere) == pooled.resolve(bystander, elsewhere)
            &&& mended.resolve(bystander, elsewhere) == pooled.resolve(bystander, elsewhere)
        }),
{
    let target = StoreTargetView::External(descriptor);
    let pooled = r.with_connection(descriptor, offered);
    lemma_with_connection(r, descriptor, offered);
    let broken = pooled.evicted(descriptor);
    lemma_evicted(pooled, descriptor);
    let mended = broken.with_connection(descriptor, fresh);
    lemma_with_connection(broken, descriptor, fresh);
    match elsewhere {
        StoreTargetView::Shared => {},
        StoreTargetView::External(other) => {
            assert(other != descriptor);
            assert(broken.has(other) == pooled.has(other));
            lemma_other_descriptor_kept(broken, descriptor, fresh, other);
        },
    }
}

/// Offering a connection for one descriptor leaves every other descriptor
/// exactly as it was served before.
pub proof fn lemma_other_descriptor_kept(
    r: RouterModel,
    descriptor: DbConnectionView,
    connection: u64,
    other: DbConnectionView,
)
    requires
        r.wf(),
        other != descriptor,
    ensures
        r.with_connection(descriptor, connection).has(other) == r.has(other),
        r.has(other) ==> r.with_connection(descriptor, connection).connection(other)
            == r.connection(other),
{
    let t = r.with_connection(descriptor, connection);
    lemma_with_connection(r, descriptor, connection);
    if !r.has(descriptor) {
        let n = r.pool.len() as int;
        if r.has(other) {
            let a = r.position(other);
            assert(r.pooled_at(a, other));
            assert(t.pool[a] == r.pool[a]);
            assert(t.pooled_at(a, other));
            let chosen = t.position(other);
            assert(t.pooled_at(chosen, other));
            assert(chosen != n);
            assert(t.pool[chosen] == r.pool[chosen]);
            assert(r.pooled_at(chosen, other));
        }
        if t.has(other) {
            let i = choose|i: int| t.pooled_at(i, other);
            assert(i != n);
            assert(t.pool[i] == r.pool[i]);
            assert(r.pooled_at(i, other));
        }
    }
}

} // verus!
