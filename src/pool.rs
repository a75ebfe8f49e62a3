use vstd::prelude::*;

verus! {

/// How the pool picks the backend for the next request.
#[derive(Clone, Copy, Debug, PartialEq, Eq, Structural)]
pub enum Policy {
    /// Take the backends in address order, wrapping around at the end.
    RoundRobin,
    /// Take the backend with the fewest active connections, the first on ties.
    LeastConnections,
}

/// Why a pool could not be built.
#[derive(Clone, Copy, Debug, PartialEq, Eq, Structural)]
pub enum PoolError {
    /// The list of backend addresses was empty.
    ConfigurationError,
}

/// Where the round-robin cursor of a pool of `n` backends goes after `c`.
pub open spec fn rr_next(c: nat, n: nat) -> nat {
    (c + 1) % n
}

/// One downstream server and the number of requests in flight to it.
pub struct Backend {
    pub address: String,
    pub connections: usize,
}

/// A fixed, non-empty, ordered collection of backends with a selection policy.
pub struct ServerPool {
    servers: Vec<Backend>,
    cursor: usize,
    policy: Policy,
}

impl ServerPool {
    /// Number of backends.
    pub closed spec fn size(&self) -> nat {
        self.servers@.len()
    }

    /// Address of the backend at index `i`.
    pub closed spec fn addr(&self, i: int) -> Seq<char> {
        self.servers@[i].address@
    }

    /// Active connections of the backend at index `i`.
    pub closed spec fn load(&self, i: int) -> nat {
        self.servers@[i].connections as nat
    }

    /// Position of the round-robin cursor.
    pub closed spec fn cursor(&self) -> nat {
        self.cursor as nat
    }

    /// The policy chosen at construction.
    pub closed spec fn mode(&self) -> Policy {
        self.policy
    }

    /// The pool is non-empty and its cursor points at a backend.
    pub closed spec fn wf(&self) -> bool {
        &&& self.servers@.len() > 0
        &&& self.cursor < self.servers@.len()
    }

    /// A well-formed pool has a backend.
    pub proof fn lemma_wf_size(&self)
        requires
            self.wf(),
        ensures
            self.size() > 0,
    {
    }

    /// The backend addresses in order.
    pub open spec fn addrs(&self) -> Seq<Seq<char>> {
        Seq::new(self.size(), |i: int| self.addr(i))
    }

    /// Every backend has load zero and the cursor is at the first backend.
    pub open spec fn is_fresh(&self) -> bool {
        &&& self.cursor() == 0
        &&& forall|i: int| 0 <= i < self.size() ==> self.load(i) == 0
    }

    /// Builds a pool over `servers`, in that order, with `policy`. Every backend
    /// starts with no active connections and the cursor at the first one.
    pub fn with_policy(servers: Vec<String>, policy: Policy) -> (r: Result<ServerPool, PoolError>)
        ensures
            servers@.len() == 0 <==> r is Err,
            r matches Err(e) ==> e == PoolError::ConfigurationError,
            r matches Ok(p) ==> {
                &&& p.wf()
                &&& p.mode() == policy
                &&& p.is_fresh()
                &&& p.addrs() == servers@.map_values(|s: String| s@)
            },
    {
        if servers.len() == 0 {
            return Err(PoolError::ConfigurationError);
        }
        let mut backends: Vec<Backend> = Vec::new();
        let mut k: usize = 0;
        while k < servers.len()
            invariant
                k <= servers@.len(),
                backends@.len() == k,
                forall|i: int| 0 <= i < k ==> backends@[i].address@ == servers@[i]@,
                forall|i: int| 0 <= i < k ==> backends@[i].connections == 0,
            decreases servers@.len() - k,
        {
            let address = servers[k].clone();
            backends.push(Backend { address, connections: 0 });
            k = k + 1;
        }
        let p = ServerPool { servers: backends, cursor: 0, policy };
        assert(p.addrs() =~= servers@.map_values(|s: String| s@));
        Ok(p)
    }

    /// Builds a least-connections pool over `servers`; see [`ServerPool::with_policy`].
    pub fn new(servers: Vec<String>) -> (r: Result<ServerPool, PoolError>)
        ensures
            servers@.len() == 0 <==> r is Err,
            r matches Err(e) ==> e == PoolError::ConfigurationError,
            r matches Ok(p) ==> {
                &&& p.wf()
                &&& p.mode() == Policy::LeastConnections
                &&& p.is_fresh()
                &&& p.addrs() == servers@.map_values(|s: String| s@)
            },
    {
        ServerPool::with_policy(servers, Policy::LeastConnections)
    }

    /// `r` is the lowest index among the backends with the fewest connections.
    pub open spec fn is_first_min(&self, r: int) -> bool {
        &&& 0 <= r < self.size()
        &&& forall|j: int| 0 <= j < self.size() ==> self.load(r) <= self.load(j)
        &&& forall|j: int| 0 <= j < r ==> self.load(r) < self.load(j)
    }

    /// `after` is `before` with the load of backend `b` set to `v`, all else kept.
    pub open spec fn with_load(before: ServerPool, after: ServerPool, b: int, v: nat) -> bool {
        &&& after.wf()
        &&& after.size() == before.size()
        &&& after.addrs() == before.addrs()
        &&& after.cursor() == before.cursor()
        &&& after.mode() == before.mode()
        &&& after.load(b) == v
        &&& forall|j: int| 0 <= j < before.size() && j != b ==> after.load(j) == before.load(j)
    }

    /// `after` holds the same backends with the same loads as `before`, under the same policy.
    pub open spec fn same_backends(before: ServerPool, after: ServerPool) -> bool {
        &&& after.wf()
        &&& after.size() == before.size()
        &&& after.addrs() == before.addrs()
        &&& after.mode() == before.mode()
        &&& forall|j: int| 0 <= j < before.size() ==> after.load(j) == before.load(j)
    }

    /// Every backend can take one more connection without its counter overflowing.
    pub open spec fn below_cap(&self) -> bool {
        forall|i: int| 0 <= i < self.size() ==> self.load(i) < usize::MAX
    }

    /// The policy chosen at construction.
    pub fn policy(&self) -> (r: Policy)
        ensures
            r == self.mode(),
    {
        self.policy
    }

    /// Number of backends.
    pub fn len(&self) -> (r: usize)
        ensures
            r == self.size(),
    {
        self.servers.len()
    }

    /// Address of the backend at index `i`.
    pub fn address(&self, i: usize) -> (r: &str)
        requires
            i < self.size(),
        ensures
            r@ == self.addr(i as int),
    {
        self.servers[i].address.as_str()
    }

    /// Active connections of the backend at index `i`.
    pub fn connections(&self, i: usize) -> (r: usize)
        requires
            i < self.size(),
        ensures
            r == self.load(i as int),
    {
        self.servers[i].connections
    }

    /// Tells whether every backend can take one more connection.
    pub fn has_headroom(&self) -> (r: bool)
        ensures
            r == self.below_cap(),
    {
        let mut k: usize = 0;
        while k < self.servers.len()
            invariant
                k <= self.servers@.len(),
                forall|j: int| 0 <= j < k ==> self.load(j) < usize::MAX,
            decreases self.servers@.len() - k,
        {
            if self.servers[k].connections == usize::MAX {
                assert(self.load(k as int) == usize::MAX);
                return false;
            }
            k = k + 1;
        }
        true
    }

    /// Scans the backends once and returns the index of the one with the fewest
    /// active connections; on ties the lowest index wins.
    pub fn select_least_loaded(&self) -> (r: usize)
        requires
            self.wf(),
        ensures
            self.is_first_min(r as int),
    {
        let mut min_connections: usize = usize::MAX;
        let mut selected: usize = 0;
        let mut k: usize = 0;
        while k < self.servers.len()
            invariant
                self.wf(),
                k <= self.servers@.len(),
                selected < self.servers@.len(),
                k == 0 ==> selected == 0 && min_connections == usize::MAX,
                k > 0 ==> selected < k && min_connections == self.servers@[selected as int].connections,
                forall|j: int| 0 <= j < k ==> min_connections <= self.servers@[j].connections,
                forall|j: int| 0 <= j < selected ==> min_connections < self.servers@[j].connections,
            decreases self.servers@.len() - k,
        {
            if self.servers[k].connections < min_connections {
                min_connections = self.servers[k].connections;
                selected = k;
            }
            k = k + 1;
        }
        selected
    }

    /// Returns the backend under the cursor and moves the cursor one step on,
    /// back to the first backend after the last.
    pub fn select_round_robin(&mut self) -> (r: usize)
        requires
            old(self).wf(),
        ensures
            r == old(self).cursor(),
            final(self).cursor() == rr_next(old(self).cursor(), old(self).size()),
            ServerPool::same_backends(*old(self), *final(self)),
    {
        let r = self.cursor;
        let n = self.servers.len();
        if r == n - 1 {
            self.cursor = 0;
            assert((r + 1) % (n as int) == 0) by (nonlinear_arith)
                requires
                    r + 1 == n,
                    n > 0,
            ;
        } else {
            self.cursor = r + 1;
            assert((r + 1) % (n as int) == r + 1) by (nonlinear_arith)
                requires
                    r + 1 < n,
            ;
        }
        assert(self.addrs() =~= old(self).addrs());
        r
    }

    /// Picks the backend for the next request by the pool's policy.
    pub fn next_server(&mut self) -> (r: usize)
        requires
            old(self).wf(),
        ensures
            r < old(self).size(),
            old(self).mode() == Policy::RoundRobin ==> {
                &&& r == old(self).cursor()
                &&& final(self).cursor() == rr_next(old(self).cursor(), old(self).size())
            },
            old(self).mode() == Policy::LeastConnections ==> {
                &&& old(self).is_first_min(r as int)
                &&& *final(self) == *old(self)
            },
            ServerPool::same_backends(*old(self), *final(self)),
    {
        match self.policy {
            Policy::RoundRobin => self.select_round_robin(),
            Policy::LeastConnections => self.select_least_loaded(),
        }
    }

    /// Counts one more request in flight to backend `b`.
    pub fn record_start(&mut self, b: usize)
        requires
            old(self).wf(),
            b < old(self).size(),
            old(self).load(b as int) < usize::MAX,
        ensures
            ServerPool::with_load(*old(self), *final(self), b as int, old(self).load(b as int) + 1),
    {
        self.servers[b].connections = self.servers[b].connections + 1;
        assert(self.addrs() =~= old(self).addrs());
    }

    /// Counts one request to backend `b` as finished; a zero count stays zero.
    pub fn record_end(&mut self, b: usize)
        requires
            old(self).wf(),
            b < old(self).size(),
        ensures
            ServerPool::with_load(
                *old(self),
                *final(self),
                b as int,
                if old(self).load(b as int) == 0 { 0 } else { (old(self).load(b as int) - 1) as nat },
            ),
    {
        if self.servers[b].connections > 0 {
            self.servers[b].connections = self.servers[b].connections - 1;
        }
        assert(self.addrs() =~= old(self).addrs());
    }
}

} // verus!
