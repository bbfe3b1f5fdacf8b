//! How the acceptor hands each new connection to a worker.
use tokio::sync::mpsc::Sender;
use vstd::prelude::*;

verus! {

/// Report from a worker to the acceptor: the worker's authoritative number of
/// active connections.
#[derive(Debug)]
pub struct LoadUpdate {
    pub worker_id: usize,
    pub total: i32,
}

#[verifier::external_type_specification]
#[verifier::external_body]
#[verifier::reject_recursive_types(T)]
pub struct ExSender<T>(Sender<T>);

/// `tokio::sync::mpsc::Sender::capacity`: the number of messages that can be
/// queued on the channel right now. The value moves as other tasks send and
/// receive, so nothing is claimed about it.
#[verifier::external_body]
fn sender_capacity<T>(tx: &Sender<T>) -> usize {
    tx.capacity()
}

/// Worker `i` may be handed a connection: its queue has room.
pub open spec fn eligible(room: Seq<bool>, i: int) -> bool {
    0 <= i < room.len() && room[i]
}

/// `i` is the worker the acceptor picks: a worker with room whose load is
/// minimal among the workers with room, and the last such worker.
pub open spec fn is_pick(loads: Seq<i32>, room: Seq<bool>, i: int) -> bool {
    &&& eligible(room, i)
    &&& forall|j: int| eligible(room, j) ==> loads[i] <= loads[j]
    &&& forall|j: int| i < j && eligible(room, j) ==> loads[i] < loads[j]
}

/// The worker picked for a new connection, if any worker has room.
pub open spec fn pick(loads: Seq<i32>, room: Seq<bool>) -> Option<usize> {
    if exists|i: int| eligible(room, i) {
        Some((choose|i: int| is_pick(loads, room, i)) as usize)
    } else {
        None
    }
}

/// At most one worker is the pick.
pub proof fn lemma_pick_unique(loads: Seq<i32>, room: Seq<bool>, i: int, k: int)
    requires
        is_pick(loads, room, i),
        is_pick(loads, room, k),
    ensures
        i == k,
{
    if i < k {
        assert(loads[i] < loads[k]);
        assert(loads[k] <= loads[i]);
    } else if k < i {
        assert(loads[k] < loads[i]);
        assert(loads[i] <= loads[k]);
    }
}

/// Whenever some worker has room, a pick exists.
pub proof fn lemma_pick_exists(loads: Seq<i32>, room: Seq<bool>)
    requires
        room.len() <= loads.len(),
        room.len() <= usize::MAX,
        exists|i: int| eligible(room, i),
    ensures
        exists|i: int| is_pick(loads, room, i),
        pick(loads, room) matches Some(i) && is_pick(loads, room, i as int),
{
    let w = lemma_scan(loads, room, room.len() as int);
    assert(is_pick(loads, room, w));
    let c = choose|i: int| is_pick(loads, room, i);
    lemma_pick_unique(loads, room, w, c);
}

/// The pick among the first `n` workers, found by scanning them in order.
proof fn lemma_scan(loads: Seq<i32>, room: Seq<bool>, n: int) -> (w: int)
    requires
        0 <= n <= room.len(),
        room.len() <= loads.len(),
        exists|i: int| 0 <= i < n && eligible(room, i),
    ensures
        0 <= w < n,
        eligible(room, w),
        forall|j: int| 0 <= j < n && eligible(room, j) ==> loads[w] <= loads[j],
        forall|j: int| w < j < n && eligible(room, j) ==> loads[w] < loads[j],
    decreases n,
{
    if exists|i: int| 0 <= i < n - 1 && eligible(room, i) {
        let v = lemma_scan(loads, room, n - 1);
        if eligible(room, n - 1) && loads[n - 1] <= loads[v] {
            n - 1
        } else {
            v
        }
    } else {
        n - 1
    }
}

/// No worker's load exceeds another's by more than one.
pub open spec fn balanced(loads: Seq<i32>) -> bool {
    forall|i: int, j: int| 0 <= i < loads.len() && 0 <= j < loads.len() ==> loads[i] <= loads[j] + 1
}

/// While every queue has room, handing a connection to the picked worker and
/// counting it keeps the loads within one of each other.
pub proof fn lemma_dispatch_keeps_balance(loads: Seq<i32>, room: Seq<bool>, i: int)
    requires
        room.len() == loads.len(),
        forall|j: int| 0 <= j < room.len() ==> room[j],
        balanced(loads),
        is_pick(loads, room, i),
        loads[i] < i32::MAX,
    ensures
        balanced(loads.update(i, (loads[i] + 1) as i32)),
{
    let after = loads.update(i, (loads[i] + 1) as i32);
    assert forall|a: int, b: int| 0 <= a < after.len() && 0 <= b < after.len() implies after[a] <= after[b] + 1 by {
        assert(eligible(room, a) && eligible(room, b));
    }
}

/// Picks the worker for a new connection from each worker's load and whether
/// its queue has room: the last of the least-loaded workers with room, or
/// `None` when no queue has room.
pub fn choose_worker(loads: &[i32], room: &[bool]) -> (choice: Option<usize>)
    requires
        room@.len() <= loads@.len(),
    ensures
        choice == pick(loads@, room@),
        choice is None <==> forall|i: int| !eligible(room@, i),
        choice matches Some(i) ==> is_pick(loads@, room@, i as int),
        choice is None <==> forall|i: int| 0 <= i < room@.len() ==> !room@[i],
        choice matches Some(i) ==> {
            &&& i < room@.len()
            &&& room@[i as int]
            &&& forall|j: int| 0 <= j < room@.len() && room@[j] ==> loads@[i as int] <= loads@[j]
            &&& forall|j: int| i < j < room@.len() && room@[j] ==> loads@[i as int] < loads@[j]
        },
{
    let mut target: Option<usize> = None;
    let mut min_load: i32 = i32::MAX;
    let n = room.len();
    for id in 0..n
        invariant
            n == room@.len(),
            room@.len() <= loads@.len(),
            target is None ==> min_load == i32::MAX && forall|j: int| 0 <= j < id ==> !eligible(room@, j),
            target matches Some(t) ==> {
                &&& t < id
                &&& eligible(room@, t as int)
                &&& min_load == loads@[t as int]
                &&& forall|j: int| 0 <= j < id && eligible(room@, j) ==> loads@[t as int] <= loads@[j]
                &&& forall|j: int| t < j < id && eligible(room@, j) ==> loads@[t as int] < loads@[j]
            },
    {
        if room[id] && loads[id] <= min_load {
            min_load = loads[id];
            target = Some(id);
        }
    }
    proof {
        match target {
            Some(t) => {
                assert(is_pick(loads@, room@, t as int));
                lemma_pick_exists(loads@, room@);
                let c = choose|i: int| is_pick(loads@, room@, i);
                lemma_pick_unique(loads@, room@, t as int, c);
                assert forall|j: int| 0 <= j < room@.len() && room@[j] implies loads@[t as int] <= loads@[j] by {
                    assert(eligible(room@, j));
                }
                assert forall|j: int| t < j < room@.len() && room@[j] implies loads@[t as int] < loads@[j] by {
                    assert(eligible(room@, j));
                }
                assert(!(forall|i: int| 0 <= i < room@.len() ==> !room@[i]));
            },
            None => {
                assert forall|i: int| !eligible(room@, i) by {}
                assert forall|i: int| 0 <= i < room@.len() implies !room@[i] by {
                    assert(!eligible(room@, i));
                }
            },
        }
    }
    target
}

/// Whether some worker's queue has room.
pub fn any_room(room: &[bool]) -> (found: bool)
    ensures
        found == exists|i: int| eligible(room@, i),
{
    let n = room.len();
    for id in 0..n
        invariant
            n == room@.len(),
            forall|j: int| 0 <= j < id ==> !eligible(room@, j),
    {
        if room[id] {
            assert(eligible(room@, id as int));
            return true;
        }
    }
    false
}

/// The acceptor's view of its workers: one connection queue per worker and
/// the load it believes each worker carries.
#[verifier::reject_recursive_types(T)]
pub struct LoadBalancer<T> {
    worker_txs: Vec<Sender<T>>,
    loads: Vec<i32>,
}

impl<T> LoadBalancer<T> {
    /// Every worker has exactly one believed load.
    pub closed spec fn wf(&self) -> bool {
        self.loads@.len() == self.worker_txs@.len()
    }

    /// The believed load of each worker, by worker id.
    pub closed spec fn load_view(&self) -> Seq<i32> {
        self.loads@
    }

    /// The queues to the workers, by worker id.
    pub closed spec fn queues(&self) -> Seq<Sender<T>> {
        self.worker_txs@
    }

    /// Starts with the given worker queues, every worker at load 0.
    pub fn new(worker_txs: Vec<Sender<T>>) -> (balancer: Self)
        ensures
            balancer.wf(),
            balancer.queues() == worker_txs@,
            balancer.load_view() == Seq::new(worker_txs@.len(), |i: int| 0i32),
    {
        let n = worker_txs.len();
        let mut loads: Vec<i32> = Vec::new();
        for i in 0..n
            invariant
                loads@ == Seq::new(i as nat, |k: int| 0i32),
        {
            loads.push(0);
        }
        LoadBalancer { worker_txs, loads }
    }

    /// Number of workers.
    pub fn num_workers(&self) -> (n: usize)
        requires
            self.wf(),
        ensures
            n == self.queues().len(),
            n == self.load_view().len(),
    {
        self.worker_txs.len()
    }

    /// The believed load of each worker.
    pub fn loads(&self) -> (loads: &[i32])
        ensures
            loads@ == self.load_view(),
    {
        self.loads.as_slice()
    }

    /// The queue to worker `id`.
    pub fn queue(&self, id: usize) -> (tx: &Sender<T>)
        requires
            id < self.queues().len(),
        ensures
            *tx == self.queues()[id as int],
    {
        &self.worker_txs[id]
    }

    /// Asks each worker queue whether it has room now.
    fn room_snapshot(&self) -> (room: Vec<bool>)
        ensures
            room@.len() == self.queues().len(),
    {
        let n = self.worker_txs.len();
        let mut room: Vec<bool> = Vec::new();
        for i in 0..n
            invariant
                n == self.worker_txs@.len(),
                room@.len() == i,
        {
            let capacity = sender_capacity(&self.worker_txs[i]);
            room.push(capacity > 0);
        }
        room
    }

    /// Whether some worker queue has room now. Which queues have room is
    /// read from the queues at the time of the call.
    pub fn any_capacity(&self) -> (found: bool)
        ensures
            exists|room: Seq<bool>|
                room.len() == self.queues().len() && found == (exists|i: int| #[trigger] eligible(room, i)),
    {
        let room = self.room_snapshot();
        let found = any_room(room.as_slice());
        assert(room@.len() == self.queues().len() && found == (exists|i: int| eligible(room@, i)));
        found
    }

    /// The worker that gets the next connection: the pick among the workers
    /// whose queues have room at the time of the call.
    pub fn select_worker(&self) -> (choice: Option<usize>)
        requires
            self.wf(),
        ensures
            exists|room: Seq<bool>|
                room.len() == self.queues().len() && choice == #[trigger] pick(self.load_view(), room),
            choice matches Some(i) ==> i < self.queues().len(),
    {
        let room = self.room_snapshot();
        let choice = choose_worker(self.loads.as_slice(), room.as_slice());
        assert(room@.len() == self.queues().len() && choice == pick(self.load_view(), room@));
        choice
    }

    /// Counts a connection handed to worker `id` before the worker reports
    /// its own total.
    pub fn record_dispatch(&mut self, id: usize)
        requires
            old(self).wf(),
            id < old(self).load_view().len(),
            old(self).load_view()[id as int] < i32::MAX,
        ensures
            final(self).wf(),
            final(self).queues() == old(self).queues(),
            final(self).load_view() == old(self).load_view().update(id as int, (old(self).load_view()[id as int] + 1) as i32),
    {
        let load = self.loads[id];
        self.loads.set(id, load + 1);
    }

    /// Takes a worker's report of its active connections as that worker's
    /// load. A report from an unknown worker changes nothing and yields `false`.
    pub fn apply_load_update(&mut self, update: &LoadUpdate) -> (known: bool)
        requires
            old(self).wf(),
        ensures
            final(self).wf(),
            final(self).queues() == old(self).queues(),
            known == (update.worker_id < old(self).load_view().len()),
            known ==> final(self).load_view() == old(self).load_view().update(update.worker_id as int, update.total),
            !known ==> final(self).load_view() == old(self).load_view(),
    {
        if update.worker_id < self.loads.len() {
            self.loads.set(update.worker_id, update.total);
            true
        } else {
            false
        }
    }

    /// Drops every worker queue, which tells the workers that no more
    /// connections will come.
    pub fn close(&mut self)
        ensures
            final(self).wf(),
            final(self).queues().len() == 0,
            final(self).load_view().len() == 0,
    {
        self.worker_txs.clear();
        self.loads.clear();
    }
}

} // verus!
