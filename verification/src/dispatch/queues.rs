//! Requests that wait for their client's turn.
//!
//! The requests of one client are handled one after the other, by one task
//! that ends when no request of the client is left.
use std::collections::{HashMap, HashSet, VecDeque};
use vstd::prelude::*;

verus! {

/// What waits for whom, and who is served by a task.
#[verifier::ext_equal]
#[verifier::reject_recursive_types(M)]
pub ghost struct QueueState<M> {
    /// The waiting requests of each client that has any, oldest first.
    pub queues: Map<u128, Seq<M>>,
    /// The clients whose requests a task works on.
    pub active: Set<u128>,
}

impl<M> QueueState<M> {
    /// The waiting requests of a client, oldest first.
    pub open spec fn waiting(self, client_id: u128) -> Seq<M> {
        if self.queues.contains_key(client_id) {
            self.queues[client_id]
        } else {
            Seq::empty()
        }
    }

    /// No queue is empty, and every client with waiting requests has a task.
    pub open spec fn served(self) -> bool {
        forall|client_id: u128| #[trigger]
            self.queues.contains_key(client_id) ==> self.queues[client_id].len() > 0
                && self.active.contains(client_id)
    }
}

/// The state after a request came in.
pub open spec fn after_enqueue<M>(state: QueueState<M>, client_id: u128, message: M) -> QueueState<
    M,
> {
    QueueState {
        queues: state.queues.insert(client_id, state.waiting(client_id).push(message)),
        active: state.active.insert(client_id),
    }
}

/// The request that a client's task gets next.
pub open spec fn next_request<M>(state: QueueState<M>, client_id: u128) -> Option<M> {
    if state.waiting(client_id).len() == 0 {
        None
    } else {
        Some(state.waiting(client_id)[0])
    }
}

/// The state after a client's task asked for its next request. Where there is
/// none, the task is over.
pub open spec fn after_pop<M>(state: QueueState<M>, client_id: u128) -> QueueState<M> {
    let waiting = state.waiting(client_id);
    QueueState {
        queues: if waiting.len() <= 1 {
            state.queues.remove(client_id)
        } else {
            state.queues.insert(client_id, waiting.drop_first())
        },
        active: if waiting.len() == 0 {
            state.active.remove(client_id)
        } else {
            state.active
        },
    }
}

/// The state after a client's task ended without asking.
pub open spec fn after_abandon<M>(state: QueueState<M>, client_id: u128) -> QueueState<M> {
    QueueState { queues: state.queues, active: state.active.remove(client_id) }
}

/// Requests that wait, by client, and the clients that a task works for.
#[verifier::reject_recursive_types(M)]
pub struct ClientRequestQueues<M> {
    queues: HashMap<u128, VecDeque<M>>,
    active: HashSet<u128>,
}

impl<M> View for ClientRequestQueues<M> {
    type V = QueueState<M>;

    closed spec fn view(&self) -> QueueState<M> {
        QueueState {
            queues: self.queues@.map_values(|queue: VecDeque<M>| queue@),
            active: self.active@,
        }
    }
}

impl<M> ClientRequestQueues<M> {
    /// No requests and no tasks.
    pub fn new() -> (queues: Self)
        ensures
            queues@.queues == Map::<u128, Seq<M>>::empty(),
            queues@.active == Set::<u128>::empty(),
            queues@.served(),
    {
        broadcast use vstd::std_specs::hash::group_hash_axioms;

        let queues = ClientRequestQueues { queues: HashMap::new(), active: HashSet::new() };
        assert(queues@.queues =~= Map::empty());
        queues
    }

    /// Puts a request at the end of its client's queue. Returns whether the
    /// caller has to start a task for the client.
    pub fn enqueue_client_request(&mut self, client_id: u128, message: M) -> (start: bool)
        ensures
            final(self)@ == after_enqueue(old(self)@, client_id, message),
            start == !old(self)@.active.contains(client_id),
    {
        broadcast use vstd::std_specs::hash::group_hash_axioms;

        let ghost before = self@;
        let mut queue: VecDeque<M> = match self.queues.remove(&client_id) {
            Some(queue) => queue,
            None => VecDeque::new(),
        };
        assert(queue@ =~= before.waiting(client_id));
        queue.push_back(message);
        self.queues.insert(client_id, queue);
        let start: bool = self.active.insert(client_id);
        assert(self@ =~= after_enqueue(before, client_id, message));
        start
    }

    /// The next request of a client, for the task that works for the client.
    /// Where there is none, the task is over and the client has none any more.
    pub fn pop_next_client_request(&mut self, client_id: u128) -> (message: Option<M>)
        ensures
            message == next_request(old(self)@, client_id),
            final(self)@ == after_pop(old(self)@, client_id),
    {
        broadcast use vstd::std_specs::hash::group_hash_axioms;

        let ghost before = self@;
        let mut queue: VecDeque<M> = match self.queues.remove(&client_id) {
            Some(queue) => queue,
            None => {
                self.active.remove(&client_id);
                assert(self@ =~= after_pop(before, client_id));
                return None;
            },
        };
        let ghost waiting = queue@;
        assert(waiting == before.waiting(client_id));
        let message: Option<M> = queue.pop_front();
        if message.is_none() {
            self.active.remove(&client_id);
        }
        if queue.len() > 0 {
            assert(queue@ =~= waiting.drop_first());
            self.queues.insert(client_id, queue);
        }
        assert(self@ =~= after_pop(before, client_id));
        message
    }

    /// Ends a client's task without a look at its queue, where the shard that
    /// would handle the requests is gone.
    pub fn abandon(&mut self, client_id: u128)
        ensures
            final(self)@ == after_abandon(old(self)@, client_id),
    {
        broadcast use vstd::std_specs::hash::group_hash_axioms;

        let ghost before = self@;
        self.active.remove(&client_id);
        assert(self@ =~= after_abandon(before, client_id));
    }
}

/// No queue is ever empty, and no client with waiting requests is ever without
/// a task: incoming requests and a task's own asking keep that.
pub proof fn law_waiting_clients_are_served<M>(state: QueueState<M>, client_id: u128, message: M)
    requires
        state.served(),
    ensures
        after_enqueue(state, client_id, message).served(),
        after_pop(state, client_id).served(),
{
}

/// A client has one task at most: a request starts one exactly where there is
/// none, and afterwards there is one.
pub proof fn law_one_task_per_client<M>(state: QueueState<M>, client_id: u128, message: M)
    ensures
        after_enqueue(state, client_id, message).active.contains(client_id),
        forall|other: u128|
            other != client_id ==> #[trigger] after_enqueue(
                state,
                client_id,
                message,
            ).active.contains(other) == state.active.contains(other),
{
}

/// A task ends exactly where nothing is left, so that the next request starts
/// another.
pub proof fn law_task_ends_when_nothing_waits<M>(state: QueueState<M>, client_id: u128)
    requires
        state.active.contains(client_id),
    ensures
        !after_pop(state, client_id).active.contains(client_id) <==> next_request(
            state,
            client_id,
        ) is None,
        next_request(state, client_id) is None ==> after_pop(state, client_id).waiting(
            client_id,
        ).len() == 0,
{
}

/// The state after a client's task asked `times` times.
pub open spec fn after_pops<M>(state: QueueState<M>, client_id: u128, times: nat) -> QueueState<M>
    decreases times,
{
    if times == 0 {
        state
    } else {
        after_pop(after_pops(state, client_id, (times - 1) as nat), client_id)
    }
}

/// A client's task gets the waiting requests in the order in which they came,
/// each once; those that come in meanwhile follow them.
pub proof fn law_requests_keep_their_order<M>(state: QueueState<M>, client_id: u128, times: nat)
    requires
        times <= state.waiting(client_id).len(),
    ensures
        after_pops(state, client_id, times).waiting(client_id) == state.waiting(client_id).skip(
            times as int,
        ),
        times < state.waiting(client_id).len() ==> next_request(
            after_pops(state, client_id, times),
            client_id,
        ) == Some(state.waiting(client_id)[times as int]),
    decreases times,
{
    let waiting = state.waiting(client_id);
    if times == 0 {
        assert(waiting.skip(0) =~= waiting);
    } else {
        law_requests_keep_their_order(state, client_id, (times - 1) as nat);
        let before = after_pops(state, client_id, (times - 1) as nat);
        assert(before.waiting(client_id) =~= waiting.skip(times - 1));
        assert(before.waiting(client_id).drop_first() =~= waiting.skip(times as int));
        assert(after_pop(before, client_id).waiting(client_id) =~= waiting.skip(times as int));
    }
}

/// What one client's requests and tasks do changes nothing for another.
pub proof fn law_clients_do_not_meet<M>(
    state: QueueState<M>,
    client_id: u128,
    other: u128,
    message: M,
)
    requires
        client_id != other,
    ensures
        after_enqueue(state, client_id, message).waiting(other) == state.waiting(other),
        after_pop(state, client_id).waiting(other) == state.waiting(other),
        after_pop(state, client_id).active.contains(other) == state.active.contains(other),
        after_abandon(state, client_id).waiting(other) == state.waiting(other),
{
}

/// Requests whose task was abandoned are kept, and the next request of the
/// client starts a task that gets them first.
pub proof fn law_abandoned_requests_are_kept<M>(state: QueueState<M>, client_id: u128, message: M)
    ensures
        ({
            let abandoned = after_abandon(state, client_id);
            &&& !abandoned.active.contains(client_id)
            &&& after_enqueue(abandoned, client_id, message).waiting(client_id) == state.waiting(
                client_id,
            ).push(message)
        }),
{
}

} // verus!
