//! What holds of every queue state, whatever calls led to it.
//!
//! The statements are over [`QueueState`], in which the contracts of
//! [`crate::queue_manager::QueueManager`] are written, so each of them holds
//! of every manager.

use crate::queue_manager::{QueueManagerJoinError, QueueManagerLeaveError, QueueState, UserType};
use vstd::prelude::*;
use vstd::seq_lib::lemma_no_dup_in_concat;

verus! {

/// One call that may change a queue.
pub enum QueueCall {
    Join(Seq<char>, UserType),
    Next,
    Leave(Seq<char>),
    Kick(Seq<char>),
}

/// The state that `call` leaves behind.
pub open spec fn after_call(state: QueueState, call: QueueCall) -> QueueState {
    match call {
        QueueCall::Join(name, user_type) => state.join(name, user_type),
        QueueCall::Next => state.next(),
        QueueCall::Leave(name) => state.leave(name),
        QueueCall::Kick(name) => state.leave(name),
    }
}

/// The state that `calls` leave behind, made one after the other.
pub open spec fn after_calls(state: QueueState, calls: Seq<QueueCall>) -> QueueState
    decreases calls.len(),
{
    if calls.len() == 0 {
        state
    } else {
        after_call(after_calls(state, calls.drop_last()), calls.last())
    }
}

/// The state after `n` calls of `next`.
pub open spec fn after_nexts(state: QueueState, n: nat) -> QueueState
    decreases n,
{
    if n == 0 {
        state
    } else {
        after_nexts(state, (n - 1) as nat).next()
    }
}

/// What call number `n` of `next` returns, where the first call has number
/// 0 and nothing else is called in between.
pub open spec fn served(state: QueueState, n: nat) -> Option<Seq<char>> {
    after_nexts(state, n).head()
}

/// Whether `a` stands before `b` in the serving order.
pub open spec fn waits_before(state: QueueState, a: Seq<char>, b: Seq<char>) -> bool {
    exists|i: int, j: int|
        0 <= i < j < state.queue().len() && state.queue()[i] == a && state.queue()[j] == b
}

/// The sequence of the class `user_type`.
pub open spec fn class_of(state: QueueState, user_type: UserType) -> Seq<Seq<char>> {
    match user_type {
        UserType::Default => state.users,
        UserType::Subscriber => state.subscribers,
    }
}

/// No name twice in either class nor across them says the same as: no name
/// twice in the serving order.
pub proof fn lemma_no_name_twice_in_queue(state: QueueState)
    ensures
        state.no_name_twice() <==> state.queue().no_duplicates(),
{
    let subscribers = state.subscribers;
    let users = state.users;
    let queue = state.queue();
    if state.no_name_twice() {
        assert forall|i: int, j: int|
            0 <= i < subscribers.len() && 0 <= j < users.len() implies subscribers[i]
            != users[j] by {
            assert(subscribers.contains(subscribers[i]));
            assert(users.contains(users[j]));
        }
        lemma_no_dup_in_concat(subscribers, users);
    }
    if queue.no_duplicates() {
        assert forall|i: int, j: int|
            0 <= i < subscribers.len() && 0 <= j < subscribers.len() && i != j implies subscribers[i]
            != subscribers[j] by {
            assert(queue[i] == subscribers[i] && queue[j] == subscribers[j]);
        }
        assert forall|i: int, j: int|
            0 <= i < users.len() && 0 <= j < users.len() && i != j implies users[i]
            != users[j] by {
            assert(queue[subscribers.len() + i] == users[i]);
            assert(queue[subscribers.len() + j] == users[j]);
        }
        assert forall|name: Seq<char>| #[trigger]
            subscribers.contains(name) implies !users.contains(name) by {
            if users.contains(name) {
                let i = choose|i: int| 0 <= i < subscribers.len() && subscribers[i] == name;
                let j = choose|j: int| 0 <= j < users.len() && users[j] == name;
                assert(queue[i] == name);
                assert(queue[subscribers.len() + j] == name);
            }
        }
    }
}

/// Every state that calls lead to from a valid state is valid: no name
/// stands in the queue twice, and the queue is never longer than the
/// capacity, which never changes.
pub proof fn lemma_calls_keep_valid(state: QueueState, calls: Seq<QueueCall>)
    requires
        state.wf(),
    ensures
        after_calls(state, calls).wf(),
        after_calls(state, calls).queue().no_duplicates(),
        after_calls(state, calls).queue().len() <= after_calls(state, calls).capacity,
        after_calls(state, calls).capacity == state.capacity,
        after_calls(state, calls).storage_path == state.storage_path,
    decreases calls.len(),
{
    if calls.len() > 0 {
        let before = after_calls(state, calls.drop_last());
        lemma_calls_keep_valid(state, calls.drop_last());
        match calls.last() {
            QueueCall::Join(name, user_type) => before.lemma_join_wf(name, user_type),
            QueueCall::Next => before.lemma_next_wf(),
            QueueCall::Leave(name) => before.lemma_leave_wf(name),
            QueueCall::Kick(name) => before.lemma_leave_wf(name),
        }
    }
    lemma_no_name_twice_in_queue(after_calls(state, calls));
}

/// A full queue refuses every name that it does not hold, and stays as it
/// is. (A name that it holds is refused as queued already.)
pub proof fn lemma_join_full(state: QueueState, name: Seq<char>, user_type: UserType)
    requires
        state.wf(),
        state.len() == state.capacity,
        !state.contains(name),
    ensures
        state.join_result(name) == Err::<(), QueueManagerJoinError>(
            QueueManagerJoinError::QueueFull,
        ),
        state.join(name, user_type) == state,
{
}

/// With capacity 0 every `join` is refused because the queue is full.
pub proof fn lemma_join_zero_capacity(state: QueueState, name: Seq<char>, user_type: UserType)
    requires
        state.wf(),
        state.capacity == 0,
    ensures
        state.join_result(name) == Err::<(), QueueManagerJoinError>(
            QueueManagerJoinError::QueueFull,
        ),
        state.join(name, user_type) == state,
{
    assert(state.subscribers.len() == 0 && state.users.len() == 0);
}

/// `next` returns the first of the serving order and leaves the rest of it.
pub proof fn lemma_next_takes_first(state: QueueState)
    ensures
        state.queue().len() > 0 ==> state.head() == Some(state.queue().first())
            && state.next().queue() == state.queue().drop_first(),
        state.queue().len() == 0 ==> state.head() is None && state.next() == state,
{
    if state.queue().len() > 0 {
        assert(state.next().queue() =~= state.queue().drop_first());
    }
}

/// Calls of `next` with nothing in between return the serving order from
/// its first name to its last, each once, and then nothing.
pub proof fn lemma_serving_order(state: QueueState, n: nat)
    ensures
        served(state, n) == if n < state.queue().len() {
            Some(state.queue()[n as int])
        } else {
            None
        },
        after_nexts(state, n).queue() == if n < state.queue().len() {
            state.queue().skip(n as int)
        } else {
            Seq::empty()
        },
    decreases n,
{
    if n == 0 {
        assert(state.queue().skip(0) =~= state.queue());
        assert(state.queue().len() == 0 ==> state.queue() =~= Seq::empty());
    } else {
        let before = after_nexts(state, (n - 1) as nat);
        lemma_serving_order(state, (n - 1) as nat);
        lemma_next_takes_first(before);
        if n - 1 < state.queue().len() {
            assert(before.queue().drop_first() =~= if n < state.queue().len() {
                state.queue().skip(n as int)
            } else {
                Seq::empty()
            });
        } else {
            assert(before.queue().len() == 0);
        }
        if n < state.queue().len() {
            assert(state.queue().skip(n as int)[0] == state.queue()[n as int]);
        }
    }
}

/// Subscribers come first: as long as a subscriber waits, `next` returns a
/// subscriber, and a regular user is returned only once every subscriber
/// has been.
pub proof fn lemma_subscribers_first(state: QueueState, n: nat)
    ensures
        n < state.subscribers.len() ==> served(state, n) == Some(state.subscribers[n as int]),
        state.subscribers.len() <= n < state.len() ==> served(state, n) == Some(
            state.users[n - state.subscribers.len()],
        ),
        state.subscribers.len() > 0 ==> state.head() == Some(state.subscribers[0])
            && state.next().users == state.users,
{
    lemma_serving_order(state, n);
}

/// Who joins a class later stands behind everyone who waits in that class.
pub proof fn lemma_joined_later_waits_behind(
    state: QueueState,
    a: Seq<char>,
    b: Seq<char>,
    user_type: UserType,
)
    requires
        class_of(state, user_type).contains(a),
        state.join_result(b) is Ok,
    ensures
        waits_before(state.join(b, user_type), a, b),
{
    let after = state.join(b, user_type);
    let i = choose|i: int|
        0 <= i < class_of(state, user_type).len() && class_of(state, user_type)[i] == a;
    match user_type {
        UserType::Default => {
            let m = state.subscribers.len() + i;
            let n = (state.subscribers.len() + state.users.len()) as int;
            assert(after.queue()[m] == a && after.queue()[n] == b);
        },
        UserType::Subscriber => {
            let n = state.subscribers.len() as int;
            assert(after.queue()[i] == a && after.queue()[n] == b);
        },
    }
}

/// Who stands before another in the serving order is returned by an
/// earlier call of `next`, and the other by none up to that call.
pub proof fn lemma_waits_before_served_before(state: QueueState, a: Seq<char>, b: Seq<char>)
    requires
        state.wf(),
        waits_before(state, a, b),
    ensures
        exists|m: nat, n: nat|
            m < n && served(state, m) == Some(a) && served(state, n) == Some(b) && forall|k: nat|
                k <= m ==> served(state, k) != Some(b),
{
    let queue = state.queue();
    let (i, j) = choose|i: int, j: int|
        0 <= i < j < queue.len() && queue[i] == a && queue[j] == b;
    lemma_no_name_twice_in_queue(state);
    lemma_serving_order(state, i as nat);
    lemma_serving_order(state, j as nat);
    assert forall|k: nat| k <= i as nat implies served(state, k) != Some(b) by {
        lemma_serving_order(state, k);
    }
    assert((i as nat) < (j as nat) && served(state, i as nat) == Some(a) && served(
        state,
        j as nat,
    ) == Some(b) && forall|k: nat| k <= i as nat ==> served(state, k) != Some(b));
}

/// First come, first served within a class: of two participants of one
/// class, `next` returns the one who joined first strictly before the
/// other, if neither leaves.
pub proof fn lemma_first_come_first_served(
    state: QueueState,
    a: Seq<char>,
    b: Seq<char>,
    user_type: UserType,
)
    requires
        state.wf(),
        class_of(state, user_type).contains(a),
        state.join_result(b) is Ok,
    ensures
        exists|m: nat, n: nat|
            m < n && served(state.join(b, user_type), m) == Some(a) && served(
                state.join(b, user_type),
                n,
            ) == Some(b) && forall|k: nat|
                k <= m ==> served(state.join(b, user_type), k) != Some(b),
{
    state.lemma_join_wf(b, user_type);
    lemma_joined_later_waits_behind(state, a, b, user_type);
    lemma_waits_before_served_before(state.join(b, user_type), a, b);
}

/// No call reorders the queue: two participants who are both still queued
/// after a call stand in the order in which they stood before it.
pub proof fn lemma_call_keeps_order(state: QueueState, call: QueueCall, a: Seq<char>, b: Seq<char>)
    requires
        state.wf(),
        waits_before(state, a, b),
        after_call(state, call).contains(a),
        after_call(state, call).contains(b),
    ensures
        waits_before(after_call(state, call), a, b),
{
    let queue = state.queue();
    let after = after_call(state, call);
    let subscribers = state.subscribers.len() as int;
    let (i, j) = choose|i: int, j: int|
        0 <= i < j < queue.len() && queue[i] == a && queue[j] == b;
    lemma_no_name_twice_in_queue(state);
    match call {
        QueueCall::Join(name, user_type) => {
            if state.join_result(name) is Ok {
                match user_type {
                    UserType::Default => {
                        assert(after.queue()[i] == a && after.queue()[j] == b);
                    },
                    UserType::Subscriber => {
                        let i2 = if i < subscribers { i } else { i + 1 };
                        let j2 = if j < subscribers { j } else { j + 1 };
                        assert(after.queue()[i2] == a && after.queue()[j2] == b);
                    },
                }
            } else {
                assert(after.queue()[i] == a && after.queue()[j] == b);
            }
        },
        QueueCall::Next => {
            lemma_next_takes_first(state);
            lemma_queue_contains(after, a);
            let i2 = choose|i2: int| 0 <= i2 < after.queue().len() && after.queue()[i2] == a;
            assert(queue[i2 + 1] == a);
            assert(after.queue()[i - 1] == a && after.queue()[j - 1] == b);
        },
        QueueCall::Leave(name) => {
            lemma_leave_keeps_order(state, name, i, j);
        },
        QueueCall::Kick(name) => {
            lemma_leave_keeps_order(state, name, i, j);
        },
    }
}

/// A name waits in a class exactly if it stands in the serving order.
pub proof fn lemma_queue_contains(state: QueueState, name: Seq<char>)
    ensures
        state.contains(name) <==> state.queue().contains(name),
{
    let queue = state.queue();
    if state.subscribers.contains(name) {
        let i = choose|i: int| 0 <= i < state.subscribers.len() && state.subscribers[i] == name;
        assert(queue[i] == name);
    }
    if state.users.contains(name) {
        let i = choose|i: int| 0 <= i < state.users.len() && state.users[i] == name;
        assert(queue[state.subscribers.len() + i] == name);
    }
    if queue.contains(name) {
        let i = choose|i: int| 0 <= i < queue.len() && queue[i] == name;
        if i < state.subscribers.len() {
            assert(state.subscribers[i] == name);
        } else {
            assert(state.users[i - state.subscribers.len()] == name);
        }
    }
}

/// `leave` takes one name out of the serving order and moves no other.
pub proof fn lemma_leave_takes_one(state: QueueState, name: Seq<char>)
    requires
        state.wf(),
    ensures
        state.contains(name) ==> state.leave(name).queue() == state.queue().remove(
            state.queue().index_of(name),
        ) && 0 <= state.queue().index_of(name) < state.queue().len()
            && state.queue()[state.queue().index_of(name)] == name,
        !state.contains(name) ==> state.leave(name) == state,
{
    let queue = state.queue();
    state.subscribers.index_of_first_ensures(name);
    state.users.index_of_first_ensures(name);
    lemma_queue_contains(state, name);
    lemma_no_name_twice_in_queue(state);
    if state.subscribers.contains(name) {
        let p = state.subscribers.index_of_first(name)->0;
        assert(queue[p] == name);
        assert(queue.index_of(name) == p);
        assert(state.leave(name).queue() =~= queue.remove(p));
    } else if state.users.contains(name) {
        let p = state.users.index_of_first(name)->0;
        let q = state.subscribers.len() + p;
        assert(queue[q] == name);
        assert(queue.index_of(name) == q);
        assert(state.leave(name).queue() =~= queue.remove(q));
    }
}

proof fn lemma_leave_keeps_order(state: QueueState, name: Seq<char>, i: int, j: int)
    requires
        state.wf(),
        0 <= i < j < state.queue().len(),
        state.leave(name).contains(state.queue()[i]),
        state.leave(name).contains(state.queue()[j]),
    ensures
        waits_before(state.leave(name), state.queue()[i], state.queue()[j]),
{
    let queue = state.queue();
    let after = state.leave(name);
    lemma_leave_takes_one(state, name);
    lemma_no_name_twice_in_queue(state);
    if state.contains(name) {
        let p = queue.index_of(name);
        lemma_queue_contains(after, queue[i]);
        lemma_queue_contains(after, queue[j]);
        let i1 = choose|i1: int| 0 <= i1 < after.queue().len() && after.queue()[i1] == queue[i];
        let j1 = choose|j1: int| 0 <= j1 < after.queue().len() && after.queue()[j1] == queue[j];
        assert(queue[if i1 < p { i1 } else { i1 + 1 }] == queue[i]);
        assert(queue[if j1 < p { j1 } else { j1 + 1 }] == queue[j]);
        assert(i != p && j != p);
        let i2 = if i < p { i } else { i - 1 };
        let j2 = if j < p { j } else { j - 1 };
        assert(after.queue()[i2] == queue[i] && after.queue()[j2] == queue[j]);
    } else {
        assert(after.queue()[i] == queue[i] && after.queue()[j] == queue[j]);
    }
}

/// Leaving twice: once a name has left, or never waited, `leave` and `kick`
/// refuse it; and a name that waits can leave.
pub proof fn lemma_leave_twice(state: QueueState, name: Seq<char>)
    requires
        state.wf(),
    ensures
        state.contains(name) ==> state.leave_result(name) == Ok::<(), QueueManagerLeaveError>(()),
        state.leave(name).leave_result(name) == Err::<(), QueueManagerLeaveError>(
            QueueManagerLeaveError::UserNotInQueue,
        ),
        state.leave(name).leave(name) == state.leave(name),
{
    lemma_leave_takes_one(state, name);
    lemma_no_name_twice_in_queue(state);
    let queue = state.queue();
    let after = state.leave(name);
    lemma_queue_contains(after, name);
    if state.contains(name) {
        let p = queue.index_of(name);
        if after.queue().contains(name) {
            let k = choose|k: int| 0 <= k < after.queue().len() && after.queue()[k] == name;
            assert(queue[if k < p { k } else { k + 1 }] == name);
        }
    } else {
        lemma_queue_contains(state, name);
    }
    state.lemma_leave_wf(name);
    lemma_leave_takes_one(after, name);
}

/// A manager that is started from its own stored state, with its own
/// capacity and path, is in that state again: the same names in the same
/// order in each class, and the same capacity.
pub proof fn lemma_restore_own_state(state: QueueState)
    requires
        state.wf(),
    ensures
        QueueState::restored(state.capacity, state.storage_path, state) == state,
{
}

/// A stored state is taken over exactly if it holds no name twice and fits
/// the capacity; the manager that starts from it is valid either way.
pub proof fn lemma_restored_valid(capacity: nat, storage_path: Seq<char>, stored: QueueState)
    requires
        storage_path.len() > 0,
    ensures
        QueueState::restored(capacity, storage_path, stored).wf(),
        QueueState::restored(capacity, storage_path, stored).capacity == capacity,
        QueueState::restored(capacity, storage_path, stored).storage_path == storage_path,
        stored.no_name_twice() && stored.len() <= capacity ==> QueueState::restored(
            capacity,
            storage_path,
            stored,
        ).queue() == stored.queue(),
        !(stored.no_name_twice() && stored.len() <= capacity) ==> QueueState::restored(
            capacity,
            storage_path,
            stored,
        ).queue() == Seq::<Seq<char>>::empty(),
{
    let empty = QueueState::empty(capacity, storage_path);
    assert(empty.queue() =~= Seq::<Seq<char>>::empty());
}

} // verus!
