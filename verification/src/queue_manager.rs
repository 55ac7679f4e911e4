//! The participant queue: who plays next.
//!
//! A [`QueueManager`] owns two first-in-first-out sequences of participant
//! names, one per priority class, and a fixed capacity on their combined
//! length. Subscribers are always served before regular users. Its contracts
//! are stated over [`QueueState`], the mathematical content of a manager.
//!
//! The manager reads and writes no file. Who keeps a store for it hands
//! what the store held to [`QueueManager::restore`] when the program
//! starts, and writes [`QueueManager::snapshot`] after every call that
//! changed the queue, before the change is reported: a `join`, `leave` or
//! `kick` that answered `Ok`, a `next` that answered `Some`. Access from
//! several threads is the caller's to order; every call that changes the
//! queue takes the manager exclusively.

use crate::text::names_of;
use std::collections::VecDeque;
use vstd::prelude::*;

verus! {

/// The priority class of a participant.
#[derive(Debug, Clone, Copy, PartialEq, Eq, Structural)]
pub enum UserType {
    Default,
    Subscriber,
}

/// Why a participant could not join.
#[derive(Debug, Clone, Copy, PartialEq, Eq, Structural)]
pub enum QueueManagerJoinError {
    QueueFull,
    UserAlreadyInQueue,
}

/// Why a participant could not be removed.
#[derive(Debug, Clone, Copy, PartialEq, Eq, Structural)]
pub enum QueueManagerLeaveError {
    UserNotInQueue,
}

/// What a queue manager holds, as mathematical values. A name is the
/// sequence of its characters.
pub struct QueueState {
    /// Subscribers, in order of arrival.
    pub subscribers: Seq<Seq<char>>,
    /// Regular users, in order of arrival.
    pub users: Seq<Seq<char>>,
    /// The largest combined length of the two sequences.
    pub capacity: nat,
    /// Where snapshots of this queue are kept.
    pub storage_path: Seq<char>,
}

impl QueueState {
    /// The queue without participants.
    pub open spec fn empty(capacity: nat, storage_path: Seq<char>) -> QueueState {
        QueueState { subscribers: Seq::empty(), users: Seq::empty(), capacity, storage_path }
    }

    /// The serving order: every subscriber, then every regular user.
    pub open spec fn queue(self) -> Seq<Seq<char>> {
        self.subscribers + self.users
    }

    /// The number of participants in both classes together.
    pub open spec fn len(self) -> nat {
        self.subscribers.len() + self.users.len()
    }

    /// Whether `name` waits in either class.
    pub open spec fn contains(self, name: Seq<char>) -> bool {
        self.subscribers.contains(name) || self.users.contains(name)
    }

    /// Whether no name occurs twice, neither within one class nor across
    /// both.
    pub open spec fn no_name_twice(self) -> bool {
        &&& self.subscribers.no_duplicates()
        &&& self.users.no_duplicates()
        &&& forall|name: Seq<char>| #[trigger]
            self.subscribers.contains(name) ==> !self.users.contains(name)
    }

    /// Whether the two sequences hold no name twice and fit the capacity.
    pub open spec fn fits(self) -> bool {
        &&& self.no_name_twice()
        &&& self.len() <= self.capacity
    }

    /// Validity of a manager's state: the contents fit, and the storage path
    /// is not empty.
    pub open spec fn wf(self) -> bool {
        &&& self.fits()
        &&& self.storage_path.len() > 0
    }

    /// What `join` answers: a name already queued is refused first, then a
    /// full queue.
    pub open spec fn join_result(self, name: Seq<char>) -> Result<(), QueueManagerJoinError> {
        if self.contains(name) {
            Err(QueueManagerJoinError::UserAlreadyInQueue)
        } else if self.len() == self.capacity {
            Err(QueueManagerJoinError::QueueFull)
        } else {
            Ok(())
        }
    }

    /// The state after `join`: on success the name stands last in its class,
    /// on failure nothing has changed.
    pub open spec fn join(self, name: Seq<char>, user_type: UserType) -> QueueState {
        if self.join_result(name) is Err {
            self
        } else {
            match user_type {
                UserType::Default => QueueState { users: self.users.push(name), ..self },
                UserType::Subscriber => QueueState {
                    subscribers: self.subscribers.push(name),
                    ..self
                },
            }
        }
    }

    /// Who is served next: the first of the serving order, if there is one.
    pub open spec fn head(self) -> Option<Seq<char>> {
        if self.queue().len() > 0 {
            Some(self.queue()[0])
        } else {
            None
        }
    }

    /// The state after `next`: the head has left its class.
    pub open spec fn next(self) -> QueueState {
        if self.subscribers.len() > 0 {
            QueueState { subscribers: self.subscribers.drop_first(), ..self }
        } else if self.users.len() > 0 {
            QueueState { users: self.users.drop_first(), ..self }
        } else {
            self
        }
    }

    /// What `leave` and `kick` answer.
    pub open spec fn leave_result(self, name: Seq<char>) -> Result<(), QueueManagerLeaveError> {
        if self.contains(name) {
            Ok(())
        } else {
            Err(QueueManagerLeaveError::UserNotInQueue)
        }
    }

    /// The state after `leave` or `kick`: the first match is gone, searched
    /// among the subscribers first, and everyone else keeps their place.
    pub open spec fn leave(self, name: Seq<char>) -> QueueState {
        if self.subscribers.contains(name) {
            QueueState { subscribers: self.subscribers.remove_value(name), ..self }
        } else if self.users.contains(name) {
            QueueState { users: self.users.remove_value(name), ..self }
        } else {
            self
        }
    }

    /// The state a manager starts from when a stored state is at hand: the
    /// stored sequences if they fit the configured capacity, else none.
    /// Capacity and storage path are always the configured ones.
    pub open spec fn restored(capacity: nat, storage_path: Seq<char>, stored: QueueState) -> QueueState {
        let adopted = QueueState {
            subscribers: stored.subscribers,
            users: stored.users,
            capacity,
            storage_path,
        };
        if adopted.fits() {
            adopted
        } else {
            QueueState::empty(capacity, storage_path)
        }
    }
}

/// A stored state of a queue, as plain values: what is written to the
/// snapshot file and read back from it.
#[derive(Debug, PartialEq, Eq)]
pub struct QueueSnapshot {
    pub queue_users: Vec<String>,
    pub queue_subscribers: Vec<String>,
    pub capacity: usize,
    pub storage_file_path: String,
}

impl View for QueueSnapshot {
    type V = QueueState;

    open spec fn view(&self) -> QueueState {
        QueueState {
            subscribers: names_of(self.queue_subscribers@),
            users: names_of(self.queue_users@),
            capacity: self.capacity as nat,
            storage_path: self.storage_file_path@,
        }
    }
}

/// The waiting list. Every manager is valid: see [`QueueState::wf`].
pub struct QueueManager {
    queue_users: VecDeque<String>,
    queue_subscribers: VecDeque<String>,
    capacity: usize,
    storage_file_path: String,
}

impl View for QueueManager {
    type V = QueueState;

    closed spec fn view(&self) -> QueueState {
        QueueState {
            subscribers: names_of(self.queue_subscribers@),
            users: names_of(self.queue_users@),
            capacity: self.capacity as nat,
            storage_path: self.storage_file_path@,
        }
    }
}

/// The index of the first string in `queue` that spells `name`.
fn position(queue: &VecDeque<String>, name: &String) -> (found: Option<usize>)
    ensures
        match found {
            Some(i) => {
                &&& i < queue@.len()
                &&& names_of(queue@)[i as int] == name@
                &&& names_of(queue@).index_of_first(name@) == Some(i as int)
            },
            None => !names_of(queue@).contains(name@),
        },
{
    let mut i: usize = 0;
    while i < queue.len()
        invariant
            i <= queue@.len(),
            forall|j: int| 0 <= j < i ==> names_of(queue@)[j] != name@,
        decreases queue@.len() - i,
    {
        if queue[i] == *name {
            proof {
                let names = names_of(queue@);
                assert(names[i as int] == name@);
                names.index_of_first_ensures(name@);
                let first = names.index_of_first(name@)->0;
                assert(names[first] == name@);
                assert(first == i);
            }
            return Some(i);
        }
        i += 1;
    }
    None
}

/// Copies of the strings in `queue`, in the same order.
fn to_vec(queue: &VecDeque<String>) -> (copy: Vec<String>)
    ensures
        copy@ == queue@,
{
    let mut copy: Vec<String> = Vec::new();
    let mut i: usize = 0;
    while i < queue.len()
        invariant
            i <= queue@.len(),
            copy@ == queue@.take(i as int),
        decreases queue@.len() - i,
    {
        copy.push(queue[i].clone());
        assert(copy@ =~= queue@.take(i + 1));
        i += 1;
    }
    assert(queue@.take(i as int) =~= queue@);
    copy
}

/// Removes the first string that spells `name`, if there is one.
fn remove_from_queue(queue: &mut VecDeque<String>, name: &str) -> (result: Result<
    (),
    QueueManagerLeaveError,
>)
    ensures
        result == if names_of(old(queue)@).contains(name@) {
            Ok::<(), QueueManagerLeaveError>(())
        } else {
            Err(QueueManagerLeaveError::UserNotInQueue)
        },
        names_of(final(queue)@) == names_of(old(queue)@).remove_value(name@),
{
    let name = name.to_owned();
    match position(queue, &name) {
        Some(i) => {
            queue.remove(i);
            assert(names_of(queue@) =~= names_of(old(queue)@).remove(i as int));
            Ok(())
        },
        None => {
            proof {
                names_of(queue@).index_of_first_ensures(name@);
            }
            Err(QueueManagerLeaveError::UserNotInQueue)
        },
    }
}

impl QueueManager {
    #[verifier::type_invariant]
    spec fn valid(&self) -> bool {
        self@.wf()
    }

    /// A manager without participants, for a store that holds no usable
    /// state yet.
    pub fn new(capacity: usize, storage_file_path: &str) -> (manager: QueueManager)
        requires
            storage_file_path@.len() > 0,
        ensures
            manager@ == QueueState::empty(capacity as nat, storage_file_path@),
            manager@.wf(),
    {
        let manager = QueueManager {
            queue_users: VecDeque::new(),
            queue_subscribers: VecDeque::new(),
            capacity,
            storage_file_path: storage_file_path.to_owned(),
        };
        assert(manager@.subscribers =~= Seq::empty());
        assert(manager@.users =~= Seq::empty());
        manager
    }

    /// A manager for a store in which `stored` was found. The stored
    /// sequences are taken over if they hold no name twice and fit
    /// `capacity`; a stored state that does not is no usable state, and the
    /// manager starts without participants. The capacity and path that were
    /// stored are not consulted.
    #[verifier::loop_isolation(false)]
    pub fn restore(capacity: usize, storage_file_path: &str, stored: &QueueSnapshot) -> (manager:
        QueueManager)
        requires
            storage_file_path@.len() > 0,
        ensures
            manager@ == QueueState::restored(capacity as nat, storage_file_path@, stored@),
            manager@.wf(),
    {
        let ghost adopted = QueueState {
            subscribers: stored@.subscribers,
            users: stored@.users,
            capacity: capacity as nat,
            storage_path: storage_file_path@,
        };
        let subscribers = &stored.queue_subscribers;
        let users = &stored.queue_users;
        if subscribers.len() > capacity || users.len() > capacity - subscribers.len() {
            return QueueManager::new(capacity, storage_file_path);
        }
        let mut queue_subscribers: VecDeque<String> = VecDeque::new();
        let mut i: usize = 0;
        while i < subscribers.len()
            invariant
                i <= subscribers@.len(),
                queue_subscribers@ == subscribers@.take(i as int),
                names_of(queue_subscribers@).no_duplicates(),
            decreases subscribers@.len() - i,
        {
            let found = position(&queue_subscribers, &subscribers[i]);
            if let Some(j) = found {
                proof {
                    assert(names_of(queue_subscribers@)[j as int] == subscribers@[j as int]@);
                    assert(adopted.subscribers[j as int] == adopted.subscribers[i as int]);
                    assert(!adopted.subscribers.no_duplicates());
                }
                return QueueManager::new(capacity, storage_file_path);
            }
            queue_subscribers.push_back(subscribers[i].clone());
            assert(queue_subscribers@ =~= subscribers@.take(i + 1));
            proof {
                lemma_push_no_duplicates(
                    names_of(subscribers@.take(i as int)),
                    subscribers@[i as int]@,
                );
                assert(names_of(subscribers@.take(i + 1)) =~= names_of(
                    subscribers@.take(i as int),
                ).push(subscribers@[i as int]@));
            }
            i += 1;
        }
        assert(subscribers@.take(i as int) =~= subscribers@);
        let mut queue_users: VecDeque<String> = VecDeque::new();
        let mut k: usize = 0;
        while k < users.len()
            invariant
                k <= users@.len(),
                queue_users@ == users@.take(k as int),
                queue_subscribers@ == subscribers@,
                names_of(queue_users@).no_duplicates(),
                forall|name: Seq<char>| #[trigger]
                    names_of(queue_subscribers@).contains(name) ==> !names_of(
                        queue_users@,
                    ).contains(name),
            decreases users@.len() - k,
        {
            if let Some(j) = position(&queue_subscribers, &users[k]) {
                proof {
                    assert(adopted.subscribers[j as int] == adopted.users[k as int]);
                    assert(adopted.subscribers.contains(adopted.users[k as int]));
                    assert(adopted.users.contains(adopted.users[k as int]));
                    assert(!adopted.no_name_twice());
                }
                return QueueManager::new(capacity, storage_file_path);
            }
            if let Some(j) = position(&queue_users, &users[k]) {
                proof {
                    assert(names_of(queue_users@)[j as int] == users@[j as int]@);
                    assert(adopted.users[j as int] == adopted.users[k as int]);
                    assert(!adopted.users.no_duplicates());
                }
                return QueueManager::new(capacity, storage_file_path);
            }
            queue_users.push_back(users[k].clone());
            assert(queue_users@ =~= users@.take(k + 1));
            proof {
                lemma_push_no_duplicates(names_of(users@.take(k as int)), users@[k as int]@);
                assert(names_of(users@.take(k + 1)) =~= names_of(users@.take(k as int)).push(
                    users@[k as int]@,
                ));
            }
            k += 1;
        }
        assert(users@.take(k as int) =~= users@);
        QueueManager {
            queue_users,
            queue_subscribers,
            capacity,
            storage_file_path: storage_file_path.to_owned(),
        }
    }

    /// The state as plain values, to be stored.
    pub fn snapshot(&self) -> (stored: QueueSnapshot)
        ensures
            stored@ == self@,
            self@.wf(),
    {
        proof {
            use_type_invariant(self);
        }
        QueueSnapshot {
            queue_users: to_vec(&self.queue_users),
            queue_subscribers: to_vec(&self.queue_subscribers),
            capacity: self.capacity,
            storage_file_path: self.storage_file_path.clone(),
        }
    }

    /// Adds `name` at the end of its class, unless it is queued already or
    /// the queue is full.
    pub fn join(&mut self, name: &str, user_type: UserType) -> (result: Result<
        (),
        QueueManagerJoinError,
    >)
        ensures
            result == old(self)@.join_result(name@),
            final(self)@ == old(self)@.join(name@, user_type),
            final(self)@.wf(),
    {
        proof {
            use_type_invariant(&*self);
            old(self)@.lemma_join_wf(name@, user_type);
            old(self)@.lemma_without_class_fits();
        }
        let name = name.to_owned();
        if position(&self.queue_subscribers, &name).is_some() || position(
            &self.queue_users,
            &name,
        ).is_some() {
            return Err(QueueManagerJoinError::UserAlreadyInQueue);
        }
        if self.queue_subscribers.len() + self.queue_users.len() == self.capacity {
            return Err(QueueManagerJoinError::QueueFull);
        }
        let mut class = VecDeque::new();
        match user_type {
            UserType::Default => {
                std::mem::swap(&mut class, &mut self.queue_users);
                class.push_back(name);
                assert(names_of(class@) =~= old(self)@.users.push(name@));
                self.queue_users = class;
            },
            UserType::Subscriber => {
                std::mem::swap(&mut class, &mut self.queue_subscribers);
                class.push_back(name);
                assert(names_of(class@) =~= old(self)@.subscribers.push(name@));
                self.queue_subscribers = class;
            },
        }
        Ok(())
    }

    /// The names in serving order: every subscriber in order of arrival,
    /// then every regular user in order of arrival.
    pub fn queue(&self) -> (names: Vec<String>)
        ensures
            names_of(names@) == self@.queue(),
            self@.wf(),
    {
        proof {
            use_type_invariant(self);
        }
        let mut names = to_vec(&self.queue_subscribers);
        let mut users = to_vec(&self.queue_users);
        names.append(&mut users);
        assert(names_of(names@) =~= self@.queue());
        names
    }

    /// Takes out and returns who is served next: the subscriber who has
    /// waited longest, or, when no subscriber waits, the regular user who
    /// has.
    pub fn next(&mut self) -> (result: Option<String>)
        ensures
            match result {
                Some(name) => old(self)@.head() == Some(name@),
                None => old(self)@.head() is None,
            },
            final(self)@ == old(self)@.next(),
            final(self)@.wf(),
    {
        proof {
            use_type_invariant(&*self);
            old(self)@.lemma_next_wf();
            old(self)@.lemma_without_class_fits();
        }
        let mut class = VecDeque::new();
        if self.queue_subscribers.len() > 0 {
            std::mem::swap(&mut class, &mut self.queue_subscribers);
            let result = class.pop_front();
            assert(names_of(class@) =~= old(self)@.subscribers.drop_first());
            self.queue_subscribers = class;
            result
        } else {
            std::mem::swap(&mut class, &mut self.queue_users);
            let result = class.pop_front();
            assert(names_of(class@) =~= if old(self)@.users.len() > 0 {
                old(self)@.users.drop_first()
            } else {
                old(self)@.users
            });
            self.queue_users = class;
            result
        }
    }

    /// Takes `name` out of the queue; everyone else keeps their place.
    pub fn leave(&mut self, name: &str) -> (result: Result<(), QueueManagerLeaveError>)
        ensures
            result == old(self)@.leave_result(name@),
            final(self)@ == old(self)@.leave(name@),
            final(self)@.wf(),
    {
        proof {
            use_type_invariant(&*self);
            old(self)@.lemma_leave_wf(name@);
            old(self)@.lemma_without_class_fits();
            old(self)@.subscribers.index_of_first_ensures(name@);
            old(self)@.users.index_of_first_ensures(name@);
        }
        let mut class = VecDeque::new();
        std::mem::swap(&mut class, &mut self.queue_subscribers);
        let found = remove_from_queue(&mut class, name);
        assert(found is Err ==> names_of(class@) == old(self)@.subscribers);
        self.queue_subscribers = class;
        if found.is_ok() {
            return found;
        }
        let mut class = VecDeque::new();
        std::mem::swap(&mut class, &mut self.queue_users);
        let found = remove_from_queue(&mut class, name);
        self.queue_users = class;
        found
    }

    /// Takes `name` out of the queue on a moderator's word. It does what
    /// [`QueueManager::leave`] does; whether the caller may do so is not
    /// examined here.
    pub fn kick(&mut self, name: &str) -> (result: Result<(), QueueManagerLeaveError>)
        ensures
            result == old(self)@.leave_result(name@),
            final(self)@ == old(self)@.leave(name@),
            final(self)@.wf(),
    {
        self.leave(name)
    }
}

/// A sequence without duplicates stays so when a value it lacks is added.
proof fn lemma_push_no_duplicates(s: Seq<Seq<char>>, name: Seq<char>)
    requires
        s.no_duplicates(),
        !s.contains(name),
    ensures
        s.push(name).no_duplicates(),
{
    assert forall|i: int, j: int|
        0 <= i < s.push(name).len() && 0 <= j < s.push(name).len() && i != j implies s.push(
        name,
    )[i] != s.push(name)[j] by {
        if i < s.len() {
            assert(s.contains(s[i]));
        }
        if j < s.len() {
            assert(s.contains(s[j]));
        }
    }
}

/// A sequence without duplicates stays so when an element is taken out,
/// and holds nothing that it did not hold before.
proof fn lemma_remove_no_duplicates(s: Seq<Seq<char>>, i: int)
    requires
        s.no_duplicates(),
        0 <= i < s.len(),
    ensures
        s.remove(i).no_duplicates(),
        forall|name: Seq<char>| #[trigger] s.remove(i).contains(name) ==> s.contains(name),
{
    let r = s.remove(i);
    assert forall|a: int, b: int| 0 <= a < r.len() && 0 <= b < r.len() && a != b implies r[a]
        != r[b] by {
        let a0 = if a < i {
            a
        } else {
            a + 1
        };
        let b0 = if b < i {
            b
        } else {
            b + 1
        };
        assert(r[a] == s[a0] && r[b] == s[b0]);
    }
    assert forall|name: Seq<char>| #[trigger] r.contains(name) implies s.contains(name) by {
        let a = choose|a: int| 0 <= a < r.len() && r[a] == name;
        let a0 = if a < i {
            a
        } else {
            a + 1
        };
        assert(s[a0] == name);
    }
}

impl QueueState {
    /// A state that fits still fits with one class emptied.
    proof fn lemma_without_class_fits(self)
        requires
            self.fits(),
        ensures
            (QueueState { subscribers: Seq::empty(), ..self }).fits(),
            (QueueState { users: Seq::empty(), ..self }).fits(),
    {
    }

    /// `join` keeps a valid state valid.
    pub proof fn lemma_join_wf(self, name: Seq<char>, user_type: UserType)
        requires
            self.wf(),
        ensures
            self.join(name, user_type).wf(),
    {
        if self.join_result(name) is Ok {
            let after = self.join(name, user_type);
            match user_type {
                UserType::Default => {
                    lemma_push_no_duplicates(self.users, name);
                    assert forall|n: Seq<char>| #[trigger]
                        after.subscribers.contains(n) implies !after.users.contains(n) by {
                        if after.users.contains(n) {
                            let j = choose|j: int| 0 <= j < after.users.len() && after.users[j] == n;
                            if j < self.users.len() {
                                assert(self.users.contains(n));
                            }
                        }
                    }
                },
                UserType::Subscriber => {
                    lemma_push_no_duplicates(self.subscribers, name);
                    assert forall|n: Seq<char>| #[trigger]
                        after.subscribers.contains(n) implies !after.users.contains(n) by {
                        let j = choose|j: int|
                            0 <= j < after.subscribers.len() && after.subscribers[j] == n;
                        if j < self.subscribers.len() {
                            assert(self.subscribers.contains(n));
                        }
                    }
                },
            }
        }
    }

    /// `next` keeps a valid state valid.
    pub proof fn lemma_next_wf(self)
        requires
            self.wf(),
        ensures
            self.next().wf(),
    {
        if self.subscribers.len() > 0 {
            lemma_remove_no_duplicates(self.subscribers, 0);
            assert(self.subscribers.drop_first() =~= self.subscribers.remove(0));
        } else if self.users.len() > 0 {
            lemma_remove_no_duplicates(self.users, 0);
            assert(self.users.drop_first() =~= self.users.remove(0));
        }
    }

    /// `leave` keeps a valid state valid.
    pub proof fn lemma_leave_wf(self, name: Seq<char>)
        requires
            self.wf(),
        ensures
            self.leave(name).wf(),
    {
        self.subscribers.index_of_first_ensures(name);
        self.users.index_of_first_ensures(name);
        if self.subscribers.contains(name) {
            lemma_remove_no_duplicates(self.subscribers, self.subscribers.index_of_first(name)->0);
        } else if self.users.contains(name) {
            lemma_remove_no_duplicates(self.users, self.users.index_of_first(name)->0);
        }
    }
}

} // verus!
