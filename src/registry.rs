//! The hub's registry of connected clients: the client-id counter and, for each client,
//! the sending end of its outbound queue, which the dispatcher fans broadcasts out to.

use tokio::sync::mpsc::Sender;
use vstd::prelude::*;

verus! {

#[verifier::external_type_specification]
#[verifier::external_body]
#[verifier::reject_recursive_types(T)]
pub struct ExSender<T>(Sender<T>);

/// Relies on tokio's `mpsc::Sender::try_send`: enqueues a copy of `message` without
/// waiting and reports whether the queue took it (it refuses when full or when its
/// receiver is gone).
#[verifier::external_body]
fn try_enqueue(sender: &Sender<String>, message: &String) -> (accepted: bool) {
    sender.try_send(message.clone()).is_ok()
}

/// `ids` with every occurrence of `id` taken out.
pub open spec fn without(ids: Seq<u32>, id: u32) -> Seq<u32> {
    ids.filter(|x: u32| x != id)
}

/// What `register` does to the registered ids and the counter, and the id it hands out:
/// the counter's value, unless every id below the largest has been handed out.
pub open spec fn register_step(ids: Seq<u32>, next: nat) -> (Seq<u32>, nat, Option<u32>) {
    if next < u32::MAX {
        (ids.push(next as u32), next + 1, Some(next as u32))
    } else {
        (ids, next, None)
    }
}

/// An operation on the registry.
#[derive(Debug, Clone, Copy, PartialEq, Eq, Structural)]
pub enum RegistryOp {
    Register,
    Disconnect(u32),
}

/// The ids and counter after a run of operations, and the ids handed out, in order.
pub open spec fn run_ops(ids: Seq<u32>, next: nat, ops: Seq<RegistryOp>) -> (Seq<u32>, nat, Seq<u32>)
    decreases ops.len(),
{
    if ops.len() == 0 {
        (ids, next, Seq::empty())
    } else {
        match ops[0] {
            RegistryOp::Register => {
                let (ids2, next2, got) = register_step(ids, next);
                let (ids3, next3, handed) = run_ops(ids2, next2, ops.drop_first());
                (ids3, next3, match got { Some(id) => seq![id] + handed, None => handed })
            },
            RegistryOp::Disconnect(id) => run_ops(without(ids, id), next, ops.drop_first()),
        }
    }
}

/// The connected clients, in the order they connected.
pub struct ClientRegistry {
    next_client_id: u32,
    senders_by_client_id: Vec<(u32, Sender<String>)>,
}

impl View for ClientRegistry {
    type V = Seq<u32>;

    closed spec fn view(&self) -> Seq<u32> {
        self.senders_by_client_id@.map_values(|e: (u32, Sender<String>)| e.0)
    }
}

impl ClientRegistry {
    /// The id the next client will get.
    pub closed spec fn next_id(&self) -> nat {
        self.next_client_id as nat
    }

    /// Registered ids strictly increase in order of connection and all lie below the
    /// counter.
    pub closed spec fn wf(&self) -> bool {
        &&& forall|i: int, j: int|
            0 <= i < j < self@.len() ==> self@[i] < self@[j]
        &&& forall|i: int| 0 <= i < self@.len() ==> self@[i] < self.next_client_id
    }

    /// No client yet; the counter starts at 0.
    pub fn new() -> (r: ClientRegistry)
        ensures
            r.wf(),
            r@ == Seq::<u32>::empty(),
            r.next_id() == 0,
    {
        let r = ClientRegistry { next_client_id: 0, senders_by_client_id: Vec::new() };
        assert(r@ =~= Seq::<u32>::empty());
        r
    }

    /// Gives a new client the counter's value as id, records its queue, and advances the
    /// counter. Once every 32-bit id below the largest has been handed out, no more are.
    pub fn register(&mut self, sender: Sender<String>) -> (r: Option<u32>)
        requires
            old(self).wf(),
        ensures
            final(self).wf(),
            old(self).next_id() < u32::MAX ==> r == Some(old(self).next_id() as u32)
                && final(self)@ == old(self)@.push(old(self).next_id() as u32)
                && final(self).next_id() == old(self).next_id() + 1,
            old(self).next_id() == u32::MAX ==> r is None && final(self)@ == old(self)@
                && final(self).next_id() == old(self).next_id(),
            (final(self)@, final(self).next_id(), r) == register_step(old(self)@, old(self).next_id()),
            r matches Some(id) ==> !old(self)@.contains(id),
    {
        if self.next_client_id == u32::MAX {
            return None;
        }
        let id = self.next_client_id;
        proof {
            if old(self)@.contains(id) {
                let k = choose|k: int| 0 <= k < old(self)@.len() && old(self)@[k] == id;
                assert(old(self)@[k] < old(self).next_client_id);
            }
        }
        self.senders_by_client_id.push((id, sender));
        self.next_client_id = id + 1;
        assert(self@ =~= old(self)@.push(id));
        Some(id)
    }

    /// Removes a client; says whether it was registered. Removing one that is gone
    /// changes nothing.
    pub fn disconnect(&mut self, client_id: u32) -> (r: bool)
        requires
            old(self).wf(),
        ensures
            final(self).wf(),
            r == old(self)@.contains(client_id),
            final(self)@ == without(old(self)@, client_id),
            !final(self)@.contains(client_id),
            forall|x: u32| x != client_id ==> (final(self)@.contains(x) <==> old(self)@.contains(x)),
            final(self)@.len() == old(self)@.len() - (if r { 1int } else { 0int }),
            final(self).next_id() == old(self).next_id(),
    {
        let mut i: usize = 0;
        while i < self.senders_by_client_id.len()
            invariant
                self == old(self),
                old(self).wf(),
                i <= self@.len(),
                self@.len() == self.senders_by_client_id@.len(),
                forall|j: int| 0 <= j < i ==> self@[j] != client_id,
            decreases self@.len() - i,
        {
            if self.senders_by_client_id[i].0 == client_id {
                let ghost before = self@;
                self.senders_by_client_id.remove(i);
                proof {
                    assert(self@ =~= before.remove(i as int));
                    lemma_without_unique(before, i as int);
                    assert forall|a: int, b: int| 0 <= a < b < self@.len() implies self@[a]
                        < self@[b] by {
                        let a2 = if a < i { a } else { a + 1 };
                        let b2 = if b < i { b } else { b + 1 };
                        assert(self@[a] == before[a2] && self@[b] == before[b2]);
                    }
                    assert forall|a: int| 0 <= a < self@.len() implies self@[a]
                        < self.next_client_id by {
                        let a2 = if a < i { a } else { a + 1 };
                        assert(self@[a] == before[a2]);
                    }
                    assert(!self@.contains(client_id)) by {
                        if self@.contains(client_id) {
                            let a = choose|a: int| 0 <= a < self@.len() && self@[a] == client_id;
                            let a2 = if a < i { a } else { a + 1 };
                            assert(self@[a] == before[a2]);
                            assert(before[a2] != before[i as int]);
                        }
                    }
                    assert forall|x: u32| x != client_id implies (self@.contains(x)
                        <==> before.contains(x)) by {
                        if self@.contains(x) {
                            let a = choose|a: int| 0 <= a < self@.len() && self@[a] == x;
                            let a2 = if a < i { a } else { a + 1 };
                            assert(self@[a] == before[a2]);
                        }
                        if before.contains(x) {
                            let a = choose|a: int| 0 <= a < before.len() && before[a] == x;
                            if a < i {
                                assert(self@[a] == before[a]);
                            } else {
                                assert(a != i);
                                assert(self@[a - 1] == before[a]);
                            }
                        }
                    }
                }
                return true;
            }
            i = i + 1;
        }
        proof {
            assert(!self@.contains(client_id));
            lemma_without_absent(self@, client_id);
        }
        false
    }

    /// How many clients are registered.
    pub fn len(&self) -> (r: usize)
        ensures
            r == self@.len(),
    {
        self.senders_by_client_id.len()
    }

    /// Whether `client_id` is registered.
    pub fn contains(&self, client_id: u32) -> (r: bool)
        ensures
            r == self@.contains(client_id),
    {
        let mut i: usize = 0;
        while i < self.senders_by_client_id.len()
            invariant
                i <= self@.len(),
                self@.len() == self.senders_by_client_id@.len(),
                forall|j: int| 0 <= j < i ==> self@[j] != client_id,
            decreases self@.len() - i,
        {
            if self.senders_by_client_id[i].0 == client_id {
                assert(self@[i as int] == client_id);
                return true;
            }
            i = i + 1;
        }
        false
    }

    /// Offers `message` to the queue of every client, once each and in connection order,
    /// without waiting. Returns, for each client in that order, its id and whether its
    /// queue took the message; a full or closed queue refuses, and that client alone
    /// loses the message.
    pub fn fan_out(&self, message: &String) -> (outcomes: Vec<(u32, bool)>)
        ensures
            outcomes@.len() == self@.len(),
            forall|k: int| 0 <= k < outcomes@.len() ==> #[trigger] outcomes@[k].0 == self@[k],
    {
        let mut outcomes: Vec<(u32, bool)> = Vec::new();
        let mut i: usize = 0;
        while i < self.senders_by_client_id.len()
            invariant
                i <= self@.len(),
                self@.len() == self.senders_by_client_id@.len(),
                outcomes@.len() == i,
                forall|k: int| 0 <= k < i ==> #[trigger] outcomes@[k].0 == self@[k],
            decreases self@.len() - i,
        {
            let entry = &self.senders_by_client_id[i];
            let accepted = try_enqueue(&entry.1, message);
            outcomes.push((entry.0, accepted));
            assert(self@[i as int] == entry.0);
            i = i + 1;
        }
        outcomes
    }
}

/// In a well-formed registry the ids strictly increase in order of connection, each lies
/// below the counter, and the counter is a 32-bit value.
pub proof fn lemma_registered_below_counter(r: ClientRegistry)
    requires
        r.wf(),
    ensures
        forall|i: int| 0 <= i < r@.len() ==> #[trigger] r@[i] < r.next_id(),
        forall|i: int, j: int| 0 <= i < j < r@.len() ==> r@[i] < r@[j],
        r.next_id() <= u32::MAX,
{
}

/// A client's disconnect takes effect once: disconnecting a registered client removes it,
/// and disconnecting it again finds it gone and leaves the clients as they are.
pub proof fn lemma_disconnect_exactly_once(ids: Seq<u32>, client_id: u32)
    requires
        ids.contains(client_id),
    ensures
        !without(ids, client_id).contains(client_id),
        without(without(ids, client_id), client_id) == without(ids, client_id),
{
    let rest = without(ids, client_id);
    assert(!rest.contains(client_id)) by {
        if rest.contains(client_id) {
            let k = choose|k: int| 0 <= k < rest.len() && rest[k] == client_id;
            ids.lemma_filter_pred(|x: u32| x != client_id, k);
        }
    }
    lemma_without_absent(rest, client_id);
}

/// Client ids strictly increase over one registry's life: whatever registrations and
/// disconnects follow, the ids handed out come in strictly increasing order, none is
/// below the counter at the start (so none was registered then), and the counter never
/// moves back nor past the largest 32-bit value.
pub proof fn lemma_client_ids_increase(ids: Seq<u32>, next: nat, ops: Seq<RegistryOp>)
    requires
        next <= u32::MAX,
    ensures
        ({
            let (_, last, handed) = run_ops(ids, next, ops);
            &&& next <= last <= u32::MAX
            &&& forall|k: int| 0 <= k < handed.len() ==> next <= #[trigger] handed[k] < last
            &&& forall|a: int, b: int| 0 <= a < b < handed.len() ==> handed[a] < handed[b]
        }),
    decreases ops.len(),
{
    if ops.len() > 0 {
        match ops[0] {
            RegistryOp::Register => {
                let (ids2, next2, got) = register_step(ids, next);
                lemma_client_ids_increase(ids2, next2, ops.drop_first());
                let (_, last, handed) = run_ops(ids2, next2, ops.drop_first());
                if got is Some {
                    let all = seq![next as u32] + handed;
                    assert forall|k: int| 0 <= k < all.len() implies next <= #[trigger] all[k] < last by {
                        if k > 0 {
                            assert(all[k] == handed[k - 1]);
                        }
                    }
                    assert forall|a: int, b: int| 0 <= a < b < all.len() implies all[a] < all[b] by {
                        assert(all[b] == handed[b - 1]);
                        if a > 0 {
                            assert(all[a] == handed[a - 1]);
                        }
                    }
                }
            },
            RegistryOp::Disconnect(id) => {
                lemma_client_ids_increase(without(ids, id), next, ops.drop_first());
            },
        }
    }
}

proof fn lemma_without_absent(ids: Seq<u32>, id: u32)
    requires
        !ids.contains(id),
    ensures
        without(ids, id) == ids,
    decreases ids.len(),
{
    reveal_with_fuel(Seq::filter, 1);
    if ids.len() > 0 {
        let init = ids.drop_last();
        assert(!init.contains(id)) by {
            if init.contains(id) {
                let k = choose|k: int| 0 <= k < init.len() && init[k] == id;
                assert(ids[k] == id);
            }
        }
        lemma_without_absent(init, id);
        assert(ids =~= init.push(ids.last()));
    }
}

proof fn lemma_without_unique(ids: Seq<u32>, i: int)
    requires
        0 <= i < ids.len(),
        forall|a: int, b: int| 0 <= a < b < ids.len() ==> ids[a] < ids[b],
    ensures
        without(ids, ids[i]) == ids.remove(i),
{
    let id = ids[i];
    let front = ids.take(i);
    let back = ids.skip(i + 1);
    assert(ids =~= front + seq![id] + back);
    assert(!front.contains(id)) by {
        if front.contains(id) {
            let k = choose|k: int| 0 <= k < front.len() && front[k] == id;
            assert(ids[k] < ids[i]);
        }
    }
    assert(!back.contains(id)) by {
        if back.contains(id) {
            let k = choose|k: int| 0 <= k < back.len() && back[k] == id;
            assert(ids[i] < ids[i + 1 + k]);
        }
    }
    Seq::filter_distributes_over_add(front + seq![id], back, |x: u32| x != id);
    Seq::filter_distributes_over_add(front, seq![id], |x: u32| x != id);
    lemma_without_absent(front, id);
    lemma_without_absent(back, id);
    reveal_with_fuel(Seq::filter, 2);
    assert(seq![id].filter(|x: u32| x != id) =~= Seq::<u32>::empty());
    assert(ids.remove(i) =~= front + back);
}

} // verus!
