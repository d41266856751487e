use vstd::pervasive::VecAdditionalExecFns;
use vstd::prelude::*;

use crate::clock::now_micros;
use crate::errors::Error;
use crate::ids::uuid_text;
use crate::ids::MessageId;
use crate::message::msg_eqv;
use crate::message::spec_expired;
use crate::message::Message;
use crate::message::MessageStatus;
use crate::queue::Queue;
use crate::queue::QueueStats;
use crate::text::str_eq;

verus! {

// ==================== Per-queue state ====================

/// Engine-internal state of one queue: its metadata, the FIFO sequence of
/// pending messages (append at the tail, remove from the head), and the
/// unordered collection of in-flight messages, at most one per identifier.
pub struct QueueData {
    /// Queue metadata.
    pub queue: Queue,
    /// Messages waiting for delivery, in arrival order.
    pub pending: Vec<Message>,
    /// Messages delivered and awaiting acknowledgement.
    pub in_flight: Vec<Message>,
}

/// No two messages of `s` share an identifier.
pub open spec fn distinct_ids(s: Seq<Message>) -> bool {
    forall|k: int, l: int| 0 <= k < l < s.len() ==> s[k].id != s[l].id
}

impl QueueData {
    /// Internal consistency of one queue's state: delivery counts of pending
    /// messages leave room for one more delivery, and in-flight identifiers
    /// are unique.
    pub open spec fn wf(self) -> bool {
        &&& forall|k: int|
            0 <= k < self.pending@.len() ==> (#[trigger] self.pending@[k]).delivery_count
                < u32::MAX
        &&& distinct_ids(self.in_flight@)
    }

    /// Fresh state for `queue`, holding no messages.
    pub fn new(queue: Queue) -> (r: Self)
        ensures
            r.queue == queue,
            r.pending@ =~= Seq::<Message>::empty(),
            r.in_flight@ =~= Seq::<Message>::empty(),
            r.wf(),
    {
        QueueData { queue, pending: Vec::new(), in_flight: Vec::new() }
    }
}

// ==================== Spec-level transitions ====================

/// `m` as delivery hands it out: status `Delivered`, delivery count one
/// higher.
pub open spec fn delivered(m: Message) -> Message {
    Message {
        status: MessageStatus::Delivered,
        delivery_count: (m.delivery_count + 1) as u32,
        ..m
    }
}

/// `m` as a negative acknowledgement requeues it: status back to `Pending`.
pub open spec fn requeued(m: Message) -> Message {
    Message { status: MessageStatus::Pending, ..m }
}

/// Index of the first message of `s` that is not expired at `now`, or
/// `s.len()` when every message is expired.
pub open spec fn first_live(s: Seq<Message>, now: i64) -> int
    decreases s.len(),
{
    if s.len() == 0 {
        0
    } else if !spec_expired(s[0], now) {
        0
    } else {
        1 + first_live(s.drop_first(), now)
    }
}

/// [`first_live`] is the index after a run of expired messages followed by a
/// live one (or the end).
pub proof fn lemma_first_live_char(s: Seq<Message>, now: i64, j: int)
    requires
        0 <= j <= s.len(),
        forall|l: int| 0 <= l < j ==> spec_expired(#[trigger] s[l], now),
        j == s.len() || !spec_expired(s[j], now),
    ensures
        first_live(s, now) == j,
    decreases j,
{
    if s.len() == 0 {
    } else if j == 0 {
    } else {
        assert(spec_expired(s[0], now));
        lemma_first_live_char(s.drop_first(), now, j - 1);
    }
}

proof fn lemma_first_live_range(s: Seq<Message>, now: i64)
    ensures
        0 <= first_live(s, now) <= s.len(),
    decreases s.len(),
{
    if s.len() > 0 && spec_expired(s[0], now) {
        lemma_first_live_range(s.drop_first(), now);
    }
}

/// The defining properties of [`first_live`]: everything before it is
/// expired, and the message it points at, if any, is not.
pub proof fn lemma_first_live_props(s: Seq<Message>, now: i64)
    ensures
        0 <= first_live(s, now) <= s.len(),
        forall|l: int| 0 <= l < first_live(s, now) ==> spec_expired(#[trigger] s[l], now),
        first_live(s, now) < s.len() ==> !spec_expired(s[first_live(s, now)], now),
    decreases s.len(),
{
    if s.len() == 0 {
    } else if !spec_expired(s[0], now) {
    } else {
        lemma_first_live_props(s.drop_first(), now);
        assert(forall|l: int| 1 <= l < s.len() ==> (#[trigger] s[l]) == s.drop_first()[l - 1]);
    }
}

/// Index of the first message of `s` carrying `id`, or `s.len()` when none
/// does.
pub open spec fn find_id(s: Seq<Message>, id: MessageId) -> int
    decreases s.len(),
{
    if s.len() == 0 {
        0
    } else if s[0].id == id {
        0
    } else {
        1 + find_id(s.drop_first(), id)
    }
}

/// Some message of `s` carries `id`.
pub open spec fn has_id(s: Seq<Message>, id: MessageId) -> bool {
    exists|k: int| 0 <= k < s.len() && (#[trigger] s[k]).id == id
}

proof fn lemma_find_id_char(s: Seq<Message>, id: MessageId, j: int)
    requires
        0 <= j <= s.len(),
        forall|l: int| 0 <= l < j ==> (#[trigger] s[l]).id != id,
        j == s.len() || s[j].id == id,
    ensures
        find_id(s, id) == j,
        has_id(s, id) <==> j < s.len(),
    decreases j,
{
    if j < s.len() {
        assert(has_id(s, id));
    } else {
        assert(!has_id(s, id)) by {
            assert(forall|l: int| 0 <= l < s.len() ==> (#[trigger] s[l]).id != id);
        }
    }
    if s.len() == 0 {
    } else if j == 0 {
    } else {
        assert(s[0].id != id);
        assert(forall|l: int| 0 <= l < j - 1 ==> (#[trigger] s.drop_first()[l]).id != id) by {
            assert(forall|l: int|
                0 <= l < j - 1 ==> (#[trigger] s.drop_first()[l]) == s[l + 1]);
        }
        lemma_find_id_char(s.drop_first(), id, j - 1);
    }
}

/// The defining properties of [`find_id`]: it points at the first message
/// carrying `id`, and falls past the end exactly when none does.
pub proof fn lemma_find_id_props(s: Seq<Message>, id: MessageId)
    ensures
        0 <= find_id(s, id) <= s.len(),
        forall|l: int| 0 <= l < find_id(s, id) ==> (#[trigger] s[l]).id != id,
        find_id(s, id) < s.len() ==> s[find_id(s, id)].id == id,
        has_id(s, id) <==> find_id(s, id) < s.len(),
    decreases s.len(),
{
    if s.len() == 0 {
    } else if s[0].id == id {
        assert(has_id(s, id));
    } else {
        lemma_find_id_props(s.drop_first(), id);
        assert(forall|l: int|
            1 <= l < s.len() ==> (#[trigger] s[l]) == s.drop_first()[l - 1]);
        if has_id(s.drop_first(), id) {
            assert(has_id(s, id));
        }
        if has_id(s, id) {
            let k = choose|k: int| 0 <= k < s.len() && (#[trigger] s[k]).id == id;
            assert(s.drop_first()[k - 1].id == id);
            assert(has_id(s.drop_first(), id));
        }
    }
}

/// The in-flight collection after storing `m`: the entry sharing `m`'s
/// identifier is replaced, or `m` is appended when none does.
pub open spec fn inflight_put(s: Seq<Message>, m: Message) -> Seq<Message> {
    if has_id(s, m.id) {
        s.update(find_id(s, m.id), m)
    } else {
        s.push(m)
    }
}

// ==================== The engine ====================

/// The in-memory storage engine: it owns every queue's state, keyed by the
/// queue name. All data is lost when the engine is dropped.
pub struct MemoryStorage {
    /// State of every queue, in creation order, names pairwise distinct.
    pub queues: Vec<QueueData>,
}

impl MemoryStorage {
    /// Internal consistency of the whole engine: queue names are pairwise
    /// distinct and each queue's state is consistent.
    pub open spec fn wf(self) -> bool {
        &&& forall|i: int, j: int|
            0 <= i < j < self.queues@.len() ==> self.queues@[i].queue.name@
                != self.queues@[j].queue.name@
        &&& forall|i: int| 0 <= i < self.queues@.len() ==> (#[trigger] self.queues@[i]).wf()
    }

    /// Some queue is registered under `name`.
    pub open spec fn has_queue(self, name: Seq<char>) -> bool {
        exists|i: int|
            0 <= i < self.queues@.len() && (#[trigger] self.queues@[i]).queue.name@ == name
    }

    /// The index of the queue registered under `name`.
    pub open spec fn queue_at(self, name: Seq<char>) -> int {
        choose|i: int|
            0 <= i < self.queues@.len() && (#[trigger] self.queues@[i]).queue.name@ == name
    }

    /// With distinct queue names, [`Self::queue_at`] is the one index whose
    /// queue carries `name`.
    pub proof fn lemma_queue_at_is(self, name: Seq<char>, i: int)
        requires
            self.wf(),
            0 <= i < self.queues@.len(),
            self.queues@[i].queue.name@ == name,
        ensures
            self.has_queue(name),
            self.queue_at(name) == i,
    {
        assert(self.has_queue(name));
        let j = self.queue_at(name);
        if j != i {
            if j < i {
                assert(self.queues@[j].queue.name@ != self.queues@[i].queue.name@);
            } else {
                assert(self.queues@[i].queue.name@ != self.queues@[j].queue.name@);
            }
        }
    }

    /// A fresh engine holding no queues.
    pub fn new() -> (r: Self)
        ensures
            r.queues@ =~= Seq::<QueueData>::empty(),
            r.wf(),
    {
        MemoryStorage { queues: Vec::new() }
    }

    pub(crate) fn find_queue(&self, name: &str) -> (r: Option<usize>)
        ensures
            match r {
                Some(i) => i < self.queues@.len() && self.queues@[i as int].queue.name@
                    == name@,
                None => !self.has_queue(name@),
            },
    {
        let mut i: usize = 0;
        while i < self.queues.len()
            invariant
                0 <= i <= self.queues@.len(),
                forall|l: int|
                    0 <= l < i ==> (#[trigger] self.queues@[l]).queue.name@ != name@,
            decreases self.queues@.len() - i,
        {
            if str_eq(self.queues[i].queue.name.as_str(), name) {
                return Some(i);
            }
            i += 1;
        }
        None
    }

    // ==================== Queue operations ====================

    /// Register `queue` under its name.
    ///
    /// Fails with `QueueAlreadyExists` when the name is taken, leaving the
    /// engine unchanged; otherwise appends an empty queue state and returns a
    /// copy of `queue`.
    pub fn create_queue(&mut self, queue: Queue) -> (r: Result<Queue, Error>)
        requires
            old(self).wf(),
        ensures
            final(self).wf(),
            create_queue_post(*old(self), *final(self), queue, r),
    {
        if let Some(_) = self.find_queue(queue.name.as_str()) {
            return Err(Error::QueueAlreadyExists(queue.name));
        }
        let copy = queue.clone();
        let ghost pre = self.queues@;
        self.queues.push(QueueData::new(queue));
        proof {
            assert forall|i: int, j: int|
                0 <= i < j < self.queues@.len() implies self.queues@[i].queue.name@
                != self.queues@[j].queue.name@ by {
                if j < pre.len() {
                    assert(pre[i].queue.name@ != pre[j].queue.name@);
                }
            }
        }
        Ok(copy)
    }

    /// A copy of the queue registered under `name`, if any. Never fails.
    pub fn get_queue(&self, name: &str) -> (r: Result<Option<Queue>, Error>)
        requires
            self.wf(),
        ensures
            get_queue_post(*self, name@, r),
    {
        match self.find_queue(name) {
            Some(i) => {
                proof {
                    self.lemma_queue_at_is(name@, i as int);
                }
                Ok(Some(self.queues[i].queue.clone()))
            },
            None => Ok(None),
        }
    }

    /// Copies of all registered queues, in creation order. Never fails.
    pub fn list_queues(&self) -> (r: Result<Vec<Queue>, Error>)
        ensures
            list_queues_post(*self, r),
    {
        let mut out: Vec<Queue> = Vec::new();
        let mut i: usize = 0;
        while i < self.queues.len()
            invariant
                0 <= i <= self.queues@.len(),
                out@.len() == i,
                forall|l: int| 0 <= l < i ==> out@[l] == (#[trigger] self.queues@[l]).queue,
            decreases self.queues@.len() - i,
        {
            out.push(self.queues[i].queue.clone());
            i += 1;
        }
        Ok(out)
    }

    /// Drop the queue registered under `name` with every message it holds.
    ///
    /// Fails with `QueueNotFound` when no queue has that name.
    pub fn delete_queue(&mut self, name: &str) -> (r: Result<(), Error>)
        requires
            old(self).wf(),
        ensures
            final(self).wf(),
            delete_queue_post(*old(self), *final(self), name@, r),
    {
        match self.find_queue(name) {
            Some(i) => {
                proof {
                    self.lemma_queue_at_is(name@, i as int);
                }
                let ghost pre = self.queues@;
                self.queues.remove(i);
                proof {
                    assert forall|k: int, l: int|
                        0 <= k < l < self.queues@.len() implies self.queues@[k].queue.name@
                        != self.queues@[l].queue.name@ by {
                        let k0 = if k < i as int { k } else { k + 1 };
                        let l0 = if l < i as int { l } else { l + 1 };
                        assert(self.queues@[k] == pre[k0]);
                        assert(self.queues@[l] == pre[l0]);
                    }
                    assert(forall|k: int|
                        0 <= k < self.queues@.len() ==> #[trigger] self.queues@[k]
                            == if k < i as int { pre[k] } else { pre[k + 1] });
                }
                Ok(())
            },
            None => Err(Error::QueueNotFound(name.to_owned())),
        }
    }
    /// A point-in-time summary of the queue registered under `name`.
    ///
    /// Sums saturate at `u64::MAX` instead of overflowing. Fails with
    /// `QueueNotFound` when no queue has that name.
    pub fn get_queue_stats(&self, name: &str) -> (r: Result<QueueStats, Error>)
        requires
            self.wf(),
        ensures
            get_queue_stats_post(*self, name@, r),
    {
        let i = match self.find_queue(name) {
            Some(i) => i,
            None => {
                return Err(Error::QueueNotFound(name.to_owned()));
            },
        };
        proof {
            self.lemma_queue_at_is(name@, i as int);
        }
        let pending_count = self.queues[i].pending.len() as u64;
        let in_flight_count = self.queues[i].in_flight.len() as u64;
        let message_count = if pending_count <= u64::MAX - in_flight_count {
            pending_count + in_flight_count
        } else {
            u64::MAX
        };
        let ghost p = self.queues@[i as int].pending@;
        let mut size_bytes: u64 = 0;
        let mut j: usize = 0;
        while j < self.queues[i].pending.len()
            invariant
                0 <= i < self.queues@.len(),
                p == self.queues@[i as int].pending@,
                0 <= j <= p.len(),
                size_bytes == sat_u64(bytes_total(p.take(j as int))),
            decreases p.len() - j,
        {
            proof {
                lemma_bytes_total_nonneg(p.take(j as int));
                assert(p.take(j + 1).drop_last() =~= p.take(j as int));
                assert(p.take(j + 1).last() == p[j as int]);
            }
            let b = self.queues[i].pending[j].body.len() as u64;
            size_bytes = if size_bytes <= u64::MAX - b {
                size_bytes + b
            } else {
                u64::MAX
            };
            j += 1;
        }
        proof {
            assert(p.take(p.len() as int) =~= p);
        }
        Ok(
            QueueStats {
                message_count,
                pending_count,
                in_flight_count,
                size_bytes,
                consumer_count: 0,
            },
        )
    }

    /// Drop every pending and in-flight message of the queue registered
    /// under `name`, reporting how many pending messages were dropped.
    ///
    /// Fails with `QueueNotFound` when no queue has that name; a queue
    /// holding no messages is purged without error.
    pub fn purge_queue(&mut self, queue_name: &str) -> (r: Result<u64, Error>)
        requires
            old(self).wf(),
        ensures
            final(self).wf(),
            purge_queue_post(*old(self), *final(self), queue_name@, r),
    {
        let i = match self.find_queue(queue_name) {
            Some(i) => i,
            None => {
                return Err(Error::QueueNotFound(queue_name.to_owned()));
            },
        };
        proof {
            self.lemma_queue_at_is(queue_name@, i as int);
        }
        let ghost pre = *self;
        let count = self.queues[i].pending.len() as u64;
        self.queues[i].pending.clear();
        self.queues[i].in_flight.clear();
        proof {
            assert forall|l: int| 0 <= l < self.queues@.len() implies (#[trigger] self.queues@[
                l
            ]).wf() by {
                assert(pre.queues@[l].wf());
            }
        }
        Ok(count)
    }

    /// Remove, from every queue, every pending message that is expired at
    /// `now`; the same instant judges all queues. In-flight messages are
    /// never swept. Reports how many messages were removed, saturating at
    /// `u64::MAX`; never fails.
    pub fn cleanup_expired_at(&mut self, now: i64) -> (r: Result<u64, Error>)
        requires
            old(self).wf(),
        ensures
            final(self).wf(),
            cleanup_expired_post(*old(self), *final(self), r, now),
    {
        let ghost pre = *self;
        let mut total: u64 = 0;
        let mut i: usize = 0;
        while i < self.queues.len()
            invariant
                pre == *old(self),
                pre.wf(),
                self.wf(),
                0 <= i <= self.queues@.len(),
                self.queues@.len() == pre.queues@.len(),
                forall|l: int|
                    i <= l < self.queues@.len() ==> self.queues@[l] == pre.queues@[l],
                forall|l: int|
                    0 <= l < i ==> (#[trigger] self.queues@[l]).queue == pre.queues@[l].queue
                        && self.queues@[l].in_flight@ == pre.queues@[l].in_flight@
                        && self.queues@[l].pending@ == live_only(pre.queues@[l].pending@, now),
                total == sat_u64(removed_total(pre.queues@.take(i as int), now)),
            decreases self.queues@.len() - i,
        {
            proof {
                lemma_removed_total_nonneg(pre.queues@.take(i as int), now);
                assert(pre.queues@.take(i + 1).drop_last() =~= pre.queues@.take(i as int));
                assert(pre.queues@.take(i + 1).last() == pre.queues@[i as int]);
            }
            let ghost self_before = *self;
            let removed = retain_live(&mut self.queues[i].pending, now);
            proof {
                assert forall|l: int| 0 <= l < self.queues@.len() implies (#[trigger] self.queues@[
                    l
                ]).wf() by {
                    assert(self_before.queues@[l].wf());
                    if l == i {
                        assert forall|k: int|
                            0 <= k < self.queues@[l].pending@.len() implies (
                        #[trigger] self.queues@[l].pending@[k]).delivery_count < u32::MAX by {
                            assert(self_before.queues@[l].pending@.contains(
                                self.queues@[l].pending@[k],
                            ));
                            let w = choose|w: int|
                                0 <= w < self_before.queues@[l].pending@.len()
                                    && self_before.queues@[l].pending@[w] == self.queues@[
                                l].pending@[k];
                            assert(self_before.queues@[l].pending@[w].delivery_count < u32::MAX);
                        }
                    }
                }
                pre.queues@[i as int].pending@.lemma_filter_len(
                    |m: Message| !spec_expired(m, now),
                );
                lemma_removed_total_nonneg(pre.queues@.take(i as int), now);
            }
            let r64 = removed as u64;
            total = if total <= u64::MAX - r64 {
                total + r64
            } else {
                u64::MAX
            };
            i += 1;
        }
        proof {
            assert(pre.queues@.take(pre.queues@.len() as int) =~= pre.queues@);
        }
        Ok(total)
    }

    /// Remove every pending message already expired, judged against one
    /// wall-clock instant shared by all queues.
    pub fn cleanup_expired(&mut self) -> (r: Result<u64, Error>)
        requires
            old(self).wf(),
        ensures
            final(self).wf(),
            exists|now: i64| cleanup_expired_post(*old(self), *final(self), r, now),
    {
        let now = now_micros();
        let r = self.cleanup_expired_at(now);
        proof {
            assert(cleanup_expired_post(*old(self), *self, r, now));
        }
        r
    }

    // ==================== Message operations ====================

    /// Append `message` to the tail of the pending sequence of the queue
    /// registered under `queue_name`.
    ///
    /// Fails with `QueueNotFound` when no queue has that name and with
    /// `QueueFull` when a nonzero capacity is reached; either failure leaves
    /// the engine unchanged. The capacity check counts pending messages only.
    pub fn push_message(&mut self, queue_name: &str, message: Message) -> (r: Result<
        MessageId,
        Error,
    >)
        requires
            old(self).wf(),
            message.delivery_count < u32::MAX,
        ensures
            final(self).wf(),
            push_message_post(*old(self), *final(self), queue_name@, message, r),
    {
        let i = match self.find_queue(queue_name) {
            Some(i) => i,
            None => {
                return Err(Error::QueueNotFound(queue_name.to_owned()));
            },
        };
        proof {
            self.lemma_queue_at_is(queue_name@, i as int);
        }
        let cap = self.queues[i].queue.config.max_messages;
        if cap > 0 && self.queues[i].pending.len() as u64 >= cap {
            return Err(Error::QueueFull(queue_name.to_owned()));
        }
        let id = message.id;
        let ghost pre = *self;
        self.queues[i].pending.push(message);
        proof {
            assert(self.queues@[i as int].pending@ == pre.queues@[i as int].pending@.push(
                message,
            ));
            assert forall|j: int| 0 <= j < self.queues@.len() implies (#[trigger] self.queues@[
                j
            ]).wf() by {
                assert(pre.queues@[j].wf());
            }
        }
        Ok(id)
    }

    /// Deliver the first live pending message of the queue registered under
    /// `queue_name`, judging expiry against `now`.
    ///
    /// Expired messages at the head are silently discarded. The delivered
    /// message moves to the in-flight collection with status `Delivered` and
    /// its delivery count incremented; a copy is returned. `Ok(None)` when
    /// nothing live is pending; `QueueNotFound` when no queue has that name.
    pub fn pop_message_at(&mut self, queue_name: &str, now: i64) -> (r: Result<
        Option<Message>,
        Error,
    >)
        requires
            old(self).wf(),
        ensures
            final(self).wf(),
            pop_message_post(*old(self), *final(self), queue_name@, r, now),
    {
        let i = match self.find_queue(queue_name) {
            Some(i) => i,
            None => {
                return Err(Error::QueueNotFound(queue_name.to_owned()));
            },
        };
        proof {
            self.lemma_queue_at_is(queue_name@, i as int);
        }
        let ghost pre = *self;
        let ghost p0 = self.queues@[i as int].pending@;
        let ghost f0 = self.queues@[i as int].in_flight@;
        let ghost mut j: int = 0;
        loop
            invariant
                0 <= i < self.queues@.len(),
                self.queues@.len() == pre.queues@.len(),
                forall|l: int|
                    0 <= l < self.queues@.len() && l != i ==> self.queues@[l] == pre.queues@[l],
                self.queues@[i as int].queue == pre.queues@[i as int].queue,
                self.queues@[i as int].in_flight@ == f0,
                p0 == pre.queues@[i as int].pending@,
                f0 == pre.queues@[i as int].in_flight@,
                0 <= j <= p0.len(),
                self.queues@[i as int].pending@ == p0.skip(j),
                forall|l: int| 0 <= l < j ==> spec_expired(#[trigger] p0[l], now),
                pre == *old(self),
                pre.wf(),
                self.wf(),
                pre.has_queue(queue_name@),
                pre.queue_at(queue_name@) == i,
            decreases p0.len() - j,
        {
            if self.queues[i].pending.len() == 0 {
                proof {
                    assert(p0.skip(j).len() == 0);
                    lemma_first_live_char(p0, now, j);
                    assert(p0.skip(first_live(p0, now)) =~= self.queues@[i as int].pending@);
                }
                return Ok(None);
            }
            let mut m = self.queues[i].pending.remove(0);
            proof {
                assert(m == p0.skip(j)[0]);
                assert(m == p0[j]);
                assert(p0.skip(j).remove(0) =~= p0.skip(j + 1));
            }
            if m.is_expired_at(now) {
                proof {
                    j = j + 1;
                }
            } else {
                proof {
                    lemma_first_live_char(p0, now, j);
                    assert(pre.queues@[i as int].wf());
                    assert(m.delivery_count < u32::MAX);
                }
                m.status = MessageStatus::Delivered;
                m.delivery_count = m.delivery_count + 1;
                proof {
                    assert(m == delivered(p0[j]));
                }
                let copy = m.clone();
                insert_in_flight(&mut self.queues[i].in_flight, m);
                proof {
                    assert(self.queues@[i as int].pending@ =~= p0.subrange(
                        j + 1,
                        p0.len() as int,
                    ));
                    assert forall|l: int| 0 <= l < self.queues@.len() implies (
                    #[trigger] self.queues@[l]).wf() by {
                        if l != i {
                            assert(pre.queues@[l].wf());
                        }
                    }
                }
                return Ok(Some(copy));
            }
        }
    }

    /// Deliver the first live pending message, judging expiry against the
    /// wall clock.
    pub fn pop_message(&mut self, queue_name: &str) -> (r: Result<Option<Message>, Error>)
        requires
            old(self).wf(),
        ensures
            final(self).wf(),
            exists|now: i64| pop_message_post(*old(self), *final(self), queue_name@, r, now),
    {
        let now = now_micros();
        let r = self.pop_message_at(queue_name, now);
        proof {
            assert(pop_message_post(*old(self), *self, queue_name@, r, now));
        }
        r
    }

    /// Deliver up to `max` live pending messages, judging expiry against the
    /// single instant `now`.
    ///
    /// Best-effort batch: delivery stops as soon as one receive yields
    /// nothing, and however many were collected are returned, never an error
    /// for a partial result. Fails with `QueueNotFound` only when no queue
    /// has that name and `max` is nonzero.
    pub fn pop_messages_at(&mut self, queue_name: &str, max: usize, now: i64) -> (r: Result<
        Vec<Message>,
        Error,
    >)
        requires
            old(self).wf(),
        ensures
            final(self).wf(),
            pop_messages_post(*old(self), *final(self), queue_name@, max as nat, r, now),
    {
        let mut out: Vec<Message> = Vec::new();
        if max == 0 {
            return Ok(out);
        }
        let i = match self.find_queue(queue_name) {
            Some(i) => i,
            None => {
                return Err(Error::QueueNotFound(queue_name.to_owned()));
            },
        };
        proof {
            self.lemma_queue_at_is(queue_name@, i as int);
        }
        let ghost pre = *self;
        let ghost p0 = pre.queues@[i as int].pending@;
        let ghost f0 = pre.queues@[i as int].in_flight@;
        let ghost mut done: Seq<Message> = Seq::<Message>::empty();
        let mut cnt: usize = 0;
        proof {
            assert(done + drain(p0, f0, (max - cnt) as nat, now).0 =~= drain(
                p0,
                f0,
                (max - cnt) as nat,
                now,
            ).0);
        }
        while cnt < max
            invariant
                pre == *old(self),
                pre.wf(),
                self.wf(),
                0 <= cnt <= max,
                0 <= i < self.queues@.len(),
                self.queues@.len() == pre.queues@.len(),
                forall|l: int|
                    0 <= l < self.queues@.len() && l != i ==> self.queues@[l] == pre.queues@[l],
                self.queues@[i as int].queue == pre.queues@[i as int].queue,
                pre.has_queue(queue_name@),
                pre.queue_at(queue_name@) == i,
                p0 == pre.queues@[i as int].pending@,
                f0 == pre.queues@[i as int].in_flight@,
                out@.len() == done.len(),
                forall|l: int| 0 <= l < done.len() ==> msg_eqv(#[trigger] out@[l], done[l]),
                ({
                    let rest = drain(
                        self.queues@[i as int].pending@,
                        self.queues@[i as int].in_flight@,
                        (max - cnt) as nat,
                        now,
                    );
                    drain(p0, f0, max as nat, now) == (done + rest.0, rest.1, rest.2)
                }),
            decreases max - cnt,
        {
            let ghost mid = *self;
            let ghost pc = self.queues@[i as int].pending@;
            let ghost fc = self.queues@[i as int].in_flight@;
            proof {
                self.lemma_queue_at_is(queue_name@, i as int);
            }
            let step = self.pop_message_at(queue_name, now);
            let o = match step {
                Ok(o) => o,
                Err(e) => {
                    return Err(e);
                },
            };
            proof {
                assert(pop_message_post(mid, *self, queue_name@, Ok::<
                    Option<Message>,
                    Error,
                >(o), now));
            }
            match o {
                Some(m) => {
                    let ghost k = first_live(pc, now);
                    out.push(m);
                    proof {
                        let d = delivered(pc[k]);
                        let rest2 = drain(
                            self.queues@[i as int].pending@,
                            self.queues@[i as int].in_flight@,
                            (max - cnt - 1) as nat,
                            now,
                        );
                        assert(drain(pc, fc, (max - cnt) as nat, now).0 == seq![d] + rest2.0);
                        assert(done + (seq![d] + rest2.0) =~= (done + seq![d]) + rest2.0);
                        done = done + seq![d];
                    }
                    cnt += 1;
                },
                None => {
                    proof {
                        lemma_first_live_range(pc, now);
                        assert(drain(pc, fc, (max - cnt) as nat, now).0 =~= Seq::<
                            Message,
                        >::empty());
                        assert(done + drain(pc, fc, (max - cnt) as nat, now).0 =~= done);
                        assert(self.queues@[i as int].pending@ =~= drain(
                            pc,
                            fc,
                            (max - cnt) as nat,
                            now,
                        ).1);
                    }
                    return Ok(out);
                },
            }
        }
        proof {
            assert(done + drain(
                self.queues@[i as int].pending@,
                self.queues@[i as int].in_flight@,
                0,
                now,
            ).0 =~= done);
        }
        Ok(out)
    }

    /// Deliver up to `max` live pending messages, judging expiry against the
    /// wall clock.
    pub fn pop_messages(&mut self, queue_name: &str, max: usize) -> (r: Result<
        Vec<Message>,
        Error,
    >)
        requires
            old(self).wf(),
        ensures
            final(self).wf(),
            exists|now: i64|
                pop_messages_post(*old(self), *final(self), queue_name@, max as nat, r, now),
    {
        let now = now_micros();
        let r = self.pop_messages_at(queue_name, max, now);
        proof {
            assert(pop_messages_post(*old(self), *self, queue_name@, max as nat, r, now));
        }
        r
    }

    /// A copy of the message at the head of the pending sequence, regardless
    /// of expiry, without changing any state.
    ///
    /// Fails with `QueueNotFound` when no queue has that name.
    pub fn peek_message(&self, queue_name: &str) -> (r: Result<Option<Message>, Error>)
        requires
            self.wf(),
        ensures
            peek_message_post(*self, queue_name@, r),
    {
        let i = match self.find_queue(queue_name) {
            Some(i) => i,
            None => {
                return Err(Error::QueueNotFound(queue_name.to_owned()));
            },
        };
        proof {
            self.lemma_queue_at_is(queue_name@, i as int);
        }
        if self.queues[i].pending.len() == 0 {
            Ok(None)
        } else {
            Ok(Some(self.queues[i].pending[0].clone()))
        }
    }

    /// Acknowledge the in-flight message carrying `message_id`: it is removed
    /// for good.
    ///
    /// Fails with `QueueNotFound` when no queue has that name and with
    /// `MessageNotFound` when the identifier is not in flight there.
    pub fn ack_message(&mut self, queue_name: &str, message_id: &MessageId) -> (r: Result<
        (),
        Error,
    >)
        requires
            old(self).wf(),
        ensures
            final(self).wf(),
            ack_message_post(*old(self), *final(self), queue_name@, *message_id, r),
    {
        let i = match self.find_queue(queue_name) {
            Some(i) => i,
            None => {
                return Err(Error::QueueNotFound(queue_name.to_owned()));
            },
        };
        proof {
            self.lemma_queue_at_is(queue_name@, i as int);
        }
        let j = match find_by_id(&self.queues[i].in_flight, message_id) {
            Some(j) => j,
            None => {
                return Err(Error::MessageNotFound(message_id.text()));
            },
        };
        let ghost pre = *self;
        self.queues[i].in_flight.remove(j);
        proof {
            lemma_distinct_remove(pre.queues@[i as int].in_flight@, j as int);
            assert forall|l: int| 0 <= l < self.queues@.len() implies (#[trigger] self.queues@[
                l
            ]).wf() by {
                assert(pre.queues@[l].wf());
            }
        }
        Ok(())
    }

    /// Negatively acknowledge the in-flight message carrying `message_id`.
    ///
    /// The message leaves the in-flight collection. When its delivery count
    /// has reached the queue's retry limit it is discarded for good;
    /// otherwise it returns to the head of the pending sequence with status
    /// `Pending`, ahead of newly published messages.
    ///
    /// Fails with `QueueNotFound` when no queue has that name and with
    /// `MessageNotFound` when the identifier is not in flight there.
    pub fn nack_message(&mut self, queue_name: &str, message_id: &MessageId) -> (r: Result<
        (),
        Error,
    >)
        requires
            old(self).wf(),
        ensures
            final(self).wf(),
            nack_message_post(*old(self), *final(self), queue_name@, *message_id, r),
    {
        let i = match self.find_queue(queue_name) {
            Some(i) => i,
            None => {
                return Err(Error::QueueNotFound(queue_name.to_owned()));
            },
        };
        proof {
            self.lemma_queue_at_is(queue_name@, i as int);
        }
        let j = match find_by_id(&self.queues[i].in_flight, message_id) {
            Some(j) => j,
            None => {
                return Err(Error::MessageNotFound(message_id.text()));
            },
        };
        let ghost pre = *self;
        let mut m = self.queues[i].in_flight.remove(j);
        proof {
            lemma_distinct_remove(pre.queues@[i as int].in_flight@, j as int);
        }
        if m.delivery_count >= self.queues[i].queue.config.max_retries {
            // Retry limit reached: the message becomes terminally failed and
            // is discarded; no dead-letter routing is performed.
            proof {
                assert forall|l: int| 0 <= l < self.queues@.len() implies (#[trigger] self.queues@[
                    l
                ]).wf() by {
                    assert(pre.queues@[l].wf());
                }
            }
        } else {
            m.status = MessageStatus::Pending;
            proof {
                assert(m == requeued(pre.queues@[i as int].in_flight@[j as int]));
            }
            self.queues[i].pending.insert(0, m);
            proof {
                assert(self.queues@[i as int].pending@ =~= seq![m] + pre.queues@[
                    i as int
                ].pending@);
                assert forall|l: int| 0 <= l < self.queues@.len() implies (#[trigger] self.queues@[
                    l
                ]).wf() by {
                    assert(pre.queues@[l].wf());
                    if l == i {
                        assert(forall|k: int|
                            0 <= k < self.queues@[l].pending@.len() ==> (
                            #[trigger] self.queues@[l].pending@[k]) == if k == 0 {
                                m
                            } else {
                                pre.queues@[l].pending@[k - 1]
                            });
                    }
                }
            }
        }
        Ok(())
    }

    /// A copy of the message carrying `message_id`, searched for among the
    /// in-flight messages first and the pending sequence second, without
    /// changing any state.
    ///
    /// Fails with `QueueNotFound` when no queue has that name.
    pub fn get_message(&self, queue_name: &str, message_id: &MessageId) -> (r: Result<
        Option<Message>,
        Error,
    >)
        requires
            self.wf(),
        ensures
            get_message_post(*self, queue_name@, *message_id, r),
    {
        let i = match self.find_queue(queue_name) {
            Some(i) => i,
            None => {
                return Err(Error::QueueNotFound(queue_name.to_owned()));
            },
        };
        proof {
            self.lemma_queue_at_is(queue_name@, i as int);
        }
        if let Some(j) = find_by_id(&self.queues[i].in_flight, message_id) {
            return Ok(Some(self.queues[i].in_flight[j].clone()));
        }
        if let Some(j) = find_by_id(&self.queues[i].pending, message_id) {
            return Ok(Some(self.queues[i].pending[j].clone()));
        }
        Ok(None)
    }
}

impl Default for MemoryStorage {
    fn default() -> (r: Self)
        ensures
            r.queues@.len() == 0,
            r.wf(),
    {
        MemoryStorage::new()
    }
}

/// The index of the first message of `v` carrying `id`, scanning from the
/// front.
fn find_by_id(v: &Vec<Message>, id: &MessageId) -> (r: Option<usize>)
    ensures
        match r {
            Some(j) => j == find_id(v@, *id) && j < v@.len() && v@[j as int].id == *id && has_id(
                v@,
                *id,
            ),
            None => !has_id(v@, *id) && find_id(v@, *id) == v@.len(),
        },
{
    let mut j: usize = 0;
    while j < v.len()
        invariant
            0 <= j <= v@.len(),
            forall|l: int| 0 <= l < j ==> (#[trigger] v@[l]).id != *id,
        decreases v@.len() - j,
    {
        if v[j].id == *id {
            proof {
                lemma_find_id_char(v@, *id, j as int);
            }
            return Some(j);
        }
        j += 1;
    }
    proof {
        lemma_find_id_char(v@, *id, v@.len() as int);
    }
    None
}

/// Store `m` in the in-flight collection, replacing any entry that already
/// carries its identifier.
fn insert_in_flight(v: &mut Vec<Message>, m: Message)
    requires
        distinct_ids(old(v)@),
    ensures
        final(v)@ == inflight_put(old(v)@, m),
        distinct_ids(final(v)@),
{
    let j = find_by_id(v, &m.id);
    match j {
        Some(j) => {
            let ghost pre = v@;
            v.set(j, m);
            proof {
                assert forall|k: int, l: int|
                    0 <= k < l < v@.len() implies v@[k].id != v@[l].id by {
                    assert(pre[k].id != pre[l].id);
                    assert(pre[j as int].id == m.id);
                }
            }
        },
        None => {
            v.push(m);
            let ghost post = v@;
            proof {
                assert forall|k: int, l: int|
                    0 <= k < l < post.len() implies post[k].id != post[l].id by {
                    if l < post.len() - 1 {
                    } else {
                        assert(post[k].id != m.id);
                    }
                }
            }
        },
    }
}

/// `n` clamped into the range of `u64`.
pub open spec fn sat_u64(n: int) -> u64 {
    if n > u64::MAX {
        u64::MAX
    } else if n < 0 {
        0
    } else {
        n as u64
    }
}

/// Total size in bytes of the bodies of the messages of `s`.
pub open spec fn bytes_total(s: Seq<Message>) -> int
    decreases s.len(),
{
    if s.len() == 0 {
        0
    } else {
        bytes_total(s.drop_last()) + s.last().body@.len()
    }
}

proof fn lemma_bytes_total_nonneg(s: Seq<Message>)
    ensures
        bytes_total(s) >= 0,
    decreases s.len(),
{
    if s.len() > 0 {
        lemma_bytes_total_nonneg(s.drop_last());
    }
}

/// The messages of `s` that are not expired at `now`, in order.
pub open spec fn live_only(s: Seq<Message>, now: i64) -> Seq<Message> {
    s.filter(|m: Message| !spec_expired(m, now))
}

/// How many pending messages of the queues of `qs` are expired at `now`.
pub open spec fn removed_total(qs: Seq<QueueData>, now: i64) -> int
    decreases qs.len(),
{
    if qs.len() == 0 {
        0
    } else {
        removed_total(qs.drop_last(), now) + (qs.last().pending@.len() - live_only(
            qs.last().pending@,
            now,
        ).len())
    }
}

proof fn lemma_removed_total_nonneg(qs: Seq<QueueData>, now: i64)
    ensures
        removed_total(qs, now) >= 0,
    decreases qs.len(),
{
    if qs.len() > 0 {
        lemma_removed_total_nonneg(qs.drop_last(), now);
        qs.last().pending@.lemma_filter_len(|m: Message| !spec_expired(m, now));
    }
}

/// Keep only the messages of `v` that are not expired at `now`, preserving
/// order, and report how many were dropped.
fn retain_live(v: &mut Vec<Message>, now: i64) -> (removed: usize)
    ensures
        final(v)@ == live_only(old(v)@, now),
        removed == old(v)@.len() - final(v)@.len(),
        forall|k: int| 0 <= k < final(v)@.len() ==> old(v)@.contains(#[trigger] final(v)@[k]),
{
    let n = v.len();
    let mut kept: Vec<Message> = Vec::new();
    let ghost v0 = v@;
    let ghost mut j: int = 0;
    while v.len() > 0
        invariant
            v0 == old(v)@,
            0 <= j <= v0.len(),
            v@ == v0.skip(j),
            kept@ == live_only(v0.take(j), now),
            kept@.len() <= j,
            forall|k: int| 0 <= k < kept@.len() ==> v0.contains(#[trigger] kept@[k]),
        decreases v@.len(),
    {
        let m = v.remove(0);
        proof {
            assert(m == v0.skip(j)[0]);
            assert(m == v0[j]);
            assert(v0.skip(j).remove(0) =~= v0.skip(j + 1));
            assert(v0.take(j + 1).drop_last() =~= v0.take(j));
            assert(v0.take(j + 1).last() == v0[j]);
        }
        if m.is_expired_at(now) {
            proof {
                reveal(Seq::filter);
                assert(live_only(v0.take(j + 1), now) == live_only(v0.take(j), now));
                j = j + 1;
            }
        } else {
            kept.push(m);
            proof {
                reveal(Seq::filter);
                assert(live_only(v0.take(j + 1), now) == live_only(v0.take(j), now).push(m));
                assert(v0.contains(m));
                j = j + 1;
            }
        }
    }
    proof {
        assert(j == v0.len());
        assert(v0.take(v0.len() as int) =~= v0);
    }
    let removed = n - kept.len();
    *v = kept;
    removed
}

proof fn lemma_distinct_remove(s: Seq<Message>, i: int)
    requires
        distinct_ids(s),
        0 <= i < s.len(),
    ensures
        distinct_ids(s.remove(i)),
{
    let t = s.remove(i);
    assert forall|k: int, l: int| 0 <= k < l < t.len() implies t[k].id != t[l].id by {
        let k0 = if k < i { k } else { k + 1 };
        let l0 = if l < i { l } else { l + 1 };
        assert(t[k] == s[k0]);
        assert(t[l] == s[l0]);
    }
}

// ==================== Operation contracts ====================

/// What `create_queue` guarantees.
pub open spec fn create_queue_post(
    pre: MemoryStorage,
    post: MemoryStorage,
    queue: Queue,
    r: Result<Queue, Error>,
) -> bool {
    if pre.has_queue(queue.name@) {
        &&& r matches Err(e) && e matches Error::QueueAlreadyExists(n) && n@ == queue.name@
        &&& post == pre
    } else {
        &&& post.queues@.len() == pre.queues@.len() + 1
        &&& forall|j: int| 0 <= j < pre.queues@.len() ==> post.queues@[j] == pre.queues@[j]
        &&& post.queues@.last().queue == queue
        &&& post.queues@.last().pending@.len() == 0
        &&& post.queues@.last().in_flight@.len() == 0
        &&& r matches Ok(q) && q == queue
    }
}

/// What `get_queue` guarantees: `Ok(Some)` of a copy exactly when the queue
/// exists, `Ok(None)` otherwise.
pub open spec fn get_queue_post(
    pre: MemoryStorage,
    name: Seq<char>,
    r: Result<Option<Queue>, Error>,
) -> bool {
    if pre.has_queue(name) {
        r matches Ok(o) && o matches Some(q) && q == pre.queues@[pre.queue_at(name)].queue
    } else {
        r matches Ok(o) && o is None
    }
}

/// What `list_queues` guarantees: a copy of every queue, in creation order.
pub open spec fn list_queues_post(pre: MemoryStorage, r: Result<Vec<Queue>, Error>) -> bool {
    &&& r matches Ok(v) && v@.len() == pre.queues@.len()
    &&& r matches Ok(v) ==> forall|i: int|
        0 <= i < pre.queues@.len() ==> v@[i] == (#[trigger] pre.queues@[i]).queue
}

/// Everything but the queue at index `i` is the same in `post` as in `pre`,
/// and that queue keeps its metadata.
pub open spec fn same_except(pre: MemoryStorage, post: MemoryStorage, i: int) -> bool {
    &&& post.queues@.len() == pre.queues@.len()
    &&& forall|j: int|
        0 <= j < pre.queues@.len() && j != i ==> post.queues@[j] == pre.queues@[j]
    &&& post.queues@[i].queue == pre.queues@[i].queue
}

/// What `get_queue_stats` guarantees: exact counts derived from the queue's
/// state, with sums saturating at `u64::MAX`.
pub open spec fn get_queue_stats_post(
    pre: MemoryStorage,
    name: Seq<char>,
    r: Result<QueueStats, Error>,
) -> bool {
    if pre.has_queue(name) {
        let qd = pre.queues@[pre.queue_at(name)];
        &&& r matches Ok(st)
        &&& r matches Ok(st) ==> {
            &&& st.pending_count == qd.pending@.len()
            &&& st.in_flight_count == qd.in_flight@.len()
            &&& st.message_count == sat_u64(qd.pending@.len() + qd.in_flight@.len() as int)
            &&& st.size_bytes == sat_u64(bytes_total(qd.pending@))
            &&& st.consumer_count == 0
        }
    } else {
        r matches Err(e) && e matches Error::QueueNotFound(n) && n@ == name
    }
}

/// What `purge_queue` guarantees.
pub open spec fn purge_queue_post(
    pre: MemoryStorage,
    post: MemoryStorage,
    name: Seq<char>,
    r: Result<u64, Error>,
) -> bool {
    if pre.has_queue(name) {
        let i = pre.queue_at(name);
        &&& r matches Ok(c) && c == pre.queues@[i].pending@.len()
        &&& same_except(pre, post, i)
        &&& post.queues@[i].pending@.len() == 0
        &&& post.queues@[i].in_flight@.len() == 0
    } else {
        &&& r matches Err(e) && e matches Error::QueueNotFound(n) && n@ == name
        &&& post == pre
    }
}

/// What `cleanup_expired_at` guarantees when expiry is judged against `now`:
/// every queue keeps its metadata and in-flight messages, its pending
/// sequence keeps exactly the messages not yet expired, and the count of
/// removed messages is reported, saturating at `u64::MAX`.
pub open spec fn cleanup_expired_post(
    pre: MemoryStorage,
    post: MemoryStorage,
    r: Result<u64, Error>,
    now: i64,
) -> bool {
    &&& post.queues@.len() == pre.queues@.len()
    &&& forall|i: int|
        0 <= i < pre.queues@.len() ==> {
            &&& (#[trigger] post.queues@[i]).queue == pre.queues@[i].queue
            &&& post.queues@[i].in_flight@ == pre.queues@[i].in_flight@
            &&& post.queues@[i].pending@ == live_only(pre.queues@[i].pending@, now)
        }
    &&& r matches Ok(c) && c == sat_u64(removed_total(pre.queues@, now))
}

/// What `push_message` guarantees.
pub open spec fn push_message_post(
    pre: MemoryStorage,
    post: MemoryStorage,
    name: Seq<char>,
    message: Message,
    r: Result<MessageId, Error>,
) -> bool {
    if pre.has_queue(name) {
        let i = pre.queue_at(name);
        let qd = pre.queues@[i];
        if qd.queue.config.max_messages > 0 && qd.pending@.len()
            >= qd.queue.config.max_messages {
            &&& r matches Err(e) && e matches Error::QueueFull(n) && n@ == name
            &&& post == pre
        } else {
            &&& r matches Ok(id) && id == message.id
            &&& same_except(pre, post, i)
            &&& post.queues@[i].pending@ == qd.pending@.push(message)
            &&& post.queues@[i].in_flight@ == qd.in_flight@
        }
    } else {
        &&& r matches Err(e) && e matches Error::QueueNotFound(n) && n@ == name
        &&& post == pre
    }
}

/// What `pop_message_at` guarantees when expiry is judged against `now`.
pub open spec fn pop_message_post(
    pre: MemoryStorage,
    post: MemoryStorage,
    name: Seq<char>,
    r: Result<Option<Message>, Error>,
    now: i64,
) -> bool {
    if pre.has_queue(name) {
        let i = pre.queue_at(name);
        let p = pre.queues@[i].pending@;
        let k = first_live(p, now);
        &&& same_except(pre, post, i)
        &&& if k < p.len() {
            &&& r matches Ok(o) && o matches Some(m) && msg_eqv(m, delivered(p[k]))
            &&& post.queues@[i].pending@ == p.subrange(k + 1, p.len() as int)
            &&& post.queues@[i].in_flight@ == inflight_put(
                pre.queues@[i].in_flight@,
                delivered(p[k]),
            )
        } else {
            &&& r matches Ok(o) && o is None
            &&& post.queues@[i].pending@.len() == 0
            &&& post.queues@[i].in_flight@ == pre.queues@[i].in_flight@
        }
    } else {
        &&& r matches Err(e) && e matches Error::QueueNotFound(n) && n@ == name
        &&& post == pre
    }
}

/// What repeated delivery does, at the spec level: up to `max` single
/// receives against pending sequence `p` and in-flight collection `f`,
/// stopping at the first receive that yields nothing. Yields the delivered
/// messages in order, the remaining pending sequence and the final in-flight
/// collection.
pub open spec fn drain(p: Seq<Message>, f: Seq<Message>, max: nat, now: i64) -> (
    Seq<Message>,
    Seq<Message>,
    Seq<Message>,
)
    decreases max,
{
    if max == 0 {
        (Seq::<Message>::empty(), p, f)
    } else {
        let k = first_live(p, now);
        if k == p.len() {
            (Seq::<Message>::empty(), Seq::<Message>::empty(), f)
        } else {
            let m = delivered(p[k]);
            let rest = drain(
                p.subrange(k + 1, p.len() as int),
                inflight_put(f, m),
                (max - 1) as nat,
                now,
            );
            (seq![m] + rest.0, rest.1, rest.2)
        }
    }
}

/// What `pop_messages_at` guarantees when expiry is judged against `now`.
pub open spec fn pop_messages_post(
    pre: MemoryStorage,
    post: MemoryStorage,
    name: Seq<char>,
    max: nat,
    r: Result<Vec<Message>, Error>,
    now: i64,
) -> bool {
    if max == 0 {
        &&& r matches Ok(v) && v@.len() == 0
        &&& post == pre
    } else if pre.has_queue(name) {
        let i = pre.queue_at(name);
        let d = drain(pre.queues@[i].pending@, pre.queues@[i].in_flight@, max, now);
        &&& same_except(pre, post, i)
        &&& post.queues@[i].pending@ == d.1
        &&& post.queues@[i].in_flight@ == d.2
        &&& r matches Ok(v) && v@.len() == d.0.len()
        &&& r matches Ok(v) ==> forall|l: int|
            0 <= l < d.0.len() ==> msg_eqv(#[trigger] v@[l], d.0[l])
    } else {
        &&& r matches Err(e) && e matches Error::QueueNotFound(n) && n@ == name
        &&& post == pre
    }
}

/// What `peek_message` guarantees.
pub open spec fn peek_message_post(
    pre: MemoryStorage,
    name: Seq<char>,
    r: Result<Option<Message>, Error>,
) -> bool {
    if pre.has_queue(name) {
        let p = pre.queues@[pre.queue_at(name)].pending@;
        if p.len() > 0 {
            r matches Ok(o) && o matches Some(m) && msg_eqv(m, p[0])
        } else {
            r matches Ok(o) && o is None
        }
    } else {
        r matches Err(e) && e matches Error::QueueNotFound(n) && n@ == name
    }
}

/// What `ack_message` guarantees.
pub open spec fn ack_message_post(
    pre: MemoryStorage,
    post: MemoryStorage,
    name: Seq<char>,
    id: MessageId,
    r: Result<(), Error>,
) -> bool {
    if pre.has_queue(name) {
        let i = pre.queue_at(name);
        let f = pre.queues@[i].in_flight@;
        if has_id(f, id) {
            &&& r is Ok
            &&& same_except(pre, post, i)
            &&& post.queues@[i].pending@ == pre.queues@[i].pending@
            &&& post.queues@[i].in_flight@ == f.remove(find_id(f, id))
        } else {
            &&& r matches Err(e) && e matches Error::MessageNotFound(n) && n@ == uuid_text(
                id.0,
            )
            &&& post == pre
        }
    } else {
        &&& r matches Err(e) && e matches Error::QueueNotFound(n) && n@ == name
        &&& post == pre
    }
}

/// What `nack_message` guarantees.
pub open spec fn nack_message_post(
    pre: MemoryStorage,
    post: MemoryStorage,
    name: Seq<char>,
    id: MessageId,
    r: Result<(), Error>,
) -> bool {
    if pre.has_queue(name) {
        let i = pre.queue_at(name);
        let f = pre.queues@[i].in_flight@;
        if has_id(f, id) {
            let m = f[find_id(f, id)];
            &&& r is Ok
            &&& same_except(pre, post, i)
            &&& post.queues@[i].in_flight@ == f.remove(find_id(f, id))
            &&& if m.delivery_count >= pre.queues@[i].queue.config.max_retries {
                post.queues@[i].pending@ == pre.queues@[i].pending@
            } else {
                post.queues@[i].pending@ == seq![requeued(m)] + pre.queues@[i].pending@
            }
        } else {
            &&& r matches Err(e) && e matches Error::MessageNotFound(n) && n@ == uuid_text(
                id.0,
            )
            &&& post == pre
        }
    } else {
        &&& r matches Err(e) && e matches Error::QueueNotFound(n) && n@ == name
        &&& post == pre
    }
}

/// What `get_message` guarantees.
pub open spec fn get_message_post(
    pre: MemoryStorage,
    name: Seq<char>,
    id: MessageId,
    r: Result<Option<Message>, Error>,
) -> bool {
    if pre.has_queue(name) {
        let i = pre.queue_at(name);
        let f = pre.queues@[i].in_flight@;
        let p = pre.queues@[i].pending@;
        if has_id(f, id) {
            r matches Ok(o) && o matches Some(m) && msg_eqv(m, f[find_id(f, id)])
        } else if has_id(p, id) {
            r matches Ok(o) && o matches Some(m) && msg_eqv(m, p[find_id(p, id)])
        } else {
            r matches Ok(o) && o is None
        }
    } else {
        r matches Err(e) && e matches Error::QueueNotFound(n) && n@ == name
    }
}

/// What `delete_queue` guarantees.
pub open spec fn delete_queue_post(
    pre: MemoryStorage,
    post: MemoryStorage,
    name: Seq<char>,
    r: Result<(), Error>,
) -> bool {
    if pre.has_queue(name) {
        &&& r is Ok
        &&& post.queues@ == pre.queues@.remove(pre.queue_at(name))
    } else {
        &&& r matches Err(e) && e matches Error::QueueNotFound(n) && n@ == name
        &&& post == pre
    }
}

} // verus!
