use vstd::prelude::*;

use crate::errors::Error;
use crate::ids::uuid_text;
use crate::ids::MessageId;
use crate::memory::ack_message_post;
use crate::memory::cleanup_expired_post;
use crate::memory::delivered;
use crate::memory::distinct_ids;
use crate::memory::drain;
use crate::memory::find_id;
use crate::memory::first_live;
use crate::memory::has_id;
use crate::memory::inflight_put;
use crate::memory::lemma_find_id_props;
use crate::memory::lemma_first_live_char;
use crate::memory::lemma_first_live_props;
use crate::memory::live_only;
use crate::memory::nack_message_post;
use crate::memory::pop_message_post;
use crate::memory::pop_messages_post;
use crate::memory::push_message_post;
use crate::memory::removed_total;
use crate::memory::MemoryStorage;
use crate::message::msg_eqv;
use crate::message::spec_expired;
use crate::message::Message;

verus! {

// ==================== First-in, first-out ====================

/// FIFO at the spec level: with no expiry involved, repeated delivery hands
/// out exactly the first `min(max, p.len())` messages of the pending
/// sequence, in order, each with one more delivery on its count, and leaves
/// the rest pending.
pub proof fn lemma_fifo_order(p: Seq<Message>, f: Seq<Message>, max: nat, now: i64)
    requires
        forall|k: int| 0 <= k < p.len() ==> !spec_expired(#[trigger] p[k], now),
    ensures
        ({
            let d = drain(p, f, max, now);
            let n: int = if max < p.len() {
                max as int
            } else {
                p.len() as int
            };
            &&& d.0.len() == n
            &&& forall|l: int| 0 <= l < n ==> #[trigger] d.0[l] == delivered(p[l])
            &&& d.1 == p.skip(n)
        }),
    decreases max,
{
    let d = drain(p, f, max, now);
    if max == 0 {
        assert(p.skip(0) =~= p);
    } else if p.len() == 0 {
        assert(first_live(p, now) == 0);
        assert(d.1 =~= p.skip(0));
    } else {
        lemma_first_live_char(p, now, 0);
        let m = delivered(p[0]);
        let p1 = p.subrange(1, p.len() as int);
        assert(forall|k: int| 0 <= k < p1.len() ==> (#[trigger] p1[k]) == p[k + 1]);
        lemma_fifo_order(p1, inflight_put(f, m), (max - 1) as nat, now);
        let rest = drain(p1, inflight_put(f, m), (max - 1) as nat, now);
        let n: int = if max < p.len() {
            max as int
        } else {
            p.len() as int
        };
        let n1: int = if max - 1 < p1.len() {
            max - 1
        } else {
            p1.len() as int
        };
        assert(n == n1 + 1);
        assert(d.0 == seq![m] + rest.0);
        assert forall|l: int| 0 <= l < n implies #[trigger] d.0[l] == delivered(p[l]) by {
            if l == 0 {
                assert(d.0[0] == m);
            } else {
                assert(d.0[l] == rest.0[l - 1]);
                assert(rest.0[l - 1] == delivered(p1[l - 1]));
            }
        }
        assert(d.1 == rest.1);
        assert(p1.skip(n1) =~= p.skip(n));
    }
}

/// FIFO delivery through the engine: when no pending message of the queue is
/// expired at the instant a batch receive judges expiry against, the receive
/// returns copies of exactly the first `min(max, pending)` messages, in
/// publication order.
pub proof fn lemma_fifo_receive(
    pre: MemoryStorage,
    post: MemoryStorage,
    name: Seq<char>,
    max: nat,
    r: Result<Vec<Message>, Error>,
    now: i64,
)
    requires
        pre.has_queue(name),
        max > 0,
        forall|k: int|
            0 <= k < pre.queues@[pre.queue_at(name)].pending@.len() ==> !spec_expired(
                #[trigger] pre.queues@[pre.queue_at(name)].pending@[k],
                now,
            ),
        pop_messages_post(pre, post, name, max, r, now),
    ensures
        ({
            let p = pre.queues@[pre.queue_at(name)].pending@;
            let n: int = if max < p.len() {
                max as int
            } else {
                p.len() as int
            };
            &&& r matches Ok(v) && v@.len() == n
            &&& r matches Ok(v) ==> forall|l: int|
                0 <= l < n ==> msg_eqv(#[trigger] v@[l], delivered(p[l]))
            &&& post.queues@[pre.queue_at(name)].pending@ == p.skip(n)
        }),
{
    let i = pre.queue_at(name);
    lemma_fifo_order(pre.queues@[i].pending@, pre.queues@[i].in_flight@, max, now);
}

// ==================== At-most-once visibility ====================

/// At-most-once visibility: when pending identifiers are distinct, two
/// successive receives from one queue never hand out the same identifier —
/// the first receive removes the message from the pending sequence, so the
/// second draws from what remains.
pub proof fn lemma_at_most_once(
    pre: MemoryStorage,
    mid: MemoryStorage,
    post: MemoryStorage,
    name: Seq<char>,
    m1: Message,
    m2: Message,
    now1: i64,
    now2: i64,
)
    requires
        pre.wf(),
        mid.wf(),
        pre.has_queue(name),
        distinct_ids(pre.queues@[pre.queue_at(name)].pending@),
        pop_message_post(pre, mid, name, Ok(Some(m1)), now1),
        pop_message_post(mid, post, name, Ok(Some(m2)), now2),
    ensures
        m1.id != m2.id,
{
    let i = pre.queue_at(name);
    let p = pre.queues@[i].pending@;
    let k1 = first_live(p, now1);
    lemma_first_live_props(p, now1);
    assert(k1 < p.len());
    assert(m1.id == p[k1].id);
    assert(mid.queues@[i].queue == pre.queues@[i].queue);
    assert(mid.has_queue(name));
    mid.lemma_queue_at_is(name, i);
    let p2 = mid.queues@[i].pending@;
    assert(p2 == p.subrange(k1 + 1, p.len() as int));
    let k2 = first_live(p2, now2);
    lemma_first_live_props(p2, now2);
    assert(k2 < p2.len());
    assert(m2.id == p2[k2].id);
    assert(p2[k2] == p[k1 + 1 + k2]);
}

// ==================== Lifecycle closure ====================

/// Lifecycle closure after an acknowledgement: once an acknowledgement
/// succeeds for `id` — the delivered message having already left the pending
/// sequence — the identifier is tracked neither pending nor in flight, and
/// every further acknowledgement of it, positive or negative, fails with
/// `MessageNotFound`.
pub proof fn lemma_lifecycle_closure(
    pre: MemoryStorage,
    mid: MemoryStorage,
    name: Seq<char>,
    id: MessageId,
)
    requires
        pre.wf(),
        mid.wf(),
        pre.has_queue(name),
        !has_id(pre.queues@[pre.queue_at(name)].pending@, id),
        ack_message_post(pre, mid, name, id, Ok(())),
    ensures
        !has_id(mid.queues@[mid.queue_at(name)].in_flight@, id),
        !has_id(mid.queues@[mid.queue_at(name)].pending@, id),
        forall|post: MemoryStorage, r: Result<(), Error>|
            #[trigger] ack_message_post(mid, post, name, id, r) ==> (r matches Err(e)
                && e matches Error::MessageNotFound(n) && n@ == uuid_text(id.0)),
        forall|post: MemoryStorage, r: Result<(), Error>|
            #[trigger] nack_message_post(mid, post, name, id, r) ==> (r matches Err(e)
                && e matches Error::MessageNotFound(n) && n@ == uuid_text(id.0)),
{
    let i = pre.queue_at(name);
    let f = pre.queues@[i].in_flight@;
    assert(has_id(f, id));
    lemma_find_id_props(f, id);
    let k = find_id(f, id);
    assert(mid.queues@[i].queue == pre.queues@[i].queue);
    assert(mid.has_queue(name));
    mid.lemma_queue_at_is(name, i);
    lemma_removed_id_gone(f, id, k);
    assert(mid.queues@[i].in_flight@ == f.remove(k));
}

/// Removing the single entry carrying `id` from a collection with distinct
/// identifiers leaves no entry carrying `id`.
proof fn lemma_removed_id_gone(f: Seq<Message>, id: MessageId, k: int)
    requires
        distinct_ids(f),
        0 <= k < f.len(),
        f[k].id == id,
        forall|l: int| 0 <= l < k ==> (#[trigger] f[l]).id != id,
    ensures
        !has_id(f.remove(k), id),
{
    let t = f.remove(k);
    assert forall|l: int| 0 <= l < t.len() implies (#[trigger] t[l]).id != id by {
        if l < k {
            assert(t[l] == f[l]);
        } else {
            assert(t[l] == f[l + 1]);
            assert(f[k].id != f[l + 1].id);
        }
    }
}

// ==================== Retry ceiling ====================

/// Retry ceiling: a negative acknowledgement of an in-flight message whose
/// delivery count has reached the queue's retry limit removes the message
/// for good — it is neither requeued nor kept in flight — and every further
/// acknowledgement of its identifier fails with `MessageNotFound`.
pub proof fn lemma_retry_ceiling(
    pre: MemoryStorage,
    mid: MemoryStorage,
    name: Seq<char>,
    id: MessageId,
)
    requires
        pre.wf(),
        mid.wf(),
        pre.has_queue(name),
        has_id(pre.queues@[pre.queue_at(name)].in_flight@, id),
        ({
            let f = pre.queues@[pre.queue_at(name)].in_flight@;
            f[find_id(f, id)].delivery_count >= pre.queues@[pre.queue_at(
                name,
            )].queue.config.max_retries
        }),
        !has_id(pre.queues@[pre.queue_at(name)].pending@, id),
        nack_message_post(pre, mid, name, id, Ok(())),
    ensures
        mid.queues@[mid.queue_at(name)].pending@ == pre.queues@[pre.queue_at(name)].pending@,
        !has_id(mid.queues@[mid.queue_at(name)].in_flight@, id),
        !has_id(mid.queues@[mid.queue_at(name)].pending@, id),
        forall|post: MemoryStorage, r: Result<(), Error>|
            #[trigger] ack_message_post(mid, post, name, id, r) ==> (r matches Err(e)
                && e matches Error::MessageNotFound(n) && n@ == uuid_text(id.0)),
        forall|post: MemoryStorage, r: Result<(), Error>|
            #[trigger] nack_message_post(mid, post, name, id, r) ==> (r matches Err(e)
                && e matches Error::MessageNotFound(n) && n@ == uuid_text(id.0)),
{
    let i = pre.queue_at(name);
    let f = pre.queues@[i].in_flight@;
    lemma_find_id_props(f, id);
    let k = find_id(f, id);
    assert(mid.queues@[i].queue == pre.queues@[i].queue);
    assert(mid.has_queue(name));
    mid.lemma_queue_at_is(name, i);
    lemma_removed_id_gone(f, id, k);
    assert(mid.queues@[i].in_flight@ == f.remove(k));
}

// ==================== Expiry skip ====================

/// Expiry skip, receive half: a single receive never returns a message that
/// is expired at the instant the receive judged expiry against.
pub proof fn lemma_expiry_skip(
    pre: MemoryStorage,
    post: MemoryStorage,
    name: Seq<char>,
    m: Message,
    now: i64,
)
    requires
        pop_message_post(pre, post, name, Ok(Some(m)), now),
    ensures
        !spec_expired(m, now),
{
    assert(pre.has_queue(name));
    let i = pre.queue_at(name);
    let p = pre.queues@[i].pending@;
    lemma_first_live_props(p, now);
    let k = first_live(p, now);
    assert(k < p.len());
    assert(msg_eqv(m, delivered(p[k])));
    assert(m.expires_at == p[k].expires_at);
}

/// Expiry skip, sweep half: after a sweep judged at `now`, no queue holds a
/// pending message expired at `now`; and when some queue held one, the sweep
/// reports at least one removal.
pub proof fn lemma_cleanup_removes_expired(
    pre: MemoryStorage,
    post: MemoryStorage,
    r: Result<u64, Error>,
    now: i64,
)
    requires
        cleanup_expired_post(pre, post, r, now),
    ensures
        forall|i: int, l: int|
            0 <= i < post.queues@.len() && 0 <= l < post.queues@[i].pending@.len()
                ==> !spec_expired(#[trigger] post.queues@[i].pending@[l], now),
        (exists|i: int, l: int|
            0 <= i < pre.queues@.len() && 0 <= l < pre.queues@[i].pending@.len()
                && spec_expired(#[trigger] pre.queues@[i].pending@[l], now)) ==> (r matches Ok(c)
            && c >= 1),
{
    assert forall|i: int, l: int|
        0 <= i < post.queues@.len() && 0 <= l
            < post.queues@[i].pending@.len() implies !spec_expired(
        #[trigger] post.queues@[i].pending@[l],
        now,
    ) by {
        let p = pre.queues@[i].pending@;
        assert(post.queues@[i].pending@ == live_only(p, now));
        p.lemma_filter_pred(|mm: Message| !spec_expired(mm, now), l);
    }
    if exists|i: int, l: int|
        0 <= i < pre.queues@.len() && 0 <= l < pre.queues@[i].pending@.len() && spec_expired(
            #[trigger] pre.queues@[i].pending@[l],
            now,
        ) {
        let (i, l) = choose|i: int, l: int|
            0 <= i < pre.queues@.len() && 0 <= l < pre.queues@[i].pending@.len() && spec_expired(
                #[trigger] pre.queues@[i].pending@[l],
                now,
            );
        lemma_filter_drops_one(pre.queues@[i].pending@, now, l);
        lemma_removed_total_lower(pre.queues@, now, i);
    }
}

/// A sequence holding a message expired at `now` keeps strictly fewer
/// messages after the expiry filter.
proof fn lemma_filter_drops_one(s: Seq<Message>, now: i64, l: int)
    requires
        0 <= l < s.len(),
        spec_expired(s[l], now),
    ensures
        live_only(s, now).len() < s.len(),
    decreases s.len(),
{
    reveal(Seq::filter);
    if l == s.len() - 1 {
        s.drop_last().lemma_filter_len(|mm: Message| !spec_expired(mm, now));
    } else {
        lemma_filter_drops_one(s.drop_last(), now, l);
    }
}

/// The total count of the sweep is at least one queue's own count.
proof fn lemma_removed_total_lower(qs: Seq<crate::memory::QueueData>, now: i64, i: int)
    requires
        0 <= i < qs.len(),
    ensures
        removed_total(qs, now) >= qs[i].pending@.len() - live_only(qs[i].pending@, now).len(),
    decreases qs.len(),
{
    if i == qs.len() - 1 {
        lemma_removed_total_nonneg_all(qs.drop_last(), now);
    } else {
        lemma_removed_total_lower(qs.drop_last(), now, i);
        qs.last().pending@.lemma_filter_len(|mm: Message| !spec_expired(mm, now));
    }
}

proof fn lemma_removed_total_nonneg_all(qs: Seq<crate::memory::QueueData>, now: i64)
    ensures
        removed_total(qs, now) >= 0,
    decreases qs.len(),
{
    if qs.len() > 0 {
        lemma_removed_total_nonneg_all(qs.drop_last(), now);
        qs.last().pending@.lemma_filter_len(|mm: Message| !spec_expired(mm, now));
    }
}

// ==================== Capacity enforcement ====================

/// Capacity enforcement: a publish against a queue whose nonzero capacity is
/// reached fails with `QueueFull` — and only then; in particular a queue
/// with no capacity set never rejects a publish for capacity reasons.
pub proof fn lemma_capacity(
    pre: MemoryStorage,
    post: MemoryStorage,
    name: Seq<char>,
    message: Message,
    r: Result<MessageId, Error>,
)
    requires
        pre.has_queue(name),
        push_message_post(pre, post, name, message, r),
    ensures
        ({
            let qd = pre.queues@[pre.queue_at(name)];
            &&& (qd.queue.config.max_messages > 0 && qd.pending@.len()
                >= qd.queue.config.max_messages) <==> (r matches Err(e) && e matches
            Error::QueueFull(n) && n@ == name)
            &&& qd.queue.config.max_messages == 0 ==> (r matches Ok(id) && id == message.id)
        }),
{
}

} // verus!
