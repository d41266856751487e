use vstd::prelude::*;
use vstd::utf8::decode_utf8;
use vstd::utf8::valid_utf8;

use crate::clock::now_micros;
use crate::ids::MessageId;
use crate::text::str_eq;
use crate::text::utf8_str;

verus! {

/// Status of a message in the queue.
#[derive(Clone, Copy, Debug, PartialEq, Eq, Structural)]
pub enum MessageStatus {
    /// Waiting to be consumed.
    Pending,
    /// Delivered to a consumer, awaiting acknowledgement.
    Delivered,
    /// Acknowledged.
    Acked,
    /// Processing failed for good.
    Failed,
}

impl Default for MessageStatus {
    fn default() -> (r: Self)
        ensures
            r == MessageStatus::Pending,
    {
        MessageStatus::Pending
    }
}

/// Custom attributes of a message: a mapping from names to values, with
/// insertion-order lookup irrelevant (each name occurs at most once when the
/// mapping is built through [`Attributes::insert`]).
#[derive(Debug)]
pub struct Attributes {
    pub pairs: Vec<(String, String)>,
}

impl View for Attributes {
    type V = Seq<(Seq<char>, Seq<char>)>;

    open spec fn view(&self) -> Seq<(Seq<char>, Seq<char>)> {
        Seq::new(self.pairs@.len(), |i: int| (self.pairs@[i].0@, self.pairs@[i].1@))
    }
}

/// The value paired with `key`, searching from the front.
pub open spec fn attrs_lookup(v: Seq<(Seq<char>, Seq<char>)>, key: Seq<char>) -> Option<Seq<char>>
    decreases v.len(),
{
    if v.len() == 0 {
        None
    } else if v[0].0 == key {
        Some(v[0].1)
    } else {
        attrs_lookup(v.drop_first(), key)
    }
}

/// The mapping after binding `key` to `val`: the first pair holding `key` has
/// its value replaced, or a new pair is appended when no pair holds `key`.
pub open spec fn attrs_put(
    v: Seq<(Seq<char>, Seq<char>)>,
    key: Seq<char>,
    val: Seq<char>,
) -> Seq<(Seq<char>, Seq<char>)>
    decreases v.len(),
{
    if v.len() == 0 {
        seq![(key, val)]
    } else if v[0].0 == key {
        seq![(v[0].0, val)] + v.drop_first()
    } else {
        seq![v[0]] + attrs_put(v.drop_first(), key, val)
    }
}

proof fn lemma_attrs_lookup_skip(v: Seq<(Seq<char>, Seq<char>)>, key: Seq<char>, i: int)
    requires
        0 <= i <= v.len(),
        forall|l: int| 0 <= l < i ==> (#[trigger] v[l]).0 != key,
    ensures
        attrs_lookup(v, key) == attrs_lookup(v.skip(i), key),
    decreases i,
{
    if i == 0 {
        assert(v.skip(0) =~= v);
    } else {
        lemma_attrs_lookup_skip(v, key, i - 1);
        assert(v.skip(i - 1)[0] == v[i - 1]);
        assert(v.skip(i - 1).drop_first() =~= v.skip(i));
    }
}

proof fn lemma_attrs_put_skip(v: Seq<(Seq<char>, Seq<char>)>, key: Seq<char>, val: Seq<char>, i: int)
    requires
        0 <= i <= v.len(),
        forall|l: int| 0 <= l < i ==> (#[trigger] v[l]).0 != key,
    ensures
        attrs_put(v, key, val) == v.take(i) + attrs_put(v.skip(i), key, val),
    decreases i,
{
    if i == 0 {
        assert(v.skip(0) =~= v);
        assert(v.take(0) + attrs_put(v, key, val) =~= attrs_put(v, key, val));
    } else {
        lemma_attrs_put_skip(v, key, val, i - 1);
        assert(v.skip(i - 1)[0] == v[i - 1]);
        assert(v.skip(i - 1).drop_first() =~= v.skip(i));
        assert(attrs_put(v.skip(i - 1), key, val) == seq![v[i - 1]] + attrs_put(v.skip(i), key, val));
        assert(v.take(i - 1) + (seq![v[i - 1]] + attrs_put(v.skip(i), key, val)) =~= v.take(i)
            + attrs_put(v.skip(i), key, val));
    }
}

impl Attributes {
    /// An empty mapping.
    pub fn new() -> (r: Self)
        ensures
            r@ =~= Seq::<(Seq<char>, Seq<char>)>::empty(),
    {
        Attributes { pairs: Vec::new() }
    }

    /// How many pairs the mapping holds.
    pub fn len(&self) -> (r: usize)
        ensures
            r == self@.len(),
    {
        self.pairs.len()
    }

    /// The value bound to `key`, if any.
    pub fn get(&self, key: &str) -> (r: Option<&String>)
        ensures
            match attrs_lookup(self@, key@) {
                Some(v) => r matches Some(s) && s@ == v,
                None => r is None,
            },
    {
        let mut i: usize = 0;
        while i < self.pairs.len()
            invariant
                0 <= i <= self.pairs@.len(),
                forall|l: int| 0 <= l < i ==> (#[trigger] self@[l]).0 != key@,
            decreases self.pairs@.len() - i,
        {
            if str_eq(self.pairs[i].0.as_str(), key) {
                proof {
                    lemma_attrs_lookup_skip(self@, key@, i as int);
                    assert(self@.skip(i as int)[0] == self@[i as int]);
                }
                return Some(&self.pairs[i].1);
            }
            i += 1;
        }
        proof {
            lemma_attrs_lookup_skip(self@, key@, i as int);
            assert(self@.skip(i as int).len() == 0);
        }
        None
    }

    /// Bind `key` to `value`, replacing the value of an existing pair.
    pub fn insert(&mut self, key: &str, value: String)
        ensures
            final(self)@ == attrs_put(old(self)@, key@, value@),
    {
        let mut i: usize = 0;
        while i < self.pairs.len()
            invariant
                0 <= i <= self.pairs@.len(),
                forall|l: int| 0 <= l < i ==> (#[trigger] self@[l]).0 != key@,
                self == old(self),
            decreases self.pairs@.len() - i,
        {
            if str_eq(self.pairs[i].0.as_str(), key) {
                proof {
                    lemma_attrs_put_skip(self@, key@, value@, i as int);
                    assert(self@.skip(i as int)[0] == self@[i as int]);
                }
                let ghost pre = self@;
                let (k0, _) = self.pairs.remove(i);
                self.pairs.insert(i, (k0, value));
                proof {
                    assert(self@ =~= pre.update(i as int, (pre[i as int].0, value@)));
                    assert(pre.take(i as int) + (seq![(pre[i as int].0, value@)] + pre.skip(
                        i as int,
                    ).drop_first()) =~= pre.update(i as int, (pre[i as int].0, value@)));
                }
                return ;
            }
            i += 1;
        }
        proof {
            lemma_attrs_put_skip(self@, key@, value@, i as int);
            assert(self@.skip(i as int).len() == 0);
        }
        let ghost pre = self@;
        self.pairs.push((key.to_owned(), value));
        proof {
            assert(self@ =~= pre.push((key@, value@)));
            assert(pre.take(pre.len() as int) + seq![(key@, value@)] =~= pre.push((key@, value@)));
        }
    }
}

impl Clone for Attributes {
    fn clone(&self) -> (r: Self)
        ensures
            r@ == self@,
    {
        let mut pairs: Vec<(String, String)> = Vec::new();
        let mut i: usize = 0;
        while i < self.pairs.len()
            invariant
                0 <= i <= self.pairs@.len(),
                pairs@.len() == i,
                forall|l: int| 0 <= l < i ==> pairs@[l] == self.pairs@[l],
            decreases self.pairs@.len() - i,
        {
            pairs.push((self.pairs[i].0.clone(), self.pairs[i].1.clone()));
            i += 1;
        }
        let r = Attributes { pairs };
        proof {
            assert(r@ =~= self@);
        }
        r
    }
}

/// The default priority of a freshly built message.
pub fn default_priority() -> (r: u8)
    ensures
        r == 5,
{
    5
}

/// A message held by a queue: an immutable payload plus mutable lifecycle
/// fields (status and delivery count). Timestamps are microseconds since the
/// Unix epoch.
#[derive(Debug)]
pub struct Message {
    /// Unique message identifier.
    pub id: MessageId,
    /// Message body, raw bytes.
    pub body: Vec<u8>,
    /// Content type, e.g. `application/json`.
    pub content_type: Option<String>,
    /// Custom attributes.
    pub attributes: Attributes,
    /// Priority, clamped to 1 through 10; stored, never used for ordering.
    pub priority: u8,
    /// Current lifecycle status.
    pub status: MessageStatus,
    /// How many times the message has been delivered.
    pub delivery_count: u32,
    /// When the message was created.
    pub created_at: i64,
    /// When the message expires, if ever.
    pub expires_at: Option<i64>,
    /// Deduplication identifier.
    pub dedup_id: Option<String>,
}

/// Field-wise equality of two messages, up to the views of their byte and
/// text contents.
pub open spec fn msg_eqv(a: Message, b: Message) -> bool {
    &&& a.id == b.id
    &&& a.body@ == b.body@
    &&& a.content_type == b.content_type
    &&& a.attributes@ == b.attributes@
    &&& a.priority == b.priority
    &&& a.status == b.status
    &&& a.delivery_count == b.delivery_count
    &&& a.created_at == b.created_at
    &&& a.expires_at == b.expires_at
    &&& a.dedup_id == b.dedup_id
}

/// Whether `m` counts as expired at time `now`: an expiry is set and lies
/// strictly in the past.
pub open spec fn spec_expired(m: Message, now: i64) -> bool {
    match m.expires_at {
        Some(e) => e < now,
        None => false,
    }
}

/// `p` clamped to the range 1 through 10.
pub open spec fn clamp_priority(p: u8) -> u8 {
    if p < 1 {
        1
    } else if p > 10 {
        10
    } else {
        p
    }
}

fn clone_bytes(v: &Vec<u8>) -> (r: Vec<u8>)
    ensures
        r@ == v@,
{
    let mut r: Vec<u8> = Vec::new();
    let mut i: usize = 0;
    while i < v.len()
        invariant
            0 <= i <= v@.len(),
            r@ =~= v@.take(i as int),
        decreases v@.len() - i,
    {
        r.push(v[i]);
        proof {
            assert(v@.take(i + 1) =~= v@.take(i as int).push(v@[i as int]));
        }
        i += 1;
    }
    proof {
        assert(v@.take(v@.len() as int) =~= v@);
    }
    r
}

pub(crate) fn clone_opt_string(v: &Option<String>) -> (r: Option<String>)
    ensures
        r == *v,
{
    match v {
        Some(s) => Some(s.clone()),
        None => None,
    }
}

impl Message {
    /// A fresh message holding `body`, in status `Pending`, with a random
    /// identifier, the creation time taken from the wall clock, default
    /// priority and no expiry.
    pub fn new(body: Vec<u8>) -> (r: Message)
        ensures
            r.body == body,
            r.content_type is None,
            r.attributes@.len() == 0,
            r.priority == 5,
            r.status == MessageStatus::Pending,
            r.delivery_count == 0,
            r.expires_at is None,
            r.dedup_id is None,
    {
        Message {
            id: MessageId::new(),
            body,
            content_type: None,
            attributes: Attributes::new(),
            priority: default_priority(),
            status: MessageStatus::Pending,
            delivery_count: 0,
            created_at: now_micros(),
            expires_at: None,
            dedup_id: None,
        }
    }

    /// The same message with its content type set.
    pub fn with_content_type(self, content_type: &str) -> (r: Message)
        ensures
            r.content_type matches Some(s) && s@ == content_type@,
            (Message { content_type: r.content_type, ..self }) == r,
    {
        Message { content_type: Some(content_type.to_owned()), ..self }
    }

    /// The same message with its priority set, clamped to 1 through 10.
    pub fn with_priority(self, priority: u8) -> (r: Message)
        ensures
            r == (Message { priority: clamp_priority(priority), ..self }),
    {
        let p: u8 = if priority < 1 {
            1
        } else if priority > 10 {
            10
        } else {
            priority
        };
        Message { priority: p, ..self }
    }

    /// The same message with one attribute bound.
    pub fn with_attribute(self, key: &str, value: &str) -> (r: Message)
        ensures
            r.attributes@ == attrs_put(self.attributes@, key@, value@),
            (Message { attributes: r.attributes, ..self }) == r,
    {
        let mut m = self;
        m.attributes.insert(key, value.to_owned());
        m
    }

    /// The same message with its expiry set.
    pub fn with_expiry(self, expires_at: i64) -> (r: Message)
        ensures
            r == (Message { expires_at: Some(expires_at), ..self }),
    {
        Message { expires_at: Some(expires_at), ..self }
    }

    /// The same message with its deduplication identifier set.
    pub fn with_dedup_id(self, dedup_id: &str) -> (r: Message)
        ensures
            r.dedup_id matches Some(s) && s@ == dedup_id@,
            (Message { dedup_id: r.dedup_id, ..self }) == r,
    {
        Message { dedup_id: Some(dedup_id.to_owned()), ..self }
    }

    /// Whether the message counts as expired at time `now`.
    pub fn is_expired_at(&self, now: i64) -> (r: bool)
        ensures
            r == spec_expired(*self, now),
    {
        match self.expires_at {
            Some(e) => e < now,
            None => false,
        }
    }

    /// Whether the message has expired, judged against the wall clock.
    pub fn is_expired(&self) -> (r: bool)
        ensures
            self.expires_at is None ==> !r,
            exists|now: i64| r == spec_expired(*self, now),
    {
        let now = now_micros();
        let r = self.is_expired_at(now);
        proof {
            assert(r == spec_expired(*self, now));
        }
        r
    }

    /// The body as a string slice, when it is valid UTF-8.
    pub fn body_as_str(&self) -> (r: Option<&str>)
        ensures
            r is Some <==> valid_utf8(self.body@),
            r matches Some(s) ==> s@ == decode_utf8(self.body@),
    {
        utf8_str(self.body.as_slice())
    }
}

impl Clone for Message {
    fn clone(&self) -> (r: Self)
        ensures
            msg_eqv(*self, r),
    {
        Message {
            id: self.id,
            body: clone_bytes(&self.body),
            content_type: clone_opt_string(&self.content_type),
            attributes: self.attributes.clone(),
            priority: self.priority,
            status: self.status,
            delivery_count: self.delivery_count,
            created_at: self.created_at,
            expires_at: self.expires_at,
            dedup_id: clone_opt_string(&self.dedup_id),
        }
    }
}

} // verus!
