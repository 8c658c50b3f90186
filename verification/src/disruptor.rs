//! A sequence-numbered ring buffer with one producer and any number of
//! consumers, after the LMAX disruptor.
//!
//! Every slot carries the sequence number that was last published into it.
//! A consumer reads sequence `n` only once the slot of `n` carries `n`; the
//! producer publishes sequence `s` only once every consumer's cursor has
//! reached the wrap point `s - (capacity - 1)`.
use vstd::prelude::*;
use vstd::arithmetic::power2::pow2;
use vstd::bits::{lemma_u64_low_bits_mask_is_mod, low_bits_mask};
use vstd::wrapping::u64_specs;
use vstd::wrapping::i64_specs;
use vstd::arithmetic::div_mod::{lemma_mod_equivalence, lemma_small_mod, lemma_mod_sub_multiples_vanish};
use vstd::arithmetic::power2::lemma_pow2_pos;

verus! {

/// One cell of the ring: the sequence number last published into it, and
/// the value stored with it.
pub struct Slot<T> {
    sequence: u64,
    value: T,
}

/// A fixed number of slots addressed by sequence number through a mask.
pub struct RingBuffer<T> {
    slots: Vec<Slot<T>>,
    capacity: usize,
    mask: usize,
}

/// What a ring buffer holds: its capacity, and per slot the sequence number
/// and the value.
pub struct RingView<T> {
    pub capacity: nat,
    pub sequences: Seq<u64>,
    pub values: Seq<T>,
}

/// The slot that sequence number `seq` is stored in: `seq & (capacity - 1)`.
pub open spec fn slot_index(seq: u64, capacity: nat) -> int {
    (seq & ((capacity - 1) as u64)) as int
}

/// The sequence number that slot `i` carries before anything is published:
/// `i - capacity`, wrapped into `u64`.
pub open spec fn initial_sequence(i: int, capacity: nat) -> u64 {
    u64_specs::wrapping_sub(i as u64, capacity as u64)
}

/// A cursor value read as a signed number, as the producer compares it.
pub open spec fn signed(x: u64) -> i64 {
    x as i64
}

/// The oldest cursor position that still lets sequence `seq` be written:
/// `seq - (capacity - 1)` in wrapping signed arithmetic.
pub open spec fn wrap_point(seq: u64, capacity: nat) -> i64 {
    i64_specs::wrapping_sub(seq as i64, (capacity - 1) as i64)
}

impl<T> View for RingBuffer<T> {
    type V = RingView<T>;

    closed spec fn view(&self) -> RingView<T> {
        RingView {
            capacity: self.capacity as nat,
            sequences: self.slots@.map_values(|s: Slot<T>| s.sequence),
            values: self.slots@.map_values(|s: Slot<T>| s.value),
        }
    }
}

impl<T> RingBuffer<T> {
    /// The ring's fields agree: one slot per unit of capacity, and the mask is
    /// `capacity - 1`.
    pub closed spec fn wf(&self) -> bool {
        &&& self.slots.len() == self.capacity
        &&& 1 <= self.capacity <= i64::MAX
        &&& self.mask == self.capacity - 1
    }

    /// Facts that every well-formed ring satisfies, stated over its view.
    pub proof fn lemma_wf(&self)
        requires
            self.wf(),
        ensures
            self@.sequences.len() == self@.capacity,
            self@.values.len() == self@.capacity,
            1 <= self@.capacity <= i64::MAX,
    {
    }

    fn index_of(&self, seq: u64) -> (idx: usize)
        requires
            self.wf(),
        ensures
            idx == slot_index(seq, self@.capacity),
            idx < self@.capacity,
    {
        let m = self.mask as u64;
        assert(seq & m <= m) by (bit_vector);
        (seq & m) as usize
    }
}

impl<T: Default + Copy> RingBuffer<T> {
    /// A ring of `capacity` slots; slot `i` starts with sequence number
    /// `i - capacity` (wrapped), so that no sequence number is ready yet, and
    /// holds a value that a call of `T::default()` returned, one call per slot.
    ///
    /// A ring of more than `i64::MAX` slots cannot be allocated.
    pub fn new(capacity: usize) -> (r: Self)
        requires
            1 <= capacity <= i64::MAX,
        ensures
            r.wf(),
            r@.capacity == capacity,
            r@.sequences.len() == capacity,
            forall|i: int| 0 <= i < capacity ==> #[trigger] r@.sequences[i] == initial_sequence(i, capacity as nat),
            forall|i: int| 0 <= i < capacity ==> call_ensures(T::default, (), #[trigger] r@.values[i]),
    {
        let mut slots: Vec<Slot<T>> = Vec::new();
        let mut i: usize = 0;
        while i < capacity
            invariant
                i <= capacity,
                slots.len() == i,
                forall|j: int| 0 <= j < i ==> #[trigger] slots@[j].sequence == initial_sequence(j, capacity as nat),
                forall|j: int| 0 <= j < i ==> call_ensures(T::default, (), #[trigger] slots@[j].value),
            decreases capacity - i,
        {
            let value = T::default();
            slots.push(Slot { sequence: (i as u64).wrapping_sub(capacity as u64), value });
            i = i + 1;
        }
        RingBuffer { slots, capacity, mask: capacity - 1 }
    }
}

impl<T: Copy> RingBuffer<T> {
    /// The number of slots.
    pub fn capacity(&self) -> (r: usize)
        requires
            self.wf(),
        ensures
            r == self@.capacity,
    {
        self.capacity
    }

    /// The sequence number held by the slot that `seq` maps to.
    pub fn slot_sequence(&self, seq: u64) -> (r: u64)
        requires
            self.wf(),
        ensures
            r == self@.sequences[slot_index(seq, self@.capacity)],
    {
        let idx = self.index_of(seq);
        self.slots[idx].sequence
    }

    /// Stores `value` in the slot that `seq` maps to; the slot's sequence
    /// number is left as it was.
    pub fn write(&mut self, seq: u64, value: T)
        requires
            old(self).wf(),
        ensures
            final(self).wf(),
            final(self)@.capacity == old(self)@.capacity,
            final(self)@.sequences == old(self)@.sequences,
            final(self)@.values == old(self)@.values.update(slot_index(seq, old(self)@.capacity), value),
    {
        let idx = self.index_of(seq);
        let sequence = self.slots[idx].sequence;
        self.slots.set(idx, Slot { sequence, value });
        assert(self@.sequences =~= old(self)@.sequences);
        assert(self@.values =~= old(self)@.values.update(idx as int, value));
    }

    /// The value stored in the slot that `seq` maps to.
    pub fn read(&self, seq: u64) -> (r: T)
        requires
            self.wf(),
        ensures
            r == self@.values[slot_index(seq, self@.capacity)],
    {
        let idx = self.index_of(seq);
        self.slots[idx].value
    }

    /// Marks the slot that `seq` maps to as holding sequence number `seq`.
    fn mark_published(&mut self, seq: u64)
        requires
            old(self).wf(),
        ensures
            final(self).wf(),
            final(self)@.capacity == old(self)@.capacity,
            final(self)@.values == old(self)@.values,
            final(self)@.sequences == old(self)@.sequences.update(slot_index(seq, old(self)@.capacity), seq),
    {
        let idx = self.index_of(seq);
        let value = self.slots[idx].value;
        self.slots.set(idx, Slot { sequence: seq, value });
        assert(self@.values =~= old(self)@.values);
        assert(self@.sequences =~= old(self)@.sequences.update(idx as int, seq));
    }
}

/// A consumer's progress marker: the last sequence number it has consumed,
/// or `u64::MAX` before the first.
pub struct PaddedCursor {
    pub value: u64,
}

impl PaddedCursor {
    /// A cursor at position `initial`.
    pub fn new(initial: u64) -> (r: Self)
        ensures
            r.value == initial,
    {
        PaddedCursor { value: initial }
    }
}

/// The publishing side. It owns the ring and the cursors of all consumers,
/// and publishes sequence numbers 0, 1, 2, ... in turn.
pub struct Producer<T> {
    ring: RingBuffer<T>,
    next_seq: u64,
    consumer_cursors: Vec<PaddedCursor>,
}

/// What a producer holds: the ring, the next sequence number to publish,
/// and the consumers' cursor values.
pub struct ProducerView<T> {
    pub ring: RingView<T>,
    pub next_seq: u64,
    pub cursors: Seq<u64>,
}

impl<T> View for Producer<T> {
    type V = ProducerView<T>;

    closed spec fn view(&self) -> ProducerView<T> {
        ProducerView {
            ring: self.ring@,
            next_seq: self.next_seq,
            cursors: self.consumer_cursors@.map_values(|c: PaddedCursor| c.value),
        }
    }
}

/// The producer may publish its next sequence number: every consumer cursor,
/// read as a signed number, is at or past the wrap point.
pub open spec fn may_publish<T>(p: ProducerView<T>) -> bool {
    forall|c: int| 0 <= c < p.cursors.len() ==>
        #[trigger] signed(p.cursors[c]) >= wrap_point(p.next_seq, p.ring.capacity)
}

/// The producer after publishing `value` under its next sequence number: the
/// slot of that number holds the number and the value, and the next
/// sequence number advances by one (wrapping).
pub open spec fn after_publish<T>(p: ProducerView<T>, value: T) -> ProducerView<T> {
    let idx = slot_index(p.next_seq, p.ring.capacity);
    ProducerView {
        ring: RingView {
            capacity: p.ring.capacity,
            sequences: p.ring.sequences.update(idx, p.next_seq),
            values: p.ring.values.update(idx, value),
        },
        next_seq: u64_specs::wrapping_add(p.next_seq, 1),
        cursors: p.cursors,
    }
}

impl<T> Producer<T> {
    /// The producer's ring is well formed.
    pub closed spec fn wf(&self) -> bool {
        self.ring.wf()
    }

    /// Facts that every well-formed producer satisfies, stated over its view.
    pub proof fn lemma_wf(&self)
        requires
            self.wf(),
        ensures
            self@.ring.sequences.len() == self@.ring.capacity,
            self@.ring.values.len() == self@.ring.capacity,
            1 <= self@.ring.capacity <= i64::MAX,
    {
        self.ring.lemma_wf();
    }
}

impl<T: Copy> Producer<T> {
    /// A producer that starts at sequence number 0 over `ring`, watching the
    /// given consumer cursors.
    pub fn new(ring: RingBuffer<T>, consumer_cursors: Vec<PaddedCursor>) -> (r: Self)
        requires
            ring.wf(),
        ensures
            r.wf(),
            r@.ring == ring@,
            r@.next_seq == 0,
            r@.cursors == consumer_cursors@.map_values(|c: PaddedCursor| c.value),
    {
        Producer { ring, next_seq: 0, consumer_cursors }
    }

    /// The next sequence number this producer will publish.
    pub fn next_sequence(&self) -> (r: u64)
        ensures
            r == self@.next_seq,
    {
        self.next_seq
    }

    /// The number of slots of the ring.
    pub fn capacity(&self) -> (r: usize)
        requires
            self.wf(),
        ensures
            r == self@.ring.capacity,
    {
        self.ring.capacity()
    }

    /// The number of consumer cursors the producer watches.
    pub fn consumer_count(&self) -> (r: usize)
        ensures
            r == self@.cursors.len(),
    {
        self.consumer_cursors.len()
    }

    /// Publishes `value` under the next sequence number if no consumer would
    /// be overrun, and reports whether it did; otherwise nothing changes and
    /// the caller may retry once the consumers have moved on.
    pub fn publish(&mut self, value: T) -> (published: bool)
        requires
            old(self).wf(),
        ensures
            final(self).wf(),
            published == may_publish(old(self)@),
            published ==> final(self)@ == after_publish(old(self)@, value),
            !published ==> final(self)@ == old(self)@,
    {
        let seq = self.next_seq;
        proof {
            self.ring.lemma_wf();
        }
        let wrap = (seq as i64).wrapping_sub(self.ring.capacity() as i64 - 1);
        let n = self.consumer_cursors.len();
        let mut c: usize = 0;
        while c < n
            invariant
                self.wf(),
                n == self.consumer_cursors.len(),
                c <= n,
                wrap == wrap_point(self@.next_seq, self@.ring.capacity),
                forall|d: int| 0 <= d < c ==> #[trigger] signed(self@.cursors[d]) >= wrap,
            decreases n - c,
        {
            let v = self.consumer_cursors[c].value as i64;
            if v < wrap {
                assert(signed(self@.cursors[c as int]) < wrap);
                return false;
            }
            c = c + 1;
        }
        self.ring.write(seq, value);
        self.ring.mark_published(seq);
        self.next_seq = seq.wrapping_add(1);
        proof {
            assert(self@.cursors =~= old(self)@.cursors);
            assert(self@.ring.values =~= after_publish(old(self)@, value).ring.values);
            assert(self@.ring.sequences =~= after_publish(old(self)@, value).ring.sequences);
        }
        true
    }
}

/// The consuming side: which cursor it advances, and the next sequence
/// number it will read.
pub struct Consumer<T> {
    cursor: usize,
    next: u64,
    marker: core::marker::PhantomData<T>,
}

/// What a consumer holds: the index of its cursor among the producer's
/// cursors, and the next sequence number it will read.
pub struct ConsumerView {
    pub cursor: nat,
    pub next: u64,
}

impl<T> View for Consumer<T> {
    type V = ConsumerView;

    closed spec fn view(&self) -> ConsumerView {
        ConsumerView { cursor: self.cursor as nat, next: self.next }
    }
}

/// The consumer's next sequence number has been published into its slot.
pub open spec fn is_ready<T>(c: ConsumerView, p: ProducerView<T>) -> bool {
    p.ring.sequences[slot_index(c.next, p.ring.capacity)] == c.next
}

/// What one call of `Consumer::consume` does, from consumer `c` and
/// producer `p` to `c2`, `p2` and the result `r`: if the next sequence
/// number is ready, its value is returned, the consumer's cursor moves onto
/// it and the consumer moves on by one (wrapping); otherwise `None` comes
/// back and nothing changes.
pub open spec fn consume_post<T>(
    c: ConsumerView,
    p: ProducerView<T>,
    c2: ConsumerView,
    p2: ProducerView<T>,
    r: Option<T>,
) -> bool {
    if is_ready(c, p) {
        &&& r == Some(p.ring.values[slot_index(c.next, p.ring.capacity)])
        &&& p2 == (ProducerView { cursors: p.cursors.update(c.cursor as int, c.next), ..p })
        &&& c2 == (ConsumerView { cursor: c.cursor, next: u64_specs::wrapping_add(c.next, 1) })
    } else {
        &&& r is None
        &&& p2 == p
        &&& c2 == c
    }
}

impl<T: Copy> Consumer<T> {
    /// A consumer that advances cursor number `cursor` and starts reading at
    /// sequence number 0.
    pub fn new(cursor: usize) -> (r: Self)
        ensures
            r@ == (ConsumerView { cursor: cursor as nat, next: 0 }),
    {
        Consumer { cursor, next: 0, marker: core::marker::PhantomData }
    }

    /// The index of the cursor this consumer advances.
    pub fn cursor_index(&self) -> (r: usize)
        ensures
            r == self@.cursor,
    {
        self.cursor
    }

    /// The next sequence number this consumer will read.
    pub fn next_sequence(&self) -> (r: u64)
        ensures
            r == self@.next,
    {
        self.next
    }

    /// Reads the next sequence number if it has been published: returns its
    /// value, moves this consumer's cursor onto it, and moves on to the
    /// following number. Otherwise returns `None` and changes nothing.
    pub fn consume(&mut self, producer: &mut Producer<T>) -> (r: Option<T>)
        requires
            old(producer).wf(),
            old(self)@.cursor < old(producer)@.cursors.len(),
        ensures
            final(producer).wf(),
            consume_post(old(self)@, old(producer)@, final(self)@, final(producer)@, r),
    {
        let n = self.next;
        if producer.ring.slot_sequence(n) != n {
            return None;
        }
        let value = producer.ring.read(n);
        producer.consumer_cursors.set(self.cursor, PaddedCursor { value: n });
        self.next = n.wrapping_add(1);
        proof {
            assert(producer@.cursors =~= old(producer)@.cursors.update(old(self)@.cursor as int, n));
        }
        Some(value)
    }
}

/// A ring of `capacity` slots with a producer and `num_consumers` consumers;
/// consumer `i` advances cursor `i`, and every cursor starts at `u64::MAX`
/// (nothing consumed). Each slot holds a value that a call of `T::default()`
/// returned. The producer owns the ring and the cursors.
pub fn build<T: Default + Copy>(capacity: usize, num_consumers: usize) -> (r: (Producer<T>, Vec<Consumer<T>>))
    requires
        1 <= capacity <= i64::MAX,
    ensures
        r.0.wf(),
        r.0@.ring.capacity == capacity,
        forall|i: int| 0 <= i < capacity ==> #[trigger] r.0@.ring.sequences[i] == initial_sequence(i, capacity as nat),
        forall|i: int| 0 <= i < capacity ==> call_ensures(T::default, (), #[trigger] r.0@.ring.values[i]),
        r.0@.next_seq == 0,
        r.0@.cursors.len() == num_consumers,
        forall|i: int| 0 <= i < num_consumers ==> #[trigger] r.0@.cursors[i] == u64::MAX,
        r.1.len() == num_consumers,
        forall|i: int| 0 <= i < num_consumers ==> #[trigger] r.1@[i]@ == (ConsumerView { cursor: i as nat, next: 0 }),
        is_power_of_two(capacity as nat) ==> protocol_inv(r.0@, r.1@.map_values(|c: Consumer<T>| c@), Seq::<T>::empty()),
{
    let ring: RingBuffer<T> = RingBuffer::new(capacity);
    let mut cursors: Vec<PaddedCursor> = Vec::new();
    let mut consumers: Vec<Consumer<T>> = Vec::new();
    let mut i: usize = 0;
    while i < num_consumers
        invariant
            i <= num_consumers,
            cursors.len() == i,
            consumers.len() == i,
            forall|j: int| 0 <= j < i ==> #[trigger] cursors@[j].value == u64::MAX,
            forall|j: int| 0 <= j < i ==> #[trigger] consumers@[j]@ == (ConsumerView { cursor: j as nat, next: 0 }),
        decreases num_consumers - i,
    {
        cursors.push(PaddedCursor::new(u64::MAX));
        consumers.push(Consumer::new(i));
        i = i + 1;
    }
    let producer = Producer::new(ring, cursors);
    proof {
        producer.lemma_wf();
        let cs = consumers@.map_values(|c: Consumer<T>| c@);
        assert forall|c: int| 0 <= c < cs.len() implies {
            &&& (#[trigger] cs[c]).cursor == c
            &&& cs[c].next <= 0
            &&& 0 - cs[c].next < capacity
            &&& producer@.cursors[c] == cursor_for(cs[c].next)
        } by {
            assert(consumers@[c]@ == (ConsumerView { cursor: c as nat, next: 0 }));
        }
    }
    (producer, consumers)
}

/// The position of sequence number `s` in a ring of `capacity` slots, read
/// as plain arithmetic: `s` modulo the capacity.
pub open spec fn ring_pos(s: int, capacity: nat) -> int {
    s % (capacity as int)
}

/// `n` is a power of two that fits in 64 bits.
pub open spec fn is_power_of_two(n: nat) -> bool {
    exists|k: nat| k < 64 && n == pow2(k)
}

/// The cursor value of a consumer whose next sequence number is `next`:
/// the last number it consumed, `u64::MAX` before the first.
pub open spec fn cursor_for(next: u64) -> u64 {
    u64_specs::wrapping_sub(next, 1)
}

/// The state of a producer `p` and its consumers `cs` after the values of
/// `history` were published, in order, under sequence numbers 0, 1, ...:
/// - the capacity is a power of two and the sequence numbers are below
///   `i64::MAX`;
/// - consumer `c` advances cursor `c`, has read the first `cs[c].next`
///   values, is less than a full ring behind, and its cursor marks the last
///   value it read;
/// - every value not yet overwritten sits in the slot of its sequence number,
///   with that number; slots never written hold their initial number.
pub open spec fn protocol_inv<T>(p: ProducerView<T>, cs: Seq<ConsumerView>, history: Seq<T>) -> bool {
    let cap = p.ring.capacity as int;
    let next = history.len() as int;
    &&& is_power_of_two(p.ring.capacity)
    &&& 1 <= p.ring.capacity <= i64::MAX
    &&& p.ring.sequences.len() == cap
    &&& p.ring.values.len() == cap
    &&& p.next_seq == next
    &&& next < i64::MAX
    &&& p.cursors.len() == cs.len()
    &&& forall|c: int| 0 <= c < cs.len() ==> {
        &&& (#[trigger] cs[c]).cursor == c
        &&& cs[c].next <= next
        &&& next - cs[c].next < cap
        &&& p.cursors[c] == cursor_for(cs[c].next)
    }
    &&& forall|s: int| 0 <= s < next && next - cap <= s ==>
        #[trigger] p.ring.sequences[ring_pos(s, p.ring.capacity)] == s
    &&& forall|s: int| 0 <= s < next && next - cap <= s ==>
        p.ring.values[ring_pos(s, p.ring.capacity)] == #[trigger] history[s]
    &&& forall|i: int| next <= i < cap ==> #[trigger] p.ring.sequences[i] == initial_sequence(i, p.ring.capacity)
}

/// With a power-of-two capacity, the slot of a sequence number is that
/// number modulo the capacity.
proof fn lemma_slot_index_is_mod(seq: u64, cap: nat)
    requires
        is_power_of_two(cap),
        cap <= i64::MAX,
    ensures
        slot_index(seq, cap) == seq as int % cap as int,
{
    let k = choose|k: nat| k < 64 && cap == pow2(k);
    lemma_pow2_pos(k);
    lemma_u64_low_bits_mask_is_mod(seq, k);
    assert(low_bits_mask(k) == cap - 1);
    assert(pow2(k) as u64 == cap);
    assert((seq & ((cap - 1) as u64)) == seq % (cap as u64));
}

/// Two numbers less than `cap` apart, but not equal, fall in different slots.
proof fn lemma_distinct_residues(s: int, n: int, cap: int)
    requires
        0 < cap,
        0 < n - s < cap,
    ensures
        s % cap != n % cap,
{
    lemma_mod_equivalence(n, s, cap);
    lemma_small_mod((n - s) as nat, cap as nat);
}

/// Publishing keeps the protocol invariant and overruns no consumer: the
/// producer publishes exactly when every consumer is fewer than
/// `capacity - 1` values behind, and then the value joins the history;
/// otherwise nothing changes.
pub proof fn lemma_publish_keeps_order<T>(
    p: ProducerView<T>,
    p2: ProducerView<T>,
    cs: Seq<ConsumerView>,
    history: Seq<T>,
    value: T,
    published: bool,
)
    requires
        protocol_inv(p, cs, history),
        history.len() + 1 < i64::MAX,
        published == may_publish(p),
        published ==> p2 == after_publish(p, value),
        !published ==> p2 == p,
    ensures
        published <==> forall|c: int| 0 <= c < cs.len() ==> history.len() - (#[trigger] cs[c]).next < p.ring.capacity - 1,
        published ==> protocol_inv(p2, cs, history.push(value)),
        !published ==> protocol_inv(p2, cs, history),
{
    let cap = p.ring.capacity as int;
    let n = history.len() as int;
    assert((p.next_seq as i64) == n);
    assert(wrap_point(p.next_seq, p.ring.capacity) == n - cap + 1);
    assert forall|c: int| 0 <= c < cs.len() implies
        (signed(#[trigger] p.cursors[c]) >= wrap_point(p.next_seq, p.ring.capacity) <==> n - cs[c].next < cap - 1) by {
        let m = cs[c].next;
        assert(cs[c].cursor == c);
        if m == 0 {
            assert(p.cursors[c] == u64::MAX);
            assert(0xffff_ffff_ffff_ffffu64 as i64 == -1i64) by (bit_vector);
        } else {
            assert(p.cursors[c] == m - 1);
        }
    }
    if published {
        let h2 = history.push(value);
        let idx = slot_index(p.next_seq, p.ring.capacity);
        lemma_slot_index_is_mod(p.next_seq, p.ring.capacity);
        assert(idx == n % cap);
        assert forall|c: int| 0 <= c < cs.len() implies {
            &&& (#[trigger] cs[c]).cursor == c
            &&& cs[c].next <= h2.len()
            &&& h2.len() - cs[c].next < cap
            &&& p2.cursors[c] == cursor_for(cs[c].next)
        } by {
            assert(signed(p.cursors[c]) >= wrap_point(p.next_seq, p.ring.capacity));
        }
        assert forall|s: int| 0 <= s < h2.len() && h2.len() - cap <= s implies
            #[trigger] p2.ring.sequences[ring_pos(s, p2.ring.capacity)] == s by {
            if s < n {
                lemma_distinct_residues(s, n, cap);
                assert(p.ring.sequences[ring_pos(s, p.ring.capacity)] == s);
            }
        }
        assert forall|s: int| 0 <= s < h2.len() && h2.len() - cap <= s implies
            p2.ring.values[ring_pos(s, p2.ring.capacity)] == #[trigger] h2[s] by {
            if s < n {
                lemma_distinct_residues(s, n, cap);
                assert(history[s] == h2[s]);
            }
        }
        assert forall|i: int| h2.len() <= i < cap implies #[trigger] p2.ring.sequences[i] == initial_sequence(i, p2.ring.capacity) by {
            lemma_small_mod(n as nat, cap as nat);
            assert(p.ring.sequences[i] == initial_sequence(i, p.ring.capacity));
        }
    }
}

/// Consuming: a consumer gets exactly the value published under its next
/// sequence number if there is one, `None` if it has read everything
/// published; every consumer thus reads the history in order, without loss
/// or repetition.
pub proof fn lemma_consume_reads_in_order<T>(
    p: ProducerView<T>,
    p2: ProducerView<T>,
    cs: Seq<ConsumerView>,
    i: int,
    c2: ConsumerView,
    history: Seq<T>,
    r: Option<T>,
)
    requires
        protocol_inv(p, cs, history),
        0 <= i < cs.len(),
        consume_post(cs[i], p, c2, p2, r),
    ensures
        r == (if cs[i].next < history.len() { Some(history[cs[i].next as int]) } else { None::<T> }),
        protocol_inv(p2, cs.update(i, c2), history),
{
    let cap = p.ring.capacity as int;
    let n = history.len() as int;
    let m = cs[i].next as int;
    assert(cs[i].cursor == i);
    lemma_slot_index_is_mod(cs[i].next, p.ring.capacity);
    if m < n {
        assert(p.ring.sequences[ring_pos(m, p.ring.capacity)] == m);
        assert(p.ring.values[ring_pos(m, p.ring.capacity)] == history[m]);
    } else if n >= cap {
        // The slot of `m` still holds the number published a full ring earlier.
        lemma_mod_sub_multiples_vanish(m, cap);
        assert(p.ring.sequences[ring_pos(m - cap, p.ring.capacity)] == m - cap);
    } else {
        // The slot of `m` was never written.
        lemma_small_mod(m as nat, cap as nat);
        assert(p.ring.sequences[m] == initial_sequence(m, p.ring.capacity));
    }
    let cs2 = cs.update(i, c2);
    assert forall|c: int| 0 <= c < cs2.len() implies {
        &&& (#[trigger] cs2[c]).cursor == c
        &&& cs2[c].next <= n
        &&& n - cs2[c].next < cap
        &&& p2.cursors[c] == cursor_for(cs2[c].next)
    } by {
        if c != i {
            assert(cs2[c] == cs[c]);
        }
    }
    assert forall|j: int| n <= j < cap implies #[trigger] p2.ring.sequences[j] == initial_sequence(j, p2.ring.capacity) by {
        assert(p.ring.sequences[j] == initial_sequence(j, p.ring.capacity));
    }
}

/// One operation on a ring: the producer publishes a value, or consumer
/// number `c` tries to read.
pub enum RingOp<T> {
    Publish(T),
    Consume(nat),
}

/// A ring in use: the producer, the consumers, the values published so far
/// and, per consumer, the values it has received.
pub struct RingRun<T> {
    pub producer: ProducerView<T>,
    pub consumers: Seq<ConsumerView>,
    pub published: Seq<T>,
    pub received: Seq<Seq<T>>,
}

/// One operation, as `Producer::publish` and `Consumer::consume` carry it
/// out: a publish that succeeds adds the value to what was published; a read
/// that finds its number ready hands the consumer the slot's value.
pub open spec fn run_step<T>(s: RingRun<T>, op: RingOp<T>) -> RingRun<T> {
    match op {
        RingOp::Publish(v) => if may_publish(s.producer) {
            RingRun { producer: after_publish(s.producer, v), published: s.published.push(v), ..s }
        } else {
            s
        },
        RingOp::Consume(c) => if c < s.consumers.len() && is_ready(s.consumers[c as int], s.producer) {
            let cv = s.consumers[c as int];
            RingRun {
                producer: ProducerView { cursors: s.producer.cursors.update(cv.cursor as int, cv.next), ..s.producer },
                consumers: s.consumers.update(
                    c as int,
                    ConsumerView { cursor: cv.cursor, next: u64_specs::wrapping_add(cv.next, 1) },
                ),
                published: s.published,
                received: s.received.update(
                    c as int,
                    s.received[c as int].push(s.producer.ring.values[slot_index(cv.next, s.producer.ring.capacity)]),
                ),
            }
        } else {
            s
        },
    }
}

/// The ring after the operations `ops`, in order.
pub open spec fn run_ops<T>(s: RingRun<T>, ops: Seq<RingOp<T>>) -> RingRun<T>
    decreases ops.len(),
{
    if ops.len() == 0 {
        s
    } else {
        run_step(run_ops(s, ops.drop_last()), ops.last())
    }
}

/// Every consumer has received exactly the first values published, as many
/// as it has read.
pub open spec fn received_in_order<T>(s: RingRun<T>) -> bool {
    &&& s.received.len() == s.consumers.len()
    &&& forall|c: int| 0 <= c < s.consumers.len() ==>
        #[trigger] s.received[c] == s.published.take(s.consumers[c].next as int)
}

/// Over any run of publishes and reads, every consumer receives the
/// published values in publication order, each exactly once, and never a
/// value of a slot not yet written or already overwritten: what a consumer
/// has received is always the first values published. A fresh ring (as
/// `build` makes it, with a power-of-two capacity) starts such a run.
pub proof fn lemma_run_delivers_in_order<T>(s0: RingRun<T>, ops: Seq<RingOp<T>>)
    requires
        protocol_inv(s0.producer, s0.consumers, s0.published),
        received_in_order(s0),
        s0.published.len() + ops.len() + 1 < i64::MAX,
    ensures
        protocol_inv(run_ops(s0, ops).producer, run_ops(s0, ops).consumers, run_ops(s0, ops).published),
        received_in_order(run_ops(s0, ops)),
        run_ops(s0, ops).published.len() <= s0.published.len() + ops.len(),
    decreases ops.len(),
{
    if ops.len() > 0 {
        lemma_run_delivers_in_order(s0, ops.drop_last());
        let s = run_ops(s0, ops.drop_last());
        let s2 = run_step(s, ops.last());
        assert(run_ops(s0, ops) == s2);
        match ops.last() {
            RingOp::Publish(v) => {
                let ok = may_publish(s.producer);
                lemma_publish_keeps_order(s.producer, s2.producer, s.consumers, s.published, v, ok);
                if ok {
                    assert forall|c: int| 0 <= c < s2.consumers.len() implies
                        #[trigger] s2.received[c] == s2.published.take(s2.consumers[c].next as int) by {
                        assert(s.received[c] == s.published.take(s.consumers[c].next as int));
                        assert(s.consumers[c].next <= s.published.len());
                        assert(s2.published.take(s.consumers[c].next as int) =~= s.published.take(s.consumers[c].next as int));
                    }
                }
            },
            RingOp::Consume(c) => {
                if c < s.consumers.len() && is_ready(s.consumers[c as int], s.producer) {
                    let i = c as int;
                    let cv = s.consumers[i];
                    let r = Some(s.producer.ring.values[slot_index(cv.next, s.producer.ring.capacity)]);
                    let c2 = s2.consumers[i];
                    assert(consume_post(cv, s.producer, c2, s2.producer, r));
                    lemma_consume_reads_in_order(s.producer, s2.producer, s.consumers, i, c2, s.published, r);
                    assert(s2.consumers == s.consumers.update(i, c2));
                    assert forall|d: int| 0 <= d < s2.consumers.len() implies
                        #[trigger] s2.received[d] == s2.published.take(s2.consumers[d].next as int) by {
                        assert(s.received[d] == s.published.take(s.consumers[d].next as int));
                        if d == i {
                            assert(s.published.take(cv.next as int).push(s.published[cv.next as int])
                                =~= s.published.take(cv.next + 1));
                        }
                    }
                }
            },
        }
    }
}

/// The run that starts on a freshly built ring: nothing published yet and
/// nothing received by any consumer.
pub open spec fn fresh_run<T>(p: ProducerView<T>, cs: Seq<ConsumerView>) -> RingRun<T> {
    RingRun { producer: p, consumers: cs, published: Seq::empty(), received: Seq::new(cs.len(), |c: int| Seq::<T>::empty()) }
}

/// On a ring as `build` makes it, with a power-of-two capacity, and over any
/// run of publishes and reads that follows, consumer `c` has received exactly
/// the first values published, in publication order, as many as it has read:
/// never a value of a slot not yet written nor one already overwritten.
pub proof fn lemma_built_ring_delivers_in_order<T>(p: ProducerView<T>, cs: Seq<ConsumerView>, ops: Seq<RingOp<T>>)
    requires
        is_power_of_two(p.ring.capacity),
        1 <= p.ring.capacity <= i64::MAX,
        p.ring.sequences.len() == p.ring.capacity,
        p.ring.values.len() == p.ring.capacity,
        forall|i: int| 0 <= i < p.ring.capacity ==> #[trigger] p.ring.sequences[i] == initial_sequence(i, p.ring.capacity),
        p.next_seq == 0,
        p.cursors.len() == cs.len(),
        forall|i: int| 0 <= i < cs.len() ==> #[trigger] p.cursors[i] == u64::MAX,
        forall|i: int| 0 <= i < cs.len() ==> #[trigger] cs[i] == (ConsumerView { cursor: i as nat, next: 0 }),
        ops.len() + 1 < i64::MAX,
    ensures
        received_in_order(run_ops(fresh_run(p, cs), ops)),
        protocol_inv(run_ops(fresh_run(p, cs), ops).producer, run_ops(fresh_run(p, cs), ops).consumers, run_ops(fresh_run(p, cs), ops).published),
{
    let s0 = fresh_run(p, cs);
    assert forall|c: int| 0 <= c < cs.len() implies {
        &&& (#[trigger] cs[c]).cursor == c
        &&& cs[c].next <= 0
        &&& 0 - cs[c].next < p.ring.capacity
        &&& p.cursors[c] == cursor_for(cs[c].next)
    } by {
        assert(cs[c] == (ConsumerView { cursor: c as nat, next: 0 }));
    }
    assert(protocol_inv(p, cs, Seq::<T>::empty()));
    assert forall|c: int| 0 <= c < s0.consumers.len() implies
        #[trigger] s0.received[c] == s0.published.take(s0.consumers[c].next as int) by {
        assert(s0.published.take(0) =~= Seq::<T>::empty());
    }
    lemma_run_delivers_in_order(s0, ops);
}

} // verus!
