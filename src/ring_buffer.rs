use vstd::prelude::*;

verus! {

/// The abstract state of a ring buffer: its slots and its two cursors.
pub ghost struct RingModel<T> {
    pub slots: Seq<T>,
    pub read: nat,
    pub write: nat,
}

impl<T> RingModel<T> {
    pub open spec fn capacity(self) -> nat {
        self.slots.len()
    }

    /// At least one slot, and both cursors point at a slot.
    pub open spec fn wf(self) -> bool {
        &&& self.capacity() > 0
        &&& self.read < self.capacity()
        &&& self.write < self.capacity()
    }

    /// The number of occupied slots, `(write - read) mod capacity`.
    pub open spec fn len(self) -> nat {
        if self.write >= self.read {
            (self.write - self.read) as nat
        } else {
            (self.capacity() - self.read + self.write) as nat
        }
    }

    /// The slot index `offset` places after the read cursor.
    pub open spec fn slot_at(self, offset: int) -> int {
        (self.read + offset) % (self.capacity() as int)
    }

    pub open spec fn get(self, offset: int) -> T {
        self.slots[self.slot_at(offset)]
    }

    pub open spec fn peek(self) -> T {
        self.slots[self.read as int]
    }

    pub open spec fn put(self, v: T) -> RingModel<T> {
        RingModel { slots: self.slots.update(self.write as int, v), ..self }
    }

    pub open spec fn push(self, v: T) -> RingModel<T> {
        RingModel {
            slots: self.slots.update(self.write as int, v),
            write: ((self.write + 1) % self.capacity()) as nat,
            ..self
        }
    }

    pub open spec fn pop(self) -> RingModel<T> {
        RingModel { read: ((self.read + 1) % self.capacity()) as nat, ..self }
    }

    /// The state after pushing each of `vs` in turn.
    pub open spec fn push_all(self, vs: Seq<T>) -> RingModel<T>
        decreases vs.len(),
    {
        if vs.len() == 0 {
            self
        } else {
            self.push_all(vs.drop_last()).push(vs.last())
        }
    }

    /// Every slot holds the same value.
    pub open spec fn uniform(self) -> bool {
        forall|i: int, j: int|
            0 <= i < self.capacity() && 0 <= j < self.capacity() ==> self.slots[i] == self.slots[j]
    }
}

/// A fixed-capacity circular store with a read cursor and a write cursor
/// that move independently.
pub struct RingBuffer<T> {
    buffer: Vec<T>,
    read_index: usize,
    write_index: usize,
}

impl<T> View for RingBuffer<T> {
    type V = RingModel<T>;

    closed spec fn view(&self) -> RingModel<T> {
        RingModel { slots: self.buffer@, read: self.read_index as nat, write: self.write_index as nat }
    }
}

/// `length` copies of `fill`.
fn filled<T: Copy>(fill: T, length: usize) -> (r: Vec<T>)
    ensures
        r@ == Seq::new(length as nat, |i: int| fill),
{
    let mut r: Vec<T> = Vec::with_capacity(length);
    let mut i: usize = 0;
    while i < length
        invariant
            i <= length,
            r@ == Seq::new(i as nat, |k: int| fill),
        decreases length - i,
    {
        r.push(fill);
        i = i + 1;
        assert(r@ =~= Seq::new(i as nat, |k: int| fill));
    }
    r
}

impl<T: Copy + Default> RingBuffer<T> {
    /// A buffer of `length` default-valued slots, with both cursors at 0.
    pub fn new(length: usize) -> (r: Self)
        requires
            length > 0,
        ensures
            r@.wf(),
            r@.capacity() == length,
            r@.read == 0,
            r@.write == 0,
            r@.len() == 0,
            r@.uniform(),
    {
        RingBuffer { buffer: filled(T::default(), length), read_index: 0, write_index: 0 }
    }

    /// Refills every slot with the default value and rewinds both cursors.
    pub fn reset(&mut self)
        requires
            old(self)@.wf(),
        ensures
            final(self)@.wf(),
            final(self)@.capacity() == old(self)@.capacity(),
            final(self)@.read == 0,
            final(self)@.write == 0,
            final(self)@.uniform(),
    {
        self.buffer = filled(T::default(), self.buffer.len());
        self.read_index = 0;
        self.write_index = 0;
    }

    /// Writes at the write cursor without moving it.
    pub fn put(&mut self, value: T)
        requires
            old(self)@.wf(),
        ensures
            final(self)@ == old(self)@.put(value),
            final(self)@.wf(),
    {
        self.buffer.set(self.write_index, value);
    }

    /// Reads at the read cursor without moving it.
    pub fn peek(&self) -> (r: T)
        requires
            self@.wf(),
        ensures
            r == self@.peek(),
    {
        self.buffer[self.read_index]
    }

    /// Reads `offset` slots after the read cursor, wrapping around; moves nothing.
    pub fn get(&self, offset: usize) -> (r: T)
        requires
            self@.wf(),
        ensures
            r == self@.get(offset as int),
    {
        let cap = self.buffer.len();
        let o = offset % cap;
        let room = cap - self.read_index;
        let idx = if o < room {
            self.read_index + o
        } else {
            o - room
        };
        proof {
            let c = cap as int;
            let ro = self.read_index as int + o as int;
            let q = offset as int / c;
            vstd::arithmetic::div_mod::lemma_fundamental_div_mod(offset as int, c);
            vstd::arithmetic::div_mod::lemma_mod_multiples_vanish(q, ro, c);
            assert(self.read_index as int + offset as int == c * q + ro);
            if o < room {
                vstd::arithmetic::div_mod::lemma_small_mod(idx as nat, cap as nat);
            } else {
                vstd::arithmetic::div_mod::lemma_mod_add_multiples_vanish(idx as int, c);
                vstd::arithmetic::div_mod::lemma_small_mod(idx as nat, cap as nat);
            }
        }
        self.buffer[idx]
    }

    /// Writes at the write cursor, then advances it by one slot.
    pub fn push(&mut self, value: T)
        requires
            old(self)@.wf(),
        ensures
            final(self)@ == old(self)@.push(value),
            final(self)@.wf(),
    {
        self.put(value);
        self.write_index = if self.write_index < self.buffer.len() - 1 {
            self.write_index + 1
        } else {
            0
        };
        proof {
            let c = self.buffer.len() as int;
            let w = old(self)@.write as int;
            if w + 1 < c {
                vstd::arithmetic::div_mod::lemma_small_mod((w + 1) as nat, c as nat);
            } else {
                vstd::arithmetic::div_mod::lemma_mod_self_0(c);
            }
        }
    }

    /// Reads at the read cursor, then advances it by one slot.
    pub fn pop(&mut self) -> (r: T)
        requires
            old(self)@.wf(),
        ensures
            r == old(self)@.peek(),
            final(self)@ == old(self)@.pop(),
            final(self)@.wf(),
    {
        let value = self.peek();
        self.read_index = if self.read_index < self.buffer.len() - 1 {
            self.read_index + 1
        } else {
            0
        };
        proof {
            let c = self.buffer.len() as int;
            let rd = old(self)@.read as int;
            if rd + 1 < c {
                vstd::arithmetic::div_mod::lemma_small_mod((rd + 1) as nat, c as nat);
            } else {
                vstd::arithmetic::div_mod::lemma_mod_self_0(c);
            }
        }
        value
    }

    pub fn get_read_index(&self) -> (r: usize)
        ensures
            r == self@.read,
    {
        self.read_index
    }

    /// Moves the read cursor to `index` reduced modulo the capacity.
    pub fn set_read_index(&mut self, index: usize)
        requires
            old(self)@.wf(),
        ensures
            final(self)@ == (RingModel { read: (index as nat % old(self)@.capacity()) as nat, ..old(self)@ }),
            final(self)@.wf(),
    {
        self.read_index = index % self.buffer.len();
    }

    pub fn get_write_index(&self) -> (r: usize)
        ensures
            r == self@.write,
    {
        self.write_index
    }

    /// Moves the write cursor to `index` reduced modulo the capacity.
    pub fn set_write_index(&mut self, index: usize)
        requires
            old(self)@.wf(),
        ensures
            final(self)@ == (RingModel { write: (index as nat % old(self)@.capacity()) as nat, ..old(self)@ }),
            final(self)@.wf(),
    {
        self.write_index = index % self.buffer.len();
    }

    /// The number of occupied slots.
    pub fn len(&self) -> (r: usize)
        requires
            self@.wf(),
        ensures
            r == self@.len(),
    {
        if self.write_index >= self.read_index {
            self.write_index - self.read_index
        } else {
            self.buffer.len() - self.read_index + self.write_index
        }
    }

    pub fn capacity(&self) -> (r: usize)
        ensures
            r == self@.capacity(),
    {
        self.buffer.len()
    }
}

/// Reducing an index below twice the modulus takes at most one subtraction.
proof fn lemma_wrap(a: int, c: int)
    requires
        0 < c,
        0 <= a < 2 * c,
    ensures
        a % c == (if a < c { a } else { a - c }),
{
    if a < c {
        vstd::arithmetic::div_mod::lemma_small_mod(a as nat, c as nat);
    } else {
        vstd::arithmetic::div_mod::lemma_mod_add_multiples_vanish(a - c, c);
        vstd::arithmetic::div_mod::lemma_small_mod((a - c) as nat, c as nat);
    }
}

/// Pushing at most a capacity's worth of values leaves the read cursor alone,
/// advances the write cursor by their number, and lays them out in order from
/// where the write cursor stood.
proof fn lemma_push_all_layout<T>(m: RingModel<T>, vs: Seq<T>)
    requires
        m.wf(),
        vs.len() <= m.capacity(),
    ensures
        m.push_all(vs).wf(),
        m.push_all(vs).capacity() == m.capacity(),
        m.push_all(vs).read == m.read,
        m.push_all(vs).write == (m.write + vs.len()) as int % (m.capacity() as int),
        forall|j: int|
            0 <= j < vs.len() ==> #[trigger] m.push_all(vs).slots[(m.write as int + j) % (m.capacity() as int)]
                == vs[j],
    decreases vs.len(),
{
    let c = m.capacity() as int;
    if vs.len() == 0 {
        vstd::arithmetic::div_mod::lemma_small_mod(m.write, m.capacity());
    } else {
        let prev = vs.drop_last();
        let n1 = prev.len() as int;
        lemma_push_all_layout(m, prev);
        let p1 = m.push_all(prev);
        let p = m.push_all(vs);
        assert(p == p1.push(vs.last()));
        lemma_wrap(m.write as int + n1, c);
        lemma_wrap(m.write as int + n1 + 1, c);
        assert(p.write == (m.write + vs.len()) as int % c) by {
            lemma_wrap(p1.write as int + 1, c);
        }
        assert forall|j: int| 0 <= j < vs.len() implies #[trigger] p.slots[(m.write as int + j) % c] == vs[j] by {
            lemma_wrap(m.write as int + j, c);
            if j < n1 {
                assert(p1.slots[(m.write as int + j) % c] == prev[j]);
            }
        }
    }
}

/// A value pushed onto an empty buffer is the next one read, and a push
/// followed by a pop leaves the number of occupied slots where it was.
pub proof fn lemma_push_then_pop<T>(m: RingModel<T>, v: T)
    requires
        m.wf(),
    ensures
        m.push(v).wf(),
        m.push(v).pop().wf(),
        m.push(v).pop().len() == m.len(),
        m.len() == 0 ==> m.push(v).peek() == v,
{
    let c = m.capacity() as int;
    lemma_wrap(m.write as int + 1, c);
    lemma_wrap(m.read as int + 1, c);
}

/// After pushing `vs` onto an empty buffer, reading at offset `i` yields the
/// `i`-th pushed value, and as long as the buffer has not filled up its length
/// is the number of values pushed.
pub proof fn lemma_pushes_then_get<T>(m: RingModel<T>, vs: Seq<T>)
    requires
        m.wf(),
        m.len() == 0,
        vs.len() <= m.capacity(),
    ensures
        m.push_all(vs).wf(),
        forall|i: int| 0 <= i < vs.len() ==> #[trigger] m.push_all(vs).get(i) == vs[i],
        vs.len() < m.capacity() ==> m.push_all(vs).len() == vs.len(),
{
    let c = m.capacity() as int;
    lemma_push_all_layout(m, vs);
    assert(m.read == m.write);
    let p = m.push_all(vs);
    assert forall|i: int| 0 <= i < vs.len() implies #[trigger] p.get(i) == vs[i] by {
        assert(p.slots[(m.write as int + i) % c] == vs[i]);
    }
    lemma_wrap(m.write as int + vs.len(), c);
}

} // verus!
