//! Cutting a stream of bytes into whole blocks, with the bytes that do not yet make up
//! a block carried over from one write to the next.
use vstd::prelude::*;

verus! {

/// Hands out the whole blocks of `pending ++ rest`, where `pending` is the partial
/// block left over from earlier writes and `rest` is what is left of the new data.
pub struct PartialBlockHelper<'data, const SIZE: usize> {
    partial_block: [u8; SIZE],
    partial_len: usize,
    data: &'data [u8],
    consumed: usize,
}

impl<'data, const SIZE: usize> PartialBlockHelper<'data, SIZE> {
    #[verifier::type_invariant]
    spec fn wf(self) -> bool {
        &&& self.consumed <= self.data@.len()
    }

    /// The whole partial block, including the bytes past its length.
    pub closed spec fn partial_block(self) -> Seq<u8> {
        self.partial_block@
    }

    /// How many bytes of the partial block are in use.
    pub closed spec fn partial_len(self) -> nat {
        self.partial_len as nat
    }

    /// The bytes of the partial block that are in use.
    pub open spec fn pending(self) -> Seq<u8> {
        self.partial_block().take(self.partial_len() as int)
    }

    /// The data not yet taken.
    pub closed spec fn rest(self) -> Seq<u8> {
        self.data@.skip(self.consumed as int)
    }

    /// A helper over the partial block `partial_block[..partial_len]` and new `data`.
    pub fn new(partial_block: [u8; SIZE], partial_len: usize, data: &'data [u8]) -> (h: Self)
        ensures
            h.partial_block() == partial_block@,
            h.partial_len() == partial_len,
            h.rest() == data@,
    {
        let h = Self { partial_block, partial_len, data, consumed: 0 };
        assert(data@.skip(0) =~= data@);
        h
    }

    /// The next whole block, if the pending bytes and the data left make one up.
    /// When they do not, and data is left, that data is written into the partial block
    /// after its pending bytes (and stays where it is in the data). A partial length past
    /// the block size is only allowed when no data is left.
    pub fn take(&mut self) -> (r: Option<[u8; SIZE]>)
        requires
            old(self).rest().len() == 0 || old(self).partial_len() <= SIZE,
        ensures
            final(self).partial_block().len() == SIZE,
            ({
                let pb = old(self).partial_block();
                let pl = old(self).partial_len();
                let p = old(self).pending();
                let d = old(self).rest();
                if d.len() == 0 {
                    &&& r is None
                    &&& final(self).partial_block() == pb
                    &&& final(self).partial_len() == pl
                    &&& final(self).pending() == p
                    &&& final(self).rest() == d
                } else if p.len() + d.len() < SIZE {
                    &&& r is None
                    &&& final(self).partial_block() == pb.take(pl as int) + d + pb.skip(
                        (pl + d.len()) as int,
                    )
                    &&& final(self).partial_len() == pl + d.len()
                    &&& final(self).pending() == p + d
                    &&& final(self).rest() == d
                } else {
                    &&& r is Some
                    &&& r->0@ == (p + d).take(SIZE as int)
                    &&& final(self).partial_block() == pb
                    &&& final(self).partial_len() == 0
                    &&& final(self).pending() == Seq::<u8>::empty()
                    &&& final(self).rest() == (p + d).skip(SIZE as int)
                }
            }),
    {
        proof {
            use_type_invariant(&*self);
        }
        let data = self.data;
        let consumed = self.consumed;
        let total = data.len();
        let data_len = total - consumed;
        if data_len == 0 {
            return None;
        }
        let pl = self.partial_len;
        let pb = self.partial_block;
        if data_len < SIZE - pl {
            // partial + incoming is not a complete block
            let mut block = pb;
            let mut i: usize = 0;
            while i < data_len
                invariant
                    i <= data_len,
                    data_len + pl < SIZE,
                    block@.len() == SIZE,
                    consumed + data_len == total == data@.len(),
                    forall|j: int| 0 <= j < pl ==> block@[j] == pb@[j],
                    forall|j: int| pl <= j < pl + i ==> block@[j] == data@[consumed + j - pl],
                    forall|j: int| pl + data_len <= j < SIZE ==> block@[j] == pb@[j],
                decreases data_len - i,
            {
                block[pl + i] = data[consumed + i];
                i = i + 1;
            }
            self.partial_block = block;
            self.partial_len = pl + data_len;
            assert(block@ =~= pb@.take(pl as int) + old(self).rest() + pb@.skip(
                pl + data_len,
            ));
            assert(self.pending() =~= old(self).pending() + old(self).rest());
            return None;
        }
        let mut chunk = [0u8; SIZE];
        let to_take = SIZE - pl;
        let mut i: usize = 0;
        while i < SIZE
            invariant
                i <= SIZE,
                chunk@.len() == SIZE,
                pl <= SIZE,
                to_take == SIZE - pl,
                consumed + to_take <= total == data@.len(),
                forall|j: int| 0 <= j < i && j < pl ==> chunk@[j] == pb@[j],
                forall|j: int| pl <= j < i ==> chunk@[j] == data@[consumed + j - pl],
            decreases SIZE - i,
        {
            if i < pl {
                chunk[i] = pb[i];
            } else {
                chunk[i] = data[consumed + (i - pl)];
            }
            i = i + 1;
        }
        self.partial_len = 0;
        self.consumed = consumed + to_take;
        assert(self.pending() =~= Seq::<u8>::empty());
        assert(chunk@ =~= (old(self).pending() + old(self).rest()).take(SIZE as int));
        assert(self.rest() =~= (old(self).pending() + old(self).rest()).skip(SIZE as int));
        Some(chunk)
    }

    /// The partial block and its length, to be carried over to the next write.
    pub fn into_partial(self) -> (r: ([u8; SIZE], usize))
        ensures
            r.0@ == self.partial_block(),
            r.1 == self.partial_len(),
    {
        proof {
            use_type_invariant(&self);
        }
        (self.partial_block, self.partial_len)
    }
}

/// The blocks of `size > 0` bytes that repeated calls of `take` hand out, up to the first
/// call that returns `None`, for pending bytes `p` and data `d` (each step follows the
/// cases of the contract of `take`).
pub open spec fn drained_blocks(p: Seq<u8>, d: Seq<u8>, size: nat) -> Seq<u8>
    decreases p.len() + d.len(),
{
    if size == 0 || d.len() == 0 || p.len() + d.len() < size {
        Seq::empty()
    } else {
        (p + d).take(size as int) + drained_blocks(
            Seq::empty(),
            (p + d).skip(size as int),
            size,
        )
    }
}

/// The pending bytes of the partial block after repeated calls of `take` on blocks of
/// `size > 0` bytes, up to the first call that returns `None`, for pending bytes `p` and
/// data `d`.
pub open spec fn drained_pending(p: Seq<u8>, d: Seq<u8>, size: nat) -> Seq<u8>
    decreases p.len() + d.len(),
{
    if size == 0 || d.len() == 0 {
        p
    } else if p.len() + d.len() < size {
        p + d
    } else {
        drained_pending(Seq::empty(), (p + d).skip(size as int), size)
    }
}

/// No byte is lost, duplicated or reordered: the blocks handed out, followed by the bytes
/// left pending, are the pending bytes followed by the data; the blocks make up as many
/// whole blocks as fit, and what is left pending is the remainder. (A full partial block
/// with no data after it is left as it is, so it is not a remainder.)
pub proof fn lemma_drain(p: Seq<u8>, d: Seq<u8>, size: nat)
    requires
        size > 0,
        p.len() < size || d.len() > 0,
    ensures
        drained_blocks(p, d, size) + drained_pending(p, d, size) == p + d,
        drained_blocks(p, d, size).len() == size * ((p.len() + d.len()) as int / size as int),
        drained_pending(p, d, size).len() == (p.len() + d.len()) as int % size as int,
    decreases p.len() + d.len(),
{
    let n = (p.len() + d.len()) as int;
    let sz = size as int;
    if d.len() == 0 || n < sz {
        assert(drained_blocks(p, d, size) + drained_pending(p, d, size) =~= p + d);
        vstd::arithmetic::div_mod::lemma_fundamental_div_mod_converse(n, sz, 0, n);
    } else {
        let rest = (p + d).skip(sz);
        lemma_drain(Seq::empty(), rest, size);
        assert(Seq::<u8>::empty() + rest =~= rest);
        assert((p + d).take(sz) + rest =~= p + d);
        assert(drained_blocks(p, d, size) + drained_pending(p, d, size) =~= (p + d).take(sz) + (
        drained_blocks(Seq::empty(), rest, size) + drained_pending(Seq::empty(), rest, size)));
        let m = n - sz;
        vstd::arithmetic::div_mod::lemma_fundamental_div_mod(m, sz);
        vstd::arithmetic::div_mod::lemma_mod_pos_bound(m, sz);
        let q = m / sz;
        let r = m % sz;
        assert(n == (q + 1) * sz + r) by (nonlinear_arith)
            requires
                m == sz * q + r,
                n == m + sz,
        ;
        vstd::arithmetic::div_mod::lemma_fundamental_div_mod_converse(n, sz, q + 1, r);
        assert(sz * (q + 1) == sz + sz * q) by (nonlinear_arith);
    }
}

/// Appends `bytes` to the output.
pub fn write_all(writer: &mut Vec<u8>, bytes: &[u8])
    ensures
        final(writer)@ == old(writer)@ + bytes@,
{
    let mut i: usize = 0;
    while i < bytes.len()
        invariant
            i <= bytes@.len(),
            writer@ == old(writer)@ + bytes@.take(i as int),
        decreases bytes@.len() - i,
    {
        writer.push(bytes[i]);
        i = i + 1;
        assert(writer@ =~= old(writer)@ + bytes@.take(i as int));
    }
    assert(bytes@.take(i as int) =~= bytes@);
}

/// Appends the first `n` bytes of `block` to the output.
pub fn write_prefix(writer: &mut Vec<u8>, block: &[u8; 16], n: usize)
    requires
        n <= 16,
    ensures
        final(writer)@ == old(writer)@ + block@.take(n as int),
{
    let mut i: usize = 0;
    while i < n
        invariant
            i <= n <= 16,
            writer@ == old(writer)@ + block@.take(i as int),
        decreases n - i,
    {
        writer.push(block[i]);
        i = i + 1;
        assert(writer@ =~= old(writer)@ + block@.take(i as int));
    }
}

} // verus!
