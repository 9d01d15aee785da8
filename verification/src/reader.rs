//! A forward-only reader over a finite byte slice.
//!
//! The synthesiser consumes its raw input through this reader.  Reads never
//! fail: a read of `n` bytes yields the bytes still available and then
//! zeroes, and the position advances only past the bytes that were actually
//! available.  Exhaustion is therefore graceful — short inputs decode to
//! zero-filled values — and every read is deterministic in the underlying
//! bytes alone.  Multi-byte integers are assembled in little-endian order.

use vstd::prelude::*;

verus! {

/// The bytes a read of `n` bytes yields at position `pos`: the bytes still
/// available, then zeroes.
pub open spec fn bytes_at(data: Seq<u8>, pos: int, n: nat) -> Seq<u8> {
    Seq::new(n as nat, |i: int| if pos + i < data.len() { data[pos + i] } else { 0u8 })
}

/// The position after a read of `n` bytes at `pos`: it advances past the
/// bytes that were available, and never past the end of the data.
pub open spec fn pos_after(data: Seq<u8>, pos: int, n: nat) -> int {
    if pos + n <= data.len() {
        pos + n
    } else {
        data.len() as int
    }
}

/// The value of a byte string read as a little-endian integer.
pub open spec fn le_value(bytes: Seq<u8>) -> nat
    decreases bytes.len(),
{
    if bytes.len() == 0 {
        0
    } else {
        bytes[0] as nat + 256 * le_value(bytes.subrange(1, bytes.len() as int))
    }
}

/// `256^n`, the number of byte strings of length `n`.
pub open spec fn pow256(n: nat) -> nat
    decreases n,
{
    if n == 0 {
        1
    } else {
        256 * pow256((n - 1) as nat)
    }
}

/// The little-endian value of `n` bytes read at `pos`.
pub open spec fn le_at(data: Seq<u8>, pos: int, n: nat) -> nat {
    le_value(bytes_at(data, pos, n))
}

/// The boolean one byte read at `pos` decodes to: the low bit of the byte.
pub open spec fn bool_at(data: Seq<u8>, pos: int) -> bool {
    bytes_at(data, pos, 1)[0] % 2 == 1
}

/// Reads that stay inside the data are plain subranges: no zero-filling
/// happens before the end of the data.
pub proof fn lemma_bytes_at_in_range(data: Seq<u8>, pos: int, n: nat)
    requires
        0 <= pos,
        pos + n <= data.len(),
    ensures
        bytes_at(data, pos, n) =~= data.subrange(pos, pos + n),
{
}

/// A read looks only at the bytes it covers: two byte strings that agree on
/// `[pos, pos + n)` (where both are long enough) yield the same bytes.
pub proof fn lemma_bytes_at_agree(d1: Seq<u8>, d2: Seq<u8>, pos: int, n: nat)
    requires
        0 <= pos,
        pos + n <= d1.len(),
        pos + n <= d2.len(),
        d1.subrange(pos, pos + n) == d2.subrange(pos, pos + n),
    ensures
        bytes_at(d1, pos, n) == bytes_at(d2, pos, n),
{
    lemma_bytes_at_in_range(d1, pos, n);
    lemma_bytes_at_in_range(d2, pos, n);
}

/// A forward-only reader over a byte slice, tracking how far it has read.
pub struct ByteReader<'a> {
    /// The underlying input, borrowed for the reader's lifetime.
    pub data: &'a Vec<u8>,
    /// How many bytes have been consumed so far.
    pub pos: usize,
}

impl<'a> ByteReader<'a> {
    /// The reader's position never passes the end of its data.
    pub open spec fn wf(&self) -> bool {
        self.pos <= self.data@.len()
    }

    /// The underlying bytes.
    pub open spec fn bytes(&self) -> Seq<u8> {
        self.data@
    }

    /// How many bytes have been consumed.
    pub open spec fn position(&self) -> int {
        self.pos as int
    }

    /// A fresh reader over `data`, positioned at its start.
    pub fn new(data: &'a Vec<u8>) -> (r: Self)
        ensures
            r.wf(),
            r.bytes() == data@,
            r.position() == 0,
    {
        ByteReader { data, pos: 0 }
    }

    /// Read `n` bytes: the bytes still available, then zeroes.
    pub fn fill(&mut self, n: usize) -> (buf: Vec<u8>)
        requires
            old(self).wf(),
        ensures
            final(self).wf(),
            final(self).bytes() == old(self).bytes(),
            buf@ == bytes_at(old(self).bytes(), old(self).position(), n as nat),
            final(self).position() == pos_after(old(self).bytes(), old(self).position(), n as nat),
    {
        let mut buf: Vec<u8> = Vec::new();
        let mut i: usize = 0;
        while i < n
            invariant
                i <= n,
                self.data == old(self).data,
                old(self).wf(),
                self.wf(),
                buf@ == bytes_at(old(self).bytes(), old(self).position(), i as nat),
                self.position() == pos_after(old(self).bytes(), old(self).position(), i as nat),
            decreases n - i,
        {
            if self.pos < self.data.len() {
                let b = self.data[self.pos];
                buf.push(b);
                self.pos = self.pos + 1;
            } else {
                buf.push(0);
            }
            i = i + 1;
            assert(buf@ =~= bytes_at(old(self).bytes(), old(self).position(), i as nat));
        }
        buf
    }

    /// Read one byte and decode it as a boolean: the low bit decides.
    pub fn read_bool(&mut self) -> (b: bool)
        requires
            old(self).wf(),
        ensures
            final(self).wf(),
            final(self).bytes() == old(self).bytes(),
            b == bool_at(old(self).bytes(), old(self).position()),
            final(self).position() == pos_after(old(self).bytes(), old(self).position(), 1),
    {
        let buf = self.fill(1);
        buf[0] % 2 == 1
    }

    /// Read `n` bytes and assemble them as a little-endian integer.
    pub fn read_le(&mut self, n: usize) -> (x: u128)
        requires
            old(self).wf(),
            n <= 16,
        ensures
            final(self).wf(),
            final(self).bytes() == old(self).bytes(),
            x as nat == le_at(old(self).bytes(), old(self).position(), n as nat),
            x < pow256(n as nat),
            final(self).position() == pos_after(old(self).bytes(), old(self).position(), n as nat),
    {
        let buf = self.fill(n);
        le_to_u128(&buf)
    }
}

/// `256^16` fits exactly at the top of the `u128` range.
proof fn lemma_pow256_16()
    ensures
        pow256(16) == 0x1_0000_0000_0000_0000_0000_0000_0000_0000,
{
    reveal_with_fuel(pow256, 17);
}

/// `256^n` only grows with `n`.
pub proof fn lemma_pow256_monotone(a: nat, b: nat)
    requires
        a <= b,
    ensures
        pow256(a) <= pow256(b),
    decreases b,
{
    if a < b {
        lemma_pow256_monotone(a, (b - 1) as nat);
        assert(pow256((b - 1) as nat) <= 256 * pow256((b - 1) as nat)) by (nonlinear_arith)
            requires
                pow256((b - 1) as nat) >= 0,
        ;
    }
}

/// Assemble at most sixteen bytes as a little-endian integer.
fn le_to_u128(buf: &Vec<u8>) -> (x: u128)
    requires
        buf@.len() <= 16,
    ensures
        x as nat == le_value(buf@),
        x < pow256(buf@.len()),
{
    let n = buf.len();
    let mut x: u128 = 0;
    let mut i: usize = n;
    proof {
        assert(buf@.subrange(n as int, n as int) =~= Seq::<u8>::empty());
    }
    while i > 0
        invariant
            i <= n,
            n == buf@.len() <= 16,
            x as nat == le_value(buf@.subrange(i as int, n as int)),
            (x as nat) < pow256((n - i) as nat),
        decreases i,
    {
        i = i - 1;
        let ghost tail = buf@.subrange(i as int + 1, n as int);
        let ghost whole = buf@.subrange(i as int, n as int);
        proof {
            assert(whole[0] == buf@[i as int]);
            assert(whole.subrange(1, whole.len() as int) =~= tail);
            assert(le_value(whole) == buf@[i as int] as nat + 256 * le_value(tail));
            lemma_pow256_16();
            lemma_pow256_monotone((n - i) as nat, 16);
            assert(256 * (x as nat) + 255 < 256 * pow256((n - i - 1) as nat)) by (nonlinear_arith)
                requires
                    (x as nat) < pow256((n - i - 1) as nat),
            ;
        }
        x = x * 256 + (buf[i] as u128);
    }
    proof {
        assert(buf@.subrange(0, n as int) =~= buf@);
    }
    x
}

} // verus!
