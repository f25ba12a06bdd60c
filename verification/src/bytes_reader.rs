//! A reader that hands out an in-memory byte buffer in chunks.

use bytes::Bytes;
use vstd::prelude::*;

verus! {

#[verifier::external_type_specification]
#[verifier::external_body]
pub struct ExBytes(Bytes);

/// The bytes that a `Bytes` buffer holds, in order.
pub uninterp spec fn bytes_contents(b: Bytes) -> Seq<u8>;

/// `Bytes::len`: the number of bytes in the buffer.
#[verifier::external_body]
fn bytes_len(b: &Bytes) -> (n: usize)
    ensures
        n == bytes_contents(*b).len(),
{
    b.len()
}

/// `Bytes::slice` on `begin..end`: a buffer holding the bytes of `b` from
/// `begin` up to (not including) `end`. The call panics when `begin > end`
/// or `end` is past the end of `b`, which `requires` rules out.
#[verifier::external_body]
fn bytes_slice(b: &Bytes, begin: usize, end: usize) -> (r: Bytes)
    requires
        begin <= end <= bytes_contents(*b).len(),
    ensures
        bytes_contents(r) == bytes_contents(*b).subrange(begin as int, end as int),
{
    b.slice(begin..end)
}

/// How many bytes one read hands out: as many as fit in `capacity`, and no
/// more than are left after `pos`.
pub open spec fn chunk_len(len: nat, pos: nat, capacity: nat) -> nat {
    let left = if pos <= len { (len - pos) as nat } else { 0 };
    if capacity <= left { capacity } else { left }
}

/// The bytes one read hands out from `contents` when the reader stands at `pos`.
pub open spec fn chunk_at(contents: Seq<u8>, pos: nat, capacity: nat) -> Seq<u8> {
    contents.subrange(pos as int, (pos + chunk_len(contents.len(), pos, capacity)) as int)
}

/// Reads a byte buffer front to back. The read position never passes the
/// end of the buffer.
#[derive(Debug)]
pub struct BytesReader {
    bytes: Bytes,
    pos: usize,
}

impl BytesReader {
    #[verifier::type_invariant]
    spec fn inv(self) -> bool {
        self.pos <= bytes_contents(self.bytes).len()
    }

    /// The whole buffer being read.
    pub closed spec fn contents(self) -> Seq<u8> {
        bytes_contents(self.bytes)
    }

    /// How many bytes have been handed out so far.
    pub closed spec fn position(self) -> nat {
        self.pos as nat
    }

    /// A reader at the start of `bytes`.
    pub fn new(bytes: Bytes) -> (r: Self)
        ensures
            r.contents() == bytes_contents(bytes),
            r.position() == 0,
    {
        BytesReader { bytes, pos: 0 }
    }

    /// Hands out the next bytes of the buffer, at most `capacity` of them,
    /// and moves past them. Once the buffer is used up, every read hands
    /// out nothing.
    pub fn read_chunk(&mut self, capacity: usize) -> (chunk: Bytes)
        ensures
            old(self).position() <= old(self).contents().len(),
            final(self).contents() == old(self).contents(),
            final(self).position() == old(self).position() + chunk_len(
                old(self).contents().len(),
                old(self).position(),
                capacity as nat,
            ),
            final(self).position() <= final(self).contents().len(),
            bytes_contents(chunk) == chunk_at(
                old(self).contents(),
                old(self).position(),
                capacity as nat,
            ),
            capacity <= old(self).contents().len() - old(self).position() ==> bytes_contents(
                chunk,
            ) == old(self).contents().subrange(
                old(self).position() as int,
                old(self).position() + capacity,
            ) && final(self).position() == old(self).position() + capacity,
            capacity > old(self).contents().len() - old(self).position() ==> bytes_contents(chunk)
                == old(self).contents().subrange(
                old(self).position() as int,
                old(self).contents().len() as int,
            ) && final(self).position() == old(self).contents().len(),
    {
        proof {
            use_type_invariant(&*self);
        }
        let remaining = bytes_len(&self.bytes) - self.pos;
        if remaining == 0 {
            return bytes_slice(&self.bytes, self.pos, self.pos);
        }
        let n = if capacity < remaining { capacity } else { remaining };
        let chunk = bytes_slice(&self.bytes, self.pos, self.pos + n);
        self.pos = self.pos + n;
        chunk
    }
}

/// A read hands out as many bytes as the capacity allows and as are left,
/// and no fewer: the smaller of the capacity and the number of bytes after
/// the position. So while bytes are left, a read with room for at least one
/// byte hands out at least one, and a reader read until it hands out
/// nothing has handed out its whole buffer.
pub proof fn lemma_chunk_is_min_of_capacity_and_left(contents: Seq<u8>, pos: nat, capacity: nat)
    requires
        pos <= contents.len(),
    ensures
        capacity <= contents.len() - pos ==> chunk_len(contents.len(), pos, capacity) == capacity,
        capacity > contents.len() - pos ==> chunk_len(contents.len(), pos, capacity)
            == contents.len() - pos,
        chunk_at(contents, pos, capacity).len() == chunk_len(contents.len(), pos, capacity),
        pos < contents.len() && capacity > 0 ==> chunk_len(contents.len(), pos, capacity) > 0,
        chunk_len(contents.len(), pos, capacity) == 0 && capacity > 0 ==> pos == contents.len(),
        forall|i: int|
            0 <= i < chunk_len(contents.len(), pos, capacity) ==> #[trigger] chunk_at(
                contents,
                pos,
                capacity,
            )[i] == contents[pos + i],
{
}

/// Two reads in a row hand out exactly what one read with their capacities
/// added up hands out, and leave the reader at the same place.
pub proof fn lemma_reads_compose(contents: Seq<u8>, pos: nat, first: nat, second: nat)
    requires
        pos <= contents.len(),
    ensures
        ({
            let mid = pos + chunk_len(contents.len(), pos, first);
            &&& chunk_at(contents, pos, first) + chunk_at(contents, mid, second) == chunk_at(
                contents,
                pos,
                first + second,
            )
            &&& mid + chunk_len(contents.len(), mid, second) == pos + chunk_len(
                contents.len(),
                pos,
                first + second,
            )
        }),
{
    let mid = pos + chunk_len(contents.len(), pos, first);
    assert(chunk_at(contents, pos, first) + chunk_at(contents, mid, second) =~= chunk_at(
        contents,
        pos,
        first + second,
    ));
}

/// What a reader has handed out so far, read after read, is the front of
/// its buffer up to its position: each read extends that front by the chunk
/// it hands out.
pub proof fn lemma_read_extends_prefix(contents: Seq<u8>, pos: nat, capacity: nat)
    requires
        pos <= contents.len(),
    ensures
        contents.take(pos as int) + chunk_at(contents, pos, capacity) == contents.take(
            (pos + chunk_len(contents.len(), pos, capacity)) as int,
        ),
        pos + chunk_len(contents.len(), pos, capacity) <= contents.len(),
{
    assert(contents.take(pos as int) + chunk_at(contents, pos, capacity) =~= contents.take(
        (pos + chunk_len(contents.len(), pos, capacity)) as int,
    ));
}

} // verus!
