use vstd::prelude::*;
use crate::util::messages::Chunk;
use crate::util::helper_func::copy_range;

verus! {

/// The pieces that `data` is cut into: consecutive runs of `chunk_size`
/// bytes (the last one possibly shorter), numbered from `first_index` on.
pub open spec fn spec_chunks(data: Seq<u8>, chunk_size: nat, first_index: nat) -> Seq<(nat, Seq<u8>)>
    decreases data.len(),
{
    if chunk_size == 0 || data.len() == 0 {
        seq![]
    } else if data.len() <= chunk_size {
        seq![(first_index, data)]
    } else {
        seq![(first_index, data.take(chunk_size as int))]
            + spec_chunks(data.skip(chunk_size as int), chunk_size, first_index + 1)
    }
}

/// The bytes of a sequence of pieces, in order.
pub open spec fn spec_flatten(chunks: Seq<(nat, Seq<u8>)>) -> Seq<u8>
    decreases chunks.len(),
{
    if chunks.len() == 0 {
        seq![]
    } else {
        chunks[0].1 + spec_flatten(chunks.drop_first())
    }
}

/// The chunks of an encoder, as (position, bytes).
pub open spec fn chunks_view(chunks: Seq<Chunk>) -> Seq<(nat, Seq<u8>)> {
    chunks.map_values(|c: Chunk| c.view_pair())
}

/// Cuts a byte string into fixed-size chunks, handed out one at a time. No
/// redundancy: every chunk must arrive, in order.
#[derive(Debug)]
pub struct SimpleEncoder {
    pub chunks: Vec<Chunk>,
}

/// Flattening a concatenation flattens each part.
pub proof fn lemma_flatten_append(a: Seq<(nat, Seq<u8>)>, b: Seq<(nat, Seq<u8>)>)
    ensures
        spec_flatten(a + b) == spec_flatten(a) + spec_flatten(b),
    decreases a.len(),
{
    if a.len() == 0 {
        assert(a + b =~= b);
    } else {
        assert((a + b).drop_first() =~= a.drop_first() + b);
        lemma_flatten_append(a.drop_first(), b);
    }
}

/// Law: the chunks of `data`, put back together in order, are `data`.
pub proof fn lemma_chunks_flatten(data: Seq<u8>, chunk_size: nat, first_index: nat)
    requires
        chunk_size > 0,
    ensures
        spec_flatten(spec_chunks(data, chunk_size, first_index)) == data,
    decreases data.len(),
{
    if data.len() == 0 {
    } else if data.len() <= chunk_size {
        let s = seq![(first_index, data)];
        assert(s.drop_first() =~= Seq::<(nat, Seq<u8>)>::empty());
        assert(spec_flatten(s.drop_first()) =~= Seq::<u8>::empty());
        assert(spec_flatten(s) =~= data);
    } else {
        let head = seq![(first_index, data.take(chunk_size as int))];
        let tail = spec_chunks(data.skip(chunk_size as int), chunk_size, first_index + 1);
        lemma_chunks_flatten(data.skip(chunk_size as int), chunk_size, first_index + 1);
        lemma_flatten_append(head, tail);
        assert(head.drop_first() =~= Seq::<(nat, Seq<u8>)>::empty());
        assert(spec_flatten(head.drop_first()) =~= Seq::<u8>::empty());
        assert(spec_flatten(head) =~= data.take(chunk_size as int));
        assert(data.take(chunk_size as int) + data.skip(chunk_size as int) =~= data);
    }
}

/// Every piece of `data` is numbered in order and none is empty.
pub proof fn lemma_chunks_shape(data: Seq<u8>, chunk_size: nat, first_index: nat)
    requires
        chunk_size > 0,
    ensures
        forall|i: int| 0 <= i < spec_chunks(data, chunk_size, first_index).len() ==> {
            &&& (#[trigger] spec_chunks(data, chunk_size, first_index)[i]).0 == first_index + i
            &&& 0 < spec_chunks(data, chunk_size, first_index)[i].1.len() <= chunk_size
        },
    decreases data.len(),
{
    if data.len() > chunk_size {
        lemma_chunks_shape(data.skip(chunk_size as int), chunk_size, first_index + 1);
        let tail = spec_chunks(data.skip(chunk_size as int), chunk_size, first_index + 1);
        assert forall|i: int| 0 <= i < spec_chunks(data, chunk_size, first_index).len() implies {
            &&& (#[trigger] spec_chunks(data, chunk_size, first_index)[i]).0 == first_index + i
            &&& 0 < spec_chunks(data, chunk_size, first_index)[i].1.len() <= chunk_size
        } by {
            if i > 0 {
                assert(spec_chunks(data, chunk_size, first_index)[i] == tail[i - 1]);
            }
        }
    }
}

impl Clone for SimpleEncoder {
    fn clone(&self) -> (res: Self)
        ensures
            res.chunks@.len() == self.chunks@.len(),
            forall|i: int| 0 <= i < self.chunks@.len() ==> (#[trigger] res.chunks@[i]).index == self.chunks@[i].index
                && res.chunks@[i].data@ == self.chunks@[i].data@,
            chunks_view(res.chunks@) == chunks_view(self.chunks@),
    {
        let mut chunks: Vec<Chunk> = Vec::new();
        let mut i: usize = 0;
        while i < self.chunks.len()
            invariant
                i <= self.chunks@.len(),
                chunks@.len() == i,
                forall|j: int| 0 <= j < i ==> (#[trigger] chunks@[j]).index == self.chunks@[j].index
                    && chunks@[j].data@ == self.chunks@[j].data@,
            decreases self.chunks@.len() - i,
        {
            chunks.push(self.chunks[i].clone());
            i = i + 1;
        }
        assert(chunks_view(chunks@) =~= chunks_view(self.chunks@));
        SimpleEncoder { chunks }
    }
}

/// How many chunks of `chunk_size` bytes `len` bytes make.
pub open spec fn chunk_count(len: nat, chunk_size: nat) -> int {
    (len + chunk_size - 1) / (chunk_size as int)
}

/// A chunk that starts before the end of the data has a number below the
/// chunk count.
proof fn lemma_index_fits(index: int, chunk_size: int, offset: int, len: int)
    requires
        chunk_size > 0,
        0 <= index,
        index * chunk_size == offset,
        0 <= offset < len,
    ensures
        index + 1 <= (len + chunk_size - 1) / chunk_size,
{
    assert((index + 1) * chunk_size <= len + chunk_size - 1) by (nonlinear_arith)
        requires
            index * chunk_size == offset,
            offset < len,
    ;
    vstd::arithmetic::div_mod::lemma_div_is_ordered((index + 1) * chunk_size, len + chunk_size - 1, chunk_size);
    vstd::arithmetic::div_mod::lemma_div_by_multiple(index + 1, chunk_size);
}

impl SimpleEncoder {
    /// Cuts `data` into chunks of `chunk_size` bytes (the last may be
    /// shorter), numbered from 0; their numbers must fit in a `u32`.
    pub fn new(data: &[u8], chunk_size: usize) -> (res: Self)
        requires
            chunk_size > 0,
            chunk_count(data@.len(), chunk_size as nat) <= u32::MAX,
            data@.len() + chunk_size <= usize::MAX,
        ensures
            chunks_view(res.chunks@) == spec_chunks(data@, chunk_size as nat, 0),
            forall|i: int| 0 <= i < res.chunks@.len() ==> (#[trigger] res.chunks@[i]).data@.len() <= chunk_size,
    {
        let mut chunks: Vec<Chunk> = Vec::new();
        let mut index: u32 = 0;
        let mut offset: usize = 0;
        assert(data@.skip(0) =~= data@);
        assert(chunks_view(chunks@) =~= Seq::<(nat, Seq<u8>)>::empty());
        assert(chunks_view(chunks@) + spec_chunks(data@, chunk_size as nat, 0) =~= spec_chunks(data@, chunk_size as nat, 0));
        while offset < data.len()
            invariant
                chunk_size > 0,
                chunk_count(data@.len(), chunk_size as nat) <= u32::MAX,
                data@.len() + chunk_size <= usize::MAX,
                offset <= data@.len(),
                offset < data@.len() ==> index * chunk_size == offset,
                chunks_view(chunks@) + spec_chunks(data@.skip(offset as int), chunk_size as nat, index as nat)
                    == spec_chunks(data@, chunk_size as nat, 0),
            decreases data@.len() - offset,
        {
            let end = if offset + chunk_size < data.len() {
                offset + chunk_size
            } else {
                data.len()
            };
            proof {
                lemma_index_fits(index as int, chunk_size as int, offset as int, data@.len() as int);
            }
            let chunk = Chunk { index, data: copy_range(data, offset, end) };
            proof {
                let rest = data@.skip(offset as int);
                let cs = chunk_size as nat;
                if rest.len() > cs {
                    assert(rest.take(cs as int) =~= data@.subrange(offset as int, end as int));
                    assert(rest.skip(cs as int) =~= data@.skip(end as int));
                } else {
                    assert(rest =~= data@.subrange(offset as int, end as int));
                    assert(data@.skip(end as int) =~= Seq::<u8>::empty());
                }
                let old_view = chunks_view(chunks@);
                let new_view = chunks_view(chunks@.push(chunk));
                assert(new_view =~= old_view.push(chunk.view_pair()));
                assert(spec_chunks(rest, cs, index as nat) =~= seq![chunk.view_pair()]
                    + spec_chunks(data@.skip(end as int), cs, index as nat + 1));
                assert(old_view + spec_chunks(rest, cs, index as nat) =~= new_view
                    + spec_chunks(data@.skip(end as int), cs, index as nat + 1));
            }
            chunks.push(chunk);
            proof {
                if end < data@.len() {
                    assert((index + 1) * chunk_size == index * chunk_size + chunk_size) by (nonlinear_arith);
                }
            }
            index = index + 1;
            offset = end;
        }
        assert(data@.skip(offset as int) =~= Seq::<u8>::empty());
        assert(chunks_view(chunks@) + Seq::<(nat, Seq<u8>)>::empty() =~= chunks_view(chunks@));
        proof {
            lemma_chunks_shape(data@, chunk_size as nat, 0);
            assert forall|i: int| 0 <= i < chunks@.len() implies (#[trigger] chunks@[i]).data@.len() <= chunk_size by {
                assert(chunks_view(chunks@)[i] == chunks@[i].view_pair());
            }
        }
        Self { chunks }
    }

    /// Hands out the first remaining chunk.
    pub fn next_chunk<'a>(&mut self) -> (res: Result<Chunk, &'a str>)
        ensures
            match res {
                Ok(c) => old(self).chunks@.len() > 0 && c == old(self).chunks@[0]
                    && final(self).chunks@ == old(self).chunks@.drop_first(),
                Err(_) => old(self).chunks@.len() == 0 && final(self).chunks@ == old(self).chunks@,
            },
    {
        if self.chunks.is_empty() {
            return Err("Next_chunk called on empty encoder!");
        }
        let c = self.chunks.remove(0);
        assert(self.chunks@ =~= old(self).chunks@.drop_first());
        Ok(c)
    }

    /// Whether every chunk has been handed out.
    pub fn is_done(&self) -> (res: bool)
        ensures
            res == (self.chunks@.len() == 0),
    {
        self.chunks.is_empty()
    }

    /// Approximate memory footprint in bytes.
    pub fn size(&self) -> (res: usize)
        requires
            spec_encoder_size(self.chunks@) <= usize::MAX,
        ensures
            res == spec_encoder_size(self.chunks@),
    {
        let mut total: usize = 24;
        let mut i: usize = 0;
        assert(self.chunks@.take(0) =~= Seq::<Chunk>::empty());
        while i < self.chunks.len()
            invariant
                i <= self.chunks@.len(),
                spec_encoder_size(self.chunks@) <= usize::MAX,
                total == 24 + spec_chunk_bytes(self.chunks@.take(i as int)),
            decreases self.chunks@.len() - i,
        {
            proof {
                lemma_chunk_bytes_prefix(self.chunks@, i as int + 1);
                lemma_chunk_bytes_mono(self.chunks@, i as int + 1);
            }
            total = total + 28 + self.chunks[i].data.len();
            i = i + 1;
        }
        assert(self.chunks@.take(self.chunks@.len() as int) =~= self.chunks@);
        total
    }
}

/// Bytes counted for a sequence of chunks: 28 per chunk plus its data.
pub open spec fn spec_chunk_bytes(chunks: Seq<Chunk>) -> nat
    decreases chunks.len(),
{
    if chunks.len() == 0 {
        0
    } else {
        spec_chunk_bytes(chunks.drop_last()) + 28 + chunks.last().data@.len()
    }
}

/// Approximate memory footprint of an encoder.
pub open spec fn spec_encoder_size(chunks: Seq<Chunk>) -> nat {
    24 + spec_chunk_bytes(chunks)
}

proof fn lemma_chunk_bytes_prefix(chunks: Seq<Chunk>, i: int)
    requires
        0 < i <= chunks.len(),
    ensures
        spec_chunk_bytes(chunks.take(i)) == spec_chunk_bytes(chunks.take(i - 1)) + 28 + chunks[i - 1].data@.len(),
{
    assert(chunks.take(i).drop_last() =~= chunks.take(i - 1));
}

proof fn lemma_chunk_bytes_mono(chunks: Seq<Chunk>, i: int)
    requires
        0 <= i <= chunks.len(),
    ensures
        spec_chunk_bytes(chunks.take(i)) <= spec_chunk_bytes(chunks),
    decreases chunks.len() - i,
{
    if i < chunks.len() {
        lemma_chunk_bytes_mono(chunks, i + 1);
        lemma_chunk_bytes_prefix(chunks, i + 1);
    } else {
        assert(chunks.take(i) =~= chunks);
    }
}

} // verus!
