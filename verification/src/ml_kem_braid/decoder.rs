use vstd::prelude::*;
use crate::util::messages::Chunk;
use crate::util::helper_func::{append_bytes, copy_range};
use crate::ml_kem_braid::encoder::{spec_chunks, spec_flatten, lemma_chunks_flatten};

verus! {

/// Collects the bytes of incoming chunks until a message of a known size is complete.
#[derive(Debug)]
pub struct SimpleDecoder {
    pub message_size: usize,
    pub received: Vec<u8>,
}

/// The message held by a decoder that has received `received` and expects
/// `size` bytes: the first `size` bytes once that many have arrived.
pub open spec fn spec_decoder_message(received: Seq<u8>, size: nat) -> Option<Seq<u8>> {
    if received.len() >= size {
        Some(received.take(size as int))
    } else {
        None
    }
}

/// What a decoder holds after receiving, in order, the chunks of a sequence.
pub open spec fn spec_received_after(received: Seq<u8>, chunks: Seq<(nat, Seq<u8>)>) -> Seq<u8> {
    received + spec_flatten(chunks)
}

/// Law: a fresh decoder that expects `data.len()` bytes and receives every
/// chunk that an encoder made of `data`, in order, holds `data` as its
/// message.
pub proof fn lemma_encode_decode_roundtrip(data: Seq<u8>, chunk_size: nat)
    requires
        chunk_size > 0,
    ensures
        spec_decoder_message(
            spec_received_after(Seq::empty(), spec_chunks(data, chunk_size, 0)),
            data.len(),
        ) == Some(data),
{
    lemma_chunks_flatten(data, chunk_size, 0);
    assert(Seq::<u8>::empty() + data =~= data);
    assert(data.take(data.len() as int) =~= data);
}

impl Clone for SimpleDecoder {
    fn clone(&self) -> (res: Self)
        ensures
            res.message_size == self.message_size,
            res.received@ == self.received@,
    {
        let received = self.received.clone();
        assert(received@ =~= self.received@);
        SimpleDecoder { message_size: self.message_size, received }
    }
}

impl SimpleDecoder {
    /// A decoder that expects `message_size` bytes and holds none.
    pub fn new(message_size: usize) -> (res: Self)
        ensures
            res.message_size == message_size,
            res.received@ == Seq::<u8>::empty(),
    {
        Self { message_size, received: Vec::new() }
    }

    /// Appends the bytes of a chunk.
    pub fn add_chunk(&mut self, chunk: Chunk)
        ensures
            final(self).message_size == old(self).message_size,
            final(self).received@ == old(self).received@ + chunk.data@,
    {
        append_bytes(&mut self.received, chunk.data.as_slice());
    }

    /// Whether the expected number of bytes has arrived.
    pub fn has_message(&self) -> (res: bool)
        ensures
            res == (self.received@.len() >= self.message_size),
    {
        self.received.len() >= self.message_size
    }

    /// The first `message_size` received bytes, once they have arrived.
    pub fn message(&self) -> (res: Option<Vec<u8>>)
        ensures
            match res {
                Some(m) => spec_decoder_message(self.received@, self.message_size as nat) == Some(m@),
                None => spec_decoder_message(self.received@, self.message_size as nat) is None,
            },
    {
        if self.has_message() {
            let m = copy_range(self.received.as_slice(), 0, self.message_size);
            assert(m@ =~= self.received@.take(self.message_size as int));
            Some(m)
        } else {
            None
        }
    }

    /// Approximate memory footprint in bytes.
    pub fn size(&self) -> (res: usize)
        requires
            self.received@.len() + 32 <= usize::MAX,
        ensures
            res == 32 + self.received@.len(),
    {
        8 + 24 + self.received.len()
    }
}

} // verus!
