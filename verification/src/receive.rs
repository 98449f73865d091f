use vstd::prelude::*;
use vstd::slice::{slice_subrange, slice_to_vec};

verus! {

/// The size of the buffer that each read fills.
pub const CHUNK_SIZE: usize = 1024;

/// The payload after one read: a read that gave bytes appends them and
/// asks for more (`true`); a read of no bytes (the peer closed) or a failed
/// read (`None`) leaves the payload and ends the message (`false`).
pub open spec fn spec_receive_step(payload: Seq<u8>, read: Option<Seq<u8>>) -> (Seq<u8>, bool) {
    match read {
        Some(bytes) => if bytes.len() > 0 {
            (payload + bytes, true)
        } else {
            (payload, false)
        },
        None => (payload, false),
    }
}

/// The payload after the reads `reads[i..]`, starting with `payload`: reads
/// are taken in order until one ends the message.
pub open spec fn receive_run(payload: Seq<u8>, reads: Seq<Option<Seq<u8>>>, i: int) -> Seq<u8>
    decreases reads.len() - i,
{
    if i < 0 || i >= reads.len() {
        payload
    } else {
        let (next, more) = spec_receive_step(payload, reads[i]);
        if more {
            receive_run(next, reads, i + 1)
        } else {
            next
        }
    }
}

/// Adds the outcome of one read into `chunk` to the message received so
/// far: `Ok(n)` means the first `n` bytes of `chunk` were read, `Err` that
/// the read failed. Returns whether to read again.
pub fn receive_step(payload: &mut Vec<u8>, chunk: &[u8], read: Result<usize, String>) -> (more:
    bool)
    requires
        read matches Ok(n) ==> n <= chunk@.len(),
    ensures
        (final(payload)@, more) == spec_receive_step(
            old(payload)@,
            match read {
                Ok(n) => Some(chunk@.take(n as int)),
                Err(_) => None,
            },
        ),
{
    match read {
        Ok(0) => false,
        Ok(n) => {
            let mut bytes = slice_to_vec(slice_subrange(chunk, 0, n));
            payload.append(&mut bytes);
            true
        },
        Err(_) => false,
    }
}

/// The concatenation of `chunks[i..]`.
pub open spec fn concat_chunks(chunks: Seq<Seq<u8>>, i: int) -> Seq<u8>
    decreases chunks.len() - i,
{
    if i < 0 || i >= chunks.len() {
        Seq::empty()
    } else {
        chunks[i] + concat_chunks(chunks, i + 1)
    }
}

/// A message is every byte the peer sent, in order: when every read gives
/// some bytes and the last read finds the peer closed (or fails), the
/// payload is the concatenation of all the chunks read.
pub proof fn lemma_receive_concatenates_chunks(
    payload: Seq<u8>,
    chunks: Seq<Seq<u8>>,
    last: Option<Seq<u8>>,
    i: int,
)
    requires
        0 <= i <= chunks.len(),
        forall|k: int| 0 <= k < chunks.len() ==> (#[trigger] chunks[k]).len() > 0,
        last matches Some(b) ==> b.len() == 0,
    ensures
        receive_run(payload, chunks.map_values(|c: Seq<u8>| Some(c)).push(last), i) == payload
            + concat_chunks(chunks, i),
    decreases chunks.len() - i,
{
    let reads = chunks.map_values(|c: Seq<u8>| Some(c)).push(last);
    if i == chunks.len() {
        assert(reads[i] == last);
        assert(payload + concat_chunks(chunks, i) =~= payload);
    } else {
        assert(reads[i] == Some(chunks[i]));
        lemma_receive_concatenates_chunks(payload + chunks[i], chunks, last, i + 1);
        assert(payload + chunks[i] + concat_chunks(chunks, i + 1) =~= payload + concat_chunks(
            chunks,
            i,
        ));
    }
}

} // verus!
