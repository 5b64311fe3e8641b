//! Peer-to-peer transfer logic: wire messages, chunking of file data,
//! reassembly on the receiving side, peer bookkeeping and relay reservation.

use vstd::prelude::*;
use vstd::slice::{slice_subrange, slice_to_vec};
use crate::table::KeyedTable;

verus! {

/// Identifier of the peer-to-peer protocol.
pub const P2P_PROTOCOL_ID: &'static str = "p2p";

/// Bytes of file data in one chunk; the last chunk of a file may be shorter.
pub const DEFAULT_CHUNK_SIZE: usize = 65536;

/// Agent string that this node announces through identify.
pub const AGENT_VERSION: &'static str = "/unidrop/1.0.0";

/// Metadata of one file offered in a request.
#[derive(Debug, Clone)]
pub struct P2pFileInfo {
    pub id: String,
    pub name: String,
    pub size: u64,
    pub mime_type: Option<String>,
}

/// Request to send a set of files.
#[derive(Debug, Clone)]
pub struct FileRequest {
    pub transfer_id: String,
    pub files: Vec<P2pFileInfo>,
}

/// Answer to a `FileRequest`.
#[derive(Debug, Clone)]
pub struct FileResponse {
    pub transfer_id: String,
    pub accepted: bool,
    pub message: Option<String>,
}

/// One piece of a file's data.
#[derive(Debug, Clone)]
pub struct FileChunk {
    pub transfer_id: String,
    pub file_id: String,
    pub file_name: String,
    pub chunk_index: u64,
    pub total_chunks: u64,
    pub data: Vec<u8>,
}

/// Acknowledgement of one chunk.
#[derive(Debug, Clone)]
pub struct FileChunkAck {
    pub transfer_id: String,
    pub file_id: String,
    pub chunk_index: u64,
    pub success: bool,
}

/// Number of chunks a file of `size` bytes is cut into.
pub open spec fn chunk_count(size: nat) -> nat {
    size / (DEFAULT_CHUNK_SIZE as nat) + if size % (DEFAULT_CHUNK_SIZE as nat) == 0 { 0nat } else { 1nat }
}

/// Start of chunk `i`.
pub open spec fn chunk_start(i: nat) -> nat {
    i * (DEFAULT_CHUNK_SIZE as nat)
}

/// End of chunk `i` of a file of `size` bytes.
pub open spec fn chunk_end(i: nat, size: nat) -> nat {
    if chunk_start(i) + DEFAULT_CHUNK_SIZE <= size { (chunk_start(i) + DEFAULT_CHUNK_SIZE) as nat } else { size }
}

/// The data of a list of chunks, one after the other.
pub open spec fn joined_data(chunks: Seq<FileChunk>) -> Seq<u8>
    decreases chunks.len(),
{
    if chunks.len() == 0 {
        Seq::empty()
    } else {
        joined_data(chunks.drop_last()) + chunks.last().data@
    }
}

/// Number of chunks of a file of `size` bytes.
pub fn total_chunks(size: u64) -> (r: u64)
    ensures
        r == chunk_count(size as nat),
{
    let c = DEFAULT_CHUNK_SIZE as u64;
    size / c + if size % c == 0 { 0 } else { 1 }
}

/// Cuts a file's data into chunks of `DEFAULT_CHUNK_SIZE` bytes, the last
/// one possibly shorter, numbered from 0.
pub fn split_into_chunks(transfer_id: &String, file_id: &String, file_name: &String, data: &Vec<u8>) -> (r: Vec<FileChunk>)
    ensures
        r@.len() == chunk_count(data@.len()),
        joined_data(r@) == data@,
        forall|i: int| #![trigger r@[i]] 0 <= i < r@.len() ==> {
            &&& r@[i].chunk_index == i
            &&& r@[i].total_chunks == r@.len()
            &&& r@[i].transfer_id == *transfer_id
            &&& r@[i].file_id == *file_id
            &&& r@[i].file_name == *file_name
            &&& r@[i].data@ == data@.subrange(chunk_start(i as nat) as int, chunk_end(i as nat, data@.len()) as int)
            &&& 0 < r@[i].data@.len() <= DEFAULT_CHUNK_SIZE
        },
{
    let len = data.len();
    let n = total_chunks(len as u64);
    let mut out: Vec<FileChunk> = Vec::new();
    let mut pos: usize = 0;
    let mut idx: u64 = 0;
    proof {
        assert(chunk_start(0) == 0) by (nonlinear_arith);
    }
    while pos < len
        invariant
            len == data@.len(),
            n == chunk_count(len as nat),
            pos <= len,
            idx == out@.len(),
            pos < len ==> pos == chunk_start(idx as nat),
            pos < len ==> idx < n,
            pos == len ==> idx == n,
            joined_data(out@) == data@.subrange(0, pos as int),
            forall|i: int| #![trigger out@[i]] 0 <= i < out@.len() ==> {
                &&& out@[i].chunk_index == i
                &&& out@[i].total_chunks == n
                &&& out@[i].transfer_id == *transfer_id
                &&& out@[i].file_id == *file_id
                &&& out@[i].file_name == *file_name
                &&& out@[i].data@ == data@.subrange(chunk_start(i as nat) as int, chunk_end(i as nat, len as nat) as int)
                &&& 0 < out@[i].data@.len() <= DEFAULT_CHUNK_SIZE
            },
        decreases len - pos,
    {
        let end = if len - pos >= DEFAULT_CHUNK_SIZE { pos + DEFAULT_CHUNK_SIZE } else { len };
        let piece = slice_to_vec(slice_subrange(data.as_slice(), pos, end));
        let chunk = FileChunk {
            transfer_id: transfer_id.clone(),
            file_id: file_id.clone(),
            file_name: file_name.clone(),
            chunk_index: idx,
            total_chunks: n,
            data: piece,
        };
        let ghost old_out = out@;
        out.push(chunk);
        proof {
            assert(out@.drop_last() == old_out);
            assert(data@.subrange(0, end as int) == data@.subrange(0, pos as int) + data@.subrange(pos as int, end as int));
            assert(chunk_start(idx as nat + 1) == chunk_start(idx as nat) + DEFAULT_CHUNK_SIZE) by (nonlinear_arith)
                requires
                    chunk_start(idx as nat) == idx * (DEFAULT_CHUNK_SIZE as nat),
                    chunk_start(idx as nat + 1) == (idx + 1) * (DEFAULT_CHUNK_SIZE as nat),
            ;
            let c = DEFAULT_CHUNK_SIZE as nat;
            if end < len {
                // a full chunk, and more data follows
                assert(idx + 1 < n) by (nonlinear_arith)
                    requires
                        pos == idx * c,
                        end == pos + c,
                        end < len,
                        n == (len as nat) / c + if (len as nat) % c == 0 { 0nat } else { 1nat },
                        c == 65536,
                ;
            } else {
                assert(idx + 1 == n) by (nonlinear_arith)
                    requires
                        pos == idx * c,
                        pos < len,
                        end == len,
                        len <= pos + c,
                        n == (len as nat) / c + if (len as nat) % c == 0 { 0nat } else { 1nat },
                        c == 65536,
                ;
            }
        }
        pos = end;
        idx = idx + 1;
    }
    proof {
        assert(data@.subrange(0, len as int) == data@);
        if len == 0 {
            assert(n == 0);
        }
    }
    out
}

/// Whether an acknowledgement confirms exactly this chunk.
pub open spec fn confirms(ack: FileChunkAck, chunk: FileChunk) -> bool {
    &&& ack.success
    &&& ack.transfer_id@ == chunk.transfer_id@
    &&& ack.file_id@ == chunk.file_id@
    &&& ack.chunk_index == chunk.chunk_index
}

/// Whether an acknowledgement confirms exactly this chunk.
pub fn ack_confirms(ack: &FileChunkAck, chunk: &FileChunk) -> (r: bool)
    ensures
        r == confirms(*ack, *chunk),
{
    ack.success && ack.chunk_index == chunk.chunk_index && ack.transfer_id == chunk.transfer_id
        && ack.file_id == chunk.file_id
}

/// What the sender does after waiting for the acknowledgement of a chunk.
#[derive(Debug, Clone, Copy, PartialEq, Eq, Structural)]
pub enum SendStep {
    /// Send the chunk with this index.
    Next(usize),
    /// Every chunk was confirmed.
    Done,
    /// The acknowledgement failed, did not match, or did not come in time.
    Fail,
}

/// The sender's decision after chunk `index` of `chunks`: go on only when
/// an acknowledgement confirms that very chunk.
pub fn step_after_ack(chunks: &Vec<FileChunk>, index: usize, ack: Option<&FileChunkAck>) -> (r: SendStep)
    requires
        index < chunks@.len(),
    ensures
        ack matches Some(a) && confirms(*a, chunks@[index as int]) ==> (if index + 1 < chunks@.len() {
            r == SendStep::Next((index + 1) as usize)
        } else {
            r == SendStep::Done
        }),
        !(ack matches Some(a) && confirms(*a, chunks@[index as int])) ==> r == SendStep::Fail,
{
    match ack {
        Some(a) => {
            if ack_confirms(a, &chunks[index]) {
                if index < chunks.len() - 1 {
                    SendStep::Next(index + 1)
                } else {
                    SendStep::Done
                }
            } else {
                SendStep::Fail
            }
        },
        None => SendStep::Fail,
    }
}

/// Appends `b` to `a`.
fn append_bytes(a: &mut Vec<u8>, b: &Vec<u8>)
    ensures
        final(a)@ == old(a)@ + b@,
{
    let mut i: usize = 0;
    while i < b.len()
        invariant
            i <= b@.len(),
            a@ == old(a)@ + b@.subrange(0, i as int),
        decreases b.len() - i,
    {
        a.push(b[i]);
        proof {
            assert(b@.subrange(0, i + 1) == b@.subrange(0, i as int).push(b@[i as int]));
        }
        i = i + 1;
    }
    assert(b@.subrange(0, b@.len() as int) == b@);
}

/// Data received so far, per transfer and per file.
pub struct ReceiveBuffers {
    pub transfers: KeyedTable<KeyedTable<Vec<u8>>>,
}

impl ReceiveBuffers {
    pub open spec fn wf(&self) -> bool {
        &&& self.transfers.wf()
        &&& forall|t: Seq<char>| #[trigger] self.transfers@.contains_key(t) ==> self.transfers@[t].wf()
    }

    /// Bytes buffered for a file of a transfer; empty when there are none.
    pub open spec fn buffered(&self, t: Seq<char>, f: Seq<char>) -> Seq<u8> {
        if self.transfers@.contains_key(t) && self.transfers@[t]@.contains_key(f) {
            self.transfers@[t]@[f]@
        } else {
            Seq::empty()
        }
    }

    pub fn new() -> (r: ReceiveBuffers)
        ensures
            r.wf(),
            forall|t: Seq<char>, f: Seq<char>| r.buffered(t, f) == Seq::<u8>::empty(),
    {
        ReceiveBuffers { transfers: KeyedTable::new() }
    }

    /// Takes in one chunk: its data is appended to the file's buffer and
    /// acknowledged. The chunk with the last index hands out the whole
    /// file's data and drops the buffer.
    pub fn on_chunk(&mut self, chunk: &FileChunk) -> (r: (FileChunkAck, Option<Vec<u8>>))
        requires
            old(self).wf(),
        ensures
            final(self).wf(),
            r.0.transfer_id == chunk.transfer_id,
            r.0.file_id == chunk.file_id,
            r.0.chunk_index == chunk.chunk_index,
            r.0.success,
            chunk.chunk_index + 1 == chunk.total_chunks ==> {
                &&& r.1 matches Some(d) && d@ == old(self).buffered(chunk.transfer_id@, chunk.file_id@) + chunk.data@
                &&& final(self).buffered(chunk.transfer_id@, chunk.file_id@) == Seq::<u8>::empty()
            },
            chunk.chunk_index + 1 != chunk.total_chunks ==> {
                &&& r.1 is None
                &&& final(self).buffered(chunk.transfer_id@, chunk.file_id@) == old(self).buffered(chunk.transfer_id@, chunk.file_id@) + chunk.data@
            },
            forall|t: Seq<char>, f: Seq<char>| !(t == chunk.transfer_id@ && f == chunk.file_id@) ==>
                #[trigger] final(self).buffered(t, f) == old(self).buffered(t, f),
    {
        let ghost before = *self;
        let tid = chunk.transfer_id.as_str();
        let fid = chunk.file_id.as_str();
        let mut files = match self.transfers.remove(tid) {
            Some(x) => x,
            None => KeyedTable::new(),
        };
        let mut data = match files.remove(fid) {
            Some(d) => d,
            None => Vec::new(),
        };
        append_bytes(&mut data, &chunk.data);
        let ack = FileChunkAck {
            transfer_id: chunk.transfer_id.clone(),
            file_id: chunk.file_id.clone(),
            chunk_index: chunk.chunk_index,
            success: true,
        };
        let last = chunk.total_chunks >= 1 && chunk.chunk_index == chunk.total_chunks - 1;
        if last {
            if files.len() > 0 {
                self.transfers.insert(chunk.transfer_id.clone(), files);
            }
            proof {
                assert forall|t: Seq<char>, f: Seq<char>| !(t == chunk.transfer_id@ && f == chunk.file_id@) implies
                    #[trigger] self.buffered(t, f) == before.buffered(t, f) by {
                    if t == chunk.transfer_id@ && files@.len() == 0 {
                        assert(!files@.contains_key(f));
                    }
                }
                if files@.len() == 0 {
                    assert(!files@.contains_key(fid@));
                }
            }
            (ack, Some(data))
        } else {
            files.insert(chunk.file_id.clone(), data);
            self.transfers.insert(chunk.transfer_id.clone(), files);
            (ack, None)
        }
    }
}

} // verus!
