//! Transfer requests, intents, states and progress.

use vstd::prelude::*;
use vstd::string::StringExecFns;
use crate::device::{Device, DeviceId};

verus! {

/// Metadata of one file of a transfer.
#[derive(Debug, Clone)]
pub struct FileInfo {
    /// Unique within its session.
    pub id: String,
    pub name: String,
    pub size: u64,
    pub mime_type: String,
    pub hash: Option<String>,
    pub preview: Option<String>,
}

impl FileInfo {
    pub fn new(id: String, name: String, size: u64) -> (r: FileInfo)
        ensures
            r.id == id,
            r.name == name,
            r.size == size,
            r.mime_type@ == "application/octet-stream"@,
            r.hash is None,
            r.preview is None,
    {
        FileInfo {
            id,
            name,
            size,
            mime_type: String::from_str("application/octet-stream"),
            hash: None,
            preview: None,
        }
    }

    pub fn with_mime(self, mime: &str) -> (r: FileInfo)
        ensures
            r.mime_type@ == mime@,
            r.id == self.id,
            r.name == self.name,
            r.size == self.size,
            r.hash == self.hash,
            r.preview == self.preview,
    {
        FileInfo { mime_type: String::from_str(mime), ..self }
    }
}

/// Sum of the sizes of a list of files.
pub open spec fn sum_sizes(files: Seq<FileInfo>) -> int
    decreases files.len(),
{
    if files.len() == 0 {
        0
    } else {
        sum_sizes(files.drop_last()) + files.last().size
    }
}

proof fn lemma_sum_sizes_push(files: Seq<FileInfo>, f: FileInfo)
    ensures
        sum_sizes(files.push(f)) == sum_sizes(files) + f.size,
{
    assert(files.push(f).drop_last() == files);
}

/// The total size of a list of files, when it fits in a `u64`.
pub fn total_size_of(files: &Vec<FileInfo>) -> (r: Option<u64>)
    ensures
        r is Some <==> sum_sizes(files@) <= u64::MAX,
        r matches Some(t) ==> t == sum_sizes(files@),
{
    let mut total: u64 = 0;
    let mut i: usize = 0;
    while i < files.len()
        invariant
            i <= files.len(),
            total == sum_sizes(files@.subrange(0, i as int)),
        decreases files.len() - i,
    {
        proof {
            lemma_sum_sizes_push(files@.subrange(0, i as int), files@[i as int]);
            assert(files@.subrange(0, i + 1) == files@.subrange(0, i as int).push(files@[i as int]));
        }
        if files[i].size > u64::MAX - total {
            proof {
                lemma_sum_rest_grows(files@, i + 1);
            }
            return None;
        }
        total = total + files[i].size;
        i = i + 1;
    }
    assert(files@ == files@.subrange(0, files.len() as int));
    Some(total)
}

proof fn lemma_sum_rest_grows(files: Seq<FileInfo>, k: int)
    requires
        0 <= k <= files.len(),
    ensures
        sum_sizes(files) >= sum_sizes(files.subrange(0, k)),
    decreases files.len() - k,
{
    if k < files.len() {
        lemma_sum_rest_grows(files, k + 1);
        lemma_sum_sizes_push(files.subrange(0, k), files[k]);
        assert(files.subrange(0, k + 1) == files.subrange(0, k).push(files[k]));
    } else {
        assert(files.subrange(0, k) == files);
    }
}

/// An inbound transfer that a peer asked for.
#[derive(Debug, Clone)]
pub struct TransferRequest {
    pub id: String,
    pub from: Device,
    pub files: Vec<FileInfo>,
    /// Sum of the sizes of `files`.
    pub total_size: u64,
    pub message: Option<String>,
    pub protocol_data: Option<Vec<u8>>,
}

impl TransferRequest {
    /// The total size is the sum of the file sizes.
    pub open spec fn wf(&self) -> bool {
        self.total_size == sum_sizes(self.files@)
    }

    pub fn new(id: String, from: Device, files: Vec<FileInfo>) -> (r: TransferRequest)
        requires
            sum_sizes(files@) <= u64::MAX,
        ensures
            r.wf(),
            r.id == id,
            r.from == from,
            r.files == files,
            r.message is None,
            r.protocol_data is None,
    {
        let total = total_size_of(&files);
        let total_size = match total {
            Some(t) => t,
            None => 0,
        };
        TransferRequest { id, from, files, total_size, message: None, protocol_data: None }
    }

    pub fn file_count(&self) -> (r: usize)
        ensures
            r == self.files@.len(),
    {
        self.files.len()
    }
}

/// An outbound transfer a caller wants: target and local file paths.
#[derive(Debug, Clone)]
pub struct TransferIntent {
    pub target: DeviceId,
    pub files: Vec<String>,
    pub message: Option<String>,
}

impl TransferIntent {
    pub fn new(target: DeviceId, files: Vec<String>) -> (r: TransferIntent)
        ensures
            r.target == target,
            r.files == files,
            r.message is None,
    {
        TransferIntent { target, files, message: None }
    }

    pub fn with_message(self, msg: &str) -> (r: TransferIntent)
        ensures
            r.target == self.target,
            r.files == self.files,
            r.message matches Some(m) && m@ == msg@,
    {
        TransferIntent { message: Some(String::from_str(msg)), ..self }
    }
}

/// State of a transfer.
#[derive(Debug, Clone, Copy, PartialEq, Eq, Structural)]
pub enum TransferState {
    Pending,
    Transferring,
    Completed,
    Rejected,
    Cancelled,
    Failed,
}

impl TransferState {
    pub open spec fn spec_is_terminal(self) -> bool {
        self is Completed || self is Rejected || self is Cancelled || self is Failed
    }

    /// The state after a move to `next`: a terminal state never changes.
    pub open spec fn spec_transition(self, next: TransferState) -> TransferState {
        if self.spec_is_terminal() {
            self
        } else {
            next
        }
    }

    pub fn is_terminal(&self) -> (r: bool)
        ensures
            r == self.spec_is_terminal(),
    {
        match self {
            TransferState::Completed | TransferState::Rejected | TransferState::Cancelled
            | TransferState::Failed => true,
            _ => false,
        }
    }

    /// Moves to `next` unless the state is terminal.
    pub fn transition(self, next: TransferState) -> (r: TransferState)
        ensures
            r == self.spec_transition(next),
    {
        if self.is_terminal() {
            self
        } else {
            next
        }
    }
}

/// The terminal states are exactly completed, rejected, cancelled and
/// failed, and once a state is terminal no move changes it.
pub proof fn lemma_terminal_states_absorb(s: TransferState, moves: Seq<TransferState>)
    ensures
        s.spec_is_terminal() <==> (s == TransferState::Completed || s == TransferState::Rejected
            || s == TransferState::Cancelled || s == TransferState::Failed),
        s.spec_is_terminal() ==> moves.fold_left(s, |acc: TransferState, n: TransferState| acc.spec_transition(n)) == s,
    decreases moves.len(),
{
    if s.spec_is_terminal() && moves.len() > 0 {
        lemma_terminal_states_absorb(s, moves.drop_last());
    }
}

/// Progress of a transfer as reported to subscribers.
#[derive(Debug, Clone)]
pub struct TransferProgress {
    pub transfer_id: String,
    pub state: TransferState,
    pub current_file: Option<String>,
    pub bytes_transferred: u64,
    pub bytes_total: u64,
    pub files_completed: usize,
    pub files_total: usize,
    pub speed_bps: Option<u64>,
    pub error: Option<String>,
}

impl TransferProgress {
    /// Counts never pass their totals.
    pub open spec fn wf(&self) -> bool {
        self.bytes_transferred <= self.bytes_total && self.files_completed <= self.files_total
    }

    pub fn new(transfer_id: String, bytes_total: u64, files_total: usize) -> (r: TransferProgress)
        ensures
            r.wf(),
            r.transfer_id == transfer_id,
            r.state == TransferState::Pending,
            r.current_file is None,
            r.bytes_transferred == 0,
            r.bytes_total == bytes_total,
            r.files_completed == 0,
            r.files_total == files_total,
            r.speed_bps is None,
            r.error is None,
    {
        TransferProgress {
            transfer_id,
            state: TransferState::Pending,
            current_file: None,
            bytes_transferred: 0,
            bytes_total,
            files_completed: 0,
            files_total,
            speed_bps: None,
            error: None,
        }
    }

    /// Records how far the transfer got; counts are capped at the totals,
    /// and a transfer that is not yet terminal becomes transferring.
    pub fn record(&mut self, bytes: u64, files: usize)
        ensures
            final(self).wf(),
            final(self).bytes_transferred == if bytes <= old(self).bytes_total { bytes } else { old(self).bytes_total },
            final(self).files_completed == if files <= old(self).files_total { files } else { old(self).files_total },
            final(self).state == old(self).state.spec_transition(TransferState::Transferring),
            final(self).bytes_total == old(self).bytes_total,
            final(self).files_total == old(self).files_total,
            final(self).transfer_id == old(self).transfer_id,
    {
        self.bytes_transferred = if bytes <= self.bytes_total { bytes } else { self.bytes_total };
        self.files_completed = if files <= self.files_total { files } else { self.files_total };
        self.state = self.state.transition(TransferState::Transferring);
    }

    /// Marks the transfer complete: every byte and file is counted.
    pub fn complete(&mut self)
        requires
            old(self).wf(),
        ensures
            final(self).wf(),
            old(self).state.spec_is_terminal() ==> final(self).state == old(self).state,
            !old(self).state.spec_is_terminal() ==> final(self).state == TransferState::Completed
                && final(self).bytes_transferred == old(self).bytes_total
                && final(self).files_completed == old(self).files_total,
            old(self).state.spec_is_terminal() ==> final(self).bytes_transferred == old(self).bytes_transferred
                && final(self).files_completed == old(self).files_completed,
            final(self).bytes_total == old(self).bytes_total,
            final(self).files_total == old(self).files_total,
            final(self).transfer_id == old(self).transfer_id,
    {
        if !self.state.is_terminal() {
            self.bytes_transferred = self.bytes_total;
            self.files_completed = self.files_total;
            self.state = TransferState::Completed;
        }
    }

    /// Marks the transfer failed with a message, unless it already ended.
    pub fn fail(&mut self, message: String)
        requires
            old(self).wf(),
        ensures
            final(self).wf(),
            final(self).state == old(self).state.spec_transition(TransferState::Failed),
            !old(self).state.spec_is_terminal() ==> final(self).error == Some(message),
            old(self).state.spec_is_terminal() ==> final(self).error == old(self).error,
            final(self).bytes_transferred == old(self).bytes_transferred,
            final(self).files_completed == old(self).files_completed,
            final(self).bytes_total == old(self).bytes_total,
            final(self).files_total == old(self).files_total,
            final(self).transfer_id == old(self).transfer_id,
    {
        if !self.state.is_terminal() {
            self.state = TransferState::Failed;
            self.error = Some(message);
        }
    }
}

/// Policy for inbound transfers.
#[derive(Debug, Clone, Copy, PartialEq, Eq, Structural)]
pub enum AcceptPolicy {
    AlwaysAsk,
    AutoAcceptTrusted,
    AutoAcceptAll,
}

impl Default for AcceptPolicy {
    fn default() -> (r: AcceptPolicy)
        ensures
            r == AcceptPolicy::AlwaysAsk,
    {
        AcceptPolicy::AlwaysAsk
    }
}

} // verus!
