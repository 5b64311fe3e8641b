//! Bookkeeping of peer-to-peer transfer sessions.

use vstd::prelude::*;
use vstd::string::StringExecFns;
use crate::table::KeyedTable;
use crate::event::{Event, EventKind};
use crate::transfer::{TransferProgress, TransferState};

verus! {

/// State of a peer-to-peer session.
#[derive(Debug, Clone, PartialEq, Eq)]
pub enum SessionState {
    Pending,
    Transferring,
    Completed,
    Failed { error: String },
    Cancelled,
}

impl SessionState {
    pub open spec fn spec_is_terminal(&self) -> bool {
        self is Completed || self is Failed || self is Cancelled
    }

    pub fn is_terminal(&self) -> (r: bool)
        ensures
            r == self.spec_is_terminal(),
    {
        match self {
            SessionState::Completed | SessionState::Failed { .. } | SessionState::Cancelled => true,
            _ => false,
        }
    }
}

/// One outbound or inbound session.
#[derive(Debug, Clone)]
pub struct TransferSession {
    pub id: String,
    pub peer_id: String,
    pub file_name: String,
    pub file_size: u64,
    pub state: SessionState,
    pub save_path: Option<String>,
    pub bytes_transferred: u64,
}

impl TransferSession {
    pub fn new(id: String, peer_id: String, file_name: String, file_size: u64) -> (r: TransferSession)
        ensures
            r.id == id,
            r.peer_id == peer_id,
            r.file_name == file_name,
            r.file_size == file_size,
            r.state == SessionState::Pending,
            r.save_path is None,
            r.bytes_transferred == 0,
    {
        TransferSession {
            id,
            peer_id,
            file_name,
            file_size,
            state: SessionState::Pending,
            save_path: None,
            bytes_transferred: 0,
        }
    }
}

/// The protocol-independent state of a session state.
pub open spec fn transfer_state_of(s: SessionState) -> TransferState {
    match s {
        SessionState::Pending => TransferState::Pending,
        SessionState::Transferring => TransferState::Transferring,
        SessionState::Completed => TransferState::Completed,
        SessionState::Failed { .. } => TransferState::Failed,
        SessionState::Cancelled => TransferState::Cancelled,
    }
}

/// The session after a move: terminal sessions keep their state and count;
/// others take the new state and count, the count capped at the file size.
pub open spec fn moved(s: TransferSession, state: SessionState, bytes: u64) -> TransferSession {
    if s.state.spec_is_terminal() {
        s
    } else {
        TransferSession {
            state,
            bytes_transferred: if bytes <= s.file_size { bytes } else { s.file_size },
            ..s
        }
    }
}

/// Sessions by identifier.
pub struct TransferManager {
    pub sessions: KeyedTable<TransferSession>,
}

impl TransferManager {
    /// Each session's count stays within its file size.
    pub open spec fn wf(&self) -> bool {
        &&& self.sessions.wf()
        &&& forall|k: Seq<char>| #[trigger] self.sessions@.contains_key(k) ==>
            self.sessions@[k].bytes_transferred <= self.sessions@[k].file_size
    }

    pub open spec fn view(&self) -> Map<Seq<char>, TransferSession> {
        self.sessions@
    }

    pub fn new() -> (r: TransferManager)
        ensures
            r.wf(),
            r@ == Map::<Seq<char>, TransferSession>::empty(),
    {
        TransferManager { sessions: KeyedTable::new() }
    }

    pub fn add_session(&mut self, session: TransferSession)
        requires
            old(self).wf(),
            session.bytes_transferred <= session.file_size,
        ensures
            final(self).wf(),
            final(self)@ == old(self)@.insert(session.id@, session),
    {
        let id = session.id.clone();
        self.sessions.insert(id, session);
    }

    pub fn get_session(&self, id: &str) -> (r: Option<&TransferSession>)
        requires
            self.wf(),
        ensures
            r is Some <==> self@.contains_key(id@),
            r matches Some(s) ==> *s == self@[id@],
    {
        self.sessions.get(id)
    }

    fn move_session(&mut self, id: &str, state: SessionState, bytes: Option<u64>)
        requires
            old(self).wf(),
        ensures
            final(self).wf(),
            old(self)@.contains_key(id@) ==> final(self)@ == old(self)@.insert(
                id@,
                moved(old(self)@[id@], state, match bytes { Some(b) => b, None => old(self)@[id@].bytes_transferred }),
            ),
            !old(self)@.contains_key(id@) ==> final(self)@ == old(self)@,
    {
        match self.sessions.remove(id) {
            Some(s) => {
                let count = match bytes {
                    Some(b) => b,
                    None => s.bytes_transferred,
                };
                let next = if s.state.is_terminal() {
                    s
                } else {
                    let capped = if count <= s.file_size { count } else { s.file_size };
                    TransferSession { state, bytes_transferred: capped, ..s }
                };
                self.sessions.insert(String::from_str(id), next);
                proof {
                    assert(self@ =~= old(self)@.insert(
                        id@,
                        moved(old(self)@[id@], state, match bytes { Some(b) => b, None => old(self)@[id@].bytes_transferred }),
                    ));
                }
            },
            None => {},
        }
    }

    /// Records the bytes transferred so far; the session becomes transferring.
    pub fn update_progress(&mut self, id: &str, bytes: u64)
        requires
            old(self).wf(),
        ensures
            final(self).wf(),
            old(self)@.contains_key(id@) ==> final(self)@ == old(self)@.insert(
                id@, moved(old(self)@[id@], SessionState::Transferring, bytes)),
            !old(self)@.contains_key(id@) ==> final(self)@ == old(self)@,
    {
        self.move_session(id, SessionState::Transferring, Some(bytes));
    }

    pub fn complete(&mut self, id: &str)
        requires
            old(self).wf(),
        ensures
            final(self).wf(),
            old(self)@.contains_key(id@) ==> final(self)@ == old(self)@.insert(
                id@, moved(old(self)@[id@], SessionState::Completed, old(self)@[id@].bytes_transferred)),
            !old(self)@.contains_key(id@) ==> final(self)@ == old(self)@,
    {
        self.move_session(id, SessionState::Completed, None);
    }

    pub fn fail(&mut self, id: &str, error: String)
        requires
            old(self).wf(),
        ensures
            final(self).wf(),
            old(self)@.contains_key(id@) ==> final(self)@ == old(self)@.insert(
                id@, moved(old(self)@[id@], SessionState::Failed { error }, old(self)@[id@].bytes_transferred)),
            !old(self)@.contains_key(id@) ==> final(self)@ == old(self)@,
    {
        self.move_session(id, SessionState::Failed { error }, None);
    }

    pub fn cancel(&mut self, id: &str)
        requires
            old(self).wf(),
        ensures
            final(self).wf(),
            old(self)@.contains_key(id@) ==> final(self)@ == old(self)@.insert(
                id@, moved(old(self)@[id@], SessionState::Cancelled, old(self)@[id@].bytes_transferred)),
            !old(self)@.contains_key(id@) ==> final(self)@ == old(self)@,
    {
        self.move_session(id, SessionState::Cancelled, None);
    }

    /// The progress event of a session, with the file counts the caller
    /// keeps: bytes within the session's size, completed files capped at
    /// the total; none for an unknown session.
    pub fn progress_event(&self, id: &str, files_completed: usize, files_total: usize) -> (r: Option<Event>)
        requires
            self.wf(),
        ensures
            !self@.contains_key(id@) ==> r is None,
            self@.contains_key(id@) ==> (r matches Some(e) && e.wf() && (e.kind matches EventKind::TransferProgress(p) && {
                let s = self@[id@];
                &&& p.transfer_id@ == id@
                &&& p.state == transfer_state_of(s.state)
                &&& p.bytes_transferred == s.bytes_transferred
                &&& p.bytes_total == s.file_size
                &&& p.files_total == files_total
                &&& p.files_completed == if files_completed <= files_total { files_completed } else { files_total }
                &&& (s.state matches SessionState::Failed { error } ==> p.error == Some(error))
            })),
    {
        match self.sessions.get(id) {
            Some(s) => {
                let mut p = TransferProgress::new(String::from_str(id), s.file_size, files_total);
                p.record(s.bytes_transferred, files_completed);
                p.state = match &s.state {
                    SessionState::Pending => TransferState::Pending,
                    SessionState::Transferring => TransferState::Transferring,
                    SessionState::Completed => TransferState::Completed,
                    SessionState::Failed { .. } => TransferState::Failed,
                    SessionState::Cancelled => TransferState::Cancelled,
                };
                p.error = match &s.state {
                    SessionState::Failed { error } => Some(error.clone()),
                    _ => None,
                };
                Some(Event::transfer_progress(p))
            },
            None => None,
        }
    }

    pub fn remove(&mut self, id: &str) -> (r: Option<TransferSession>)
        requires
            old(self).wf(),
        ensures
            final(self).wf(),
            final(self)@ == old(self)@.remove(id@),
            r is Some <==> old(self)@.contains_key(id@),
            r matches Some(s) ==> s == old(self)@[id@],
    {
        self.sessions.remove(id)
    }
}

} // verus!
