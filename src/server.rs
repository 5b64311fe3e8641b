//! Upload sessions of the LocalSend HTTPS server: PIN check, session and
//! token issue, upload admission and cancellation.

use vstd::prelude::*;
use vstd::string::{StrSliceExecFns, StringExecFns};
use crate::text::same_chars;
use crate::device::{Device, DeviceType, IpAddress};
use crate::ids::new_uuid;
use crate::models::{DeviceInfo, FileInfo, PrepareUploadRequest, PrepareUploadResponse};
use crate::multicast::{advertised_type, describes, localsend_id};
use crate::table::{KeyedTable, entries_map};
use crate::device::Peer;

verus! {

/// HTTP status: accepted.
pub const STATUS_OK: u16 = 200;

/// HTTP status: missing or wrong PIN or token.
pub const STATUS_UNAUTHORIZED: u16 = 401;

/// HTTP status: unknown session or file.
pub const STATUS_NOT_FOUND: u16 = 404;

/// HTTP status: a fresh identifier came out equal to one in use.
pub const STATUS_INTERNAL_ERROR: u16 = 500;

/// No two keys of a token table share a token.
pub open spec fn tokens_distinct(t: Map<Seq<char>, String>) -> bool {
    forall|a: Seq<char>, b: Seq<char>| #[trigger] t.contains_key(a) && #[trigger] t.contains_key(b) && a != b ==> t[a]@ != t[b]@
}

/// Whether some key of the table holds this token.
fn token_in_use(table: &KeyedTable<String>, token: &String) -> (r: bool)
    requires
        table.wf(),
    ensures
        r == exists|k: Seq<char>| #[trigger] table@.contains_key(k) && table@[k]@ == token@,
{
    let mut i: usize = 0;
    while i < table.entries.len()
        invariant
            table.wf(),
            i <= table.entries@.len(),
            forall|j: int| 0 <= j < i ==> (#[trigger] table.entries@[j]).1@ != token@,
        decreases table.entries.len() - i,
    {
        if table.entries[i].1 == *token {
            proof {
                crate::table::lemma_entries_map_lookup(table.entries@, i as int);
                assert(table@.contains_key(table.entries@[i as int].0@));
            }
            return true;
        }
        i = i + 1;
    }
    proof {
        assert forall|k: Seq<char>| #[trigger] table@.contains_key(k) implies table@[k]@ != token@ by {
            crate::table::lemma_entries_map_dom(table.entries@, k);
            let j = choose|j: int| 0 <= j < table.entries@.len() && table.entries@[j].0@ == k;
            crate::table::lemma_entries_map_lookup(table.entries@, j);
            assert(table.entries@[j].1@ != token@);
        }
    }
    false
}

/// An upload session opened by `prepare-upload`.
pub struct TransferSession {
    pub id: String,
    pub from: Device,
    pub files: KeyedTable<FileInfo>,
    pub tokens: KeyedTable<String>,
}

impl TransferSession {
    /// Each offered file has exactly one token.
    pub open spec fn wf(&self) -> bool {
        &&& self.files.wf()
        &&& self.tokens.wf()
        &&& self.tokens@.dom() == self.files@.dom()
    }
}

/// Query of `prepare-upload`.
#[derive(Debug, Clone)]
pub struct PrepareUploadQuery {
    pub pin: Option<String>,
}

/// Query of `upload`.
#[derive(Debug, Clone)]
pub struct UploadQuery {
    pub session_id: String,
    pub file_id: String,
    pub token: String,
}

/// Where an admitted upload is written: `{save_dir}/{file_name}`.
pub struct UploadTarget {
    pub save_dir: String,
    pub file_name: String,
}

/// Whether a `prepare-upload` carrying `given` passes the configured PIN.
pub open spec fn pin_ok(required: Option<String>, given: Option<String>) -> bool {
    match required {
        None => true,
        Some(p) => given matches Some(g) && g@ == p@,
    }
}

/// The sender of a prepare request, as a device of unknown address.
pub fn create_temp_device(info: &DeviceInfo) -> (r: Device)
    ensures
        describes(r, info.fingerprint@, info.alias@, advertised_type(info.device_type), info.version@,
            IpAddress::V4(0, 0, 0, 0), info.port),
{
    let device_type = match &info.device_type {
        Some(t) => DeviceType::from_str(t.as_str()),
        None => DeviceType::Desktop,
    };
    let peer = Peer::new(localsend_id(), info.fingerprint.clone(), info.alias.clone())
        .with_device_type(device_type)
        .with_version(info.version.as_str());
    Device::new(peer, IpAddress::unspecified(), info.port)
}

/// State of the server: its description, open sessions, where uploads go,
/// and the PIN, if any.
pub struct ServerState {
    pub local_info: DeviceInfo,
    pub sessions: KeyedTable<TransferSession>,
    pub save_dir: String,
    pub pin: Option<String>,
}

impl ServerState {
    pub open spec fn wf(&self) -> bool {
        &&& self.sessions.wf()
        &&& forall|k: Seq<char>| #[trigger] self.sessions@.contains_key(k) ==> self.sessions@[k].wf()
    }

    pub fn new(local_info: DeviceInfo, save_dir: String, pin: Option<String>) -> (r: ServerState)
        ensures
            r.wf(),
            r.local_info == local_info,
            r.save_dir == save_dir,
            r.pin == pin,
            r.sessions@ == Map::<Seq<char>, TransferSession>::empty(),
    {
        ServerState { local_info, sessions: KeyedTable::new(), save_dir, pin }
    }

    /// `prepare-upload`: without the configured PIN the answer is 401 and
    /// nothing changes; otherwise a new session with one fresh token per
    /// offered file is opened, and its identifier and tokens are returned.
    /// The identifiers come from a random source: should one equal a session
    /// already open, or two tokens come out equal, the answer is 500 and
    /// nothing changes, so no live session is ever replaced.
    pub fn prepare_upload(&mut self, query: &PrepareUploadQuery, request: PrepareUploadRequest) -> (r: Result<PrepareUploadResponse, u16>)
        requires
            old(self).wf(),
            request.files.wf(),
        ensures
            final(self).wf(),
            final(self).pin == old(self).pin,
            final(self).save_dir == old(self).save_dir,
            !pin_ok(old(self).pin, query.pin) ==> r == Err::<PrepareUploadResponse, u16>(STATUS_UNAUTHORIZED) && final(self).sessions@ == old(self).sessions@,
            pin_ok(old(self).pin, query.pin) ==> (r is Ok || (r == Err::<PrepareUploadResponse, u16>(STATUS_INTERNAL_ERROR)
                && final(self).sessions@ == old(self).sessions@)),
            r matches Ok(resp) ==> pin_ok(old(self).pin, query.pin),
            r matches Ok(resp) ==> ({
                let s = final(self).sessions@[resp.session_id@];
                &&& !old(self).sessions@.contains_key(resp.session_id@)
                &&& tokens_distinct(resp.files@)
                &&& final(self).sessions@ == old(self).sessions@.insert(resp.session_id@, s)
                &&& s.files@ == request.files@
                &&& s.tokens@ == resp.files@
                &&& resp.files.wf()
                &&& resp.files@.dom() == request.files@.dom()
                &&& s.from.peer.id.fingerprint@ == request.info.fingerprint@
            }),
    {
        let allowed = match &self.pin {
            None => true,
            Some(p) => match &query.pin {
                Some(g) => *g == *p,
                None => false,
            },
        };
        if !allowed {
            return Err(STATUS_UNAUTHORIZED);
        }
        let session_id = new_uuid();
        if self.sessions.contains_key(session_id.as_str()) {
            return Err(STATUS_INTERNAL_ERROR);
        }
        let mut tokens: KeyedTable<String> = KeyedTable::new();
        let mut copy: KeyedTable<String> = KeyedTable::new();
        let mut i: usize = 0;
        while i < request.files.entries.len()
            invariant
                request.files.wf(),
                i <= request.files.entries@.len(),
                tokens.wf(),
                copy.wf(),
                tokens@ == copy@,
                tokens@.dom() == entries_map(request.files.entries@.take(i as int)).dom(),
                tokens_distinct(tokens@),
                self.sessions == old(self).sessions,
                self.pin == old(self).pin,
                self.save_dir == old(self).save_dir,
                old(self).wf(),
                pin_ok(old(self).pin, query.pin),
            decreases request.files.entries.len() - i,
        {
            let token = new_uuid();
            if token_in_use(&tokens, &token) {
                return Err(STATUS_INTERNAL_ERROR);
            }
            let key = request.files.entries[i].0.clone();
            proof {
                let t = request.files.entries@.take(i + 1);
                assert(t.drop_last() == request.files.entries@.take(i as int));
                crate::table::lemma_entries_map_dom(request.files.entries@.take(i as int), key@);
                if tokens@.contains_key(key@) {
                    let j = choose|j: int| 0 <= j < i && request.files.entries@.take(i as int)[j].0@ == key@;
                    assert(request.files.entries@[j].0@ == request.files.entries@[i as int].0@);
                }
            }
            tokens.insert(key.clone(), token.clone());
            copy.insert(key, token);
            proof {
                assert(tokens@.dom() =~= entries_map(request.files.entries@.take(i + 1)).dom());
            }
            i = i + 1;
        }
        assert(request.files.entries@.take(request.files.entries@.len() as int) == request.files.entries@);
        let from = create_temp_device(&request.info);
        let session = TransferSession { id: session_id.clone(), from, files: request.files, tokens };
        let key = session_id.clone();
        self.sessions.insert(key, session);
        Ok(PrepareUploadResponse { session_id, files: copy })
    }

    /// `upload`: an unknown session or file is 404, a wrong token is 401;
    /// otherwise the place to write the file.
    pub fn check_upload(&self, query: &UploadQuery) -> (r: Result<UploadTarget, u16>)
        requires
            self.wf(),
        ensures
            !self.sessions@.contains_key(query.session_id@) ==> r == Err::<UploadTarget, u16>(STATUS_NOT_FOUND),
            self.sessions@.contains_key(query.session_id@) ==> {
                let s = self.sessions@[query.session_id@];
                &&& !s.tokens@.contains_key(query.file_id@) ==> r == Err::<UploadTarget, u16>(STATUS_NOT_FOUND)
                &&& s.tokens@.contains_key(query.file_id@) && s.tokens@[query.file_id@]@ != query.token@
                    ==> r == Err::<UploadTarget, u16>(STATUS_UNAUTHORIZED)
                &&& s.tokens@.contains_key(query.file_id@) && s.tokens@[query.file_id@]@ == query.token@
                    ==> (r matches Ok(t) && t.file_name@ == s.files@[query.file_id@].file_name@ && t.save_dir@ == self.save_dir@)
            },
    {
        let session = match self.sessions.get(query.session_id.as_str()) {
            Some(s) => s,
            None => {
                return Err(STATUS_NOT_FOUND);
            },
        };
        let expected = match session.tokens.get(query.file_id.as_str()) {
            Some(t) => t,
            None => {
                return Err(STATUS_NOT_FOUND);
            },
        };
        if query.token != *expected {
            return Err(STATUS_UNAUTHORIZED);
        }
        match session.files.get(query.file_id.as_str()) {
            Some(f) => Ok(UploadTarget { save_dir: self.save_dir.clone(), file_name: f.file_name.clone() }),
            None => Err(STATUS_NOT_FOUND),
        }
    }

    /// `cancel`: the session is dropped.
    pub fn cancel(&mut self, session_id: &str) -> (r: u16)
        requires
            old(self).wf(),
        ensures
            final(self).wf(),
            final(self).sessions@ == old(self).sessions@.remove(session_id@),
            r == STATUS_OK,
    {
        let _ = self.sessions.remove(session_id);
        STATUS_OK
    }
}

/// The pieces of `s` between the separators `c`, as `str::split` gives
/// them: an empty string gives one empty piece.
pub open spec fn split_on(s: Seq<char>, c: char) -> Seq<Seq<char>>
    decreases s.len(),
{
    if s.len() == 0 {
        seq![Seq::<char>::empty()]
    } else {
        let prev = split_on(s.drop_last(), c);
        if s.last() == c {
            prev.push(Seq::<char>::empty())
        } else {
            prev.update(prev.len() - 1, prev.last().push(s.last()))
        }
    }
}

proof fn lemma_split_nonempty(s: Seq<char>, c: char)
    ensures
        split_on(s, c).len() >= 1,
    decreases s.len(),
{
    if s.len() > 0 {
        lemma_split_nonempty(s.drop_last(), c);
    }
}

/// Position of the first `=` of a pair, if any.
pub open spec fn has_eq_at(pair: Seq<char>, i: int) -> bool {
    0 <= i < pair.len() && pair[i] == '=' && forall|k: int| 0 <= k < i ==> #[trigger] pair[k] != '='
}

/// The key of a `key=value` pair: all of it when there is no `=`.
pub open spec fn pair_key(pair: Seq<char>) -> Seq<char> {
    if exists|i: int| has_eq_at(pair, i) {
        pair.take(choose|i: int| has_eq_at(pair, i))
    } else {
        pair
    }
}

/// The value of a `key=value` pair: empty when there is no `=`.
pub open spec fn pair_value(pair: Seq<char>) -> Seq<char> {
    if exists|i: int| has_eq_at(pair, i) {
        pair.skip((choose|i: int| has_eq_at(pair, i)) + 1)
    } else {
        Seq::empty()
    }
}

/// The value of the last pair with this key.
pub open spec fn last_value(pairs: Seq<Seq<char>>, key: Seq<char>) -> Option<Seq<char>>
    decreases pairs.len(),
{
    if pairs.len() == 0 {
        None
    } else if pair_key(pairs.last()) == key {
        Some(pair_value(pairs.last()))
    } else {
        last_value(pairs.drop_last(), key)
    }
}

/// Key and value of one `key=value` pair.
fn split_pair(pair: &str) -> (r: (String, String))
    ensures
        r.0@ == pair_key(pair@),
        r.1@ == pair_value(pair@),
{
    let n = pair.unicode_len();
    let mut i: usize = 0;
    while i < n
        invariant
            n == pair@.len(),
            i <= n,
            forall|k: int| 0 <= k < i ==> #[trigger] pair@[k] != '=',
        decreases n - i,
    {
        if pair.get_char(i) == '=' {
            proof {
                assert(has_eq_at(pair@, i as int));
                assert forall|j: int| has_eq_at(pair@, j) implies j == i by {
                    if j < i {
                        assert(pair@[j] != '=');
                    }
                    if j > i {
                        assert(pair@[i as int] != '=');
                    }
                }
            }
            let key = String::from_str(pair.substring_char(0, i));
            let value = String::from_str(pair.substring_char(i + 1, n));
            proof {
                assert(pair@.subrange(0, i as int) == pair@.take(i as int));
                assert(pair@.subrange(i + 1, n as int) == pair@.skip(i + 1));
            }
            return (key, value);
        }
        i = i + 1;
    }
    proof {
        assert(!exists|j: int| has_eq_at(pair@, j));
    }
    (String::from_str(pair), String::new())
}

/// Records a finished pair into the three fields of an upload query.
fn take_pair(pair: &str, session_id: &mut Option<String>, file_id: &mut Option<String>, token: &mut Option<String>)
    ensures
        pair_key(pair@) == "sessionId"@ ==> (*final(session_id) matches Some(v) && v@ == pair_value(pair@)),
        pair_key(pair@) != "sessionId"@ ==> *final(session_id) == *old(session_id),
        pair_key(pair@) == "fileId"@ ==> (*final(file_id) matches Some(v) && v@ == pair_value(pair@)),
        pair_key(pair@) != "fileId"@ ==> *final(file_id) == *old(file_id),
        pair_key(pair@) == "token"@ ==> (*final(token) matches Some(v) && v@ == pair_value(pair@)),
        pair_key(pair@) != "token"@ ==> *final(token) == *old(token),
{
    let (key, value) = split_pair(pair);
    proof {
        reveal_strlit("sessionId");
        reveal_strlit("fileId");
        reveal_strlit("token");
        assert("sessionId"@.len() != "fileId"@.len());
        assert("sessionId"@.len() != "token"@.len());
        assert("fileId"@[0] != "token"@[0]);
    }
    if same_chars(key.as_str(), "sessionId") {
        *session_id = Some(value);
    } else if same_chars(key.as_str(), "fileId") {
        *file_id = Some(value);
    } else if same_chars(key.as_str(), "token") {
        *token = Some(value);
    }
}

/// The field of an upload query as the text gives it.
pub open spec fn field_matches(field: Option<String>, pairs: Seq<Seq<char>>, key: Seq<char>) -> bool {
    match last_value(pairs, key) {
        None => field is None,
        Some(v) => field matches Some(f) && f@ == v,
    }
}

/// The upload query in a URL's query text: `sessionId`, `fileId` and
/// `token`, the last occurrence of each; none when one of them is missing.
pub fn parse_upload_query(query: &str) -> (r: Option<UploadQuery>)
    ensures
        (last_value(split_on(query@, '&'), "sessionId"@) is Some && last_value(split_on(query@, '&'), "fileId"@) is Some
            && last_value(split_on(query@, '&'), "token"@) is Some) ==> (r matches Some(q)
            && Some(q.session_id@) == last_value(split_on(query@, '&'), "sessionId"@)
            && Some(q.file_id@) == last_value(split_on(query@, '&'), "fileId"@)
            && Some(q.token@) == last_value(split_on(query@, '&'), "token"@)),
        !(last_value(split_on(query@, '&'), "sessionId"@) is Some && last_value(split_on(query@, '&'), "fileId"@) is Some
            && last_value(split_on(query@, '&'), "token"@) is Some) ==> r is None,
{
    let n = query.unicode_len();
    let mut session_id: Option<String> = None;
    let mut file_id: Option<String> = None;
    let mut token: Option<String> = None;
    let mut current = String::new();
    let mut i: usize = 0;
    proof {
        assert(query@.take(0) =~= Seq::<char>::empty());
        assert(split_on(Seq::<char>::empty(), '&').drop_last() =~= Seq::<Seq<char>>::empty());
    }
    while i < n
        invariant
            n == query@.len(),
            i <= n,
            current@ == split_on(query@.take(i as int), '&').last(),
            field_matches(session_id, split_on(query@.take(i as int), '&').drop_last(), "sessionId"@),
            field_matches(file_id, split_on(query@.take(i as int), '&').drop_last(), "fileId"@),
            field_matches(token, split_on(query@.take(i as int), '&').drop_last(), "token"@),
        decreases n - i,
    {
        let c = query.get_char(i);
        let ghost prev = split_on(query@.take(i as int), '&');
        proof {
            lemma_split_nonempty(query@.take(i as int), '&');
            assert(query@.take(i + 1).drop_last() == query@.take(i as int));
            assert(query@.take(i + 1).last() == c);
        }
        if c == '&' {
            take_pair(current.as_str(), &mut session_id, &mut file_id, &mut token);
            current = String::new();
            proof {
                assert(split_on(query@.take(i + 1), '&') == prev.push(Seq::<char>::empty()));
                assert(prev.push(Seq::<char>::empty()).drop_last() == prev);
                assert(prev == prev.drop_last().push(prev.last()));
            }
        } else {
            crate::text::push_char(&mut current, c);
            proof {
                let next = prev.update(prev.len() - 1, prev.last().push(c));
                assert(split_on(query@.take(i + 1), '&') == next);
                assert(next.drop_last() =~= prev.drop_last());
            }
        }
        i = i + 1;
    }
    take_pair(current.as_str(), &mut session_id, &mut file_id, &mut token);
    proof {
        lemma_split_nonempty(query@.take(n as int), '&');
        let all = split_on(query@.take(n as int), '&');
        assert(all == all.drop_last().push(all.last()));
        assert(query@.take(n as int) == query@);
    }
    match (session_id, file_id, token) {
        (Some(s), Some(f), Some(t)) => Some(UploadQuery { session_id: s, file_id: f, token: t }),
        _ => None,
    }
}

} // verus!
