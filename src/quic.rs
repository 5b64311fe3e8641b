//! The QUIC transport's own wire: length-prefixed frames, its messages,
//! and the decisions of both ends.

use vstd::prelude::*;
use vstd::string::StringExecFns;
use vstd::slice::{slice_subrange, slice_to_vec};
use crate::error::Error;
use crate::ids::new_uuid;
use crate::text::same_chars;

verus! {

/// The QUIC endpoint listens on the HTTPS port plus this offset.
pub const QUIC_PORT_OFFSET: u16 = 1;

/// Metadata of one file of a QUIC transfer.
#[derive(Debug, Clone)]
pub struct FileMetadata {
    pub id: String,
    pub name: String,
    pub size: u64,
    pub mime_type: Option<String>,
}

/// Messages of the QUIC transport.
#[derive(Debug, Clone)]
pub enum Message {
    TransferRequest { session_id: String, files: Vec<FileMetadata> },
    TransferResponse { session_id: String, accepted: bool, tokens: Vec<String> },
    FileHeader { file_id: String, token: String, file_name: String, size: u64 },
    TransferComplete { session_id: String },
    Error { message: String },
}

/// The QUIC port of a node whose HTTPS port is `http_port`.
pub fn quic_port(http_port: u16) -> (r: Option<u16>)
    ensures
        http_port < u16::MAX ==> r == Some((http_port + QUIC_PORT_OFFSET) as u16),
        http_port == u16::MAX ==> r is None,
{
    if http_port < u16::MAX {
        Some(http_port + QUIC_PORT_OFFSET)
    } else {
        None
    }
}

/// Big-endian bytes of a 32-bit length.
pub open spec fn be_bytes(n: u32) -> Seq<u8> {
    seq![(n >> 24u32) as u8, ((n >> 16u32) & 0xffu32) as u8, ((n >> 8u32) & 0xffu32) as u8, (n & 0xffu32) as u8]
}

/// The 32-bit number of four big-endian bytes.
pub open spec fn be_value(b0: u8, b1: u8, b2: u8, b3: u8) -> u32 {
    ((b0 as u32) << 24u32) | ((b1 as u32) << 16u32) | ((b2 as u32) << 8u32) | (b3 as u32)
}

/// A frame: the payload's length as four big-endian bytes, then the payload.
pub open spec fn frame_of(payload: Seq<u8>) -> Seq<u8> {
    be_bytes(payload.len() as u32) + payload
}

/// The payload of the frame at the start of `buf`, and the bytes it
/// takes, when the whole frame is there.
pub open spec fn parse_of(buf: Seq<u8>) -> Option<(Seq<u8>, nat)> {
    if buf.len() < 4 {
        None
    } else {
        let n = be_value(buf[0], buf[1], buf[2], buf[3]) as nat;
        if buf.len() < 4 + n {
            None
        } else {
            Some((buf.subrange(4, 4 + n as int), 4 + n))
        }
    }
}

proof fn lemma_be_round_trip(n: u32)
    ensures
        be_value(be_bytes(n)[0], be_bytes(n)[1], be_bytes(n)[2], be_bytes(n)[3]) == n,
{
    let b0 = (n >> 24u32) as u8;
    let b1 = ((n >> 16u32) & 0xffu32) as u8;
    let b2 = ((n >> 8u32) & 0xffu32) as u8;
    let b3 = (n & 0xffu32) as u8;
    assert(((b0 as u32) << 24u32) | ((b1 as u32) << 16u32) | ((b2 as u32) << 8u32) | (b3 as u32) == n) by (bit_vector)
        requires
            b0 == (n >> 24u32) as u8,
            b1 == ((n >> 16u32) & 0xffu32) as u8,
            b2 == ((n >> 8u32) & 0xffu32) as u8,
            b3 == (n & 0xffu32) as u8,
    ;
}

/// Framing a payload and reading the frame back gives the payload, and the
/// reader takes exactly the frame's bytes, whatever follows it.
pub proof fn lemma_frame_round_trip(payload: Seq<u8>, rest: Seq<u8>)
    requires
        payload.len() <= u32::MAX,
    ensures
        parse_of(frame_of(payload) + rest) == Some((payload, (payload.len() + 4) as nat)),
{
    let f = frame_of(payload) + rest;
    let n = payload.len() as u32;
    lemma_be_round_trip(n);
    assert(f[0] == be_bytes(n)[0]);
    assert(f[1] == be_bytes(n)[1]);
    assert(f[2] == be_bytes(n)[2]);
    assert(f[3] == be_bytes(n)[3]);
    assert(f.subrange(4, 4 + payload.len() as int) == payload);
}

/// The frame of a payload; none when its length does not fit in 32 bits.
pub fn frame(payload: &Vec<u8>) -> (r: Option<Vec<u8>>)
    ensures
        payload@.len() <= u32::MAX ==> (r matches Some(f) && f@ == frame_of(payload@)),
        payload@.len() > u32::MAX ==> r is None,
{
    if payload.len() > u32::MAX as usize {
        return None;
    }
    let n = payload.len() as u32;
    let mut out: Vec<u8> = Vec::new();
    out.push((n >> 24u32) as u8);
    out.push(((n >> 16u32) & 0xffu32) as u8);
    out.push(((n >> 8u32) & 0xffu32) as u8);
    out.push((n & 0xffu32) as u8);
    let mut i: usize = 0;
    while i < payload.len()
        invariant
            i <= payload@.len(),
            n == payload@.len(),
            out@ == be_bytes(n) + payload@.subrange(0, i as int),
        decreases payload.len() - i,
    {
        out.push(payload[i]);
        proof {
            assert(payload@.subrange(0, i + 1) == payload@.subrange(0, i as int).push(payload@[i as int]));
        }
        i = i + 1;
    }
    assert(payload@.subrange(0, payload@.len() as int) == payload@);
    Some(out)
}

/// The payload of the frame at the start of `buf` and the number of bytes
/// the frame takes; none while the frame is incomplete.
pub fn parse_frame(buf: &Vec<u8>) -> (r: Option<(Vec<u8>, usize)>)
    ensures
        match parse_of(buf@) {
            None => r is None,
            Some((p, k)) => r matches Some((q, m)) && q@ == p && m == k,
        },
{
    if buf.len() < 4 {
        return None;
    }
    let n = ((buf[0] as u32) << 24u32) | ((buf[1] as u32) << 16u32) | ((buf[2] as u32) << 8u32) | (buf[3] as u32);
    let len = n as usize;
    if buf.len() - 4 < len {
        return None;
    }
    let payload = slice_to_vec(slice_subrange(buf.as_slice(), 4, 4 + len));
    Some((payload, 4 + len))
}

/// The receiver's answer to the first message of a connection: a transfer
/// request is accepted with one fresh token per file, anything else gets
/// an error message.
pub fn answer_request(msg: &Message) -> (r: (Message, Option<Vec<String>>))
    ensures
        msg matches Message::TransferRequest { session_id, files } ==> (r.1 matches Some(tokens)
            && tokens@.len() == files@.len() && (r.0 matches Message::TransferResponse { session_id: sid, accepted, tokens: sent }
                && sid == session_id && accepted && sent@ == tokens@)),
        !(msg is TransferRequest) ==> (r.1 is None && (r.0 matches Message::Error { message } && message@ == "Expected TransferRequest"@)),
{
    match msg {
        Message::TransferRequest { session_id, files } => {
            let mut tokens: Vec<String> = Vec::new();
            let mut sent: Vec<String> = Vec::new();
            let mut i: usize = 0;
            while i < files.len()
                invariant
                    i <= files@.len(),
                    tokens@.len() == i,
                    sent@ == tokens@,
                decreases files.len() - i,
            {
                let t = new_uuid();
                sent.push(t.clone());
                tokens.push(t);
                i = i + 1;
            }
            (Message::TransferResponse { session_id: session_id.clone(), accepted: true, tokens: sent }, Some(tokens))
        },
        _ => (Message::Error { message: String::from_str("Expected TransferRequest") }, None),
    }
}

/// Index of the first file with this identifier.
pub open spec fn first_index(files: Seq<FileMetadata>, id: Seq<char>, i: int) -> bool {
    0 <= i < files.len() && files[i].id@ == id && forall|k: int| 0 <= k < i ==> #[trigger] files[k].id@ != id
}

/// Whether a file stream's header names an offered file with the token
/// issued for it.
pub fn header_accepted(files: &Vec<FileMetadata>, tokens: &Vec<String>, file_id: &str, token: &str) -> (r: bool)
    requires
        tokens@.len() == files@.len(),
    ensures
        r == exists|i: int| first_index(files@, file_id@, i) && tokens@[i]@ == token@,
{
    let mut i: usize = 0;
    while i < files.len()
        invariant
            i <= files@.len(),
            tokens@.len() == files@.len(),
            forall|k: int| 0 <= k < i ==> #[trigger] files@[k].id@ != file_id@,
        decreases files.len() - i,
    {
        if same_chars(files[i].id.as_str(), file_id) {
            let ok = same_chars(tokens[i].as_str(), token);
            proof {
                assert(first_index(files@, file_id@, i as int));
                assert forall|j: int| first_index(files@, file_id@, j) implies j == i by {
                    if j < i {
                        assert(files@[j].id@ != file_id@);
                    }
                    if j > i {
                        assert(files@[i as int].id@ != file_id@);
                    }
                }
            }
            return ok;
        }
        i = i + 1;
    }
    false
}

/// What the sender makes of the receiver's answer: the tokens of an
/// acceptance that has one per file, else a protocol error.
pub fn tokens_from_response(msg: Message, file_count: usize) -> (r: Result<Vec<String>, Error>)
    ensures
        match msg {
            Message::TransferResponse { accepted: true, tokens, .. } =>
                if tokens@.len() >= file_count { r == Ok::<Vec<String>, Error>(tokens) }
                else { r matches Err(Error::Protocol(m)) && m@ == "Unexpected response"@ },
            Message::TransferResponse { accepted: false, .. } =>
                r matches Err(Error::Protocol(m)) && m@ == "Transfer rejected"@,
            Message::Error { message } => r == Err::<Vec<String>, Error>(Error::Protocol(message)),
            _ => r matches Err(Error::Protocol(m)) && m@ == "Unexpected response"@,
        },
{
    match msg {
        Message::TransferResponse { accepted, tokens, .. } => {
            if !accepted {
                Err(Error::Protocol(String::from_str("Transfer rejected")))
            } else if tokens.len() >= file_count {
                Ok(tokens)
            } else {
                Err(Error::Protocol(String::from_str("Unexpected response")))
            }
        },
        Message::Error { message } => Err(Error::Protocol(message)),
        _ => Err(Error::Protocol(String::from_str("Unexpected response"))),
    }
}

/// The files of a QUIC transfer: the `i`-th under `file_{i}`, with its
/// name and size.
pub fn file_metadata_for(names: &Vec<String>, sizes: &Vec<u64>) -> (r: Vec<FileMetadata>)
    requires
        names@.len() == sizes@.len(),
    ensures
        r@.len() == names@.len(),
        forall|i: int| 0 <= i < r@.len() ==> {
            &&& (#[trigger] r@[i]).id@ == crate::client::upload_file_id(i as nat)
            &&& r@[i].name == names@[i]
            &&& r@[i].size == sizes@[i]
            &&& r@[i].mime_type is None
        },
{
    let mut out: Vec<FileMetadata> = Vec::new();
    let mut i: usize = 0;
    while i < names.len()
        invariant
            names@.len() == sizes@.len(),
            i <= names@.len(),
            out@.len() == i,
            forall|k: int| 0 <= k < i ==> {
                &&& (#[trigger] out@[k]).id@ == crate::client::upload_file_id(k as nat)
                &&& out@[k].name == names@[k]
                &&& out@[k].size == sizes@[k]
                &&& out@[k].mime_type is None
            },
        decreases names.len() - i,
    {
        out.push(FileMetadata { id: crate::client::file_id_for(i), name: names[i].clone(), size: sizes[i], mime_type: None });
        i = i + 1;
    }
    out
}

} // verus!
