//! Sending side of LocalSend over HTTPS: the offered file list, the MIME
//! guess, the upload URL and how answers map to outcomes.

use vstd::prelude::*;
use vstd::string::StringExecFns;
use crate::error::Error;
use crate::models::{FileInfo, PrepareUploadResponse};
use crate::table::KeyedTable;
use crate::text::{decimal_of, lemma_decimal_injective, lower_of, lowercase, push_decimal, push_str, same_chars};

verus! {

/// What `Path::extension` gives for a path, or empty when it gives none.
pub uninterp spec fn extension_of(path: Seq<char>) -> Seq<char>;

/// Relies on `std::path::Path::extension`: the extension of the path's
/// last component; the empty string stands for none, or one that is not
/// valid UTF-8.
#[verifier::external_body]
fn path_extension(path: &str) -> (r: String)
    ensures
        r@ == extension_of(path@),
{
    std::path::Path::new(path).extension().and_then(|e| e.to_str()).unwrap_or("").to_string()
}

/// MIME type for a lowercase file extension.
pub open spec fn mime_of(ext: Seq<char>) -> Seq<char> {
    if ext == "txt"@ { "text/plain"@ }
    else if ext == "html"@ || ext == "htm"@ { "text/html"@ }
    else if ext == "css"@ { "text/css"@ }
    else if ext == "js"@ { "application/javascript"@ }
    else if ext == "json"@ { "application/json"@ }
    else if ext == "xml"@ { "application/xml"@ }
    else if ext == "pdf"@ { "application/pdf"@ }
    else if ext == "zip"@ { "application/zip"@ }
    else if ext == "tar"@ { "application/x-tar"@ }
    else if ext == "gz"@ { "application/gzip"@ }
    else if ext == "png"@ { "image/png"@ }
    else if ext == "jpg"@ || ext == "jpeg"@ { "image/jpeg"@ }
    else if ext == "gif"@ { "image/gif"@ }
    else if ext == "webp"@ { "image/webp"@ }
    else if ext == "svg"@ { "image/svg+xml"@ }
    else if ext == "mp3"@ { "audio/mpeg"@ }
    else if ext == "wav"@ { "audio/wav"@ }
    else if ext == "mp4"@ { "video/mp4"@ }
    else if ext == "webm"@ { "video/webm"@ }
    else { "application/octet-stream"@ }
}

/// MIME type for a lowercase file extension.
pub fn mime_for_extension(ext: &str) -> (r: String)
    ensures
        r@ == mime_of(ext@),
{
    let m = if same_chars(ext, "txt") { "text/plain" }
    else if same_chars(ext, "html") || same_chars(ext, "htm") { "text/html" }
    else if same_chars(ext, "css") { "text/css" }
    else if same_chars(ext, "js") { "application/javascript" }
    else if same_chars(ext, "json") { "application/json" }
    else if same_chars(ext, "xml") { "application/xml" }
    else if same_chars(ext, "pdf") { "application/pdf" }
    else if same_chars(ext, "zip") { "application/zip" }
    else if same_chars(ext, "tar") { "application/x-tar" }
    else if same_chars(ext, "gz") { "application/gzip" }
    else if same_chars(ext, "png") { "image/png" }
    else if same_chars(ext, "jpg") || same_chars(ext, "jpeg") { "image/jpeg" }
    else if same_chars(ext, "gif") { "image/gif" }
    else if same_chars(ext, "webp") { "image/webp" }
    else if same_chars(ext, "svg") { "image/svg+xml" }
    else if same_chars(ext, "mp3") { "audio/mpeg" }
    else if same_chars(ext, "wav") { "audio/wav" }
    else if same_chars(ext, "mp4") { "video/mp4" }
    else if same_chars(ext, "webm") { "video/webm" }
    else { "application/octet-stream" };
    String::from_str(m)
}

/// Best-effort MIME type of a file, from its extension in any case.
pub fn guess_mime_type(path: &str) -> (r: String)
    ensures
        r@ == mime_of(lower_of(extension_of(path@))),
{
    let ext = path_extension(path);
    let lower = lowercase(ext.as_str());
    mime_for_extension(lower.as_str())
}

/// Identifier of the `i`-th offered file: `file_{i}`.
pub open spec fn upload_file_id(i: nat) -> Seq<char> {
    "file_"@ + decimal_of(i)
}

/// Identifier of the `i`-th offered file: `file_{i}`.
pub fn file_id_for(i: usize) -> (r: String)
    ensures
        r@ == upload_file_id(i as nat),
{
    let mut s = String::from_str("file_");
    push_decimal(&mut s, i as u64);
    s
}

proof fn lemma_file_ids_distinct(i: nat, j: nat)
    requires
        upload_file_id(i) == upload_file_id(j),
    ensures
        i == j,
{
    let p = "file_"@;
    assert(decimal_of(i) == upload_file_id(i).subrange(p.len() as int, upload_file_id(i).len() as int));
    assert(decimal_of(j) == upload_file_id(j).subrange(p.len() as int, upload_file_id(j).len() as int));
    lemma_decimal_injective(i, j);
}

/// Entry `j` of the offered files is in the table.
pub open spec fn offered(t: Map<Seq<char>, FileInfo>, paths: Seq<String>, names: Seq<String>, sizes: Seq<u64>, j: int) -> bool {
    &&& t.contains_key(upload_file_id(j as nat))
    &&& t[upload_file_id(j as nat)].id@ == upload_file_id(j as nat)
    &&& t[upload_file_id(j as nat)].file_name == names[j]
    &&& t[upload_file_id(j as nat)].size == sizes[j]
    &&& t[upload_file_id(j as nat)].file_type@ == mime_of(lower_of(extension_of(paths[j]@)))
}

/// The files offered to a receiver: the `i`-th under `file_{i}`, with its
/// name, size and guessed MIME type.
pub fn upload_file_infos(paths: &Vec<String>, names: &Vec<String>, sizes: &Vec<u64>) -> (r: KeyedTable<FileInfo>)
    requires
        paths@.len() == names@.len(),
        names@.len() == sizes@.len(),
    ensures
        r.wf(),
        r@.len() == paths@.len(),
        forall|i: int| 0 <= i < paths@.len() ==> #[trigger] offered(r@, paths@, names@, sizes@, i),
{
    let mut table: KeyedTable<FileInfo> = KeyedTable::new();
    let mut i: usize = 0;
    while i < paths.len()
        invariant
            paths@.len() == names@.len(),
            names@.len() == sizes@.len(),
            i <= paths@.len(),
            table.wf(),
            table.entries@.len() == i,
            forall|k: Seq<char>| #[trigger] table@.contains_key(k) ==> exists|j: int| 0 <= j < i && k == #[trigger] upload_file_id(j as nat),
            forall|j: int| 0 <= j < i ==> #[trigger] offered(table@, paths@, names@, sizes@, j),
        decreases paths.len() - i,
    {
        let id = file_id_for(i);
        let info = FileInfo {
            id: id.clone(),
            file_name: names[i].clone(),
            size: sizes[i],
            file_type: guess_mime_type(paths[i].as_str()),
            sha256: None,
            preview: None,
        };
        proof {
            if table@.contains_key(id@) {
                let j = choose|j: int| 0 <= j < i && id@ == #[trigger] upload_file_id(j as nat);
                lemma_file_ids_distinct(i as nat, j as nat);
            }
            table.lemma_len();
        }
        let ghost before = table@;
        let _existed = table.insert(id, info);
        proof {
            table.lemma_len();
            assert forall|j: int| 0 <= j < i implies #[trigger] upload_file_id(j as nat) != upload_file_id(i as nat) by {
                if upload_file_id(j as nat) == upload_file_id(i as nat) {
                    lemma_file_ids_distinct(i as nat, j as nat);
                }
            }
            assert forall|j: int| 0 <= j < i + 1 implies #[trigger] offered(table@, paths@, names@, sizes@, j) by {
                if j < i {
                    assert(offered(before, paths@, names@, sizes@, j));
                    assert(upload_file_id(j as nat) != upload_file_id(i as nat));
                } else {
                    assert(j as nat == i as nat);
                }
            }
            assert forall|k: Seq<char>| #[trigger] table@.contains_key(k) implies exists|j: int| 0 <= j < i + 1 && k == #[trigger] upload_file_id(j as nat) by {
                if k != upload_file_id(i as nat) {
                    assert(before.contains_key(k));
                    let j = choose|j: int| 0 <= j < i && k == #[trigger] upload_file_id(j as nat);
                    assert(0 <= j < i + 1 && k == upload_file_id(j as nat));
                } else {
                    let ii: int = i as int;
                    assert(0 <= ii < i + 1 && k == upload_file_id(ii as nat));
                }
            }
        }
        i = i + 1;
    }
    proof {
        table.lemma_len();
    }
    table
}

/// Whether an HTTP status is a success (2xx).
pub open spec fn is_success(status: u16) -> bool {
    200 <= status <= 299
}

/// Outcome of `prepare-upload` by its HTTP status: 401 (missing or wrong
/// PIN) and 403 are rejections, another status that is not 2xx a network
/// error.
pub fn prepare_outcome(status: u16) -> (r: Result<(), Error>)
    ensures
        status == 401 || status == 403 ==> r == Err::<(), Error>(Error::Rejected),
        status != 401 && status != 403 && !is_success(status) ==> (r matches Err(Error::Network(m)) && m@ == "Prepare failed: "@ + decimal_of(status as nat)),
        is_success(status) ==> r is Ok,
{
    if status == 401 || status == 403 {
        return Err(Error::Rejected);
    }
    if !(200 <= status && status <= 299) {
        let mut m = String::from_str("Prepare failed: ");
        push_decimal(&mut m, status as u64);
        return Err(Error::Network(m));
    }
    Ok(())
}

/// Outcome of one `upload` by its HTTP status: anything but 2xx fails the
/// transfer.
pub fn upload_outcome(status: u16) -> (r: Result<(), Error>)
    ensures
        is_success(status) ==> r is Ok,
        !is_success(status) ==> (r matches Err(Error::TransferFailed(m)) && m@ == "Upload failed: "@ + decimal_of(status as nat)),
{
    if 200 <= status && status <= 299 {
        Ok(())
    } else {
        let mut m = String::from_str("Upload failed: ");
        push_decimal(&mut m, status as u64);
        Err(Error::TransferFailed(m))
    }
}

/// The token the receiver issued for a file; a missing one is a protocol
/// error.
pub fn token_for(response: &PrepareUploadResponse, file_id: &str) -> (r: Result<String, Error>)
    requires
        response.files.wf(),
    ensures
        response.files@.contains_key(file_id@) ==> r == Ok::<String, Error>(response.files@[file_id@]),
        !response.files@.contains_key(file_id@) ==> (r matches Err(Error::Protocol(m)) && m@ == "Missing token"@),
{
    match response.files.get(file_id) {
        Some(t) => Ok(t.clone()),
        None => Err(Error::Protocol(String::from_str("Missing token"))),
    }
}

/// The URL of one upload: `{base}/upload?sessionId=..&fileId=..&token=..`.
pub fn upload_url(base_url: &str, session_id: &str, file_id: &str, token: &str) -> (r: String)
    ensures
        r@ == base_url@ + "/upload?sessionId="@ + session_id@ + "&fileId="@ + file_id@ + "&token="@ + token@,
{
    let mut u = String::from_str(base_url);
    push_str(&mut u, "/upload?sessionId=");
    push_str(&mut u, session_id);
    push_str(&mut u, "&fileId=");
    push_str(&mut u, file_id);
    push_str(&mut u, "&token=");
    push_str(&mut u, token);
    u
}

} // verus!
