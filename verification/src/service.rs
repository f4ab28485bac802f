//! The service's decision logic, one function per operation step. Every
//! status code and body is pinned down here; the surrounding binary only
//! moves bytes between these functions and the network and the filesystem.

use vstd::prelude::*;
use vstd::string::StringExecFns;
use crate::record::{Record, RecordView, record_text, decode_text, encode_record, decode_record_text, lemma_decode_encode};
use crate::ident::{is_uuid_text, is_valid_record_id};
use crate::ext::{fresh_uuid, now_utc_text, json_text_ok, is_json_text, yaml_to_json, is_yaml_doc, yaml_as_json};

verus! {

/// What a reply's body holds.
pub enum ContentKind {
    Json,
    Yaml,
}

/// One HTTP reply: a status code, a body kind, and the body text.
pub struct HttpReply {
    pub status: u16,
    pub kind: ContentKind,
    pub body: String,
}

/// The JSON body of an error reply.
pub open spec fn error_body(msg: Seq<char>) -> Seq<char> {
    "{\"error\":\""@ + msg + "\"}"@
}

/// The JSON body of a successful create reply.
pub open spec fn success_body(id: Seq<char>) -> Seq<char> {
    "{\"status\":\"success\",\"uuid\":\""@ + id + "\"}"@
}

/// An error reply with a fixed message.
fn json_error_reply(status: u16, msg: &str) -> (r: HttpReply)
    ensures
        r.status == status,
        r.kind is Json,
        r.body@ == error_body(msg@),
{
    let mut b = String::new();
    b.append("{\"error\":\"");
    b.append(msg);
    b.append("\"}");
    proof {
        assert(b@ =~= error_body(msg@));
    }
    HttpReply { status, kind: ContentKind::Json, body: b }
}

/// Everything a successful create decides: the record, and the file the
/// caller must write for it, named after the identifier.
pub struct CreatePlan {
    pub record: Record,
    pub file_name: String,
    pub content: String,
}

/// The outcome of a create request: a rejection of a body that is not JSON,
/// or a plan to store.
pub enum CreateResult {
    BadBody(HttpReply),
    Plan(CreatePlan),
}

/// Creates a record from a request body and an optional trace header: a
/// fresh identifier, the header's trace value where one is present and
/// non-empty (else a fresh one), the current instant, and the payload
/// verbatim. The stored text is proved to read back as the very record.
pub fn create_record(body: String, trace_header: Option<String>) -> (r: CreateResult)
    ensures
        r is Plan <==> is_json_text(body@),
        r matches CreateResult::BadBody(reply) ==> reply.status == 400 && reply.kind is Json
            && reply.body@ == error_body("invalid json body"@),
        r matches CreateResult::Plan(p) ==> {
            &&& is_uuid_text(p.record@.uuid)
            &&& p.record@.payload == body@
            &&& is_json_text(p.record@.payload)
            &&& (match trace_header {
                Some(h) => if h@.len() > 0 {
                    p.record@.trace_id == h@
                } else {
                    is_uuid_text(p.record@.trace_id)
                },
                None => is_uuid_text(p.record@.trace_id),
            })
            &&& p.content@ == record_text(p.record@)
            &&& decode_text(p.content@) == Some(p.record@)
            &&& p.file_name@ == p.record@.uuid + ".json"@
        },
{
    if !json_text_ok(body.as_str()) {
        return CreateResult::BadBody(json_error_reply(400, "invalid json body"));
    }
    let id = fresh_uuid();
    let trace_id = match trace_header {
        Some(h) => if h.as_str().is_empty() {
            fresh_uuid()
        } else {
            h
        },
        None => fresh_uuid(),
    };
    let timestamp = now_utc_text();
    let record = Record { uuid: id, trace_id, timestamp, payload: body };
    let content = encode_record(&record);
    let mut file_name = String::new();
    file_name.append(record.uuid.as_str());
    file_name.append(".json");
    proof {
        lemma_decode_encode(record@);
        assert(file_name@ =~= record@.uuid + ".json"@);
    }
    CreateResult::Plan(CreatePlan { record, file_name, content })
}

/// The reply once a create plan's file is written.
pub fn created_reply(record: &Record) -> (r: HttpReply)
    ensures
        r.status == 201,
        r.kind is Json,
        r.body@ == success_body(record@.uuid),
{
    let mut b = String::new();
    b.append("{\"status\":\"success\",\"uuid\":\"");
    b.append(record.uuid.as_str());
    b.append("\"}");
    proof {
        assert(b@ =~= success_body(record@.uuid));
    }
    HttpReply { status: 201, kind: ContentKind::Json, body: b }
}

/// The reply when a create plan's file cannot be written.
pub fn save_failed_reply() -> (r: HttpReply)
    ensures
        r.status == 500,
        r.kind is Json,
        r.body@ == error_body("failed to save record"@),
{
    json_error_reply(500, "failed to save record")
}

/// What a fetch request asks of storage: nothing at all for an identifier
/// that is not in the UUID format, else one file, named by the identifier.
pub enum GetRequest {
    Reject(HttpReply),
    Lookup(String),
}

/// Screens a fetch request's identifier. The storage location is derived
/// only after the identifier passes the format check, so no other input
/// ever reaches the filesystem.
pub fn get_record_request(id: &str) -> (r: GetRequest)
    ensures
        r is Lookup <==> is_uuid_text(id@),
        r matches GetRequest::Lookup(f) ==> f@ == id@ + ".json"@,
        r matches GetRequest::Reject(reply) ==> reply.status == 400 && reply.kind is Json
            && reply.body@ == error_body("invalid uuid format"@),
{
    if !is_valid_record_id(id) {
        return GetRequest::Reject(json_error_reply(400, "invalid uuid format"));
    }
    let mut f = String::new();
    f.append(id);
    f.append(".json");
    proof {
        assert(f@ =~= id@ + ".json"@);
    }
    GetRequest::Lookup(f)
}

/// What storage gave back for a looked-up record file.
pub enum StoredRead {
    Missing,
    Unreadable,
    Content(String),
}

/// Turns what storage gave back into the fetch reply: 404 for a missing
/// file, 500 for an unreadable one, 500 for content that does not read back
/// as a record with a JSON payload, and otherwise 200 with the record's
/// own text.
pub fn get_record_response(read: StoredRead) -> (r: HttpReply)
    ensures
        read is Missing ==> r.status == 404 && r.kind is Json && r.body@ == error_body(
            "record not found"@,
        ),
        read is Unreadable ==> r.status == 500 && r.kind is Json && r.body@ == error_body(
            "failed to read record"@,
        ),
        read matches StoredRead::Content(c) ==> ({
            let d = decode_text(c@);
            if d is Some && is_json_text(d->0.payload) {
                r.status == 200 && r.kind is Json && r.body@ == record_text(d->0)
            } else {
                r.status == 500 && r.kind is Json && r.body@ == error_body(
                    "corrupted record data"@,
                )
            }
        }),
{
    match read {
        StoredRead::Missing => json_error_reply(404, "record not found"),
        StoredRead::Unreadable => json_error_reply(500, "failed to read record"),
        StoredRead::Content(c) => {
            match decode_record_text(c.as_str()) {
                None => json_error_reply(500, "corrupted record data"),
                Some(rec) => {
                    if json_text_ok(rec.payload.as_str()) {
                        let body = encode_record(&rec);
                        HttpReply { status: 200, kind: ContentKind::Json, body }
                    } else {
                        json_error_reply(500, "corrupted record data")
                    }
                },
            }
        },
    }
}

/// The reply for the YAML description endpoint: the document byte for byte,
/// or 500 where it could not be read.
pub fn openapi_yaml_response(read: Option<String>) -> (r: HttpReply)
    ensures
        read matches Some(doc) ==> r.status == 200 && r.kind is Yaml && r.body@ == doc@,
        read is None ==> r.status == 500 && r.kind is Json && r.body@ == error_body(
            "failed to read openapi specification"@,
        ),
{
    match read {
        Some(doc) => HttpReply { status: 200, kind: ContentKind::Yaml, body: doc },
        None => json_error_reply(500, "failed to read openapi specification"),
    }
}

/// The reply for the JSON description endpoint: the same document,
/// translated to JSON, or 500 where it could not be read or parsed.
pub fn openapi_json_response(read: Option<String>) -> (r: HttpReply)
    ensures
        read matches Some(doc) ==> (if is_yaml_doc(doc@) {
            r.status == 200 && r.kind is Json && r.body@ == yaml_as_json(doc@)
        } else {
            r.status == 500 && r.kind is Json && r.body@ == error_body("failed to parse yaml"@)
        }),
        read is None ==> r.status == 500 && r.kind is Json && r.body@ == error_body(
            "failed to read openapi specification"@,
        ),
{
    match read {
        Some(doc) => {
            match yaml_to_json(doc.as_str()) {
                Some(j) => HttpReply { status: 200, kind: ContentKind::Json, body: j },
                None => json_error_reply(500, "failed to parse yaml"),
            }
        },
        None => json_error_reply(500, "failed to read openapi specification"),
    }
}

/// Create-then-fetch law: the text a create plan stores reads back as the
/// created record itself, its payload verbatim; where the payload is a JSON
/// document, as every stored payload is, a fetch of the stored content
/// therefore replies 200 with the record's own text.
pub proof fn lemma_stored_record_reads_back(r: RecordView)
    ensures
        decode_text(record_text(r)) == Some(r),
        decode_text(record_text(r))->0.payload == r.payload,
        is_json_text(r.payload) ==> is_json_text(decode_text(record_text(r))->0.payload),
{
    lemma_decode_encode(r);
}

} // verus!
