//! The stored record and its on-disk JSON text form. A record is written as
//! one pretty-printed JSON object whose three string fields are escaped and
//! whose payload, itself a JSON document, stands verbatim as the last member.
//! The decoder is proved to invert the encoder exactly.

use vstd::prelude::*;
use vstd::string::StringExecFns;
use vstd::string::StrSliceExecFns;
use crate::jstring::{escape_text, escape_string, parse_qstring, parse_string_body};
use crate::jstring::lemma_parse_escaped;

verus! {

/// One stored record: its identifier, the correlation identifier, the
/// creation instant as text, and the caller's JSON payload as text.
pub struct Record {
    pub uuid: String,
    pub trace_id: String,
    pub timestamp: String,
    pub payload: String,
}

/// The mathematical shape of a record: its four fields as character
/// sequences.
pub struct RecordView {
    pub uuid: Seq<char>,
    pub trace_id: Seq<char>,
    pub timestamp: Seq<char>,
    pub payload: Seq<char>,
}

impl View for Record {
    type V = RecordView;

    open spec fn view(&self) -> RecordView {
        RecordView {
            uuid: self.uuid@,
            trace_id: self.trace_id@,
            timestamp: self.timestamp@,
            payload: self.payload@,
        }
    }
}

/// The JSON text a record is stored as.
pub open spec fn record_text(r: RecordView) -> Seq<char> {
    "{\n  \"uuid\": \""@ + escape_text(r.uuid) + "\",\n  \"trace_id\": \""@ + escape_text(
        r.trace_id,
    ) + "\",\n  \"timestamp\": \""@ + escape_text(r.timestamp) + "\",\n  \"payload\": "@
        + r.payload + "\n}"@
}

/// Serializes a record to its stored JSON text.
pub fn encode_record(r: &Record) -> (out: String)
    ensures
        out@ == record_text(r@),
{
    let mut out = String::new();
    out.append("{\n  \"uuid\": \"");
    out.append(escape_string(r.uuid.as_str()).as_str());
    out.append("\",\n  \"trace_id\": \"");
    out.append(escape_string(r.trace_id.as_str()).as_str());
    out.append("\",\n  \"timestamp\": \"");
    out.append(escape_string(r.timestamp.as_str()).as_str());
    out.append("\",\n  \"payload\": ");
    out.append(r.payload.as_str());
    out.append("\n}");
    proof {
        assert(out@ =~= record_text(r@));
    }
    out
}

/// A literal expected at one position of the text: the position after it,
/// where the text reads as the literal there.
pub open spec fn expect_at(s: Seq<char>, i: int, lit: Seq<char>) -> Option<int> {
    if 0 <= i && i + lit.len() <= s.len() && s.subrange(i, i + lit.len()) == lit {
        Some(i + lit.len())
    } else {
        None
    }
}

/// Reads a record back from its stored JSON text. The three string fields
/// are read by the string-literal parser; the payload is the verbatim rest,
/// up to the closing brace.
pub open spec fn decode_text(s: Seq<char>) -> Option<RecordView> {
    match expect_at(s, 0, "{\n  \"uuid\": \""@) {
        None => None,
        Some(i1) => match parse_qstring(s, i1) {
            None => None,
            Some((u, i2)) => match expect_at(s, i2, ",\n  \"trace_id\": \""@) {
                None => None,
                Some(i3) => match parse_qstring(s, i3) {
                    None => None,
                    Some((t, i4)) => match expect_at(s, i4, ",\n  \"timestamp\": \""@) {
                        None => None,
                        Some(i5) => match parse_qstring(s, i5) {
                            None => None,
                            Some((ts, i6)) => match expect_at(s, i6, ",\n  \"payload\": "@) {
                                None => None,
                                Some(i7) => if i7 + 2 <= s.len() && s.subrange(
                                    s.len() - 2,
                                    s.len() as int,
                                ) == "\n}"@ {
                                    Some(
                                        RecordView {
                                            uuid: u,
                                            trace_id: t,
                                            timestamp: ts,
                                            payload: s.subrange(i7, s.len() - 2),
                                        },
                                    )
                                } else {
                                    None
                                },
                            },
                        },
                    },
                },
            },
        },
    }
}

proof fn lemma_mid_subrange(pre: Seq<char>, mid: Seq<char>, suf: Seq<char>, s: Seq<char>)
    requires
        s == pre + mid + suf,
    ensures
        s.subrange(pre.len() as int, (pre.len() + mid.len()) as int) == mid,
{
    assert(s.subrange(pre.len() as int, (pre.len() + mid.len()) as int) =~= mid);
}

/// The fixed pieces of the stored text, and where each field starts in it.
pub open spec fn lit_open() -> Seq<char> {
    "{\n  \"uuid\": \""@
}

pub open spec fn lit_trace() -> Seq<char> {
    ",\n  \"trace_id\": \""@
}

pub open spec fn lit_stamp() -> Seq<char> {
    ",\n  \"timestamp\": \""@
}

pub open spec fn lit_payload() -> Seq<char> {
    ",\n  \"payload\": "@
}

pub open spec fn lit_close() -> Seq<char> {
    "\n}"@
}

spec fn idx2(r: RecordView) -> int {
    lit_open().len() as int + escape_text(r.uuid).len() as int + 1
}

spec fn idx3(r: RecordView) -> int {
    idx2(r) + lit_trace().len() as int
}

spec fn idx4(r: RecordView) -> int {
    idx3(r) + escape_text(r.trace_id).len() as int + 1
}

spec fn idx5(r: RecordView) -> int {
    idx4(r) + lit_stamp().len() as int
}

spec fn idx6(r: RecordView) -> int {
    idx5(r) + escape_text(r.timestamp).len() as int + 1
}

spec fn idx7(r: RecordView) -> int {
    idx6(r) + lit_payload().len() as int
}

#[verifier::rlimit(100)]
proof fn lemma_dec_uuid(r: RecordView)
    ensures
        expect_at(record_text(r), 0, lit_open()) == Some(lit_open().len() as int),
        parse_qstring(record_text(r), lit_open().len() as int) == Some((r.uuid, idx2(r))),
{
    let s = record_text(r);
    let a = lit_open();
    let q = seq!['"'];
    reveal_strlit("\",\n  \"trace_id\": \"");
    reveal_strlit(",\n  \"trace_id\": \"");
    assert("\",\n  \"trace_id\": \""@ =~= q + lit_trace());
    let eu = escape_text(r.uuid);
    let rest = lit_trace() + escape_text(r.trace_id) + "\",\n  \"timestamp\": \""@ + escape_text(
        r.timestamp,
    ) + "\",\n  \"payload\": "@ + r.payload + "\n}"@;
    assert(s =~= Seq::<char>::empty() + a + (eu + q + rest));
    lemma_mid_subrange(Seq::empty(), a, eu + q + rest, s);
    assert(expect_at(s, 0, a) == Some(a.len() as int));
    assert(s =~= a + (eu + q) + rest);
    lemma_mid_subrange(a, eu + q, rest, s);
    lemma_parse_escaped(r.uuid, s, a.len() as int);
}

#[verifier::rlimit(100)]
proof fn lemma_dec_trace(r: RecordView)
    ensures
        expect_at(record_text(r), idx2(r), lit_trace()) == Some(idx3(r)),
        parse_qstring(record_text(r), idx3(r)) == Some((r.trace_id, idx4(r))),
{
    let s = record_text(r);
    let a = lit_open();
    let q = seq!['"'];
    reveal_strlit("\",\n  \"trace_id\": \"");
    reveal_strlit(",\n  \"trace_id\": \"");
    reveal_strlit("\",\n  \"timestamp\": \"");
    reveal_strlit(",\n  \"timestamp\": \"");
    assert("\",\n  \"trace_id\": \""@ =~= q + lit_trace());
    assert("\",\n  \"timestamp\": \""@ =~= q + lit_stamp());
    let eu = escape_text(r.uuid);
    let et = escape_text(r.trace_id);
    let rest = lit_stamp() + escape_text(r.timestamp) + "\",\n  \"payload\": "@ + r.payload
        + "\n}"@;
    assert(s =~= a + (eu + q) + lit_trace() + (et + q + rest));
    lemma_mid_subrange(a + (eu + q), lit_trace(), et + q + rest, s);
    assert((a + (eu + q)).len() == idx2(r));
    assert(expect_at(s, idx2(r), lit_trace()) == Some(idx3(r)));
    assert(s =~= a + (eu + q) + lit_trace() + (et + q) + rest);
    lemma_mid_subrange(a + (eu + q) + lit_trace(), et + q, rest, s);
    assert((a + (eu + q) + lit_trace()).len() == idx3(r));
    lemma_parse_escaped(r.trace_id, s, idx3(r));
}

#[verifier::rlimit(100)]
proof fn lemma_dec_stamp(r: RecordView)
    ensures
        expect_at(record_text(r), idx4(r), lit_stamp()) == Some(idx5(r)),
        parse_qstring(record_text(r), idx5(r)) == Some((r.timestamp, idx6(r))),
{
    let s = record_text(r);
    let a = lit_open();
    let q = seq!['"'];
    reveal_strlit("\",\n  \"trace_id\": \"");
    reveal_strlit(",\n  \"trace_id\": \"");
    reveal_strlit("\",\n  \"timestamp\": \"");
    reveal_strlit(",\n  \"timestamp\": \"");
    reveal_strlit("\",\n  \"payload\": ");
    reveal_strlit(",\n  \"payload\": ");
    assert("\",\n  \"trace_id\": \""@ =~= q + lit_trace());
    assert("\",\n  \"timestamp\": \""@ =~= q + lit_stamp());
    assert("\",\n  \"payload\": "@ =~= q + lit_payload());
    let eu = escape_text(r.uuid);
    let et = escape_text(r.trace_id);
    let es = escape_text(r.timestamp);
    let rest = lit_payload() + r.payload + "\n}"@;
    assert(s =~= a + (eu + q) + lit_trace() + (et + q) + lit_stamp() + (es + q + rest));
    lemma_mid_subrange(a + (eu + q) + lit_trace() + (et + q), lit_stamp(), es + q + rest, s);
    assert((a + (eu + q) + lit_trace() + (et + q)).len() == idx4(r));
    assert(expect_at(s, idx4(r), lit_stamp()) == Some(idx5(r)));
    assert(s =~= a + (eu + q) + lit_trace() + (et + q) + lit_stamp() + (es + q) + rest);
    lemma_mid_subrange(a + (eu + q) + lit_trace() + (et + q) + lit_stamp(), es + q, rest, s);
    assert((a + (eu + q) + lit_trace() + (et + q) + lit_stamp()).len() == idx5(r));
    lemma_parse_escaped(r.timestamp, s, idx5(r));
}

#[verifier::rlimit(100)]
proof fn lemma_dec_payload(r: RecordView)
    ensures
        expect_at(record_text(r), idx6(r), lit_payload()) == Some(idx7(r)),
        record_text(r).len() == idx7(r) + r.payload.len() + 2,
        record_text(r).subrange(idx7(r), record_text(r).len() - 2) == r.payload,
        record_text(r).subrange(record_text(r).len() - 2, record_text(r).len() as int)
            == lit_close(),
{
    let s = record_text(r);
    let a = lit_open();
    let q = seq!['"'];
    reveal_strlit("\",\n  \"trace_id\": \"");
    reveal_strlit(",\n  \"trace_id\": \"");
    reveal_strlit("\",\n  \"timestamp\": \"");
    reveal_strlit(",\n  \"timestamp\": \"");
    reveal_strlit("\",\n  \"payload\": ");
    reveal_strlit(",\n  \"payload\": ");
    reveal_strlit("\n}");
    assert("\",\n  \"trace_id\": \""@ =~= q + lit_trace());
    assert("\",\n  \"timestamp\": \""@ =~= q + lit_stamp());
    assert("\",\n  \"payload\": "@ =~= q + lit_payload());
    assert(lit_close().len() == 2);
    let eu = escape_text(r.uuid);
    let et = escape_text(r.trace_id);
    let es = escape_text(r.timestamp);
    let p = r.payload;
    let pre = a + (eu + q) + lit_trace() + (et + q) + lit_stamp() + (es + q);
    assert(s =~= pre + lit_payload() + (p + lit_close()));
    lemma_mid_subrange(pre, lit_payload(), p + lit_close(), s);
    assert(pre.len() == idx6(r));
    assert(expect_at(s, idx6(r), lit_payload()) == Some(idx7(r)));
    assert(s =~= pre + lit_payload() + p + lit_close());
    lemma_mid_subrange(pre + lit_payload(), p, lit_close(), s);
    assert((pre + lit_payload()).len() == idx7(r));
    assert(s.len() == idx7(r) + p.len() + 2);
    assert(s =~= pre + lit_payload() + p + lit_close() + Seq::<char>::empty());
    lemma_mid_subrange(pre + lit_payload() + p, lit_close(), Seq::empty(), s);
    assert((pre + lit_payload() + p).len() == s.len() - 2);
}

/// Decoding inverts encoding: the stored text of any record reads back as
/// that record, whatever its fields hold.
pub proof fn lemma_decode_encode(r: RecordView)
    ensures
        decode_text(record_text(r)) == Some(r),
{
    let s = record_text(r);
    lemma_dec_uuid(r);
    lemma_dec_trace(r);
    lemma_dec_stamp(r);
    lemma_dec_payload(r);
    assert(decode_text(s) == Some(
        RecordView {
            uuid: r.uuid,
            trace_id: r.trace_id,
            timestamp: r.timestamp,
            payload: r.payload,
        },
    ));
    assert(RecordView {
        uuid: r.uuid,
        trace_id: r.trace_id,
        timestamp: r.timestamp,
        payload: r.payload,
    } == r);
}

/// Expects a literal at one position of the text.
fn expect_lit(s: &str, n: usize, i: usize, lit: &str) -> (r: Option<usize>)
    requires
        n == s@.len(),
        i <= n,
    ensures
        r is Some <==> expect_at(s@, i as int, lit@) is Some,
        r is Some ==> r->0 == i + lit@.len() && r->0 <= n,
    decreases n - i,
{
    let m = lit.unicode_len();
    if m > n - i {
        return None;
    }
    let mut j: usize = 0;
    while j < m
        invariant
            0 <= j <= m,
            n == s@.len(),
            m == lit@.len(),
            i + m <= n,
            forall|k: int| 0 <= k < j ==> s@[i + k] == lit@[k],
        decreases m - j,
    {
        if s.get_char(i + j) != lit.get_char(j) {
            proof {
                let sub = s@.subrange(i as int, i + m as int);
                assert(sub[j as int] == s@[i + j]);
                assert(sub != lit@);
            }
            return None;
        }
        j = j + 1;
    }
    proof {
        assert(s@.subrange(i as int, i + m as int) =~= lit@);
    }
    Some(i + m)
}

/// Deserializes a record from its stored JSON text.
pub fn decode_record_text(s: &str) -> (r: Option<Record>)
    ensures
        r is Some <==> decode_text(s@) is Some,
        r is Some ==> decode_text(s@) == Some((r->0)@),
{
    let n = s.unicode_len();
    let i1 = match expect_lit(s, n, 0, "{\n  \"uuid\": \"") {
        Some(i) => i,
        None => {
            return None;
        },
    };
    let (uuid, i2) = match parse_string_body(s, n, i1) {
        Some(p) => p,
        None => {
            return None;
        },
    };
    let i3 = match expect_lit(s, n, i2, ",\n  \"trace_id\": \"") {
        Some(i) => i,
        None => {
            return None;
        },
    };
    let (trace_id, i4) = match parse_string_body(s, n, i3) {
        Some(p) => p,
        None => {
            return None;
        },
    };
    let i5 = match expect_lit(s, n, i4, ",\n  \"timestamp\": \"") {
        Some(i) => i,
        None => {
            return None;
        },
    };
    let (timestamp, i6) = match parse_string_body(s, n, i5) {
        Some(p) => p,
        None => {
            return None;
        },
    };
    let i7 = match expect_lit(s, n, i6, ",\n  \"payload\": ") {
        Some(i) => i,
        None => {
            return None;
        },
    };
    if n - i7 < 2 {
        proof {
            assert(decode_text(s@) is None);
        }
        return None;
    }
    proof {
        reveal_strlit("\n}");
    }
    if s.get_char(n - 2) != '\n' || s.get_char(n - 1) != '}' {
        proof {
            let tail = s@.subrange(s@.len() - 2, s@.len() as int);
            assert(tail[0] == s@[s@.len() - 2] && tail[1] == s@[s@.len() - 1]);
            assert(tail != "\n}"@);
        }
        return None;
    }
    proof {
        let tail = s@.subrange(s@.len() - 2, s@.len() as int);
        assert(tail =~= "\n}"@);
    }
    let payload_str = s.substring_char(i7, n - 2);
    let payload = payload_str.to_owned();
    let rec = Record { uuid, trace_id, timestamp, payload };
    proof {
        assert(decode_text(s@) == Some(rec@));
    }
    Some(rec)
}

} // verus!
