//! Decoding of the session envelope that an agent sends:
//! `{"datetime": .., "context": {"session_id", "requester_id", "uri", "queries"}}`.
use vstd::prelude::*;
use vstd::string::*;
use vstd::utf8::*;
use crate::codec::{base64_decode, base64_decoded, utf8_string};
use crate::json::{find_entry, json_parsed, lookup, parse_json, Json};
use crate::query::{query_views, texts, Query, QueryView, SessionLog, SessionLogView};

verus! {

/// Why a message was not accepted as a session log.
#[derive(Clone, Copy, Debug, PartialEq, Eq, Structural)]
pub enum EnvelopeError {
    /// The message is no JSON document.
    InvalidJson,
    /// The document is not an object.
    NotAnObject,
    /// `datetime` is absent or not a string.
    MissingDatetime,
    /// `context` is absent or not an object.
    MissingContext,
    /// `session_id`, `requester_id` or `uri` is not a string, or `queries`
    /// is not an array.
    BadField,
    /// A query is not an object with a string `sql` and an array `bindings`.
    BadQuery,
    /// A query's `sql` is not valid base64.
    InvalidBase64,
    /// A query's decoded `sql` is not valid UTF-8.
    InvalidUtf8,
}

/// The text a binding value is recorded as: a string is its own content,
/// any other value the text JSON writes for it.
pub open spec fn binding_text(v: Json) -> Seq<char> {
    match v {
        Json::Null => "null"@,
        Json::Bool(b) => if b { "true"@ } else { "false"@ },
        Json::Number(t) => t@,
        Json::Str(s) => s@,
        Json::Array { text, .. } => text@,
        Json::Object { text, .. } => text@,
    }
}

/// The execution time of a query: the number given, else zero.
pub open spec fn time_text(v: Option<Json>) -> Seq<char> {
    match v {
        Some(Json::Number(t)) => t@,
        _ => "0.0"@,
    }
}

/// What one element of `queries` decodes to.
pub open spec fn query_decoding(v: Json) -> Result<QueryView, EnvelopeError> {
    match v {
        Json::Object { entries, .. } => match lookup(entries@, "sql"@) {
            Some(Json::Str(s)) => match lookup(entries@, "bindings"@) {
                Some(Json::Array { items, .. }) => match base64_decoded(s@) {
                    None => Err(EnvelopeError::InvalidBase64),
                    Some(bytes) => if valid_utf8(bytes) {
                        Ok(
                            QueryView {
                                sql: decode_utf8(bytes),
                                bindings: items@.map_values(|j: Json| binding_text(j)),
                                execution_time: time_text(lookup(entries@, "execution_time"@)),
                            },
                        )
                    } else {
                        Err(EnvelopeError::InvalidUtf8)
                    },
                },
                _ => Err(EnvelopeError::BadQuery),
            },
            _ => Err(EnvelopeError::BadQuery),
        },
        _ => Err(EnvelopeError::BadQuery),
    }
}

/// What a list of queries decodes to: every element in order, or the error
/// of the first element that fails.
pub open spec fn queries_decoding(items: Seq<Json>) -> Result<Seq<QueryView>, EnvelopeError>
    decreases items.len(),
{
    if items.len() == 0 {
        Ok(Seq::empty())
    } else {
        match query_decoding(items[0]) {
            Err(e) => Err(e),
            Ok(q) => match queries_decoding(items.drop_first()) {
                Err(e) => Err(e),
                Ok(qs) => Ok(seq![q] + qs),
            },
        }
    }
}

/// An optional string field of the context: its content, `default` when it is
/// absent.
pub open spec fn text_field(entries: Seq<(String, Json)>, key: Seq<char>, default: Seq<char>) -> Result<
    Seq<char>,
    EnvelopeError,
> {
    match lookup(entries, key) {
        None => Ok(default),
        Some(Json::Str(s)) => Ok(s@),
        Some(_) => Err(EnvelopeError::BadField),
    }
}

/// The queries of the context; none when `queries` is absent.
pub open spec fn context_queries(entries: Seq<(String, Json)>) -> Result<Seq<QueryView>, EnvelopeError> {
    match lookup(entries, "queries"@) {
        None => Ok(Seq::empty()),
        Some(Json::Array { items, .. }) => queries_decoding(items@),
        Some(_) => Err(EnvelopeError::BadField),
    }
}

/// The session log that a document describes, from its context object.
pub open spec fn context_decoding(datetime: Seq<char>, ctx: Seq<(String, Json)>) -> Result<
    SessionLogView,
    EnvelopeError,
> {
    match text_field(ctx, "session_id"@, "None"@) {
        Err(e) => Err(e),
        Ok(session_id) => match text_field(ctx, "requester_id"@, Seq::empty()) {
            Err(e) => Err(e),
            Ok(requester_id) => match text_field(ctx, "uri"@, Seq::empty()) {
                Err(e) => Err(e),
                Ok(uri) => match context_queries(ctx) {
                    Err(e) => Err(e),
                    Ok(queries) => Ok(SessionLogView { uri, queries, session_id, requester_id, datetime }),
                },
            },
        },
    }
}

/// The session log that a JSON document describes.
pub open spec fn envelope_decoding(doc: Json) -> Result<SessionLogView, EnvelopeError> {
    match doc {
        Json::Object { entries, .. } => match lookup(entries@, "datetime"@) {
            Some(Json::Str(datetime)) => match lookup(entries@, "context"@) {
                Some(Json::Object { entries: ctx, .. }) => context_decoding(datetime@, ctx@),
                _ => Err(EnvelopeError::MissingContext),
            },
            _ => Err(EnvelopeError::MissingDatetime),
        },
        _ => Err(EnvelopeError::NotAnObject),
    }
}

/// What a message text decodes to.
pub open spec fn message_decoding(text: Seq<char>) -> Result<SessionLogView, EnvelopeError> {
    match json_parsed(text) {
        None => Err(EnvelopeError::InvalidJson),
        Some(doc) => envelope_decoding(doc),
    }
}

/// `r` is the executable form of the outcome `s`.
pub open spec fn log_outcome(r: Result<SessionLog, EnvelopeError>, s: Result<SessionLogView, EnvelopeError>) -> bool {
    match r {
        Ok(log) => s == Ok::<SessionLogView, EnvelopeError>(log@),
        Err(e) => s == Err::<SessionLogView, EnvelopeError>(e),
    }
}

/// The text a binding value is recorded as.
pub fn binding_text_of(v: &Json) -> (r: String)
    ensures
        r@ == binding_text(*v),
{
    match v {
        Json::Null => String::from_str("null"),
        Json::Bool(b) => if *b { String::from_str("true") } else { String::from_str("false") },
        Json::Number(t) => t.clone(),
        Json::Str(s) => s.clone(),
        Json::Array { text, .. } => text.clone(),
        Json::Object { text, .. } => text.clone(),
    }
}

/// The texts of the binding values, in order.
fn bindings_of(items: &Vec<Json>) -> (r: Vec<String>)
    ensures
        texts(r@) == items@.map_values(|j: Json| binding_text(j)),
{
    let mut out: Vec<String> = Vec::new();
    let n = items.len();
    let mut i: usize = 0;
    while i < n
        invariant
            i <= n,
            n == items@.len(),
            out@.len() == i,
            forall|j: int| 0 <= j < i ==> (#[trigger] out@[j])@ == binding_text(items@[j]),
        decreases n - i,
    {
        out.push(binding_text_of(&items[i]));
        i += 1;
    }
    assert(texts(out@) =~= items@.map_values(|j: Json| binding_text(j)));
    out
}

/// Decodes one element of `queries`.
pub fn decode_query(v: &Json) -> (r: Result<Query, EnvelopeError>)
    ensures
        match r {
            Ok(q) => query_decoding(*v) == Ok::<QueryView, EnvelopeError>(q@),
            Err(e) => query_decoding(*v) == Err::<QueryView, EnvelopeError>(e),
        },
{
    let entries = match v {
        Json::Object { entries, .. } => entries,
        _ => return Err(EnvelopeError::BadQuery),
    };
    let encoded = match find_entry(entries, &String::from_str("sql")) {
        Some(Json::Str(s)) => s,
        _ => return Err(EnvelopeError::BadQuery),
    };
    let items = match find_entry(entries, &String::from_str("bindings")) {
        Some(Json::Array { items, .. }) => items,
        _ => return Err(EnvelopeError::BadQuery),
    };
    let bytes = match base64_decode(encoded.as_str()) {
        Some(b) => b,
        None => return Err(EnvelopeError::InvalidBase64),
    };
    let sql = match utf8_string(bytes) {
        Some(s) => s,
        None => return Err(EnvelopeError::InvalidUtf8),
    };
    let execution_time = match find_entry(entries, &String::from_str("execution_time")) {
        Some(Json::Number(t)) => t.clone(),
        _ => String::from_str("0.0"),
    };
    Ok(Query { sql, bindings: bindings_of(items), execution_time })
}

/// Decodes every element of `queries`, in order; the first failure ends it.
pub fn decode_queries(items: &Vec<Json>) -> (r: Result<Vec<Query>, EnvelopeError>)
    ensures
        match r {
            Ok(qs) => queries_decoding(items@) == Ok::<Seq<QueryView>, EnvelopeError>(query_views(qs@)),
            Err(e) => queries_decoding(items@) == Err::<Seq<QueryView>, EnvelopeError>(e),
        },
{
    let mut out: Vec<Query> = Vec::new();
    let n = items.len();
    let mut i: usize = 0;
    assert(items@.subrange(0, n as int) =~= items@);
    assert(query_views(out@) =~= Seq::<QueryView>::empty());
    while i < n
        invariant
            i <= n,
            n == items@.len(),
            queries_decoding(items@) == match queries_decoding(items@.subrange(i as int, n as int)) {
                Err(e) => Err(e),
                Ok(qs) => Ok(query_views(out@) + qs),
            },
        decreases n - i,
    {
        let ghost rest = items@.subrange(i as int, n as int);
        assert(rest.drop_first() =~= items@.subrange(i + 1, n as int));
        assert(rest[0] == items@[i as int]);
        match decode_query(&items[i]) {
            Err(e) => return Err(e),
            Ok(q) => {
                let ghost before = query_views(out@);
                out.push(q);
                assert(query_views(out@) =~= before.push(q@));
                assert forall|qs: Seq<QueryView>| #![auto] before + (seq![q@] + qs) == query_views(out@) + qs by {
                    assert(before + (seq![q@] + qs) =~= query_views(out@) + qs);
                }
            },
        }
        i += 1;
    }
    assert(items@.subrange(n as int, n as int) =~= Seq::<Json>::empty());
    assert(query_views(out@) + Seq::<QueryView>::empty() =~= query_views(out@));
    Ok(out)
}

/// Reads an optional string field of the context.
fn read_text_field(entries: &Vec<(String, Json)>, key: &str, default: &str) -> (r: Result<String, EnvelopeError>)
    ensures
        match r {
            Ok(t) => text_field(entries@, key@, default@) == Ok::<Seq<char>, EnvelopeError>(t@),
            Err(e) => text_field(entries@, key@, default@) == Err::<Seq<char>, EnvelopeError>(e),
        },
{
    match find_entry(entries, &String::from_str(key)) {
        None => Ok(String::from_str(default)),
        Some(Json::Str(s)) => Ok(s.clone()),
        Some(_) => Err(EnvelopeError::BadField),
    }
}

/// Decodes the session log that a JSON document describes.
pub fn decode_session_log(doc: &Json) -> (r: Result<SessionLog, EnvelopeError>)
    ensures
        log_outcome(r, envelope_decoding(*doc)),
{
    let top = match doc {
        Json::Object { entries, .. } => entries,
        _ => return Err(EnvelopeError::NotAnObject),
    };
    let datetime = match find_entry(top, &String::from_str("datetime")) {
        Some(Json::Str(s)) => s.clone(),
        _ => return Err(EnvelopeError::MissingDatetime),
    };
    let ctx = match find_entry(top, &String::from_str("context")) {
        Some(Json::Object { entries, .. }) => entries,
        _ => return Err(EnvelopeError::MissingContext),
    };
    let session_id = match read_text_field(ctx, "session_id", "None") {
        Ok(t) => t,
        Err(e) => return Err(e),
    };
    proof {
        reveal_strlit("");
        assert(""@ =~= Seq::<char>::empty());
    }
    let requester_id = match read_text_field(ctx, "requester_id", "") {
        Ok(t) => t,
        Err(e) => return Err(e),
    };
    let uri = match read_text_field(ctx, "uri", "") {
        Ok(t) => t,
        Err(e) => return Err(e),
    };
    let queries = match find_entry(ctx, &String::from_str("queries")) {
        None => {
            let none: Vec<Query> = Vec::new();
            assert(query_views(none@) =~= Seq::<QueryView>::empty());
            none
        },
        Some(Json::Array { items, .. }) => match decode_queries(items) {
            Ok(qs) => qs,
            Err(e) => return Err(e),
        },
        Some(_) => return Err(EnvelopeError::BadField),
    };
    Ok(SessionLog { uri, queries, session_id, requester_id, datetime })
}

/// Decodes one ingestion message: parses its text as JSON and reads the
/// session log out of the document.
pub fn process(message: &str) -> (r: Result<SessionLog, EnvelopeError>)
    ensures
        log_outcome(r, message_decoding(message@)),
{
    match parse_json(message) {
        None => Err(EnvelopeError::InvalidJson),
        Some(doc) => decode_session_log(&doc),
    }
}

/// `doc` carries the query `q` the way an agent encodes it: `sql` is a base64
/// text of the UTF-8 bytes of the template, `bindings` holds each binding as
/// a string, in order, and `execution_time` is a number.
pub open spec fn encodes_query(doc: Json, q: QueryView) -> bool {
    match doc {
        Json::Object { entries, .. } => {
            &&& match lookup(entries@, "sql"@) {
                Some(Json::Str(s)) => base64_decoded(s@) == Some(encode_utf8(q.sql)),
                _ => false,
            }
            &&& match lookup(entries@, "bindings"@) {
                Some(Json::Array { items, .. }) => {
                    &&& items@.len() == q.bindings.len()
                    &&& forall|i: int|
                        0 <= i < items@.len() ==> match #[trigger] items@[i] {
                            Json::Str(b) => b@ == q.bindings[i],
                            _ => false,
                        }
                },
                _ => false,
            }
            &&& match lookup(entries@, "execution_time"@) {
                Some(Json::Number(t)) => t@ == q.execution_time,
                _ => false,
            }
        },
        _ => false,
    }
}

/// Decoding an encoded query gives back its template, bindings and execution
/// time exactly.
pub proof fn lemma_query_round_trip(doc: Json, q: QueryView)
    requires
        encodes_query(doc, q),
    ensures
        query_decoding(doc) == Ok::<QueryView, EnvelopeError>(q),
{
    broadcast use encode_utf8_valid_utf8, encode_utf8_decode_utf8;

    if let Json::Object { entries, .. } = doc {
        if let Some(Json::Array { items, .. }) = lookup(entries@, "bindings"@) {
            let texts = items@.map_values(|j: Json| binding_text(j));
            assert forall|i: int| 0 <= i < texts.len() implies texts[i] == q.bindings[i] by {
                if let Json::Str(b) = items@[i] {
                }
            }
            assert(texts =~= q.bindings);
        }
    }
}

/// Decoding a list of encoded queries gives back every query, in order, with
/// its template and bindings exactly as they were.
pub proof fn lemma_queries_round_trip(items: Seq<Json>, qs: Seq<QueryView>)
    requires
        items.len() == qs.len(),
        forall|i: int| 0 <= i < items.len() ==> encodes_query(#[trigger] items[i], qs[i]),
    ensures
        queries_decoding(items) == Ok::<Seq<QueryView>, EnvelopeError>(qs),
    decreases items.len(),
{
    if items.len() > 0 {
        lemma_query_round_trip(items[0], qs[0]);
        let (rest, qrest) = (items.drop_first(), qs.drop_first());
        assert forall|i: int| 0 <= i < rest.len() implies encodes_query(#[trigger] rest[i], qrest[i]) by {
            assert(rest[i] == items[i + 1] && qrest[i] == qs[i + 1]);
        }
        lemma_queries_round_trip(rest, qrest);
        assert(seq![qs[0]] + qrest =~= qs);
    } else {
        assert(qs =~= Seq::<QueryView>::empty());
    }
}

} // verus!
