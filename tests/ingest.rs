use base64::Engine;
use monithor::envelope::{process, EnvelopeError};
use monithor::query::{Query, SessionLog};
use monithor::store::{get_session_by_uuid, get_sessions, SessionStore};

const SCENARIO_A: &str = r#"{"datetime":"2024-01-01T00:00:00Z","context":{"session_id":"s1","queries":[{"sql":"U0VMRUNUICogRlJPTSB0IFdIRVJFIGlkPT8=","bindings":["42"],"execution_time":1.5}]}}"#;

fn ingest(store: &mut SessionStore, message: &str) {
    let log = process(message).expect("message decodes");
    store.insert(log);
}

fn err_of(message: &str) -> EnvelopeError {
    match process(message) {
        Ok(_) => panic!("message was accepted"),
        Err(e) => e,
    }
}

#[test]
fn scenario_ingest_stores_one_session() {
    let mut store = SessionStore::new();
    ingest(&mut store, SCENARIO_A);
    let all = store.list_all();
    assert_eq!(all.len(), 1);
    let log = &all[0];
    assert_eq!(log.session_id, "s1");
    assert_eq!(log.datetime, "2024-01-01T00:00:00Z");
    assert_eq!(log.uri, "");
    assert_eq!(log.requester_id, "");
    assert_eq!(log.queries.len(), 1);
    assert_eq!(log.queries[0].sql, "SELECT * FROM t WHERE id=?");
    assert_eq!(log.queries[0].bindings, vec!["42".to_string()]);
    assert_eq!(log.queries[0].execution_time, "1.5");
}

#[test]
fn scenario_fetch_with_replaced_bindings() {
    let mut store = SessionStore::new();
    ingest(&mut store, SCENARIO_A);
    let log = get_session_by_uuid(&store, "s1", true).expect("session s1 exists");
    assert_eq!(log.queries[0].sql, "SELECT * FROM t WHERE id=42");
    let plain = get_session_by_uuid(&store, "s1", false).expect("session s1 exists");
    assert_eq!(plain.queries[0].sql, "SELECT * FROM t WHERE id=?");
    // the stored record keeps its template
    assert_eq!(store.list_all()[0].queries[0].sql, "SELECT * FROM t WHERE id=?");
}

#[test]
fn scenario_missing_session_id_defaults_to_none() {
    let log = process(r#"{"datetime":"d","context":{"uri":"db://x","requester_id":"r7","queries":[]}}"#).unwrap();
    assert_eq!(log.session_id, "None");
    assert_eq!(log.uri, "db://x");
    assert_eq!(log.requester_id, "r7");
    assert!(log.queries.is_empty());
}

#[test]
fn scenario_clear_then_list_is_empty() {
    let mut store = SessionStore::new();
    ingest(&mut store, SCENARIO_A);
    ingest(&mut store, SCENARIO_A);
    assert_eq!(get_sessions(&store).len(), 2);
    store.clear_all();
    assert!(get_sessions(&store).is_empty());
}

#[test]
fn scenario_fetch_unknown_id_is_absent() {
    let mut store = SessionStore::new();
    assert!(get_session_by_uuid(&store, "nope", false).is_none());
    ingest(&mut store, SCENARIO_A);
    assert!(get_session_by_uuid(&store, "nope", true).is_none());
}

#[test]
fn sessions_are_listed_newest_first() {
    let mut store = SessionStore::new();
    for id in ["a", "b", "c"] {
        ingest(&mut store, &format!(r#"{{"datetime":"d","context":{{"session_id":"{}"}}}}"#, id));
    }
    let ids: Vec<String> = get_sessions(&store).into_iter().map(|l| l.session_id).collect();
    assert_eq!(ids, vec!["c", "b", "a"]);
    let stored: Vec<String> = store.list_all().into_iter().map(|l| l.session_id).collect();
    assert_eq!(stored, vec!["a", "b", "c"]);
}

#[test]
fn duplicate_ids_fetch_the_latest() {
    let mut store = SessionStore::new();
    ingest(&mut store, r#"{"datetime":"first","context":{"session_id":"s"}}"#);
    ingest(&mut store, r#"{"datetime":"second","context":{"session_id":"s"}}"#);
    ingest(&mut store, r#"{"datetime":"other","context":{"session_id":"t"}}"#);
    assert_eq!(store.list_all().len(), 3);
    assert_eq!(store.find_by_session_id("s").unwrap().datetime, "second");
}

#[test]
fn round_trip_keeps_templates_and_bindings() {
    let originals = vec![
        Query::new("SELECT ? + ?".to_string(), vec!["1".to_string(), "two".to_string()], "0.25".to_string()),
        Query::new("UPDATE t SET name = 'é' WHERE id = ?".to_string(), vec!["x?y".to_string()], "3".to_string()),
        Query::new(String::new(), vec![], "0".to_string()),
    ];
    let mut items = Vec::new();
    for q in &originals {
        let bindings: Vec<String> = q.bindings.iter().map(|b| format!("{:?}", b)).collect();
        items.push(format!(
            r#"{{"sql":"{}","bindings":[{}],"execution_time":{}}}"#,
            base64::engine::general_purpose::STANDARD.encode(q.sql.as_bytes()),
            bindings.join(","),
            q.execution_time
        ));
    }
    let message = format!(r#"{{"datetime":"d","context":{{"queries":[{}]}}}}"#, items.join(","));
    let log = process(&message).unwrap();
    assert_eq!(log.queries.len(), originals.len());
    for (got, want) in log.queries.iter().zip(originals.iter()) {
        assert_eq!(got.sql, want.sql);
        assert_eq!(got.bindings, want.bindings);
        assert_eq!(got.execution_time, want.execution_time);
    }
}

#[test]
fn bindings_of_any_type_become_text() {
    let log = process(r#"{"datetime":"d","context":{"queries":[{"sql":"U0VMRUNUIDE=","bindings":["s",7,-2.5,true,false,null,[1,"a"],{"k":1}]}]}}"#).unwrap();
    let q = &log.queries[0];
    assert_eq!(q.sql, "SELECT 1");
    assert_eq!(q.bindings, vec!["s", "7", "-2.5", "true", "false", "null", r#"[1,"a"]"#, r#"{"k":1}"#]);
    assert_eq!(q.execution_time, "0.0");
}

#[test]
fn unknown_context_keys_are_ignored() {
    let log = process(r#"{"datetime":"d","context":{"session_id":"s","extra":{"x":1},"other":5}}"#).unwrap();
    assert_eq!(log.session_id, "s");
}

#[test]
fn non_numeric_execution_time_defaults_to_zero() {
    let log = process(r#"{"datetime":"d","context":{"queries":[{"sql":"U0VMRUNUIDE=","bindings":[],"execution_time":"1.5"}]}}"#).unwrap();
    assert_eq!(log.queries[0].execution_time, "0.0");
}

#[test]
fn rejects_text_that_is_not_json() {
    assert_eq!(err_of("{not json"), EnvelopeError::InvalidJson);
    assert_eq!(err_of(""), EnvelopeError::InvalidJson);
}

#[test]
fn rejects_a_document_that_is_not_an_object() {
    assert_eq!(err_of("[1,2]"), EnvelopeError::NotAnObject);
}

#[test]
fn rejects_missing_or_non_text_datetime() {
    assert_eq!(err_of(r#"{"context":{}}"#), EnvelopeError::MissingDatetime);
    assert_eq!(err_of(r#"{"datetime":5,"context":{}}"#), EnvelopeError::MissingDatetime);
}

#[test]
fn rejects_missing_context() {
    assert_eq!(err_of(r#"{"datetime":"d"}"#), EnvelopeError::MissingContext);
    assert_eq!(err_of(r#"{"datetime":"d","context":[]}"#), EnvelopeError::MissingContext);
}

#[test]
fn rejects_fields_of_the_wrong_type() {
    assert_eq!(err_of(r#"{"datetime":"d","context":{"session_id":1}}"#), EnvelopeError::BadField);
    assert_eq!(err_of(r#"{"datetime":"d","context":{"uri":null}}"#), EnvelopeError::BadField);
    assert_eq!(err_of(r#"{"datetime":"d","context":{"queries":{}}}"#), EnvelopeError::BadField);
}

#[test]
fn rejects_malformed_queries() {
    assert_eq!(err_of(r#"{"datetime":"d","context":{"queries":[5]}}"#), EnvelopeError::BadQuery);
    assert_eq!(err_of(r#"{"datetime":"d","context":{"queries":[{"bindings":[]}]}}"#), EnvelopeError::BadQuery);
    assert_eq!(err_of(r#"{"datetime":"d","context":{"queries":[{"sql":"U0VMRUNUIDE="}]}}"#), EnvelopeError::BadQuery);
}

#[test]
fn rejects_bad_base64_in_any_query() {
    assert_eq!(
        err_of(r#"{"datetime":"d","context":{"queries":[{"sql":"U0VMRUNUIDE=","bindings":[]},{"sql":"***","bindings":[]}]}}"#),
        EnvelopeError::InvalidBase64
    );
}

#[test]
fn rejects_sql_that_is_not_utf8() {
    assert_eq!(err_of(r#"{"datetime":"d","context":{"queries":[{"sql":"//4=","bindings":[]}]}}"#), EnvelopeError::InvalidUtf8);
}

#[test]
fn set_queries_returns_the_updated_log() {
    let mut log: SessionLog = process(SCENARIO_A).unwrap();
    let updated = log.set_queries(vec![]);
    assert!(updated.queries.is_empty());
    assert!(log.get_queries().is_empty());
    assert_eq!(updated.session_id, "s1");
}
