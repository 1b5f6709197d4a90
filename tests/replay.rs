use monithor::query::Query;

fn query(sql: &str, bindings: &[&str]) -> Query {
    Query::new(sql.to_string(), bindings.iter().map(|b| b.to_string()).collect(), "0".to_string())
}

#[test]
fn enough_bindings_fill_every_placeholder() {
    let mut q = query("INSERT INTO t VALUES (?, ?, ?)", &["1", "'a'", "NULL", "extra"]);
    let out = q.replace_bindings();
    assert_eq!(out, "INSERT INTO t VALUES (1, 'a', NULL)");
    assert_eq!(q.sql, out);
    assert!(!out.contains('?'));
    assert_eq!(q.bindings.len(), 4);
}

#[test]
fn fewer_bindings_leave_later_placeholders() {
    let mut q = query("a=? b=? c=?", &["1"]);
    assert_eq!(q.replace_bindings(), "a=1 b=? c=?");
    let mut none = query("x=? y=?", &[]);
    assert_eq!(none.replace_bindings(), "x=? y=?");
}

#[test]
fn bindings_are_inserted_verbatim_and_not_rescanned() {
    let mut q = query("x=? y=?", &["a?", "b"]);
    assert_eq!(q.replace_bindings(), "x=a? y=b");
}

#[test]
fn replaying_twice_changes_nothing_more() {
    let mut q = query("SELECT * FROM t WHERE id=?", &["42"]);
    let first = q.replace_bindings();
    let second = q.replace_bindings();
    assert_eq!(first, "SELECT * FROM t WHERE id=42");
    assert_eq!(second, first);
}

#[test]
fn replay_handles_multibyte_text() {
    let mut q = query("é=? ü=?", &["ß", "日本"]);
    assert_eq!(q.replace_bindings(), "é=ß ü=日本");
    let mut empty = query("", &["1"]);
    assert_eq!(empty.replace_bindings(), "");
}
