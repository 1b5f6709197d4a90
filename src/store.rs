//! The session store, and the requests that the query API answers from it.
use vstd::prelude::*;
use vstd::string::*;
use crate::query::{query_views, replayed, Query, QueryView, SessionLog, SessionLogView};

verus! {

/// The views of a sequence of session logs.
pub open spec fn log_views(v: Seq<SessionLog>) -> Seq<SessionLogView> {
    v.map_values(|l: SessionLog| l@)
}

/// The most recently stored record whose session id is `id`.
pub open spec fn latest_with_id(records: Seq<SessionLogView>, id: Seq<char>) -> Option<SessionLogView>
    decreases records.len(),
{
    if records.len() == 0 {
        None
    } else if records.last().session_id == id {
        Some(records.last())
    } else {
        latest_with_id(records.drop_last(), id)
    }
}

/// A session log with the bindings of every query replayed into its SQL.
pub open spec fn replayed_log(l: SessionLogView) -> SessionLogView {
    SessionLogView {
        queries: l.queries.map_values(|q: QueryView| QueryView { sql: replayed(q), ..q }),
        ..l
    }
}

/// An append-only collection of session logs, in the order they were stored.
/// Session ids need not be unique.
pub struct SessionStore {
    records: Vec<SessionLog>,
}

impl View for SessionStore {
    type V = Seq<SessionLogView>;

    closed spec fn view(&self) -> Seq<SessionLogView> {
        log_views(self.records@)
    }
}

/// Copies a list of session logs, in order.
fn clone_logs(v: &Vec<SessionLog>) -> (r: Vec<SessionLog>)
    ensures
        log_views(r@) == log_views(v@),
{
    let mut out: Vec<SessionLog> = Vec::new();
    let n = v.len();
    let mut i: usize = 0;
    while i < n
        invariant
            i <= n,
            n == v@.len(),
            out@.len() == i,
            forall|j: int| 0 <= j < i ==> out@[j]@ == v@[j]@,
        decreases n - i,
    {
        out.push(v[i].clone());
        i += 1;
    }
    assert(log_views(out@) =~= log_views(v@));
    out
}

impl SessionStore {
    /// An empty store.
    pub fn new() -> (r: SessionStore)
        ensures
            r@ == Seq::<SessionLogView>::empty(),
    {
        let records: Vec<SessionLog> = Vec::new();
        assert(log_views(records@) =~= Seq::<SessionLogView>::empty());
        SessionStore { records }
    }

    /// A store that holds `records`, in that order.
    pub fn from_records(records: Vec<SessionLog>) -> (r: SessionStore)
        ensures
            r@ == log_views(records@),
    {
        SessionStore { records }
    }

    /// Stores one more record after the others.
    pub fn insert(&mut self, record: SessionLog)
        ensures
            final(self)@ == old(self)@.push(record@),
    {
        self.records.push(record);
        assert(log_views(self.records@) =~= log_views(old(self).records@).push(record@));
    }

    /// Every record, in the order they were stored.
    pub fn list_all(&self) -> (r: Vec<SessionLog>)
        ensures
            log_views(r@) == self@,
    {
        clone_logs(&self.records)
    }

    /// The most recently stored record with session id `id`, if any.
    pub fn find_by_session_id(&self, id: &str) -> (r: Option<SessionLog>)
        ensures
            match r {
                Some(l) => latest_with_id(self@, id@) == Some(l@),
                None => latest_with_id(self@, id@) is None,
            },
    {
        let key = String::from_str(id);
        let ghost all = self@;
        let mut i: usize = self.records.len();
        assert(all.subrange(0, i as int) =~= all);
        while i > 0
            invariant
                i <= self.records@.len(),
                all == self@,
                all.len() == self.records@.len(),
                key@ == id@,
                latest_with_id(all, id@) == latest_with_id(all.subrange(0, i as int), id@),
            decreases i,
        {
            let ghost prefix = all.subrange(0, i as int);
            assert(prefix.drop_last() =~= all.subrange(0, i - 1));
            assert(prefix.last() == self.records@[i - 1]@);
            if self.records[i - 1].session_id == key {
                return Some(self.records[i - 1].clone());
            }
            i -= 1;
        }
        None
    }

    /// Removes every record.
    pub fn clear_all(&mut self)
        ensures
            final(self)@ == Seq::<SessionLogView>::empty(),
    {
        self.records = Vec::new();
        assert(log_views(self.records@) =~= Seq::<SessionLogView>::empty());
    }
}

/// Every stored session, newest first.
pub fn get_sessions(store: &SessionStore) -> (r: Vec<SessionLog>)
    ensures
        log_views(r@) == store@.reverse(),
{
    let all = store.list_all();
    let mut out: Vec<SessionLog> = Vec::new();
    let n = all.len();
    let mut i: usize = n;
    while i > 0
        invariant
            i <= n,
            n == all@.len(),
            out@.len() == n - i,
            forall|j: int| 0 <= j < n - i ==> out@[j]@ == all@[n - 1 - j]@,
        decreases i,
    {
        out.push(all[i - 1].clone());
        i -= 1;
    }
    assert(log_views(out@) =~= log_views(all@).reverse());
    out
}

/// Replays the bindings of every query of a session log.
pub fn replay_log(log: &SessionLog) -> (r: SessionLog)
    ensures
        r@ == replayed_log(log@),
{
    let queries = log.get_queries();
    let mut replayed_queries: Vec<Query> = Vec::new();
    let n = queries.len();
    let mut i: usize = 0;
    while i < n
        invariant
            i <= n,
            n == queries@.len(),
            query_views(queries@) == log@.queries,
            replayed_queries@.len() == i,
            forall|j: int|
                0 <= j < i ==> replayed_queries@[j]@ == (QueryView { sql: replayed(queries@[j]@), ..queries@[j]@ }),
        decreases n - i,
    {
        let mut q = queries[i].clone();
        q.replace_bindings();
        replayed_queries.push(q);
        i += 1;
    }
    let mut copy = log.clone();
    let r = copy.set_queries(replayed_queries);
    assert(query_views(replayed_queries@) =~= replayed_log(log@).queries);
    r
}

/// The most recent session with id `id`, if any; with `replace_bindings` set,
/// every query's bindings replayed into its SQL. The store is left as it is.
pub fn get_session_by_uuid(store: &SessionStore, id: &str, replace_bindings: bool) -> (r: Option<SessionLog>)
    ensures
        match r {
            Some(l) => match latest_with_id(store@, id@) {
                Some(found) => l@ == if replace_bindings { replayed_log(found) } else { found },
                None => false,
            },
            None => latest_with_id(store@, id@) is None,
        },
{
    match store.find_by_session_id(id) {
        None => None,
        Some(found) => if replace_bindings {
            Some(replay_log(&found))
        } else {
            Some(found)
        },
    }
}

} // verus!
