//! Recorded queries, session logs, and the replay of a query's bindings into
//! its placeholders.
use vstd::prelude::*;
use vstd::string::*;

verus! {

/// One recorded SQL execution.
///
/// `execution_time` holds the duration in seconds as decimal text, the way
/// the reporting agent wrote the number.
pub struct Query {
    pub sql: String,
    pub bindings: Vec<String>,
    pub execution_time: String,
}

pub struct QueryView {
    pub sql: Seq<char>,
    pub bindings: Seq<Seq<char>>,
    pub execution_time: Seq<char>,
}

/// The texts of a sequence of strings.
pub open spec fn texts(v: Seq<String>) -> Seq<Seq<char>> {
    v.map_values(|s: String| s@)
}

impl View for Query {
    type V = QueryView;

    open spec fn view(&self) -> QueryView {
        QueryView { sql: self.sql@, bindings: texts(self.bindings@), execution_time: self.execution_time@ }
    }
}

/// One ingested message: every query that one client session reported.
pub struct SessionLog {
    pub uri: String,
    pub queries: Vec<Query>,
    pub session_id: String,
    pub requester_id: String,
    pub datetime: String,
}

pub struct SessionLogView {
    pub uri: Seq<char>,
    pub queries: Seq<QueryView>,
    pub session_id: Seq<char>,
    pub requester_id: Seq<char>,
    pub datetime: Seq<char>,
}

/// The views of a sequence of queries.
pub open spec fn query_views(v: Seq<Query>) -> Seq<QueryView> {
    v.map_values(|q: Query| q@)
}

impl View for SessionLog {
    type V = SessionLogView;

    open spec fn view(&self) -> SessionLogView {
        SessionLogView {
            uri: self.uri@,
            queries: query_views(self.queries@),
            session_id: self.session_id@,
            requester_id: self.requester_id@,
            datetime: self.datetime@,
        }
    }
}

/// Number of `?` placeholders in a text.
pub open spec fn placeholder_count(t: Seq<char>) -> nat
    decreases t.len(),
{
    if t.len() == 0 {
        0
    } else {
        (if t[0] == '?' { 1nat } else { 0nat }) + placeholder_count(t.drop_first())
    }
}

/// The template `t` read left to right, each `?` taking the next unused
/// binding of `b` verbatim while any is left; the other characters, and the
/// placeholders that find no binding, stay as they are.
pub open spec fn substituted(t: Seq<char>, b: Seq<Seq<char>>) -> Seq<char>
    decreases t.len(),
{
    if t.len() == 0 {
        Seq::empty()
    } else if t[0] == '?' && b.len() > 0 {
        b[0] + substituted(t.drop_first(), b.drop_first())
    } else {
        seq![t[0]] + substituted(t.drop_first(), b)
    }
}

/// The text of a query once its bindings are replayed into it.
pub open spec fn replayed(q: QueryView) -> Seq<char> {
    substituted(q.sql, q.bindings)
}

impl Clone for Query {
    fn clone(&self) -> (r: Self)
        ensures
            r@ == self@,
    {
        let mut bindings: Vec<String> = Vec::new();
        let n = self.bindings.len();
        let mut i: usize = 0;
        while i < n
            invariant
                i <= n,
                n == self.bindings@.len(),
                bindings@.len() == i,
                forall|j: int| 0 <= j < i ==> bindings@[j]@ == self.bindings@[j]@,
            decreases n - i,
        {
            bindings.push(self.bindings[i].clone());
            i += 1;
        }
        assert(texts(bindings@) =~= texts(self.bindings@));
        Query { sql: self.sql.clone(), bindings, execution_time: self.execution_time.clone() }
    }
}

/// Copies a list of queries.
pub fn clone_queries(v: &Vec<Query>) -> (r: Vec<Query>)
    ensures
        query_views(r@) == query_views(v@),
{
    let mut out: Vec<Query> = Vec::new();
    let n = v.len();
    let mut i: usize = 0;
    while i < n
        invariant
            i <= n,
            n == v@.len(),
            out@.len() == i,
            forall|j: int| 0 <= j < i ==> out@[j]@ == v@[j]@,
        decreases n - i,
    {
        out.push(v[i].clone());
        i += 1;
    }
    assert(query_views(out@) =~= query_views(v@));
    out
}

impl Clone for SessionLog {
    fn clone(&self) -> (r: Self)
        ensures
            r@ == self@,
    {
        SessionLog {
            uri: self.uri.clone(),
            queries: clone_queries(&self.queries),
            session_id: self.session_id.clone(),
            requester_id: self.requester_id.clone(),
            datetime: self.datetime.clone(),
        }
    }
}

proof fn lemma_substituted_step(t: Seq<char>, b: Seq<Seq<char>>, i: int, k: int)
    requires
        0 <= i < t.len(),
        0 <= k <= b.len(),
    ensures
        ({
            let rest = t.subrange(i, t.len() as int);
            let bs = b.subrange(k, b.len() as int);
            &&& rest.drop_first() =~= t.subrange(i + 1, t.len() as int)
            &&& bs.len() > 0 ==> bs[0] == b[k] && bs.drop_first() =~= b.subrange(k + 1, b.len() as int)
            &&& rest[0] == t[i]
        }),
{
}

/// Placeholders of a concatenation are those of its parts.
pub proof fn lemma_placeholder_count_concat(x: Seq<char>, y: Seq<char>)
    ensures
        placeholder_count(x + y) == placeholder_count(x) + placeholder_count(y),
    decreases x.len(),
{
    if x.len() > 0 {
        assert((x + y).drop_first() =~= x.drop_first() + y);
        lemma_placeholder_count_concat(x.drop_first(), y);
    } else {
        assert(x + y =~= y);
    }
}

/// Replaying bindings that hold no `?` leaves exactly the placeholders that
/// found no binding.
pub proof fn lemma_placeholders_left(t: Seq<char>, b: Seq<Seq<char>>)
    requires
        forall|i: int| 0 <= i < b.len() ==> placeholder_count(#[trigger] b[i]) == 0,
    ensures
        placeholder_count(substituted(t, b)) == if b.len() >= placeholder_count(t) {
            0
        } else {
            (placeholder_count(t) - b.len()) as nat
        },
    decreases t.len(),
{
    if t.len() > 0 {
        if t[0] == '?' && b.len() > 0 {
            let rest = b.drop_first();
            assert forall|i: int| 0 <= i < rest.len() implies placeholder_count(#[trigger] rest[i]) == 0 by {
                assert(rest[i] == b[i + 1]);
            }
            lemma_placeholders_left(t.drop_first(), rest);
            lemma_placeholder_count_concat(b[0], substituted(t.drop_first(), rest));
        } else {
            lemma_placeholders_left(t.drop_first(), b);
            lemma_placeholder_count_concat(seq![t[0]], substituted(t.drop_first(), b));
            assert(seq![t[0]].drop_first() =~= Seq::<char>::empty());
            assert(placeholder_count(Seq::<char>::empty()) == 0);
            assert(placeholder_count(seq![t[0]]) == if t[0] == '?' { 1nat } else { 0nat });
        }
    }
}

/// With at least as many bindings as placeholders, none of which holds a
/// `?` itself, replaying leaves no placeholder in the text.
pub proof fn lemma_enough_bindings_fill_all(q: QueryView)
    requires
        q.bindings.len() >= placeholder_count(q.sql),
        forall|i: int| 0 <= i < q.bindings.len() ==> placeholder_count(#[trigger] q.bindings[i]) == 0,
    ensures
        placeholder_count(replayed(q)) == 0,
{
    lemma_placeholders_left(q.sql, q.bindings);
}

/// A template with no bindings left reads as itself: its placeholders stay
/// literal `?`.
pub proof fn lemma_no_bindings_keep_template(t: Seq<char>)
    ensures
        substituted(t, Seq::empty()) == t,
    decreases t.len(),
{
    if t.len() > 0 {
        lemma_no_bindings_keep_template(t.drop_first());
        assert(seq![t[0]] + t.drop_first() =~= t);
    }
}

/// Bindings that are used up within `x` leave what follows `x` untouched.
pub proof fn lemma_bindings_used_up(x: Seq<char>, y: Seq<char>, b: Seq<Seq<char>>)
    requires
        placeholder_count(x) == b.len(),
    ensures
        substituted(x + y, b) == substituted(x, b) + y,
    decreases x.len(),
{
    if x.len() == 0 {
        assert(x + y =~= y);
        assert(b =~= Seq::<Seq<char>>::empty());
        lemma_no_bindings_keep_template(y);
        assert(substituted(x, b) + y =~= y);
    } else {
        assert((x + y).drop_first() =~= x.drop_first() + y);
        assert((x + y)[0] == x[0]);
        if x[0] == '?' {
            lemma_bindings_used_up(x.drop_first(), y, b.drop_first());
            assert(b[0] + (substituted(x.drop_first(), b.drop_first()) + y) =~= (b[0] + substituted(
                x.drop_first(),
                b.drop_first(),
            )) + y);
        } else {
            lemma_bindings_used_up(x.drop_first(), y, b);
            assert(seq![x[0]] + (substituted(x.drop_first(), b) + y) =~= (seq![x[0]] + substituted(
                x.drop_first(),
                b,
            )) + y);
        }
    }
}

/// With fewer bindings than placeholders, the bindings fill the leftmost
/// placeholders, one each and in order: split the template after the
/// placeholder that takes the last binding, and the part before it is
/// replayed in full while the rest, with its placeholders, stays literal.
/// Where no binding holds a `?` itself, exactly as many placeholders as
/// there were bindings are gone.
pub proof fn lemma_fewer_bindings_fill_first(q: QueryView, j: int)
    requires
        q.bindings.len() < placeholder_count(q.sql),
        0 <= j <= q.sql.len(),
        placeholder_count(q.sql.take(j)) == q.bindings.len(),
        forall|i: int| 0 <= i < q.bindings.len() ==> placeholder_count(#[trigger] q.bindings[i]) == 0,
    ensures
        replayed(q) == substituted(q.sql.take(j), q.bindings) + q.sql.skip(j),
        placeholder_count(substituted(q.sql.take(j), q.bindings)) == 0,
        placeholder_count(replayed(q)) == placeholder_count(q.sql) - q.bindings.len(),
{
    assert(q.sql.take(j) + q.sql.skip(j) =~= q.sql);
    lemma_bindings_used_up(q.sql.take(j), q.sql.skip(j), q.bindings);
    lemma_placeholders_left(q.sql.take(j), q.bindings);
    lemma_placeholders_left(q.sql, q.bindings);
}

/// A text with no placeholder is left as it is by any bindings.
pub proof fn lemma_no_placeholder_unchanged(t: Seq<char>, b: Seq<Seq<char>>)
    requires
        placeholder_count(t) == 0,
    ensures
        substituted(t, b) == t,
    decreases t.len(),
{
    if t.len() > 0 {
        assert(t[0] != '?');
        lemma_no_placeholder_unchanged(t.drop_first(), b);
        assert(seq![t[0]] + t.drop_first() =~= t);
    }
}

/// Replaying a query whose replayed text holds no placeholder a second time
/// changes nothing.
pub proof fn lemma_replay_twice(q: QueryView)
    requires
        placeholder_count(replayed(q)) == 0,
    ensures
        replayed(QueryView { sql: replayed(q), ..q }) == replayed(q),
{
    lemma_no_placeholder_unchanged(replayed(q), q.bindings);
}

impl Query {
    pub fn new(sql: String, bindings: Vec<String>, execution_time: String) -> (r: Query)
        ensures
            r.sql == sql,
            r.bindings == bindings,
            r.execution_time == execution_time,
    {
        Query { sql, bindings, execution_time }
    }

    /// Replays the bindings into the placeholders of `sql`, stores the result
    /// as the new `sql`, and returns it.
    pub fn replace_bindings(&mut self) -> (r: String)
        ensures
            r@ == replayed(old(self)@),
            final(self)@ == (QueryView { sql: r@, ..old(self)@ }),
    {
        let ghost t = self.sql@;
        let ghost b = texts(self.bindings@);
        let template = self.sql.as_str();
        let n = template.unicode_len();
        let nb = self.bindings.len();
        let mut out = String::new();
        let mut start: usize = 0;
        let mut k: usize = 0;
        let mut i: usize = 0;
        assert(t.subrange(0, n as int) =~= t);
        assert(b.subrange(0, nb as int) =~= b);
        while i < n
            invariant
                start <= i <= n,
                k <= nb,
                n == t.len(),
                nb == b.len(),
                template@ == t,
                b == texts(self.bindings@),
                out@ + t.subrange(start as int, i as int) + substituted(
                    t.subrange(i as int, n as int),
                    b.subrange(k as int, nb as int),
                ) == substituted(t, b),
            decreases n - i,
        {
            proof {
                lemma_substituted_step(t, b, i as int, k as int);
            }
            let c = template.get_char(i);
            if c == '?' && k < nb {
                let seg = template.substring_char(start, i);
                let ghost before = out@;
                out.append(seg);
                out.append(self.bindings[k].as_str());
                assert(out@ =~= before + t.subrange(start as int, i as int) + b[k as int]);
                assert(t.subrange(i as int + 1, i as int + 1) =~= Seq::<char>::empty());
                k += 1;
                i += 1;
                start = i;
            } else {
                assert(t.subrange(start as int, i as int + 1) =~= t.subrange(start as int, i as int) + seq![t[i as int]]);
                i += 1;
            }
        }
        let tail = template.substring_char(start, n);
        out.append(tail);
        assert(t.subrange(n as int, n as int) =~= Seq::<char>::empty());
        assert(out@ =~= substituted(t, b));
        self.sql = out.clone();
        out
    }
}

impl SessionLog {
    /// A copy of the recorded queries.
    pub fn get_queries(&self) -> (r: Vec<Query>)
        ensures
            query_views(r@) == self@.queries,
    {
        clone_queries(&self.queries)
    }

    /// Replaces the queries and returns a copy of the updated log.
    pub fn set_queries(&mut self, new_queries: Vec<Query>) -> (r: SessionLog)
        ensures
            final(self)@ == (SessionLogView { queries: query_views(new_queries@), ..old(self)@ }),
            r@ == final(self)@,
    {
        self.queries = new_queries;
        self.clone()
    }
}

} // verus!
