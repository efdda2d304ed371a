//! Multi-statement units: scripts, edges that are created or updated, schema statements that
//! can be applied again, and the buffering script writer.

use vstd::prelude::*;
use vstd::string::*;
use crate::client::execute;
use crate::client::execute::{execute_language_request, execute_with_values_request};
use crate::client::query;
use crate::client::query::{query_with_values_request, validate_identifier};
use crate::client::results::QueryResult;
use crate::encode;
use crate::encode::Params;
use crate::error::{ArcadeDbError, FailureView, Result};
use crate::props::PropMap;
use crate::record::Link;
use crate::rpc::{ExecuteCommandRequest, ExecuteQueryRequest};
use crate::text;
use crate::wire;
use crate::wire::{GrpcValue, KindView, ValueView};

verus! {

/// The request of a script: several statements in one round trip.
pub fn script_request(database: &str, script: &str) -> (r: ExecuteCommandRequest)
    ensures
        execute::commands(r, database@, script@, "sqlscript"@, Map::empty()),
        r.transaction is None,
{
    execute_language_request(database, "sqlscript", script)
}

// ---------------------------------------------------------------------------
// Edges
// ---------------------------------------------------------------------------

/// The statement that finds an edge by its ends.
pub open spec fn find_edge(class: Seq<char>) -> Seq<char> {
    "SELECT FROM "@ + class + " WHERE @out = :__out AND @in = :__in LIMIT 1"@
}

pub open spec fn link_value(rid: Seq<char>) -> ValueView {
    encode::of_kind(KindView::Link(rid, Seq::empty()))
}

/// The parameters of that statement.
pub open spec fn edge_ends(from: Link, to: Link) -> Map<Seq<char>, ValueView> {
    Map::empty().insert("__out"@, link_value(from.rid())).insert("__in"@, link_value(to.rid()))
}

/// The request that finds an edge by its ends. They are matched as record intrinsics: bare
/// `out` and `in` are graph functions.
pub fn upsert_edge_query(database: &str, class: &str, from: &Link, to: &Link) -> (r: Result<
    ExecuteQueryRequest,
>)
    ensures
        match r {
            Ok(q) => query::is_identifier(class@) && query::queries(
                q,
                database@,
                find_edge(class@),
                "sql"@,
                edge_ends(*from, *to),
            ) && q.transaction is None,
            Err(e) => !query::is_identifier(class@) && e@ == query::invalid_identifier(
                class@,
                "edge type"@,
            ),
        },
{
    let e = validate_identifier(class, "edge type")?;
    let mut sql = "SELECT FROM ".to_owned();
    sql.append(e.as_str());
    sql.append(" WHERE @out = :__out AND @in = :__in LIMIT 1");
    let mut params = Params::default().0;
    let ghost start = params;
    let out_link = encode::link_v(from.to_rid_string());
    params.insert("__out".to_owned(), out_link);
    let ghost middle = params;
    let in_link = encode::link_v(to.to_rid_string());
    params.insert("__in".to_owned(), in_link);
    proof {
        encode::lemma_insert_says(start, middle, "__out"@, out_link);
        encode::lemma_insert_says(middle, params, "__in"@, in_link);
    }
    Ok(query_with_values_request(database, sql.as_str(), Params(params)))
}

/// The names of properties, in order.
pub open spec fn prop_names(pairs: Seq<(String, GrpcValue)>) -> Seq<Seq<char>> {
    Seq::new(pairs.len(), |i: int| pairs[i].0@)
}

/// `name = :name` for the first `n` names, with commas in between.
pub open spec fn assignments(names: Seq<Seq<char>>, n: nat) -> Seq<char>
    decreases n,
{
    if n == 0 {
        Seq::empty()
    } else {
        assignments(names, (n - 1) as nat) + (if n == 1 {
            ""@
        } else {
            ", "@
        }) + names[n - 1] + " = :"@ + names[n - 1]
    }
}

/// The statement that brings an edge to the given properties; none where it exists and there
/// are no properties to set.
pub open spec fn edge_statement(
    class: Seq<char>,
    from: Link,
    to: Link,
    names: Seq<Seq<char>>,
    existing: Option<Seq<char>>,
) -> Option<Seq<char>> {
    match existing {
        Some(rid) => if names.len() == 0 {
            None
        } else {
            Some("UPDATE "@ + rid + " SET "@ + assignments(names, names.len()))
        },
        None => {
            let create = "CREATE EDGE "@ + class + " FROM "@ + from.rid() + " TO "@ + to.rid();
            if names.len() == 0 {
                Some(create)
            } else {
                Some(create + " SET "@ + assignments(names, names.len()))
            }
        },
    }
}

/// Why the write of an edge is refused: the type's name, then the first property that is no
/// identifier. An existing edge without properties to set is left alone.
pub open spec fn edge_problem(class: Seq<char>, names: Seq<Seq<char>>) -> Option<FailureView> {
    if !query::is_identifier(class) {
        Some(query::invalid_identifier(class, "edge type"@))
    } else {
        match query::bad_column(names, 0) {
            Some(name) => Some(query::invalid_identifier(name, "property name"@)),
            None => None,
        }
    }
}

/// The rid of the edge that was found.
pub open spec fn found_edge(existing: QueryResult) -> Option<Seq<char>> {
    if existing.records@.len() == 0 {
        None
    } else {
        Some(existing.records@[0].rid@)
    }
}

fn set_list(props: &PropMap<GrpcValue>) -> (r: Result<String>)
    ensures
        match (r, query::bad_column(prop_names(props.pairs()), 0)) {
            (Ok(s), None) => s@ == assignments(prop_names(props.pairs()), props.pairs().len()),
            (Err(e), Some(name)) => e@ == query::invalid_identifier(name, "property name"@),
            _ => false,
        },
{
    let ghost names = prop_names(props.pairs());
    let mut set = String::new();
    let n = props.len();
    for i in 0..n
        invariant
            n == props.pairs().len(),
            names == prop_names(props.pairs()),
            set@ == assignments(names, i as nat),
            query::bad_column(names, 0) == query::bad_column(names, i as nat),
    {
        let (k, _v) = props.entry(i);
        assert(names[i as int] == k@);
        let name = validate_identifier(k.as_str(), "property name")?;
        set.append(if i == 0 {
            ""
        } else {
            ", "
        });
        set.append(name.as_str());
        set.append(" = :");
        set.append(name.as_str());
    }
    Ok(set)
}

/// The command that brings an edge to the given properties, given what the search for it
/// found: an update, a creation, or nothing where it exists and nothing is to be set. Names
/// are checked; values are bound.
pub fn upsert_edge_command(
    database: &str,
    class: &str,
    from: &Link,
    to: &Link,
    props: Params,
    existing: &QueryResult,
) -> (r: Result<Option<ExecuteCommandRequest>>)
    ensures
        match (r, edge_problem(class@, prop_names(props.0.pairs()))) {
            (Ok(q), None) => match (
                q,
                edge_statement(
                    class@,
                    *from,
                    *to,
                    prop_names(props.0.pairs()),
                    found_edge(*existing),
                ),
            ) {
                (Some(c), Some(sql)) => execute::commands(c, database@, sql, "sql"@, props@)
                    && c.transaction is None,
                (None, None) => true,
                _ => false,
            },
            (Err(e), Some(p)) => e@ == p,
            _ => false,
        },
{
    let e = validate_identifier(class, "edge type")?;
    let set = set_list(&props.0)?;
    let empty = props.0.len() == 0;
    let mut sql = if existing.records.len() > 0 {
        if empty {
            return Ok(None);
        }
        let mut s = "UPDATE ".to_owned();
        s.append(existing.records[0].rid.as_str());
        s
    } else {
        let mut s = "CREATE EDGE ".to_owned();
        s.append(e.as_str());
        s.append(" FROM ");
        s.append(from.to_rid_string().as_str());
        s.append(" TO ");
        s.append(to.to_rid_string().as_str());
        s
    };
    if !empty {
        sql.append(" SET ");
        sql.append(set.as_str());
    }
    Ok(Some(execute_with_values_request(database, sql.as_str(), props)))
}

// ---------------------------------------------------------------------------
// Schema statements
// ---------------------------------------------------------------------------

/// How many statements are newly applied after one more has come to this outcome. With
/// `idempotent` set, a target that exists already is passed over; any other failure ends the
/// run.
pub fn apply_ddl(applied: usize, outcome: Result<()>, idempotent: bool) -> (r: Result<usize>)
    requires
        applied < usize::MAX,
    ensures
        match (outcome, r) {
            (Ok(_), Ok(n)) => n == applied + 1,
            (Err(e), Ok(n)) => n == applied && idempotent && e@ is AlreadyExists,
            (Err(e), Err(f)) => f@ == e@ && !(idempotent && e@ is AlreadyExists),
            _ => false,
        },
{
    match outcome {
        Ok(_) => Ok(applied + 1),
        Err(ArcadeDbError::AlreadyExists { what, message }) => if idempotent {
            Ok(applied)
        } else {
            Err(ArcadeDbError::AlreadyExists { what, message })
        },
        Err(e) => Err(e),
    }
}

// ---------------------------------------------------------------------------
// Script buffer
// ---------------------------------------------------------------------------

/// Statements per round trip.
pub const FLUSH_AT: usize = 500;

/// A buffering script writer: statements accumulate and leave as one script.
#[derive(Debug)]
pub struct ScriptBuffer {
    script: String,
    stmts: usize,
}

/// One statement on a line of its own.
pub open spec fn line(stmt: Seq<char>) -> Seq<char> {
    stmt.push('\n')
}

impl ScriptBuffer {
    #[verifier::type_invariant]
    spec fn inv(&self) -> bool {
        self.stmts < FLUSH_AT && (self.stmts == 0 <==> self.script@.len() == 0)
    }

    /// The statements that are waiting, each on its line.
    pub closed spec fn waiting(&self) -> Seq<char> {
        self.script@
    }

    /// How many statements are waiting.
    pub closed spec fn count(&self) -> nat {
        self.stmts as nat
    }

    /// An empty buffer.
    pub fn new() -> (b: Self)
        ensures
            b.waiting().len() == 0,
            b.count() == 0,
    {
        ScriptBuffer { script: String::new(), stmts: 0 }
    }

    /// Append one statement. The statement that fills the buffer empties it into the script to
    /// be run.
    pub fn push(&mut self, stmt: &str) -> (r: Option<String>)
        ensures
            match r {
                None => old(self).count() + 1 < FLUSH_AT && final(self).waiting() == old(
                    self,
                ).waiting() + line(stmt@) && final(self).count() == old(self).count() + 1,
                Some(script) => old(self).count() + 1 == FLUSH_AT && script@ == old(self).waiting()
                    + line(stmt@) && final(self).waiting().len() == 0 && final(self).count() == 0,
            },
    {
        proof {
            use_type_invariant(&*self);
        }
        let ghost before = self.script@;
        let mut taken = ScriptBuffer::new();
        core::mem::swap(&mut taken, self);
        let n = taken.stmts;
        let mut script = taken.script;
        script.append(stmt);
        script.append("\n");
        proof {
            reveal_strlit("\n");
            assert(script@ =~= before + line(stmt@));
        }
        if n + 1 >= FLUSH_AT {
            Some(script)
        } else {
            *self = ScriptBuffer { script, stmts: n + 1 };
            None
        }
    }

    /// Empty the buffer into the script to be run; none where nothing is waiting.
    pub fn finish(&mut self) -> (r: Option<String>)
        ensures
            final(self).waiting().len() == 0,
            final(self).count() == 0,
            match r {
                Some(script) => old(self).count() > 0 && script@ == old(self).waiting(),
                None => old(self).count() == 0 && old(self).waiting().len() == 0,
            },
    {
        proof {
            use_type_invariant(&*self);
        }
        if self.stmts == 0 {
            return None;
        }
        let mut taken = ScriptBuffer::new();
        core::mem::swap(&mut taken, self);
        Some(taken.script)
    }
}

// ---------------------------------------------------------------------------
// Laws
// ---------------------------------------------------------------------------

/// What pushing statements into an empty buffer does: the scripts that left it, one behind the
/// other, and what is waiting.
pub ghost struct Flow {
    pub sent: Seq<char>,
    pub waiting: Seq<char>,
    pub count: nat,
}

pub open spec fn flow(stmts: Seq<Seq<char>>) -> Flow
    decreases stmts.len(),
{
    if stmts.len() == 0 {
        Flow { sent: Seq::empty(), waiting: Seq::empty(), count: 0 }
    } else {
        let before = flow(stmts.drop_last());
        let script = before.waiting + line(stmts.last());
        if before.count + 1 >= FLUSH_AT {
            Flow { sent: before.sent + script, waiting: Seq::empty(), count: 0 }
        } else {
            Flow { sent: before.sent, waiting: script, count: before.count + 1 }
        }
    }
}

/// All statements, each on its line.
pub open spec fn lines(stmts: Seq<Seq<char>>) -> Seq<char>
    decreases stmts.len(),
{
    if stmts.len() == 0 {
        Seq::empty()
    } else {
        lines(stmts.drop_last()) + line(stmts.last())
    }
}

/// The scripts that leave a buffer and what is waiting in it are the statements that were
/// pushed, in order, none lost and none twice; and a full buffer never waits.
pub proof fn law_scripts_hold_every_statement(stmts: Seq<Seq<char>>)
    ensures
        flow(stmts).sent + flow(stmts).waiting == lines(stmts),
        flow(stmts).count == stmts.len() % (FLUSH_AT as nat),
    decreases stmts.len(),
{
    if stmts.len() > 0 {
        law_scripts_hold_every_statement(stmts.drop_last());
        let before = flow(stmts.drop_last());
        assert(before.sent + (before.waiting + line(stmts.last())) =~= (before.sent
            + before.waiting) + line(stmts.last()));
        assert(flow(stmts).sent + flow(stmts).waiting =~= lines(stmts));
    } else {
        assert(flow(stmts).sent + flow(stmts).waiting =~= lines(stmts));
    }
}

/// The parameter that the search for an edge compares with `@out` is bound to a link with the
/// rid of the edge's start, and the one that it compares with `@in` to a link with the rid of
/// its end.
pub proof fn law_the_edge_search_binds_its_ends(class: Seq<char>, from: Link, to: Link)
    ensures
        exists|start: Seq<char>, end: Seq<char>|
            find_edge(class) == "SELECT FROM "@ + class + " WHERE @out = :"@ + start
                + " AND @in = :"@ + end + " LIMIT 1"@ && #[trigger] edge_ends(from, to).contains_key(
                start,
            ) && #[trigger] edge_ends(from, to).contains_key(end) && edge_ends(from, to)[start].kind
                == Some(
                KindView::Link(
                    "#"@ + text::decimal(from.bucket as int) + ":"@ + text::decimal(from.pos as int),
                    Seq::empty(),
                ),
            ) && edge_ends(from, to)[end].kind == Some(
                KindView::Link(
                    "#"@ + text::decimal(to.bucket as int) + ":"@ + text::decimal(to.pos as int),
                    Seq::empty(),
                ),
            ) && edge_ends(from, to)[start].logical_type.len() == 0 && edge_ends(
                from,
                to,
            )[end].logical_type.len() == 0,
        edge_ends(from, to).dom().len() == 2,
{
    reveal_strlit(" WHERE @out = :__out AND @in = :__in LIMIT 1");
    reveal_strlit(" WHERE @out = :");
    reveal_strlit(" AND @in = :");
    reveal_strlit(" LIMIT 1");
    reveal_strlit("__out");
    reveal_strlit("__in");
    assert("__out"@[2] == 'o' && "__in"@[2] == 'i');
    let head = "SELECT FROM "@ + class;
    assert(find_edge(class) =~= head + " WHERE @out = :"@ + "__out"@ + " AND @in = :"@ + "__in"@
        + " LIMIT 1"@);
    assert(edge_ends(from, to).contains_key("__out"@));
    assert(edge_ends(from, to).contains_key("__in"@));
    assert(edge_ends(from, to).dom() =~= Set::empty().insert("__out"@).insert("__in"@));
}

/// The assignments are `name = :name` for every name, in order, with commas between them.
pub proof fn law_every_property_is_assigned_from_its_parameter(names: Seq<Seq<char>>, n: nat)
    requires
        n <= names.len(),
    ensures
        assignments(names, n) == text::joined(
            Seq::new(n, |i: int| names[i] + " = :"@ + names[i]),
            ", "@,
        ),
    decreases n,
{
    let parts = Seq::new(n, |i: int| names[i] + " = :"@ + names[i]);
    if n > 0 {
        law_every_property_is_assigned_from_its_parameter(names, (n - 1) as nat);
        assert(parts.drop_last() =~= Seq::new(
            (n - 1) as nat,
            |i: int| names[i] + " = :"@ + names[i],
        ));
        reveal_strlit("");
        let last = names[n - 1];
        if n == 1 {
            assert(assignments(names, 0) =~= Seq::empty());
            assert(assignments(names, 1) =~= last + " = :"@ + last);
        } else {
            assert(assignments(names, n) =~= assignments(names, (n - 1) as nat) + ", "@ + (last
                + " = :"@ + last));
        }
    }
}

/// A missing edge is created from the start to the end; an existing one is updated by its rid,
/// where there is anything to write. Both set every property.
pub proof fn law_edges_run_from_start_to_end(
    class: Seq<char>,
    from: Link,
    to: Link,
    names: Seq<Seq<char>>,
    rid: Seq<char>,
)
    ensures
        ({
            let set = text::joined(
                Seq::new(names.len(), |i: int| names[i] + " = :"@ + names[i]),
                ", "@,
            );
            let start = "#"@ + text::decimal(from.bucket as int) + ":"@ + text::decimal(
                from.pos as int,
            );
            let end = "#"@ + text::decimal(to.bucket as int) + ":"@ + text::decimal(to.pos as int);
            let create = "CREATE EDGE "@ + class + " FROM "@ + start + " TO "@ + end;
            &&& edge_statement(class, from, to, names, None) == Some(
                if names.len() == 0 {
                    create
                } else {
                    create + " SET "@ + set
                },
            )
            &&& edge_statement(class, from, to, names, Some(rid)) == if names.len() == 0 {
                None
            } else {
                Some("UPDATE "@ + rid + " SET "@ + set)
            }
        }),
{
    law_every_property_is_assigned_from_its_parameter(names, names.len());
}

/// An edge is written exactly when its type and all its property names are plain identifiers.
pub proof fn law_edges_have_plain_names(class: Seq<char>, names: Seq<Seq<char>>)
    ensures
        edge_problem(class, names) is None <==> query::plain_name(class) && forall|i: int|
            0 <= i < names.len() ==> query::plain_name(#[trigger] names[i]),
{
    query::law_identifiers_are_plain_names(class);
    query::law_the_first_bad_column_is_found(names, 0);
    assert forall|i: int| 0 <= i < names.len() implies (query::is_identifier(#[trigger] names[i])
        <==> query::plain_name(names[i])) by {
        query::law_identifiers_are_plain_names(names[i]);
    }
}

/// The edge that a search found is its first row's; an empty search found none.
pub proof fn law_the_first_row_is_the_edge(existing: QueryResult)
    ensures
        found_edge(existing) is None <==> existing.records@.len() == 0,
        existing.records@.len() > 0 ==> found_edge(existing) == Some(existing.records@.first().rid@),
{
}

/// A script is flushed with its five-hundredth statement, and every statement in it ends its
/// line.
pub proof fn law_scripts_are_flushed_full(stmts: Seq<Seq<char>>)
    ensures
        flow(stmts).count == stmts.len() % 500,
        flow(stmts).waiting == lines(
            stmts.skip(stmts.len() as int - (stmts.len() % 500) as int),
        ),
        stmts.len() > 0 ==> lines(stmts) == lines(stmts.drop_last()) + stmts.last() + seq!['\n'],
    decreases stmts.len(),
{
    law_scripts_hold_every_statement(stmts);
    if stmts.len() > 0 {
        law_scripts_are_flushed_full(stmts.drop_last());
        assert(lines(stmts) =~= lines(stmts.drop_last()) + stmts.last() + seq!['\n']);
        let n = stmts.len() as int;
        let k = n - n % 500;
        let t = stmts.drop_last();
        if n % 500 == 0 {
            assert(stmts.skip(k) =~= Seq::empty());
        } else {
            assert((n - 1) % 500 == n % 500 - 1);
            assert(stmts.skip(k).drop_last() =~= t.skip(k));
            assert(stmts.skip(k).last() == stmts.last());
        }
    } else {
        assert(stmts.skip(0) =~= Seq::empty());
    }
}

/// The property names of an edge are those of its pairs, in order.
pub proof fn law_property_names_are_those_of_the_pairs(pairs: Seq<(String, GrpcValue)>, i: int)
    requires
        0 <= i < pairs.len(),
    ensures
        prop_names(pairs).len() == pairs.len(),
        prop_names(pairs)[i] == pairs[i].0@,
{
}

} // verus!
