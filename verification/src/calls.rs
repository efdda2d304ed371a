//! Sequences of builder calls: what a clause says after any of them.

use vstd::prelude::*;
use crate::clause;
use crate::clause::ClauseView;
use crate::encode;
use crate::filter;
use crate::occurrence;
use crate::sql;
use crate::text;
use crate::wire::{KindView, ValueView};

verus! {

// ---------------------------------------------------------------------------
// Filters
// ---------------------------------------------------------------------------

/// An operator of a filter that binds one parameter under a tag.
pub ghost enum Operator {
    Ne,
    Lt,
    Lte,
    Gt,
    Gte,
    Contains,
    Like,
    Ilike,
    InList,
    NotIn,
    ContainsAll,
    ContainsAny,
}

pub open spec fn tag_of(o: Operator) -> Seq<char> {
    match o {
        Operator::Ne => "ne"@,
        Operator::Lt => "lt"@,
        Operator::Lte => "lte"@,
        Operator::Gt => "gt"@,
        Operator::Gte => "gte"@,
        Operator::Contains => "has"@,
        Operator::Like => "like"@,
        Operator::Ilike => "ilike"@,
        Operator::InList => "in"@,
        Operator::NotIn => "nin"@,
        Operator::ContainsAll => "all"@,
        Operator::ContainsAny => "any"@,
    }
}

pub open spec fn symbol_of(o: Operator) -> Seq<char> {
    match o {
        Operator::Ne => "<>"@,
        Operator::Lt => "<"@,
        Operator::Lte => "<="@,
        Operator::Gt => ">"@,
        Operator::Gte => ">="@,
        Operator::Contains => "CONTAINS"@,
        Operator::Like => "LIKE"@,
        Operator::Ilike => "ILIKE"@,
        Operator::InList => "IN"@,
        Operator::NotIn => "NOT IN"@,
        Operator::ContainsAll => "CONTAINSALL"@,
        Operator::ContainsAny => "CONTAINSANY"@,
    }
}

/// One call on a filter, with the wire form of what it binds.
pub ghost enum FilterCall {
    Eq(Seq<char>, ValueView),
    Compare(Seq<char>, Operator, ValueView),
    Between(Seq<char>, ValueView, ValueView),
    IsNull(Seq<char>),
    IsNotNull(Seq<char>),
    NotContainsAny(Seq<char>, ValueView),
    Bind(Seq<char>, ValueView),
}

/// The filter after a call.
pub open spec fn filter_call(c: ClauseView, call: FilterCall) -> ClauseView {
    match call {
        FilterCall::Eq(col, v) => filter::equals(c, col, v),
        FilterCall::Compare(col, o, v) => filter::tagged(c, col, tag_of(o), symbol_of(o), v),
        FilterCall::Between(col, from, to) => filter::ranged(c, col, from, to),
        FilterCall::IsNull(col) => c.push(col + " IS NULL"@),
        FilterCall::IsNotNull(col) => c.push(col + " IS NOT NULL"@),
        FilterCall::NotContainsAny(col, v) => filter::negated(
            filter::tagged(c, col, "any"@, "CONTAINSANY"@, v),
        ),
        FilterCall::Bind(name, v) => c.bind(name, v),
    }
}

/// A new filter after some calls.
pub open spec fn filter_calls(calls: Seq<FilterCall>) -> ClauseView
    decreases calls.len(),
{
    if calls.len() == 0 {
        clause::no_clause()
    } else {
        filter_call(filter_calls(calls.drop_last()), calls.last())
    }
}

/// The column that a call is about; `bind` is about none.
pub open spec fn column_of(call: FilterCall) -> Option<Seq<char>> {
    match call {
        FilterCall::Eq(col, _) => Some(col),
        FilterCall::Compare(col, _, _) => Some(col),
        FilterCall::Between(col, _, _) => Some(col),
        FilterCall::IsNull(col) => Some(col),
        FilterCall::IsNotNull(col) => Some(col),
        FilterCall::NotContainsAny(col, _) => Some(col),
        FilterCall::Bind(_, _) => None,
    }
}

/// The call is about a plain column name, or about none.
pub open spec fn on_column(call: FilterCall) -> bool {
    column_of(call) matches Some(col) ==> clause::column_like(col)
}

/// The call is about an identifier.
pub open spec fn on_identifier(call: FilterCall) -> bool {
    column_of(call) matches Some(col) && occurrence::identifier(col)
}

proof fn lemma_operator(o: Operator)
    ensures
        filter::tag_like(tag_of(o)),
        clause::tame(symbol_of(o)),
{
    reveal_strlit("ne");
    reveal_strlit("lt");
    reveal_strlit("lte");
    reveal_strlit("gt");
    reveal_strlit("gte");
    reveal_strlit("has");
    reveal_strlit("like");
    reveal_strlit("ilike");
    reveal_strlit("in");
    reveal_strlit("nin");
    reveal_strlit("all");
    reveal_strlit("any");
    reveal_strlit("<>");
    reveal_strlit("<");
    reveal_strlit("<=");
    reveal_strlit(">");
    reveal_strlit(">=");
    reveal_strlit("CONTAINS");
    reveal_strlit("LIKE");
    reveal_strlit("ILIKE");
    reveal_strlit("IN");
    reveal_strlit("NOT IN");
    reveal_strlit("CONTAINSALL");
    reveal_strlit("CONTAINSANY");
}

proof fn lemma_filter_is_finite(calls: Seq<FilterCall>)
    ensures
        filter_calls(calls).params.dom().finite(),
    decreases calls.len(),
{
    if calls.len() > 0 {
        lemma_filter_is_finite(calls.drop_last());
    }
}

proof fn lemma_filter_is_bound(calls: Seq<FilterCall>)
    requires
        forall|i: int| 0 <= i < calls.len() ==> on_column(#[trigger] calls[i]),
    ensures
        clause::all_bound(filter_calls(calls)),
    decreases calls.len(),
{
    if calls.len() > 0 {
        let rest = calls.drop_last();
        assert forall|i: int| 0 <= i < rest.len() implies on_column(#[trigger] rest[i]) by {
            assert(rest[i] == calls[i]);
        }
        lemma_filter_is_bound(rest);
        lemma_filter_is_finite(rest);
        let c = filter_calls(rest);
        assert(on_column(calls[calls.len() - 1]));
        match calls.last() {
            FilterCall::Eq(col, v) => {
                filter::law_eq_keeps_placeholders_bound(c, col, v);
            },
            FilterCall::Compare(col, o, v) => {
                lemma_operator(o);
                filter::law_operators_keep_placeholders_bound(
                    c,
                    col,
                    tag_of(o),
                    symbol_of(o),
                    v,
                );
            },
            FilterCall::Between(col, from, to) => {
                filter::law_between_keeps_placeholders_bound(c, col, from, to);
            },
            FilterCall::IsNull(col) => {
                filter::law_null_checks_keep_placeholders_bound(c, col);
            },
            FilterCall::IsNotNull(col) => {
                filter::law_null_checks_keep_placeholders_bound(c, col);
            },
            FilterCall::NotContainsAny(col, v) => {
                filter::law_not_contains_any_keeps_placeholders_bound(c, col, v);
            },
            FilterCall::Bind(name, v) => {
                clause::law_bind_keeps_placeholders_bound(c, name, v);
            },
        }
    }
}

/// A filter that was built by operators and `bind` references bound parameters only: every
/// placeholder in its text is bound.
pub proof fn law_filters_reference_bound_parameters(calls: Seq<FilterCall>)
    requires
        forall|i: int| 0 <= i < calls.len() ==> on_column(#[trigger] calls[i]),
    ensures
        ({
            let c = filter_calls(calls);
            let names = sql::placeholder_names(text::joined(c.frags, " AND "@));
            forall|i: int| 0 <= i < names.len() ==> c.params.contains_key(#[trigger] names[i])
        }),
{
    lemma_filter_is_bound(calls);
    clause::law_placeholders_of_a_clause_are_bound(filter_calls(calls), " AND "@);
}

/// The bound names of a clause are its placeholders, each of which occurs once.
spec fn exact(c: ClauseView) -> bool {
    &&& c.params.dom().finite()
    &&& occurrence::all_plain(c.frags)
    &&& occurrence::occurring_in(c.frags).no_duplicates()
    &&& forall|name: Seq<char>| #[trigger]
        c.params.contains_key(name) <==> occurrence::occurring_in(c.frags).contains(name)
}

/// A further fragment that references the new parameters `names` and nothing else.
proof fn lemma_exact_push(c: ClauseView, d: ClauseView, frag: Seq<char>, names: Seq<Seq<char>>)
    requires
        exact(c),
        sql::is_plain(frag),
        occurrence::occurring(frag) == names,
        names.no_duplicates(),
        forall|i: int| 0 <= i < names.len() ==> !c.params.contains_key(#[trigger] names[i]),
        d.frags == c.frags.push(frag),
        d.params.dom().finite(),
        forall|name: Seq<char>| #[trigger]
            d.params.contains_key(name) <==> c.params.contains_key(name) || names.contains(name),
    ensures
        exact(d),
{
    let before = occurrence::occurring_in(c.frags);
    let now = occurrence::occurring_in(d.frags);
    assert(d.frags.drop_last() =~= c.frags);
    assert(now == before + names);
    assert forall|i: int| 0 <= i < d.frags.len() implies sql::is_plain(#[trigger] d.frags[i]) by {
        if i < c.frags.len() {
            assert(d.frags[i] == c.frags[i]);
        }
    }
    assert forall|i: int, j: int|
        0 <= i < now.len() && 0 <= j < now.len() && i != j implies now[i] != now[j] by {
        if i < before.len() && j < before.len() {
            assert(now[i] == before[i] && now[j] == before[j]);
        } else if i < before.len() {
            assert(before.contains(before[i]));
            assert(!c.params.contains_key(names[j - before.len()]));
            assert(c.params.contains_key(before[i]));
        } else if j < before.len() {
            assert(before.contains(before[j]));
            assert(!c.params.contains_key(names[i - before.len()]));
            assert(c.params.contains_key(before[j]));
        } else {
            assert(now[i] == names[i - before.len()] && now[j] == names[j - before.len()]);
        }
    }
    assert forall|name: Seq<char>| #[trigger] d.params.contains_key(name) <==> now.contains(
        name,
    ) by {
        if now.contains(name) {
            let i = choose|i: int| 0 <= i < now.len() && now[i] == name;
            if i < before.len() {
                assert(before[i] == name);
            } else {
                assert(names[i - before.len()] == name);
            }
        }
        if before.contains(name) {
            let i = choose|i: int| 0 <= i < before.len() && before[i] == name;
            assert(now[i] == name);
        }
        if names.contains(name) {
            let i = choose|i: int| 0 <= i < names.len() && names[i] == name;
            assert(now[before.len() + i] == name);
        }
    }
}

/// A further fragment that references one new parameter.
proof fn lemma_exact_one(c: ClauseView, frag: Seq<char>, name: Seq<char>, value: ValueView)
    requires
        exact(c),
        sql::is_plain(frag),
        occurrence::occurring(frag) == seq![name],
        !c.params.contains_key(name),
    ensures
        exact(c.push(frag).bind(name, value)),
{
    let names = seq![name];
    assert(names[0] == name);
    assert forall|n: Seq<char>| names.contains(n) implies n == name by {
        let i = choose|i: int| 0 <= i < names.len() && names[i] == n;
    }
    lemma_exact_push(c, c.push(frag).bind(name, value), frag, names);
}

/// A further fragment that references nothing.
proof fn lemma_exact_none(c: ClauseView, frag: Seq<char>)
    requires
        exact(c),
        clause::tame(frag),
    ensures
        exact(c.push(frag)),
{
    occurrence::lemma_nothing_occurs(frag);
    lemma_exact_push(c, c.push(frag), frag, Seq::empty());
}

/// Generated names are free identifiers.
proof fn lemma_free_identifier(used: Set<Seq<char>>, base: Seq<char>)
    requires
        used.finite(),
        occurrence::identifier(base),
    ensures
        occurrence::identifier(filter::free_name(used, base)),
        !used.contains(filter::free_name(used, base)),
{
    assert(clause::column_like(base));
    filter::law_generated_names_are_free(used, base);
    filter::lemma_free_name_is_column_like(used, base);
    filter::lemma_same_prefix(used, base);
    let name = filter::free_name(used, base);
    assert(name.take(base.len() as int)[0] == base[0]);
    assert(name[0] == base[0]);
}

/// The base of a tagged name is an identifier when the column is.
proof fn lemma_tag_identifier(col: Seq<char>, tag: Seq<char>)
    requires
        occurrence::identifier(col),
        filter::tag_like(tag),
    ensures
        occurrence::identifier(filter::tag_name(col, tag)),
{
    assert(clause::column_like(col));
    filter::lemma_tag_name_is_column_like(col, tag);
    assert(filter::tag_name(col, tag)[0] == col[0]);
}

proof fn lemma_exact_eq(c: ClauseView, col: Seq<char>, value: ValueView)
    requires
        exact(c),
        occurrence::identifier(col),
    ensures
        exact(filter::equals(c, col, value)),
{
    reveal_strlit(" = :");
    let used = c.params.dom();
    let name = filter::free_name(used, col);
    lemma_free_identifier(used, col);
    assert(clause::tame(col));
    let eq = seq![' ', '=', ' '];
    let none = Seq::<char>::empty();
    clause::lemma_tame_concat(col, eq);
    occurrence::lemma_one_occurs(col + eq, name, none);
    assert(filter::eq_frag(col, name) =~= col + eq + seq![':'] + name + none);
    lemma_exact_one(c, filter::eq_frag(col, name), name, value);
}

/// What an operator's fragment references, bare or negated.
proof fn lemma_op_frag(col: Seq<char>, op: Seq<char>, name: Seq<char>)
    requires
        occurrence::identifier(col),
        occurrence::identifier(name),
        clause::tame(op),
    ensures
        sql::is_plain(filter::op_frag(col, op, name)),
        occurrence::occurring(filter::op_frag(col, op, name)) == seq![name],
        sql::is_plain("NOT ("@ + filter::op_frag(col, op, name) + ")"@),
        occurrence::occurring("NOT ("@ + filter::op_frag(col, op, name) + ")"@) == seq![name],
{
    reveal_strlit(" ");
    reveal_strlit(" :");
    reveal_strlit("NOT (");
    reveal_strlit(")");
    let gap = seq![' '];
    let none = Seq::<char>::empty();
    let open = "NOT ("@;
    assert(clause::tame(col));
    clause::lemma_tame_concat(col, gap);
    clause::lemma_tame_concat(col + gap, op);
    clause::lemma_tame_concat(col + gap + op, gap);
    let head = col + gap + op + gap;
    occurrence::lemma_one_occurs(head, name, none);
    assert(filter::op_frag(col, op, name) =~= head + seq![':'] + name + none);
    clause::lemma_tame_concat(open, head);
    occurrence::lemma_one_occurs(open + head, name, ")"@);
    assert(open + filter::op_frag(col, op, name) + ")"@ =~= open + head + seq![':'] + name
        + ")"@);
}

proof fn lemma_exact_tagged(
    c: ClauseView,
    col: Seq<char>,
    tag: Seq<char>,
    op: Seq<char>,
    value: ValueView,
)
    requires
        exact(c),
        occurrence::identifier(col),
        filter::tag_like(tag),
        clause::tame(op),
    ensures
        exact(filter::tagged(c, col, tag, op, value)),
        exact(filter::negated(filter::tagged(c, col, tag, op, value))),
{
    let used = c.params.dom();
    let base = filter::tag_name(col, tag);
    let name = filter::free_name(used, base);
    lemma_tag_identifier(col, tag);
    lemma_free_identifier(used, base);
    lemma_op_frag(col, op, name);
    let frag = filter::op_frag(col, op, name);
    lemma_exact_one(c, frag, name, value);
    let negated = "NOT ("@ + frag + ")"@;
    lemma_exact_one(c, negated, name, value);
    let plain = filter::tagged(c, col, tag, op, value);
    assert(plain.frags.last() == frag);
    assert(filter::negated(plain).frags =~= c.push(negated).bind(name, value).frags);
}

/// What the fragment of `between` references.
proof fn lemma_between_frag(col: Seq<char>, a: Seq<char>, b: Seq<char>)
    requires
        occurrence::identifier(col),
        occurrence::identifier(a),
        occurrence::identifier(b),
    ensures
        sql::is_plain(filter::between_frag(col, a, b)),
        occurrence::occurring(filter::between_frag(col, a, b)) == seq![a] + seq![b],
{
    reveal_strlit(" BETWEEN :");
    reveal_strlit(" AND :");
    let between = seq![' ', 'B', 'E', 'T', 'W', 'E', 'E', 'N', ' '];
    let and = seq![' ', 'A', 'N', 'D', ' '];
    let none = Seq::<char>::empty();
    assert(clause::tame(col));
    clause::lemma_tame_concat(col, between);
    occurrence::lemma_one_occurs(col + between, a, none);
    occurrence::lemma_one_occurs(none, b, none);
    let first = col + between + seq![':'] + a + none;
    let second = none + seq![':'] + b + none;
    occurrence::lemma_pieces(first, and, second);
    assert(filter::between_frag(col, a, b) =~= first + and + second);
}

proof fn lemma_exact_between(c: ClauseView, col: Seq<char>, from: ValueView, to: ValueView)
    requires
        exact(c),
        occurrence::identifier(col),
    ensures
        exact(filter::ranged(c, col, from, to)),
{
    let used = c.params.dom();
    let a_base = filter::tag_name(col, "from"@);
    let b_base = filter::tag_name(col, "to"@);
    let a = filter::free_name(used, a_base);
    let b = filter::free_name(used, b_base);
    assert(occurrence::identifier(a) && occurrence::identifier(b) && !used.contains(a)
        && !used.contains(b)) by {
        reveal_strlit("from");
        reveal_strlit("to");
        lemma_tag_identifier(col, "from"@);
        lemma_tag_identifier(col, "to"@);
        lemma_free_identifier(used, a_base);
        lemma_free_identifier(used, b_base);
    }
    let d = filter::ranged(c, col, from, to);
    assert(a != b) by {
        filter::law_between_binds_two_parameters(c, col, from, to);
        if a == b {
            assert(d.params.dom() =~= used.insert(a));
        }
    }
    lemma_between_frag(col, a, b);
    let names = seq![a] + seq![b];
    assert(names[0] == a && names[1] == b);
    assert forall|n: Seq<char>| names.contains(n) implies n == a || n == b by {
        let i = choose|i: int| 0 <= i < names.len() && names[i] == n;
    }
    lemma_exact_push(c, d, filter::between_frag(col, a, b), names);
}

proof fn lemma_filter_is_exact(calls: Seq<FilterCall>)
    requires
        forall|i: int| 0 <= i < calls.len() ==> on_identifier(#[trigger] calls[i]),
    ensures
        exact(filter_calls(calls)),
    decreases calls.len(),
{
    if calls.len() > 0 {
        let rest = calls.drop_last();
        assert forall|i: int| 0 <= i < rest.len() implies on_identifier(#[trigger] rest[i]) by {
            assert(rest[i] == calls[i]);
        }
        lemma_filter_is_exact(rest);
        let c = filter_calls(rest);
        assert(on_identifier(calls[calls.len() - 1]));
        match calls.last() {
            FilterCall::Eq(col, v) => {
                lemma_exact_eq(c, col, v);
            },
            FilterCall::Compare(col, o, v) => {
                lemma_operator(o);
                lemma_exact_tagged(c, col, tag_of(o), symbol_of(o), v);
            },
            FilterCall::Between(col, from, to) => {
                lemma_exact_between(c, col, from, to);
            },
            FilterCall::IsNull(col) => {
                reveal_strlit(" IS NULL");
                clause::lemma_tame_concat(col, " IS NULL"@);
                lemma_exact_none(c, col + " IS NULL"@);
            },
            FilterCall::IsNotNull(col) => {
                reveal_strlit(" IS NOT NULL");
                clause::lemma_tame_concat(col, " IS NOT NULL"@);
                lemma_exact_none(c, col + " IS NOT NULL"@);
            },
            FilterCall::NotContainsAny(col, v) => {
                lemma_operator(Operator::ContainsAny);
                lemma_exact_tagged(c, col, "any"@, "CONTAINSANY"@, v);
            },
            FilterCall::Bind(_, _) => {},
        }
    }
}

/// A filter that was built by operators alone binds what it references and nothing else: the
/// placeholders of its text are the bound names, and each occurs exactly once.
pub proof fn law_filters_bind_what_they_reference(calls: Seq<FilterCall>)
    requires
        forall|i: int| 0 <= i < calls.len() ==> on_identifier(#[trigger] calls[i]),
    ensures
        ({
            let c = filter_calls(calls);
            let statement = text::joined(c.frags, " AND "@);
            let names = sql::placeholder_occurrences(statement);
            &&& names.no_duplicates()
            &&& sql::placeholder_names(statement) == names
            &&& forall|name: Seq<char>| #[trigger]
                c.params.contains_key(name) <==> names.contains(name)
        }),
{
    let c = filter_calls(calls);
    let statement = text::joined(c.frags, " AND "@);
    lemma_filter_is_exact(calls);
    occurrence::lemma_clause_text(c.frags, " AND "@);
    let skeleton = sql::skeleton(statement);
    occurrence::lemma_distinct_occurrences(skeleton, skeleton.len() as int);
}

// ---------------------------------------------------------------------------
// SET clauses
// ---------------------------------------------------------------------------

/// One call on a SET clause, with the wire form of what it binds. The calls that act under a
/// condition are these, or no call at all.
pub ghost enum SetCall {
    Assign(Seq<char>, ValueView),
    Append(Seq<char>, ValueView),
    /// `set_or_null` without a value.
    Null(Seq<char>),
    Expr(Seq<char>, Seq<char>),
    Raw(Seq<char>, Seq<char>, ValueView),
    Bind(Seq<char>, ValueView),
}

/// The clause after a call.
pub open spec fn set_call(c: ClauseView, call: SetCall) -> ClauseView {
    match call {
        SetCall::Assign(col, v) => c.push(clause::set_frag(col)).bind(col, v),
        SetCall::Append(col, v) => clause::appended(c, col, v),
        SetCall::Null(col) => c.push(clause::expr_frag(col, "null"@)),
        SetCall::Expr(col, expr) => c.push(clause::expr_frag(col, expr)),
        SetCall::Raw(frag, name, v) => c.push(frag).bind(name, v),
        SetCall::Bind(name, v) => c.bind(name, v),
    }
}

/// A new clause after some calls.
pub open spec fn set_calls(calls: Seq<SetCall>) -> ClauseView
    decreases calls.len(),
{
    if calls.len() == 0 {
        clause::no_clause()
    } else {
        set_call(set_calls(calls.drop_last()), calls.last())
    }
}

/// A call that is no append and binds `name`.
pub open spec fn binds_outright(call: SetCall, name: Seq<char>) -> bool {
    match call {
        SetCall::Assign(col, _) => col == name,
        SetCall::Raw(_, n, _) => n == name,
        SetCall::Bind(n, _) => n == name,
        _ => false,
    }
}

/// An append to `col`.
pub open spec fn appends_to(call: SetCall, col: Seq<char>) -> bool {
    call matches SetCall::Append(c, _) && c == col
}

/// The values appended to `col`, in order.
pub open spec fn appended_values(calls: Seq<SetCall>, col: Seq<char>) -> Seq<ValueView>
    decreases calls.len(),
{
    if calls.len() == 0 {
        Seq::empty()
    } else {
        match calls.last() {
            SetCall::Append(c, v) => if c == col {
                appended_values(calls.drop_last(), col).push(v)
            } else {
                appended_values(calls.drop_last(), col)
            },
            _ => appended_values(calls.drop_last(), col),
        }
    }
}

/// The parameters of list appends differ as the columns do.
proof fn lemma_append_names(a: Seq<char>, b: Seq<char>)
    requires
        clause::append_name(a) == clause::append_name(b),
    ensures
        a == b,
{
    let n = clause::append_name(a);
    assert(n.len() == a.len() + "__append"@.len() && n.len() == b.len() + "__append"@.len());
    assert(n.take(a.len() as int) =~= a);
    assert(n.take(b.len() as int) =~= b);
}

/// Without an append to `col` its parameter is not bound.
proof fn lemma_nothing_appended(calls: Seq<SetCall>, col: Seq<char>)
    requires
        forall|i: int|
            0 <= i < calls.len() ==> !appends_to(#[trigger] calls[i], col) && !binds_outright(
                calls[i],
                clause::append_name(col),
            ),
    ensures
        !set_calls(calls).params.contains_key(clause::append_name(col)),
        appended_values(calls, col) == Seq::<ValueView>::empty(),
    decreases calls.len(),
{
    if calls.len() > 0 {
        let rest = calls.drop_last();
        assert forall|i: int| 0 <= i < rest.len() implies !appends_to(#[trigger] rest[i], col)
            && !binds_outright(rest[i], clause::append_name(col)) by {
            assert(rest[i] == calls[i]);
        }
        lemma_nothing_appended(rest, col);
        let last = calls[calls.len() - 1];
        assert(!appends_to(last, col) && !binds_outright(last, clause::append_name(col)));
        if let SetCall::Append(c, _) = last {
            if clause::append_name(c) == clause::append_name(col) {
                lemma_append_names(c, col);
            }
        }
    }
}

/// Appends to one column coalesce, whatever else the clause is told between them, as long as
/// nothing else binds their parameter: the first append, at `k`, puts one fragment behind those
/// that were there, later ones put none, and the parameter is the list of all appended values
/// in order.
pub proof fn law_appends_coalesce(calls: Seq<SetCall>, col: Seq<char>, k: int)
    requires
        0 <= k < calls.len(),
        appends_to(calls[k], col),
        forall|i: int| 0 <= i < k ==> !appends_to(#[trigger] calls[i], col),
        forall|i: int|
            0 <= i < calls.len() ==> !binds_outright(
                #[trigger] calls[i],
                clause::append_name(col),
            ),
    ensures
        ({
            let c = set_calls(calls);
            let before = set_calls(calls.take(k)).frags;
            let name = clause::append_name(col);
            &&& c.frags.len() > before.len()
            &&& c.frags.take(before.len() as int) == before
            &&& c.frags[before.len() as int] == clause::append_frag(col)
            &&& c.params.contains_key(name)
            &&& c.params[name] == encode::of_kind(KindView::List(appended_values(calls, col)))
        }),
        forall|i: int|
            k < i < calls.len() && appends_to(#[trigger] calls[i], col) ==> set_calls(
                calls.take(i + 1),
            ).frags == set_calls(calls.take(i)).frags,
    decreases calls.len(),
{
    let name = clause::append_name(col);
    let rest = calls.drop_last();
    let last = calls[calls.len() - 1];
    let c = set_calls(calls);
    let d = set_calls(rest);
    let before = set_calls(calls.take(k)).frags;
    if k == calls.len() - 1 {
        assert(calls.take(k) =~= rest);
        assert forall|i: int| 0 <= i < rest.len() implies !appends_to(#[trigger] rest[i], col)
            && !binds_outright(rest[i], name) by {
            assert(rest[i] == calls[i]);
        }
        lemma_nothing_appended(rest, col);
        let v = last->Append_1;
        assert(appended_values(calls, col) =~= seq![v]);
        assert(c.frags =~= before.push(clause::append_frag(col)));
        assert(c.frags.take(before.len() as int) =~= before);
    } else {
        assert(rest[k] == calls[k]);
        assert forall|i: int| 0 <= i < rest.len() implies !binds_outright(
            #[trigger] rest[i],
            name,
        ) by {
            assert(rest[i] == calls[i]);
        }
        assert forall|i: int| 0 <= i < k implies !appends_to(#[trigger] rest[i], col) by {
            assert(rest[i] == calls[i]);
        }
        law_appends_coalesce(rest, col, k);
        assert(rest.take(k) =~= calls.take(k));
        assert(!binds_outright(last, name));
        if let SetCall::Append(other, _) = last {
            if clause::append_name(other) == name {
                lemma_append_names(other, col);
            }
        }
        assert(c.frags == d.frags || (c.frags.len() == d.frags.len() + 1 && c.frags.drop_last()
            =~= d.frags));
        assert(c.frags.take(before.len() as int) =~= d.frags.take(before.len() as int));
        assert(c.frags[before.len() as int] == d.frags[before.len() as int]);
        assert forall|i: int|
            k < i < calls.len() && appends_to(#[trigger] calls[i], col) implies set_calls(
            calls.take(i + 1),
        ).frags == set_calls(calls.take(i)).frags by {
            if i < rest.len() {
                assert(rest[i] == calls[i]);
                assert(rest.take(i + 1) =~= calls.take(i + 1));
                assert(rest.take(i) =~= calls.take(i));
            } else {
                assert(calls.take(i + 1) =~= calls);
                assert(calls.take(i) =~= rest);
            }
        }
    }
}

/// The column of a call that assigns one.
pub open spec fn assigned(call: SetCall) -> Option<Seq<char>> {
    match call {
        SetCall::Assign(col, _) => Some(col),
        SetCall::Append(col, _) => Some(col),
        SetCall::Null(col) => Some(col),
        _ => None,
    }
}

/// A call that assigns a plain column name, or a `bind`.
pub open spec fn sets_column(call: SetCall) -> bool {
    call is Bind || (assigned(call) matches Some(col) && clause::column_like(col))
}

/// A call that assigns an identifier.
pub open spec fn sets_identifier(call: SetCall) -> bool {
    assigned(call) matches Some(col) && occurrence::identifier(col)
}

/// The fragment assigns to `col`.
pub open spec fn assigns(frag: Seq<char>, col: Seq<char>) -> bool {
    frag.len() >= col.len() + 3 && frag.take(col.len() as int + 3) == col + " = "@
}

/// A fragment assigns to the one column that it starts with.
proof fn lemma_one_target(frag: Seq<char>, own: Seq<char>, col: Seq<char>)
    requires
        clause::column_like(own),
        clause::column_like(col),
        assigns(frag, own),
        assigns(frag, col),
    ensures
        own == col,
{
    reveal_strlit(" = ");
    let a = frag.take(own.len() as int + 3);
    let b = frag.take(col.len() as int + 3);
    assert(a[own.len() as int] == ' ' && b[col.len() as int] == ' ');
    if own.len() < col.len() {
        assert(b[own.len() as int] == col[own.len() as int]);
        assert(frag[own.len() as int] == ' ');
    } else if col.len() < own.len() {
        assert(a[col.len() as int] == own[col.len() as int]);
        assert(frag[col.len() as int] == ' ');
    } else {
        assert(a.take(own.len() as int) =~= own);
        assert(b.take(col.len() as int) =~= col);
    }
}

/// Each fragment assigns to its column.
proof fn lemma_own_target(col: Seq<char>, expr: Seq<char>)
    ensures
        assigns(clause::set_frag(col), col),
        assigns(clause::append_frag(col), col),
        assigns(clause::expr_frag(col, expr), col),
{
    reveal_strlit(" = ");
    reveal_strlit(" = :");
    reveal_strlit(" || :");
    let n = (col.len() + 3) as int;
    assert(clause::set_frag(col).take(n) =~= col + " = "@);
    assert(clause::append_frag(col).take(n) =~= col + " = "@);
    assert(clause::expr_frag(col, expr).take(n) =~= col + " = "@);
}

/// Calls on other columns put no fragment that assigns to `col`.
proof fn lemma_other_fragments(calls: Seq<SetCall>, col: Seq<char>)
    requires
        clause::column_like(col),
        forall|i: int|
            0 <= i < calls.len() ==> sets_column(#[trigger] calls[i]) && assigned(calls[i])
                != Some(col),
    ensures
        forall|j: int|
            0 <= j < set_calls(calls).frags.len() ==> !assigns(
                #[trigger] set_calls(calls).frags[j],
                col,
            ),
    decreases calls.len(),
{
    if calls.len() > 0 {
        let rest = calls.drop_last();
        assert forall|i: int| 0 <= i < rest.len() implies sets_column(#[trigger] rest[i])
            && assigned(rest[i]) != Some(col) by {
            assert(rest[i] == calls[i]);
        }
        lemma_other_fragments(rest, col);
        let c = set_calls(calls);
        let d = set_calls(rest);
        let last = calls[calls.len() - 1];
        assert(sets_column(last));
        if let Some(own) = assigned(last) {
            lemma_own_target(own, "null"@);
            assert forall|j: int| 0 <= j < c.frags.len() implies !assigns(
                #[trigger] c.frags[j],
                col,
            ) by {
                if j < d.frags.len() {
                    assert(c.frags[j] == d.frags[j]);
                } else {
                    assert(assigns(c.frags[j], own));
                    if assigns(c.frags[j], col) {
                        lemma_one_target(c.frags[j], own, col);
                    }
                }
            }
        }
    }
}

/// However often a column is appended to, exactly one fragment assigns to it: the one of the
/// first append, at `k`. The other calls assign to other columns or bind.
pub proof fn law_one_fragment_per_appended_column(calls: Seq<SetCall>, col: Seq<char>, k: int)
    requires
        clause::column_like(col),
        0 <= k < calls.len(),
        appends_to(calls[k], col),
        forall|i: int| 0 <= i < k ==> !appends_to(#[trigger] calls[i], col),
        forall|i: int|
            0 <= i < calls.len() ==> sets_column(#[trigger] calls[i]) && (assigned(calls[i])
                == Some(col) ==> appends_to(calls[i], col)) && !binds_outright(
                calls[i],
                clause::append_name(col),
            ),
    ensures
        ({
            let c = set_calls(calls);
            let place = set_calls(calls.take(k)).frags.len() as int;
            &&& place < c.frags.len()
            &&& c.frags[place] == clause::append_frag(col)
            &&& forall|j: int|
                0 <= j < c.frags.len() && assigns(#[trigger] c.frags[j], col) ==> j == place
        }),
    decreases calls.len(),
{
    law_appends_coalesce(calls, col, k);
    let rest = calls.drop_last();
    let last = calls[calls.len() - 1];
    let c = set_calls(calls);
    let d = set_calls(rest);
    let place = set_calls(calls.take(k)).frags.len() as int;
    if k == calls.len() - 1 {
        assert(calls.take(k) =~= rest);
        assert forall|i: int| 0 <= i < rest.len() implies sets_column(#[trigger] rest[i])
            && assigned(rest[i]) != Some(col) && !appends_to(rest[i], col) && !binds_outright(
            rest[i],
            clause::append_name(col),
        ) by {
            assert(rest[i] == calls[i]);
        }
        lemma_other_fragments(rest, col);
        lemma_nothing_appended(rest, col);
        assert(c.frags =~= d.frags.push(clause::append_frag(col)));
        assert forall|j: int| 0 <= j < c.frags.len() && assigns(#[trigger] c.frags[j], col) implies j
            == place by {
            if j < d.frags.len() {
                assert(c.frags[j] == d.frags[j]);
            }
        }
    } else {
        assert(rest[k] == calls[k]);
        assert forall|i: int| 0 <= i < rest.len() implies sets_column(#[trigger] rest[i]) && (
        assigned(rest[i]) == Some(col) ==> appends_to(rest[i], col)) && !binds_outright(
            rest[i],
            clause::append_name(col),
        ) by {
            assert(rest[i] == calls[i]);
        }
        assert forall|i: int| 0 <= i < k implies !appends_to(#[trigger] rest[i], col) by {
            assert(rest[i] == calls[i]);
        }
        law_one_fragment_per_appended_column(rest, col, k);
        assert(rest.take(k) =~= calls.take(k));
        assert(sets_column(last));
        if appends_to(last, col) {
            let i = calls.len() - 1;
            assert(appends_to(calls[i], col));
            assert(calls.take(i + 1) =~= calls);
            assert(calls.take(i) =~= rest);
        } else if let Some(own) = assigned(last) {
            lemma_own_target(own, "null"@);
            assert forall|j: int|
                0 <= j < c.frags.len() && assigns(#[trigger] c.frags[j], col) implies j
                == place by {
                if j < d.frags.len() {
                    assert(c.frags[j] == d.frags[j]);
                } else {
                    assert(assigns(c.frags[j], own));
                    lemma_one_target(c.frags[j], own, col);
                }
            }
        }
    }
}

proof fn lemma_set_is_bound(calls: Seq<SetCall>)
    requires
        forall|i: int| 0 <= i < calls.len() ==> sets_column(#[trigger] calls[i]),
    ensures
        clause::all_bound(set_calls(calls)),
    decreases calls.len(),
{
    if calls.len() > 0 {
        let rest = calls.drop_last();
        assert forall|i: int| 0 <= i < rest.len() implies sets_column(#[trigger] rest[i]) by {
            assert(rest[i] == calls[i]);
        }
        lemma_set_is_bound(rest);
        let c = set_calls(rest);
        assert(sets_column(calls[calls.len() - 1]));
        match calls.last() {
            SetCall::Assign(col, v) => {
                clause::law_set_keeps_placeholders_bound(c, col, v);
            },
            SetCall::Append(col, v) => {
                clause::law_append_keeps_placeholders_bound(c, col, v);
            },
            SetCall::Null(col) => {
                clause::law_null_keeps_placeholders_bound(c, col);
            },
            SetCall::Bind(name, v) => {
                clause::law_bind_keeps_placeholders_bound(c, name, v);
            },
            _ => {},
        }
    }
}

/// A SET clause that was built without raw SQL references bound parameters only: every
/// placeholder in its text is bound.
pub proof fn law_set_clauses_reference_bound_parameters(calls: Seq<SetCall>)
    requires
        forall|i: int| 0 <= i < calls.len() ==> sets_column(#[trigger] calls[i]),
    ensures
        ({
            let c = set_calls(calls);
            let names = sql::placeholder_names(text::joined(c.frags, ", "@));
            forall|i: int| 0 <= i < names.len() ==> c.params.contains_key(#[trigger] names[i])
        }),
{
    lemma_set_is_bound(calls);
    clause::law_placeholders_of_a_clause_are_bound(set_calls(calls), ", "@);
}

/// The bound names of a clause are its placeholders.
spec fn covered(c: ClauseView) -> bool {
    &&& occurrence::all_plain(c.frags)
    &&& forall|name: Seq<char>| #[trigger]
        c.params.contains_key(name) <==> occurrence::occurring_in(c.frags).contains(name)
}

/// A further fragment that references one parameter, and that parameter.
proof fn lemma_covered_one(c: ClauseView, frag: Seq<char>, name: Seq<char>, value: ValueView)
    requires
        covered(c),
        sql::is_plain(frag),
        occurrence::occurring(frag) == seq![name],
    ensures
        covered(c.push(frag).bind(name, value)),
{
    let d = c.push(frag).bind(name, value);
    let before = occurrence::occurring_in(c.frags);
    let now = occurrence::occurring_in(d.frags);
    assert(d.frags.drop_last() =~= c.frags);
    assert(now =~= before.push(name));
    assert forall|i: int| 0 <= i < d.frags.len() implies sql::is_plain(#[trigger] d.frags[i]) by {
        if i < c.frags.len() {
            assert(d.frags[i] == c.frags[i]);
        }
    }
    assert forall|n: Seq<char>| #[trigger] d.params.contains_key(n) <==> now.contains(n) by {
        assert(d.params.contains_key(n) <==> c.params.contains_key(n) || n == name);
        if now.contains(n) {
            let i = choose|i: int| 0 <= i < now.len() && now[i] == n;
            if i < before.len() {
                assert(before[i] == n);
            }
        }
        if before.contains(n) {
            let i = choose|i: int| 0 <= i < before.len() && before[i] == n;
            assert(now[i] == n);
        }
        assert(now[before.len() as int] == name);
    }
}

proof fn lemma_covered_append(c: ClauseView, col: Seq<char>, value: ValueView)
    requires
        covered(c),
        occurrence::identifier(col),
    ensures
        covered(clause::appended(c, col, value)),
{
    reveal_strlit(" = ");
    reveal_strlit(" || :");
    reveal_strlit("__append");
    let name = clause::append_name(col);
    assert(occurrence::identifier(name)) by {
        assert forall|i: int| 0 <= i < name.len() implies text::is_word(#[trigger] name[i]) by {
            if i < col.len() {
                assert(name[i] == col[i]);
            } else {
                assert(name[i] == "__append"@[i - col.len()]);
            }
        }
        assert(name[0] == col[0]);
    }
    let eq = seq![' ', '=', ' '];
    let bars = seq![' ', '|', '|', ' '];
    let none = Seq::<char>::empty();
    assert(clause::tame(col));
    clause::lemma_tame_concat(col, eq);
    clause::lemma_tame_concat(col + eq, col);
    clause::lemma_tame_concat(col + eq + col, bars);
    occurrence::lemma_one_occurs(col + eq + col + bars, name, none);
    assert(clause::append_frag(col) =~= col + eq + col + bars + seq![':'] + name + none);
    lemma_covered_one(
        c,
        clause::append_frag(col),
        name,
        encode::of_kind(KindView::List(seq![value])),
    );
    if c.params.contains_key(name) {
        if let Some(KindView::List(list)) = c.params[name].kind {
            let d = c.bind(name, clause::longer_list(list, c.params[name].logical_type, value));
            assert forall|n: Seq<char>| #[trigger]
                d.params.contains_key(n) <==> occurrence::occurring_in(d.frags).contains(n) by {
                assert(d.params.contains_key(n) <==> c.params.contains_key(n));
            }
        }
    }
}

proof fn lemma_set_is_covered(calls: Seq<SetCall>)
    requires
        forall|i: int| 0 <= i < calls.len() ==> sets_identifier(#[trigger] calls[i]),
    ensures
        covered(set_calls(calls)),
    decreases calls.len(),
{
    if calls.len() > 0 {
        let rest = calls.drop_last();
        assert forall|i: int| 0 <= i < rest.len() implies sets_identifier(#[trigger] rest[i]) by {
            assert(rest[i] == calls[i]);
        }
        lemma_set_is_covered(rest);
        let c = set_calls(rest);
        assert(sets_identifier(calls[calls.len() - 1]));
        match calls.last() {
            SetCall::Assign(col, v) => {
                reveal_strlit(" = :");
                let eq = seq![' ', '=', ' '];
                let none = Seq::<char>::empty();
                assert(clause::tame(col));
                clause::lemma_tame_concat(col, eq);
                occurrence::lemma_one_occurs(col + eq, col, none);
                assert(clause::set_frag(col) =~= col + eq + seq![':'] + col + none);
                lemma_covered_one(c, clause::set_frag(col), col, v);
            },
            SetCall::Append(col, v) => {
                lemma_covered_append(c, col, v);
            },
            SetCall::Null(col) => {
                reveal_strlit(" = ");
                reveal_strlit("null");
                let frag = clause::expr_frag(col, "null"@);
                assert(clause::tame(col));
                clause::lemma_tame_concat(col, " = "@);
                clause::lemma_tame_concat(col + " = "@, "null"@);
                occurrence::lemma_nothing_occurs(frag);
                let d = c.push(frag);
                assert(d.frags.drop_last() =~= c.frags);
                assert(occurrence::occurring_in(d.frags) =~= occurrence::occurring_in(c.frags));
                assert forall|i: int| 0 <= i < d.frags.len() implies sql::is_plain(
                    #[trigger] d.frags[i],
                ) by {
                    if i < c.frags.len() {
                        assert(d.frags[i] == c.frags[i]);
                    }
                }
            },
            _ => {},
        }
    }
}

/// A SET clause that was built by `set`, `append` and `set_or_null` binds what it references
/// and nothing else: the placeholders of its text are the bound names.
pub proof fn law_set_clauses_bind_what_they_reference(calls: Seq<SetCall>)
    requires
        forall|i: int| 0 <= i < calls.len() ==> sets_identifier(#[trigger] calls[i]),
    ensures
        ({
            let c = set_calls(calls);
            let names = sql::placeholder_occurrences(text::joined(c.frags, ", "@));
            forall|name: Seq<char>| #[trigger]
                c.params.contains_key(name) <==> names.contains(name)
        }),
{
    let c = set_calls(calls);
    lemma_set_is_covered(calls);
    occurrence::lemma_clause_text(c.frags, ", "@);
}

/// After the call, the filter has one fragment more: the column, the symbol and a parameter
/// that is new and bound to the value.
pub open spec fn compares(
    before: ClauseView,
    after: ClauseView,
    col: Seq<char>,
    symbol: Seq<char>,
    value: ValueView,
) -> bool {
    exists|name: Seq<char>|
        !(#[trigger] before.params.contains_key(name)) && after.frags == before.frags.push(
            col + " "@ + symbol + " :"@ + name,
        ) && after.params == before.params.insert(name, value)
}

/// Every comparison says its own operator and binds its own value.
pub proof fn law_comparisons_say_their_operator(c: ClauseView, col: Seq<char>, v: ValueView)
    requires
        c.params.dom().finite(),
    ensures
        compares(c, filter_call(c, FilterCall::Compare(col, Operator::Ne, v)), col, "<>"@, v),
        compares(c, filter_call(c, FilterCall::Compare(col, Operator::Lt, v)), col, "<"@, v),
        compares(c, filter_call(c, FilterCall::Compare(col, Operator::Lte, v)), col, "<="@, v),
        compares(c, filter_call(c, FilterCall::Compare(col, Operator::Gt, v)), col, ">"@, v),
        compares(c, filter_call(c, FilterCall::Compare(col, Operator::Gte, v)), col, ">="@, v),
        compares(
            c,
            filter_call(c, FilterCall::Compare(col, Operator::Contains, v)),
            col,
            "CONTAINS"@,
            v,
        ),
        compares(c, filter_call(c, FilterCall::Compare(col, Operator::Like, v)), col, "LIKE"@, v),
        compares(c, filter_call(c, FilterCall::Compare(col, Operator::Ilike, v)), col, "ILIKE"@, v),
        compares(c, filter_call(c, FilterCall::Compare(col, Operator::InList, v)), col, "IN"@, v),
        compares(
            c,
            filter_call(c, FilterCall::Compare(col, Operator::NotIn, v)),
            col,
            "NOT IN"@,
            v,
        ),
        compares(
            c,
            filter_call(c, FilterCall::Compare(col, Operator::ContainsAll, v)),
            col,
            "CONTAINSALL"@,
            v,
        ),
        compares(
            c,
            filter_call(c, FilterCall::Compare(col, Operator::ContainsAny, v)),
            col,
            "CONTAINSANY"@,
            v,
        ),
{
    filter::law_operators_compare_with_the_value(c, col, "ne"@, "<>"@, v);
    filter::law_operators_compare_with_the_value(c, col, "lt"@, "<"@, v);
    filter::law_operators_compare_with_the_value(c, col, "lte"@, "<="@, v);
    filter::law_operators_compare_with_the_value(c, col, "gt"@, ">"@, v);
    filter::law_operators_compare_with_the_value(c, col, "gte"@, ">="@, v);
    filter::law_operators_compare_with_the_value(c, col, "has"@, "CONTAINS"@, v);
    filter::law_operators_compare_with_the_value(c, col, "like"@, "LIKE"@, v);
    filter::law_operators_compare_with_the_value(c, col, "ilike"@, "ILIKE"@, v);
    filter::law_operators_compare_with_the_value(c, col, "in"@, "IN"@, v);
    filter::law_operators_compare_with_the_value(c, col, "nin"@, "NOT IN"@, v);
    filter::law_operators_compare_with_the_value(c, col, "all"@, "CONTAINSALL"@, v);
    filter::law_operators_compare_with_the_value(c, col, "any"@, "CONTAINSANY"@, v);
}

/// The null checks and the negated list check say what they are, and bind nothing else.
pub proof fn law_null_checks_say_what_they_are(
    c: ClauseView,
    col: Seq<char>,
    name: Seq<char>,
    v: ValueView,
)
    requires
        c.params.dom().finite(),
    ensures
        filter_call(c, FilterCall::IsNull(col)) == (ClauseView {
            frags: c.frags.push(col + " IS NULL"@),
            params: c.params,
        }),
        filter_call(c, FilterCall::IsNotNull(col)) == (ClauseView {
            frags: c.frags.push(col + " IS NOT NULL"@),
            params: c.params,
        }),
        filter_call(c, FilterCall::Bind(name, v)) == (ClauseView {
            frags: c.frags,
            params: c.params.insert(name, v),
        }),
        ({
            let any = filter_call(c, FilterCall::Compare(col, Operator::ContainsAny, v));
            filter_call(c, FilterCall::NotContainsAny(col, v)) == (ClauseView {
                frags: c.frags.push("NOT ("@ + any.frags.last() + ")"@),
                params: any.params,
            })
        }),
{
    filter::law_not_contains_any_negates_contains_any(c, col, v);
}

/// An equality compares with its value, and a range is the filter's, from the first value to
/// the second.
pub proof fn law_equalities_and_ranges_bind_their_values(
    c: ClauseView,
    col: Seq<char>,
    v: ValueView,
    w: ValueView,
)
    requires
        c.params.dom().finite(),
    ensures
        compares(c, filter_call(c, FilterCall::Eq(col, v)), col, "="@, v),
        filter_call(c, FilterCall::Between(col, v, w)) == filter::ranged(c, col, v, w),
{
    filter::law_eq_compares_with_the_value(c, col, v);
    let name = choose|name: Seq<char>|
        !(#[trigger] c.params.contains_key(name)) && filter::equals(c, col, v) == (ClauseView {
            frags: c.frags.push(col + " = :"@ + name),
            params: c.params.insert(name, v),
        });
    reveal_strlit(" = :");
    reveal_strlit(" ");
    reveal_strlit("=");
    reveal_strlit(" :");
    assert(col + " = :"@ + name =~= col + " "@ + "="@ + " :"@ + name);
    assert(!c.params.contains_key(name));
}

/// What each way to set a column writes: an assignment from its own parameter, an expression,
/// or null.
pub proof fn law_set_calls_write_what_they_say(
    c: ClauseView,
    col: Seq<char>,
    expr: Seq<char>,
    name: Seq<char>,
    v: ValueView,
)
    ensures
        set_call(c, SetCall::Assign(col, v)) == (ClauseView {
            frags: c.frags.push(col + " = :"@ + col),
            params: c.params.insert(col, v),
        }),
        set_call(c, SetCall::Null(col)) == (ClauseView {
            frags: c.frags.push(col + " = "@ + "null"@),
            params: c.params,
        }),
        set_call(c, SetCall::Expr(col, expr)) == (ClauseView {
            frags: c.frags.push(col + " = "@ + expr),
            params: c.params,
        }),
        set_call(c, SetCall::Raw(expr, name, v)) == (ClauseView {
            frags: c.frags.push(expr),
            params: c.params.insert(name, v),
        }),
        set_call(c, SetCall::Bind(name, v)) == (ClauseView {
            frags: c.frags,
            params: c.params.insert(name, v),
        }),
        set_call(c, SetCall::Append(col, v)) == clause::appended(c, col, v),
{
}

} // verus!
