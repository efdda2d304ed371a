//! WHERE assembly for dynamic queries, the read-side sibling of SET clauses.
//!
//! Every operator emits its fragment and binds its parameter in the same call, so a fragment
//! never references a parameter that was not bound. The only text of the caller's is the
//! column name.

use vstd::prelude::*;
use vstd::string::*;
use crate::calls;
use crate::clause;
use crate::clause::ClauseView;
use crate::encode;
use crate::encode::{IntoGrpcValue, IntoText, Params};
use crate::props::PropMap;
use crate::text;
use crate::wire;
use crate::wire::{GrpcValue, KindView, ValueView};

verus! {

// ---------------------------------------------------------------------------
// Parameter names
// ---------------------------------------------------------------------------

/// The `n`-th alternative to `base`.
pub open spec fn numbered(base: Seq<char>, n: int) -> Seq<char> {
    base + "_"@ + text::decimal(n)
}

/// `n` is the first number, from two on, whose alternative to `base` is not used yet.
pub open spec fn first_free(used: Set<Seq<char>>, base: Seq<char>, n: int) -> bool {
    n >= 2 && !used.contains(numbered(base, n)) && forall|m: int|
        2 <= m < n ==> used.contains(#[trigger] numbered(base, m))
}

/// The name a parameter gets: `base` when that is free, else `base_2`, `base_3`, …
pub open spec fn free_name(used: Set<Seq<char>>, base: Seq<char>) -> Seq<char> {
    if used.contains(base) {
        numbered(base, choose|n: int| first_free(used, base, n))
    } else {
        base
    }
}

/// The first free number is unique.
pub proof fn lemma_first_free(used: Set<Seq<char>>, base: Seq<char>, n: int)
    requires
        used.contains(base),
        first_free(used, base, n),
    ensures
        free_name(used, base) == numbered(base, n),
{
    let m = choose|m: int| first_free(used, base, m);
    assert(first_free(used, base, m));
    if m < n {
        assert(used.contains(numbered(base, m)));
    } else if n < m {
        assert(used.contains(numbered(base, n)));
    }
}

proof fn lemma_numbered_distinct(base: Seq<char>, n: int, m: int)
    requires
        numbered(base, n) == numbered(base, m),
    ensures
        n == m,
{
    let k = (base + "_"@).len() as int;
    assert(numbered(base, n).skip(k) =~= text::decimal(n));
    assert(numbered(base, m).skip(k) =~= text::decimal(m));
    text::law_decimal_reads_back(n);
    text::law_decimal_reads_back(m);
}

// ---------------------------------------------------------------------------
// Filters
// ---------------------------------------------------------------------------

/// `col = :name`.
pub open spec fn eq_frag(col: Seq<char>, name: Seq<char>) -> Seq<char> {
    col + " = :"@ + name
}

/// `col OP :name`.
pub open spec fn op_frag(col: Seq<char>, op: Seq<char>, name: Seq<char>) -> Seq<char> {
    col + " "@ + op + " :"@ + name
}

/// `col BETWEEN :from AND :to`.
pub open spec fn between_frag(col: Seq<char>, from: Seq<char>, to: Seq<char>) -> Seq<char> {
    col + " BETWEEN :"@ + from + " AND :"@ + to
}

/// The base name of the parameter that `tag` marks.
pub open spec fn tag_name(col: Seq<char>, tag: Seq<char>) -> Seq<char> {
    col + "__"@ + tag
}

/// The filter with `col = :col` added.
pub open spec fn equals(c: ClauseView, col: Seq<char>, value: ValueView) -> ClauseView {
    let name = free_name(c.params.dom(), col);
    c.push(eq_frag(col, name)).bind(name, value)
}

/// The filter with `col OP :col__tag` added.
pub open spec fn tagged(
    c: ClauseView,
    col: Seq<char>,
    tag: Seq<char>,
    op: Seq<char>,
    value: ValueView,
) -> ClauseView {
    let name = free_name(c.params.dom(), tag_name(col, tag));
    c.push(op_frag(col, op, name)).bind(name, value)
}

/// The filter with `col BETWEEN :col__from AND :col__to` added.
pub open spec fn ranged(
    c: ClauseView,
    col: Seq<char>,
    from: ValueView,
    to: ValueView,
) -> ClauseView {
    let name = free_name(c.params.dom(), tag_name(col, "from"@));
    let to_name = free_name(c.params.dom(), tag_name(col, "to"@));
    c.push(between_frag(col, name, to_name)).bind(name, from).bind(to_name, to)
}

/// The filter with its last fragment negated.
pub open spec fn negated(c: ClauseView) -> ClauseView {
    ClauseView {
        frags: c.frags.drop_last().push("NOT ("@ + c.frags.last() + ")"@),
        params: c.params,
    }
}

/// The list value of converted elements.
pub open spec fn list_of<V: IntoGrpcValue>(values: Seq<V>) -> ValueView {
    encode::of_kind(KindView::List(encode::wires(values)))
}

/// Accumulates AND-joined WHERE fragments and their bound values.
#[derive(Debug)]
pub struct FilterClause {
    frags: Vec<String>,
    params: PropMap<GrpcValue>,
}

impl View for FilterClause {
    type V = ClauseView;

    closed spec fn view(&self) -> ClauseView {
        ClauseView { frags: text::texts(self.frags@), params: wire::entries_view(self.params) }
    }
}

impl Clone for FilterClause {
    fn clone(&self) -> (r: Self)
        ensures
            r@ == self@,
    {
        FilterClause { frags: clause::copy_texts(&self.frags), params: self.params.clone() }
    }
}

impl Default for FilterClause {
    fn default() -> (c: Self)
        ensures
            c@ == clause::no_clause(),
    {
        FilterClause::new()
    }
}

impl FilterClause {
    pub fn new() -> (c: Self)
        ensures
            c@ == clause::no_clause(),
    {
        let c = FilterClause { frags: Vec::new(), params: PropMap::new() };
        proof {
            encode::lemma_empty_says(c.params);
            assert(text::texts(c.frags@) =~= Seq::empty());
        }
        c
    }

    /// Whether nothing was pushed.
    pub fn is_empty(&self) -> (b: bool)
        ensures
            b == (self@.frags.len() == 0),
    {
        self.frags.len() == 0
    }

    /// The WHERE body: `a = :a AND b >= :b__gte`; empty when nothing was pushed.
    pub fn sql(&self) -> (r: String)
        ensures
            r@ == text::joined(self@.frags, " AND "@),
    {
        text::join(&self.frags, " AND ")
    }

    /// The body behind the `WHERE` keyword, or nothing when nothing was pushed.
    pub fn where_sql(&self) -> (r: String)
        ensures
            r@ == if self@.frags.len() == 0 {
                Seq::empty()
            } else {
                "WHERE "@ + text::joined(self@.frags, " AND "@)
            },
    {
        if self.frags.len() == 0 {
            String::new()
        } else {
            let mut out = "WHERE ".to_owned();
            out.append(self.sql().as_str());
            out
        }
    }

    /// The bound parameters.
    pub fn into_params(self) -> (p: Params)
        ensures
            p@ == self@.params,
    {
        Params(self.params)
    }

    /// A raw fragment as it is. It owns any placeholders it references: bind them with
    /// [`bind`](Self::bind).
    pub fn filter<S: IntoText>(self, fragment: S) -> (c: Self)
        ensures
            c@ == self@.push(fragment.chars()),
    {
        self.with_frag(fragment.into_text())
    }

    /// [`filter`](Self::filter) only when `cond` holds.
    pub fn filter_when<S: IntoText>(self, cond: bool, fragment: S) -> (c: Self)
        ensures
            c@ == if cond {
                self@.push(fragment.chars())
            } else {
                self@
            },
    {
        if cond {
            self.filter(fragment)
        } else {
            self
        }
    }

    fn with_frag(self, frag: String) -> (c: Self)
        ensures
            c@ == self@.push(frag@),
    {
        let mut this = self;
        proof {
            text::lemma_texts_push(this.frags@, frag);
        }
        this.frags.push(frag);
        this
    }

    /// Bind a parameter without a fragment, for a placeholder referenced elsewhere.
    pub fn bind<V: IntoGrpcValue>(self, name: &str, value: V) -> (c: Self)
        ensures
            c@ == self@.bind(name@, value.wire()),
            c@ == calls::filter_call(self@, calls::FilterCall::Bind(name@, value.wire())),
    {
        let mut this = self;
        let ghost before = this.params;
        let v = value.into_value();
        this.params.insert(name.to_owned(), v);
        proof {
            encode::lemma_insert_says(before, this.params, name@, v);
        }
        this
    }

    /// `col = :col`.
    pub fn eq<V: IntoGrpcValue>(self, col: &str, value: V) -> (c: Self)
        ensures
            c@ == equals(self@, col@, value.wire()),
            c@ == calls::filter_call(self@, calls::FilterCall::Eq(col@, value.wire())),
    {
        let name = self.param_name(col);
        let mut frag = col.to_owned();
        frag.append(" = :");
        frag.append(name.as_str());
        self.with_frag(frag).bind(name.as_str(), value)
    }

    /// `col <> :col__ne`.
    pub fn ne<V: IntoGrpcValue>(self, col: &str, value: V) -> (c: Self)
        ensures
            c@ == tagged(self@, col@, "ne"@, "<>"@, value.wire()),
            c@ == calls::filter_call(
                self@,
                calls::FilterCall::Compare(col@, calls::Operator::Ne, value.wire()),
            ),
    {
        self.emit(col, "ne", "<>", value)
    }

    /// `col < :col__lt`.
    pub fn lt<V: IntoGrpcValue>(self, col: &str, value: V) -> (c: Self)
        ensures
            c@ == tagged(self@, col@, "lt"@, "<"@, value.wire()),
            c@ == calls::filter_call(
                self@,
                calls::FilterCall::Compare(col@, calls::Operator::Lt, value.wire()),
            ),
    {
        self.emit(col, "lt", "<", value)
    }

    /// `col <= :col__lte`.
    pub fn lte<V: IntoGrpcValue>(self, col: &str, value: V) -> (c: Self)
        ensures
            c@ == tagged(self@, col@, "lte"@, "<="@, value.wire()),
            c@ == calls::filter_call(
                self@,
                calls::FilterCall::Compare(col@, calls::Operator::Lte, value.wire()),
            ),
    {
        self.emit(col, "lte", "<=", value)
    }

    /// `col > :col__gt`.
    pub fn gt<V: IntoGrpcValue>(self, col: &str, value: V) -> (c: Self)
        ensures
            c@ == tagged(self@, col@, "gt"@, ">"@, value.wire()),
            c@ == calls::filter_call(
                self@,
                calls::FilterCall::Compare(col@, calls::Operator::Gt, value.wire()),
            ),
    {
        self.emit(col, "gt", ">", value)
    }

    /// `col >= :col__gte`.
    pub fn gte<V: IntoGrpcValue>(self, col: &str, value: V) -> (c: Self)
        ensures
            c@ == tagged(self@, col@, "gte"@, ">="@, value.wire()),
            c@ == calls::filter_call(
                self@,
                calls::FilterCall::Compare(col@, calls::Operator::Gte, value.wire()),
            ),
    {
        self.emit(col, "gte", ">=", value)
    }

    /// `col CONTAINS :col__has`, true when the collection holds the bound scalar.
    pub fn contains<V: IntoGrpcValue>(self, col: &str, value: V) -> (c: Self)
        ensures
            c@ == tagged(self@, col@, "has"@, "CONTAINS"@, value.wire()),
            c@ == calls::filter_call(
                self@,
                calls::FilterCall::Compare(col@, calls::Operator::Contains, value.wire()),
            ),
    {
        self.emit(col, "has", "CONTAINS", value)
    }

    /// `col LIKE :col__like` (case-sensitive wildcards).
    pub fn like<V: IntoGrpcValue>(self, col: &str, value: V) -> (c: Self)
        ensures
            c@ == tagged(self@, col@, "like"@, "LIKE"@, value.wire()),
            c@ == calls::filter_call(
                self@,
                calls::FilterCall::Compare(col@, calls::Operator::Like, value.wire()),
            ),
    {
        self.emit(col, "like", "LIKE", value)
    }

    /// `col ILIKE :col__ilike` (case-insensitive).
    pub fn ilike<V: IntoGrpcValue>(self, col: &str, value: V) -> (c: Self)
        ensures
            c@ == tagged(self@, col@, "ilike"@, "ILIKE"@, value.wire()),
            c@ == calls::filter_call(
                self@,
                calls::FilterCall::Compare(col@, calls::Operator::Ilike, value.wire()),
            ),
    {
        self.emit(col, "ilike", "ILIKE", value)
    }

    /// `col IN :col__in`, with the values bound as one list parameter.
    pub fn in_list<V: IntoGrpcValue>(self, col: &str, values: Vec<V>) -> (c: Self)
        ensures
            c@ == tagged(self@, col@, "in"@, "IN"@, list_of(values@)),
            c@ == calls::filter_call(
                self@,
                calls::FilterCall::Compare(col@, calls::Operator::InList, list_of(values@)),
            ),
    {
        self.emit_list(col, "in", "IN", values)
    }

    /// `col NOT IN :col__nin`. The index is not used: pair it with an indexed condition.
    pub fn not_in<V: IntoGrpcValue>(self, col: &str, values: Vec<V>) -> (c: Self)
        ensures
            c@ == tagged(self@, col@, "nin"@, "NOT IN"@, list_of(values@)),
            c@ == calls::filter_call(
                self@,
                calls::FilterCall::Compare(col@, calls::Operator::NotIn, list_of(values@)),
            ),
    {
        self.emit_list(col, "nin", "NOT IN", values)
    }

    /// `col CONTAINSALL :col__all`: every bound element is present.
    pub fn contains_all<V: IntoGrpcValue>(self, col: &str, values: Vec<V>) -> (c: Self)
        ensures
            c@ == tagged(self@, col@, "all"@, "CONTAINSALL"@, list_of(values@)),
            c@ == calls::filter_call(
                self@,
                calls::FilterCall::Compare(col@, calls::Operator::ContainsAll, list_of(values@)),
            ),
    {
        self.emit_list(col, "all", "CONTAINSALL", values)
    }

    /// `col CONTAINSANY :col__any`: at least one bound element is present.
    pub fn contains_any<V: IntoGrpcValue>(self, col: &str, values: Vec<V>) -> (c: Self)
        ensures
            c@ == tagged(self@, col@, "any"@, "CONTAINSANY"@, list_of(values@)),
            c@ == calls::filter_call(
                self@,
                calls::FilterCall::Compare(col@, calls::Operator::ContainsAny, list_of(values@)),
            ),
    {
        self.emit_list(col, "any", "CONTAINSANY", values)
    }

    /// `col BETWEEN :col__from AND :col__to`.
    pub fn between<A: IntoGrpcValue, B: IntoGrpcValue>(self, col: &str, from: A, to: B) -> (c: Self)
        ensures
            c@ == ranged(self@, col@, from.wire(), to.wire()),
            c@ == calls::filter_call(
                self@,
                calls::FilterCall::Between(col@, from.wire(), to.wire()),
            ),
    {
        let name = self.tagged_name(col, "from");
        let to_name = self.tagged_name(col, "to");
        let mut frag = col.to_owned();
        frag.append(" BETWEEN :");
        frag.append(name.as_str());
        frag.append(" AND :");
        frag.append(to_name.as_str());
        self.with_frag(frag).bind(name.as_str(), from).bind(to_name.as_str(), to)
    }

    /// `col IS NULL`; nothing is bound.
    pub fn is_null(self, col: &str) -> (c: Self)
        ensures
            c@ == self@.push(col@ + " IS NULL"@),
            c@ == calls::filter_call(self@, calls::FilterCall::IsNull(col@)),
    {
        let mut frag = col.to_owned();
        frag.append(" IS NULL");
        self.with_frag(frag)
    }

    /// `col IS NOT NULL`; nothing is bound.
    pub fn is_not_null(self, col: &str) -> (c: Self)
        ensures
            c@ == self@.push(col@ + " IS NOT NULL"@),
            c@ == calls::filter_call(self@, calls::FilterCall::IsNotNull(col@)),
    {
        let mut frag = col.to_owned();
        frag.append(" IS NOT NULL");
        self.with_frag(frag)
    }

    /// `NOT (col CONTAINSANY :col__any)`: none of the bound elements may be present.
    pub fn not_contains_any<V: IntoGrpcValue>(self, col: &str, values: Vec<V>) -> (c: Self)
        ensures
            c@ == negated(tagged(self@, col@, "any"@, "CONTAINSANY"@, list_of(values@))),
            c@ == calls::filter_call(
                self@,
                calls::FilterCall::NotContainsAny(col@, list_of(values@)),
            ),
    {
        let mut this = self.contains_any(col, values);
        let ghost before = this@;
        let ghost old_frags = this.frags@;
        match this.frags.pop() {
            Some(last) => {
                let mut frag = "NOT (".to_owned();
                frag.append(last.as_str());
                frag.append(")");
                this.frags.push(frag);
                assert(text::texts(this.frags@) =~= negated(before).frags);
            },
            None => {
                assert(text::texts(old_frags).len() == 0);
            },
        }
        this
    }

    /// Apply a step of several calls only when `option` is `Some`.
    pub fn apply_if<T, F: FnOnce(Self, T) -> Self>(self, option: Option<T>, f: F) -> (c: Self)
        requires
            match option {
                Some(v) => call_requires(f, (self, v)),
                None => true,
            },
        ensures
            match option {
                Some(v) => call_ensures(f, (self, v), c),
                None => c == self,
            },
    {
        match option {
            Some(v) => f(self, v),
            None => self,
        }
    }

    fn tagged_name(&self, col: &str, tag: &str) -> (r: String)
        ensures
            r@ == free_name(self@.params.dom(), tag_name(col@, tag@)),
    {
        let mut base = col.to_owned();
        base.append("__");
        base.append(tag);
        self.param_name(base.as_str())
    }

    fn emit<V: IntoGrpcValue>(self, col: &str, tag: &str, op: &str, value: V) -> (c: Self)
        ensures
            c@ == tagged(self@, col@, tag@, op@, value.wire()),
    {
        let name = self.tagged_name(col, tag);
        let mut frag = col.to_owned();
        frag.append(" ");
        frag.append(op);
        frag.append(" :");
        frag.append(name.as_str());
        self.with_frag(frag).bind(name.as_str(), value)
    }

    fn emit_list<V: IntoGrpcValue>(self, col: &str, tag: &str, op: &str, values: Vec<V>) -> (c: Self)
        ensures
            c@ == tagged(self@, col@, tag@, op@, list_of(values@)),
    {
        let mut out: Vec<GrpcValue> = Vec::new();
        let ghost all = values@;
        for x in it: values
            invariant
                it.seq() == all,
                out@.len() == it.index(),
                forall|j: int| 0 <= j < it.index() ==> (#[trigger] out@[j])@ == all[j].wire(),
        {
            out.push(x.into_value());
        }
        assert(wire::values_view(out@) =~= encode::wires(all));
        self.emit(col, tag, op, encode::list_v(out))
    }

    /// A free parameter name: the base, or the base with the first free number.
    fn param_name(&self, base: &str) -> (r: String)
        ensures
            r@ == free_name(self@.params.dom(), base@),
    {
        let ghost used = self@.params.dom();
        proof {
            wire::lemma_entries(self.params);
        }
        let count = self.params.len();
        if !self.params.contains_key(base) {
            return base.to_owned();
        }
        let mut n: u128 = 2;
        let ghost mut left: Set<Seq<char>> = used;
        loop
            invariant
                used == self@.params.dom(),
                used == self.params@.dom(),
                used.contains(base@),
                used.finite(),
                used.len() == count,
                2 <= n <= count + 2,
                left.finite(),
                left.len() == count - (n - 2),
                forall|k: Seq<char>| left.contains(k) ==> used.contains(k),
                forall|m: int|
                    2 <= m < n ==> used.contains(#[trigger] numbered(base@, m)) && !left.contains(
                        numbered(base@, m),
                    ),
                forall|k: Seq<char>|
                    used.contains(k) && !left.contains(k) ==> exists|m: int|
                        2 <= m < n && k == #[trigger] numbered(base@, m),
            decreases left.len(),
        {
            let mut candidate = base.to_owned();
            candidate.append("_");
            candidate.append(text::wide_text(n).as_str());
            assert(candidate@ =~= numbered(base@, n as int));
            if !self.params.contains_key(candidate.as_str()) {
                proof {
                    lemma_first_free(used, base@, n as int);
                }
                return candidate;
            }
            proof {
                let name = numbered(base@, n as int);
                if !left.contains(name) {
                    let m = choose|m: int| 2 <= m < n && name == #[trigger] numbered(base@, m);
                    lemma_numbered_distinct(base@, n as int, m);
                }
                let smaller = left.remove(name);
                assert forall|k: Seq<char>| used.contains(k) && !smaller.contains(k) implies exists|
                    m: int,
                |
                    2 <= m < n + 1 && k == #[trigger] numbered(base@, m) by {
                    if k == name {
                        assert(k == numbered(base@, n as int));
                    } else {
                        assert(!left.contains(k));
                        let m = choose|m: int| 2 <= m < n && k == #[trigger] numbered(base@, m);
                        assert(k == numbered(base@, m));
                    }
                }
                left = smaller;
            }
            n = n + 1;
        }
    }
}

// ---------------------------------------------------------------------------
// Laws
// ---------------------------------------------------------------------------

/// Counting on from `n`, some alternative to `base` is free. `left` are the used names that
/// no earlier number accounts for.
proof fn lemma_some_free(used: Set<Seq<char>>, base: Seq<char>, n: int, left: Set<Seq<char>>) -> (r:
    int)
    requires
        n >= 2,
        left.finite(),
        left.subset_of(used),
        forall|m: int| 2 <= m < n ==> used.contains(#[trigger] numbered(base, m)),
        forall|k: Seq<char>|
            used.contains(k) && !left.contains(k) ==> exists|m: int|
                2 <= m < n && k == #[trigger] numbered(base, m),
    ensures
        first_free(used, base, r),
    decreases left.len(),
{
    let name = numbered(base, n);
    if used.contains(name) {
        if !left.contains(name) {
            let m = choose|m: int| 2 <= m < n && name == #[trigger] numbered(base, m);
            lemma_numbered_distinct(base, n, m);
        }
        let smaller = left.remove(name);
        assert forall|k: Seq<char>| used.contains(k) && !smaller.contains(k) implies exists|m: int|
            2 <= m < n + 1 && k == #[trigger] numbered(base, m) by {
            if k == name {
                assert(k == numbered(base, n));
            } else {
                assert(!left.contains(k));
                let m = choose|m: int| 2 <= m < n && k == #[trigger] numbered(base, m);
                assert(k == numbered(base, m));
            }
        }
        lemma_some_free(used, base, n + 1, smaller)
    } else {
        n
    }
}

/// A generated parameter name is never one that is already bound.
pub proof fn law_generated_names_are_free(used: Set<Seq<char>>, base: Seq<char>)
    requires
        used.finite(),
    ensures
        !used.contains(free_name(used, base)),
{
    if used.contains(base) {
        let n = lemma_some_free(used, base, 2, used);
        lemma_first_free(used, base, n);
    }
}

/// An operator adds one fragment and one parameter, and leaves every earlier parameter as it
/// was.
pub proof fn law_operators_keep_earlier_parameters(
    c: ClauseView,
    col: Seq<char>,
    tag: Seq<char>,
    op: Seq<char>,
    value: ValueView,
)
    requires
        c.params.dom().finite(),
    ensures
        c.params.submap_of(tagged(c, col, tag, op, value).params),
        c.params.submap_of(equals(c, col, value).params),
        tagged(c, col, tag, op, value).params.dom().len() == c.params.dom().len() + 1,
        equals(c, col, value).params.dom().len() == c.params.dom().len() + 1,
        tagged(c, col, tag, op, value).frags.len() == c.frags.len() + 1,
        equals(c, col, value).frags.len() == c.frags.len() + 1,
{
    law_generated_names_are_free(c.params.dom(), tag_name(col, tag));
    law_generated_names_are_free(c.params.dom(), col);
}

/// A generated name starts with its base.
pub proof fn lemma_same_prefix(used: Set<Seq<char>>, base: Seq<char>)
    ensures
        free_name(used, base).len() >= base.len(),
        free_name(used, base).take(base.len() as int) == base,
{
    let n = choose|n: int| first_free(used, base, n);
    assert(base.take(base.len() as int) =~= base);
    assert(numbered(base, n).take(base.len() as int) =~= base);
}

/// `between` binds two different parameters, and leaves every earlier one as it was.
pub proof fn law_between_binds_two_parameters(
    c: ClauseView,
    col: Seq<char>,
    from: ValueView,
    to: ValueView,
)
    requires
        c.params.dom().finite(),
    ensures
        c.params.submap_of(ranged(c, col, from, to).params),
        ranged(c, col, from, to).params.dom().len() == c.params.dom().len() + 2,
        ranged(c, col, from, to).frags.len() == c.frags.len() + 1,
{
    reveal_strlit("__");
    reveal_strlit("from");
    reveal_strlit("to");
    let used = c.params.dom();
    let a = tag_name(col, "from"@);
    let b = tag_name(col, "to"@);
    law_generated_names_are_free(used, a);
    law_generated_names_are_free(used, b);
    lemma_same_prefix(used, a);
    lemma_same_prefix(used, b);
    let k = col.len() + 2;
    assert(a[k as int] == 'f' && b[k as int] == 't');
    assert(free_name(used, a)[k as int] == free_name(used, a).take(a.len() as int)[k as int]);
    assert(free_name(used, b)[k as int] == free_name(used, b).take(b.len() as int)[k as int]);
    assert(free_name(used, a) != free_name(used, b));
}

/// A tag: word characters only.
pub open spec fn tag_like(tag: Seq<char>) -> bool {
    forall|i: int| 0 <= i < tag.len() ==> text::is_word(#[trigger] tag[i])
}

/// A tagged column name is like a column name.
pub proof fn lemma_tag_name_is_column_like(col: Seq<char>, tag: Seq<char>)
    requires
        clause::column_like(col),
        tag_like(tag),
    ensures
        clause::column_like(tag_name(col, tag)),
{
    reveal_strlit("__");
    let name = tag_name(col, tag);
    assert forall|i: int| 0 <= i < name.len() implies (text::is_word(#[trigger] name[i]) || (i == 0
        && name[i] == '@')) by {
        if i < col.len() {
            assert(name[i] == col[i]);
        } else if i < col.len() + 2 {
            assert(name[i] == "__"@[i - col.len()]);
        } else {
            assert(name[i] == tag[i - col.len() - 2]);
        }
    }
}

/// A generated name is like a column name when its base is.
pub proof fn lemma_free_name_is_column_like(used: Set<Seq<char>>, base: Seq<char>)
    requires
        used.finite(),
        clause::column_like(base),
    ensures
        clause::column_like(free_name(used, base)),
{
    if used.contains(base) {
        let n = lemma_some_free(used, base, 2, used);
        lemma_first_free(used, base, n);
        reveal_strlit("_");
        text::lemma_digits_read_back(n as nat);
        let name = numbered(base, n);
        let d = text::digits(n as nat);
        assert forall|i: int| 0 <= i < name.len() implies (text::is_word(#[trigger] name[i]) || (i
            == 0 && name[i] == '@')) by {
            if i < base.len() {
                assert(name[i] == base[i]);
            } else if i > base.len() {
                assert(name[i] == d[i - base.len() - 1]);
                assert(text::is_digit(d[i - base.len() - 1]));
            }
        }
    }
}

/// The comparison and membership operators keep every placeholder bound.
pub proof fn law_operators_keep_placeholders_bound(
    c: ClauseView,
    col: Seq<char>,
    tag: Seq<char>,
    op: Seq<char>,
    value: ValueView,
)
    requires
        clause::all_bound(c),
        c.params.dom().finite(),
        clause::column_like(col),
        tag_like(tag),
        clause::tame(op),
    ensures
        clause::all_bound(tagged(c, col, tag, op, value)),
{
    reveal_strlit(" ");
    reveal_strlit(" :");
    let used = c.params.dom();
    let base = tag_name(col, tag);
    lemma_tag_name_is_column_like(col, tag);
    lemma_free_name_is_column_like(used, base);
    let name = free_name(used, base);
    clause::lemma_column_is_tame(col);
    let gap = seq![' '];
    clause::lemma_tame_concat(col, gap);
    clause::lemma_tame_concat(col + gap, op);
    clause::lemma_tame_concat(col + gap + op, gap);
    clause::lemma_one_placeholder(col + gap + op + gap, name, Seq::empty(), used.insert(name));
    assert(op_frag(col, op, name) =~= col + gap + op + gap + seq![':'] + name + Seq::empty());
    clause::lemma_push_and_bind(c, op_frag(col, op, name), name, value);
}

/// `eq` keeps every placeholder bound.
pub proof fn law_eq_keeps_placeholders_bound(c: ClauseView, col: Seq<char>, value: ValueView)
    requires
        clause::all_bound(c),
        c.params.dom().finite(),
        clause::column_like(col),
    ensures
        clause::all_bound(equals(c, col, value)),
{
    reveal_strlit(" = :");
    let used = c.params.dom();
    lemma_free_name_is_column_like(used, col);
    let name = free_name(used, col);
    clause::lemma_column_is_tame(col);
    let eq = seq![' ', '=', ' '];
    clause::lemma_tame_concat(col, eq);
    clause::lemma_one_placeholder(col + eq, name, Seq::empty(), used.insert(name));
    assert(eq_frag(col, name) =~= col + eq + seq![':'] + name + Seq::empty());
    clause::lemma_push_and_bind(c, eq_frag(col, name), name, value);
}

/// `between` keeps every placeholder bound.
pub proof fn law_between_keeps_placeholders_bound(
    c: ClauseView,
    col: Seq<char>,
    from: ValueView,
    to: ValueView,
)
    requires
        clause::all_bound(c),
        c.params.dom().finite(),
        clause::column_like(col),
    ensures
        clause::all_bound(ranged(c, col, from, to)),
{
    reveal_strlit(" BETWEEN :");
    reveal_strlit(" AND :");
    reveal_strlit("from");
    reveal_strlit("to");
    let used = c.params.dom();
    lemma_tag_name_is_column_like(col, "from"@);
    lemma_tag_name_is_column_like(col, "to"@);
    let a = free_name(used, tag_name(col, "from"@));
    let b = free_name(used, tag_name(col, "to"@));
    lemma_free_name_is_column_like(used, tag_name(col, "from"@));
    lemma_free_name_is_column_like(used, tag_name(col, "to"@));
    clause::lemma_column_is_tame(col);
    let between = seq![' ', 'B', 'E', 'T', 'W', 'E', 'E', 'N', ' '];
    let and = seq![' ', 'A', 'N', 'D', ' '];
    let bound = used.insert(a).insert(b);
    let none = Seq::<char>::empty();
    clause::lemma_tame_concat(col, between);
    clause::lemma_one_placeholder(col + between, a, none, bound);
    clause::lemma_one_placeholder(none, b, none, bound);
    let first = col + between + seq![':'] + a + none;
    let second = none + seq![':'] + b + none;
    clause::lemma_bound_concat(first, and, second, bound);
    let frag = between_frag(col, a, b);
    assert(frag =~= first + and + second);
    clause::law_bind_keeps_placeholders_bound(c, a, from);
    assert(c.bind(a, from).params.dom() =~= used.insert(a));
    clause::lemma_push_and_bind(c.bind(a, from), frag, b, to);
    assert(ranged(c, col, from, to).frags =~= c.bind(a, from).push(frag).bind(b, to).frags);
}

/// The null checks reference nothing and keep every placeholder bound.
pub proof fn law_null_checks_keep_placeholders_bound(c: ClauseView, col: Seq<char>)
    requires
        clause::all_bound(c),
        clause::column_like(col),
    ensures
        clause::all_bound(c.push(col + " IS NULL"@)),
        clause::all_bound(c.push(col + " IS NOT NULL"@)),
{
    reveal_strlit(" IS NULL");
    reveal_strlit(" IS NOT NULL");
    clause::lemma_column_is_tame(col);
    clause::lemma_tame_concat(col, " IS NULL"@);
    clause::lemma_tame_concat(col, " IS NOT NULL"@);
    clause::lemma_no_placeholder(col + " IS NULL"@, c.params.dom());
    clause::lemma_no_placeholder(col + " IS NOT NULL"@, c.params.dom());
    clause::lemma_push_bound(c, col + " IS NULL"@);
    clause::lemma_push_bound(c, col + " IS NOT NULL"@);
}

/// `not_contains_any` keeps every placeholder bound.
pub proof fn law_not_contains_any_keeps_placeholders_bound(
    c: ClauseView,
    col: Seq<char>,
    value: ValueView,
)
    requires
        clause::all_bound(c),
        c.params.dom().finite(),
        clause::column_like(col),
    ensures
        clause::all_bound(negated(tagged(c, col, "any"@, "CONTAINSANY"@, value))),
{
    reveal_strlit("any");
    reveal_strlit("CONTAINSANY");
    reveal_strlit("NOT (");
    reveal_strlit(")");
    reveal_strlit(" ");
    reveal_strlit(" :");
    let used = c.params.dom();
    let base = tag_name(col, "any"@);
    lemma_tag_name_is_column_like(col, "any"@);
    lemma_free_name_is_column_like(used, base);
    let name = free_name(used, base);
    clause::lemma_column_is_tame(col);
    let gap = seq![' '];
    let open = "NOT ("@;
    let op = "CONTAINSANY"@;
    clause::lemma_tame_concat(open, col);
    clause::lemma_tame_concat(open + col, gap);
    clause::lemma_tame_concat(open + col + gap, op);
    clause::lemma_tame_concat(open + col + gap + op, gap);
    clause::lemma_one_placeholder(
        open + col + gap + op + gap,
        name,
        ")"@,
        used.insert(name),
    );
    let plain = tagged(c, col, "any"@, op, value);
    let frag = "NOT ("@ + plain.frags.last() + ")"@;
    assert(frag =~= open + col + gap + op + gap + seq![':'] + name + ")"@);
    clause::lemma_push_and_bind(c, frag, name, value);
    assert(negated(plain).frags =~= c.frags.push(frag));
}

/// A generated parameter name is the wished-for name itself where that is free; otherwise it
/// is that name, an underscore and the smallest number from two on that makes it free.
pub proof fn law_names_are_numbered_from_two(used: Set<Seq<char>>, base: Seq<char>)
    requires
        used.finite(),
    ensures
        !used.contains(base) ==> free_name(used, base) == base,
        used.contains(base) ==> exists|n: int|
            2 <= n && free_name(used, base) == base + "_"@ + #[trigger] text::decimal(n)
                && !used.contains(base + "_"@ + text::decimal(n)) && forall|m: int|
                2 <= m < n ==> used.contains(base + "_"@ + #[trigger] text::decimal(m)),
{
    if used.contains(base) {
        lemma_some_free(used, base, 2, used);
        let n = choose|n: int| first_free(used, base, n);
        assert(first_free(used, base, n));
        assert forall|m: int| 2 <= m < n implies used.contains(
            base + "_"@ + #[trigger] text::decimal(m),
        ) by {
            assert(used.contains(numbered(base, m)));
        }
        assert(free_name(used, base) == base + "_"@ + text::decimal(n));
    }
}

/// `eq` adds one fragment that compares the column with a parameter, and that parameter is new
/// and bound to the value.
pub proof fn law_eq_compares_with_the_value(c: ClauseView, col: Seq<char>, value: ValueView)
    requires
        c.params.dom().finite(),
    ensures
        exists|name: Seq<char>|
            !(#[trigger] c.params.contains_key(name)) && equals(c, col, value) == (ClauseView {
                frags: c.frags.push(col + " = :"@ + name),
                params: c.params.insert(name, value),
            }),
{
    let name = free_name(c.params.dom(), col);
    law_generated_names_are_free(c.params.dom(), col);
    assert(!c.params.contains_key(name));
}

/// An operator adds one fragment: the column, the operator's symbol and a parameter. The
/// parameter is new, bound to the value, and named after the column and the operator.
pub proof fn law_operators_compare_with_the_value(
    c: ClauseView,
    col: Seq<char>,
    tag: Seq<char>,
    op: Seq<char>,
    value: ValueView,
)
    requires
        c.params.dom().finite(),
    ensures
        exists|name: Seq<char>|
            !(#[trigger] c.params.contains_key(name)) && tagged(c, col, tag, op, value) == (
            ClauseView {
                frags: c.frags.push(col + " "@ + op + " :"@ + name),
                params: c.params.insert(name, value),
            }) && (col + "__"@ + tag).is_prefix_of(name),
{
    let base = tag_name(col, tag);
    let name = free_name(c.params.dom(), base);
    law_generated_names_are_free(c.params.dom(), base);
    lemma_same_prefix(c.params.dom(), base);
    assert(name.subrange(0, base.len() as int) =~= name.take(base.len() as int));
    assert(!c.params.contains_key(name));
}

/// The parameter that stands behind `BETWEEN` in the added fragment is bound to the lower
/// bound, and the one behind `AND` to the upper bound.
pub proof fn law_between_runs_from_the_first_value_to_the_second(
    c: ClauseView,
    col: Seq<char>,
    from: ValueView,
    to: ValueView,
)
    requires
        c.params.dom().finite(),
    ensures
        exists|low: Seq<char>, high: Seq<char>|
            ranged(c, col, from, to).frags == c.frags.push(
                col + " BETWEEN :"@ + low + " AND :"@ + high,
            ) && #[trigger] ranged(c, col, from, to).params.contains_key(low)
                && #[trigger] ranged(c, col, from, to).params.contains_key(high) && low != high
                && ranged(c, col, from, to).params[low] == from && ranged(
                c,
                col,
                from,
                to,
            ).params[high] == to,
{
    reveal_strlit("__");
    reveal_strlit("from");
    reveal_strlit("to");
    let used = c.params.dom();
    let a = tag_name(col, "from"@);
    let b = tag_name(col, "to"@);
    lemma_same_prefix(used, a);
    lemma_same_prefix(used, b);
    let low = free_name(used, a);
    let high = free_name(used, b);
    let k = col.len() + 2;
    assert(a[k as int] == 'f' && b[k as int] == 't');
    assert(low[k as int] == low.take(a.len() as int)[k as int]);
    assert(high[k as int] == high.take(b.len() as int)[k as int]);
    let r = ranged(c, col, from, to);
    assert(r.params.contains_key(low) && r.params.contains_key(high));
}

/// `not_contains_any` is `contains_any` with its fragment negated as a whole: it binds the same
/// parameters, and every other fragment stays.
pub proof fn law_not_contains_any_negates_contains_any(
    c: ClauseView,
    col: Seq<char>,
    value: ValueView,
)
    ensures
        ({
            let plain = tagged(c, col, "any"@, "CONTAINSANY"@, value);
            let r = negated(plain);
            &&& r.params == plain.params
            &&& r.frags == c.frags.push("NOT ("@ + plain.frags.last() + ")"@)
        }),
{
    let plain = tagged(c, col, "any"@, "CONTAINSANY"@, value);
    assert(plain.frags.drop_last() =~= c.frags);
}

/// The value behind a list operator is a list of the values' wire forms, in order.
pub proof fn law_lists_hold_the_values_in_order<V: IntoGrpcValue>(values: Seq<V>)
    ensures
        list_of(values).logical_type.len() == 0,
        list_of(values).kind matches Some(KindView::List(l)) && l.len() == values.len()
            && forall|i: int| 0 <= i < values.len() ==> #[trigger] l[i] == values[i].wire(),
{
}

} // verus!
