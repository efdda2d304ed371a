//! Conditional SET-clause assembly, and what clauses of both kinds have in common.

use vstd::prelude::*;
use vstd::string::*;
use crate::calls;
use crate::encode;
use crate::encode::{IntoGrpcValue, IntoText, Params};
use crate::props::PropMap;
use crate::sql;
use crate::text;
use crate::wire;
use crate::wire::{GrpcValue, Kind, KindView, ValueView};

verus! {

/// What a clause says: its fragments in order, and its bound parameters.
pub struct ClauseView {
    pub frags: Seq<Seq<char>>,
    pub params: Map<Seq<char>, ValueView>,
}

impl ClauseView {
    /// The clause with a further fragment.
    pub open spec fn push(self, frag: Seq<char>) -> ClauseView {
        ClauseView { frags: self.frags.push(frag), params: self.params }
    }

    /// The clause with a further parameter.
    pub open spec fn bind(self, name: Seq<char>, value: ValueView) -> ClauseView {
        ClauseView { frags: self.frags, params: self.params.insert(name, value) }
    }
}

/// The clause without fragments and parameters.
pub open spec fn no_clause() -> ClauseView {
    ClauseView { frags: Seq::empty(), params: Map::empty() }
}

// ---------------------------------------------------------------------------
// SET clauses
// ---------------------------------------------------------------------------

/// `col = :col`.
pub open spec fn set_frag(col: Seq<char>) -> Seq<char> {
    col + " = :"@ + col
}

/// The parameter of a list append to `col`.
pub open spec fn append_name(col: Seq<char>) -> Seq<char> {
    col + "__append"@
}

/// `col = col || :col__append`.
pub open spec fn append_frag(col: Seq<char>) -> Seq<char> {
    col + " = "@ + col + " || :"@ + append_name(col)
}

/// `col = expr`.
pub open spec fn expr_frag(col: Seq<char>, expr: Seq<char>) -> Seq<char> {
    col + " = "@ + expr
}

/// The list value with `value` behind the elements of `list`.
pub open spec fn longer_list(list: Seq<ValueView>, logical_type: Seq<char>, value: ValueView) -> ValueView {
    ValueView { kind: Some(KindView::List(list.push(value))), logical_type }
}

/// The clause after appending `value` to the list column `col`: the element joins the list
/// that is already bound for the column, or else binds as a one-element list beside a new
/// fragment.
pub open spec fn appended(c: ClauseView, col: Seq<char>, value: ValueView) -> ClauseView {
    let name = append_name(col);
    if c.params.contains_key(name) {
        match c.params[name].kind {
            Some(KindView::List(list)) => c.bind(
                name,
                longer_list(list, c.params[name].logical_type, value),
            ),
            _ => c.push(append_frag(col)).bind(name, encode::of_kind(KindView::List(seq![value]))),
        }
    } else {
        c.push(append_frag(col)).bind(name, encode::of_kind(KindView::List(seq![value])))
    }
}

/// Accumulates `col = :col` fragments and their bound values for statements whose shape is
/// only known at run time. The placeholder name is the column name, so a fragment never
/// references a parameter that was not bound.
///
/// `None` handling is *omit, don't bind*: on updates the stored value is kept, on inserts the
/// schema default applies.
#[derive(Debug)]
pub struct SetClause {
    frags: Vec<String>,
    params: PropMap<GrpcValue>,
}

impl View for SetClause {
    type V = ClauseView;

    closed spec fn view(&self) -> ClauseView {
        ClauseView { frags: text::texts(self.frags@), params: wire::entries_view(self.params) }
    }
}

impl Clone for SetClause {
    fn clone(&self) -> (r: Self)
        ensures
            r@ == self@,
    {
        SetClause { frags: copy_texts(&self.frags), params: self.params.clone() }
    }
}

/// A copy of a list of strings.
pub fn copy_texts(list: &Vec<String>) -> (r: Vec<String>)
    ensures
        text::texts(r@) == text::texts(list@),
{
    let mut out: Vec<String> = Vec::new();
    for i in 0..list.len()
        invariant
            out@.len() == i,
            forall|j: int| 0 <= j < i ==> (#[trigger] out@[j])@ == list@[j]@,
    {
        out.push(list[i].clone());
    }
    assert(text::texts(out@) =~= text::texts(list@));
    out
}

impl SetClause {
    pub fn new() -> (c: Self)
        ensures
            c@ == no_clause(),
    {
        let c = SetClause { frags: Vec::new(), params: PropMap::new() };
        proof {
            encode::lemma_empty_says(c.params);
            assert(text::texts(c.frags@) =~= Seq::empty());
        }
        c
    }

    /// Whether nothing was pushed.
    pub fn is_empty(&self) -> (b: bool)
        ensures
            b == (self@.frags.len() == 0),
    {
        self.frags.len() == 0
    }

    fn with_frag(self, frag: String) -> (c: Self)
        ensures
            c@ == self@.push(frag@),
    {
        let mut this = self;
        proof {
            text::lemma_texts_push(this.frags@, frag);
        }
        this.frags.push(frag);
        this
    }

    /// Always write `col = :col` with the bound value. Setting a column again emits the
    /// fragment twice, and the last value wins.
    pub fn set<V: IntoGrpcValue>(self, col: &str, value: V) -> (c: Self)
        ensures
            c@ == self@.push(set_frag(col@)).bind(col@, value.wire()),
            c@ == calls::set_call(self@, calls::SetCall::Assign(col@, value.wire())),
    {
        let mut frag = col.to_owned();
        frag.append(" = :");
        frag.append(col);
        self.with_frag(frag).bind(col, value)
    }

    /// [`set`](Self::set) only when `value` is `Some`.
    pub fn set_opt<V: IntoGrpcValue>(self, col: &str, value: Option<V>) -> (c: Self)
        ensures
            c@ == match value {
                Some(v) => self@.push(set_frag(col@)).bind(col@, v.wire()),
                None => self@,
            },
    {
        match value {
            Some(v) => self.set(col, v),
            None => self,
        }
    }

    /// [`set`](Self::set) only when `cond` holds.
    pub fn set_when<V: IntoGrpcValue>(self, cond: bool, col: &str, value: V) -> (c: Self)
        ensures
            c@ == if cond {
                self@.push(set_frag(col@)).bind(col@, value.wire())
            } else {
                self@
            },
    {
        if cond {
            self.set(col, value)
        } else {
            self
        }
    }

    /// A fragment that is not a plain `col = :col`; it references `:name`, which is bound here.
    pub fn set_raw<S: IntoText, V: IntoGrpcValue>(self, fragment: S, name: &str, value: V) -> (c:
        Self)
        ensures
            c@ == self@.push(fragment.chars()).bind(name@, value.wire()),
            c@ == calls::set_call(
                self@,
                calls::SetCall::Raw(fragment.chars(), name@, value.wire()),
            ),
    {
        self.with_frag(fragment.into_text()).bind(name, value)
    }

    /// Set a column to a server-side expression (`count = count + 1`). Both halves are the
    /// caller's SQL; nothing is bound.
    pub fn set_expr(self, col: &str, expr: &str) -> (c: Self)
        ensures
            c@ == self@.push(expr_frag(col@, expr@)),
            c@ == calls::set_call(self@, calls::SetCall::Expr(col@, expr@)),
    {
        let mut frag = col.to_owned();
        frag.append(" = ");
        frag.append(expr);
        self.with_frag(frag)
    }

    /// Bind a parameter without a fragment, for a value referenced elsewhere in the statement.
    pub fn bind<V: IntoGrpcValue>(self, name: &str, value: V) -> (c: Self)
        ensures
            c@ == self@.bind(name@, value.wire()),
            c@ == calls::set_call(self@, calls::SetCall::Bind(name@, value.wire())),
    {
        let mut this = self;
        let ghost before = this.params;
        let v = value.into_value();
        this.params.insert(name.to_owned(), v);
        proof {
            encode::lemma_insert_says(before, this.params, name@, v);
        }
        this
    }

    /// Apply a step of several calls only when `option` is `Some`.
    pub fn apply_if<T, F: FnOnce(Self, T) -> Self>(self, option: Option<T>, f: F) -> (c: Self)
        requires
            match option {
                Some(v) => call_requires(f, (self, v)),
                None => true,
            },
        ensures
            match option {
                Some(v) => call_ensures(f, (self, v), c),
                None => c == self,
            },
    {
        match option {
            Some(v) => f(self, v),
            None => self,
        }
    }

    /// Server-side list append: `col = col || :col__append`, with the element bound inside a
    /// list. Further appends to the column extend that list and keep the one fragment.
    pub fn append<V: IntoGrpcValue>(self, col: &str, value: V) -> (c: Self)
        ensures
            c@ == appended(self@, col@, value.wire()),
            c@ == calls::set_call(self@, calls::SetCall::Append(col@, value.wire())),
    {
        let mut name = col.to_owned();
        name.append("__append");
        let mut this = self;
        let ghost start = this@;
        let ghost before = this.params;
        proof {
            wire::lemma_entries(this.params);
        }
        let v = value.into_value();
        match this.params.remove(name.as_str()) {
            Some(GrpcValue { kind: Some(Kind::ListValue(list)), logical_type }) => {
                let mut list = list;
                let ghost old_list = list.values@;
                list.values.push(v);
                let longer = GrpcValue { kind: Some(Kind::ListValue(list)), logical_type };
                proof {
                    assert(wire::values_view(list.values@) =~= wire::values_view(old_list).push(
                        v@,
                    ));
                }
                let ghost bound = longer@;
                let ghost wire_name = name@;
                let ghost stored = longer;
                this.params.insert(name, longer);
                proof {
                    assert(before@.remove(wire_name).insert(wire_name, stored) =~= before@.insert(
                        wire_name,
                        stored,
                    ));
                    encode::lemma_insert_says(before, this.params, wire_name, stored);
                }
                this
            },
            _ => {
                let mut elements: Vec<GrpcValue> = Vec::new();
                elements.push(v);
                assert(wire::values_view(elements@) =~= seq![v@]);
                let single = encode::list_v(elements);
                let ghost stored = single;
                let ghost wire_name = name@;
                let mut frag = col.to_owned();
                frag.append(" = ");
                frag.append(col);
                frag.append(" || :");
                frag.append(name.as_str());
                proof {
                    text::lemma_texts_push(this.frags@, frag);
                    assert(frag@ =~= append_frag(col@));
                }
                this.params.insert(name, single);
                this.frags.push(frag);
                proof {
                    assert(before@.remove(wire_name).insert(wire_name, stored) =~= before@.insert(
                        wire_name,
                        stored,
                    ));
                    encode::lemma_insert_says(before, this.params, wire_name, stored);
                }
                this
            },
        }
    }

    /// [`set`](Self::set) when `value` is `Some`; write `col = null` when it is `None`. An
    /// unset value cannot be bound, so the column is cleared by a literal.
    pub fn set_or_null<V: IntoGrpcValue>(self, col: &str, value: Option<V>) -> (c: Self)
        ensures
            c@ == match value {
                Some(v) => self@.push(set_frag(col@)).bind(col@, v.wire()),
                None => self@.push(expr_frag(col@, "null"@)),
            },
            c@ == calls::set_call(
                self@,
                match value {
                    Some(v) => calls::SetCall::Assign(col@, v.wire()),
                    None => calls::SetCall::Null(col@),
                },
            ),
    {
        match value {
            Some(v) => self.set(col, v),
            None => self.set_expr(col, "null"),
        }
    }

    /// The SET-clause body: `a = :a, b = :b`; empty when nothing was pushed.
    pub fn sql(&self) -> (r: String)
        ensures
            r@ == text::joined(self@.frags, ", "@),
    {
        text::join(&self.frags, ", ")
    }

    /// The bound parameters.
    pub fn into_params(self) -> (p: Params)
        ensures
            p@ == self@.params,
    {
        Params(self.params)
    }
}

impl Default for SetClause {
    fn default() -> (c: Self)
        ensures
            c@ == no_clause(),
    {
        SetClause::new()
    }
}

// ---------------------------------------------------------------------------
// Laws: every placeholder is bound
// ---------------------------------------------------------------------------

/// A plain column name: word characters, with an optional leading `@` for intrinsics.
pub open spec fn column_like(col: Seq<char>) -> bool {
    col.len() > 0 && forall|i: int|
        0 <= i < col.len() ==> (text::is_word(#[trigger] col[i]) || (i == 0 && col[i] == '@'))
}

/// `frag` opens no literal or comment, and every placeholder that the statement lexer finds
/// in it is among `bound`.
pub open spec fn frag_bound(frag: Seq<char>, bound: Set<Seq<char>>) -> bool {
    sql::is_plain(frag) && placeholders_in(frag, bound)
}

/// Every placeholder that the statement lexer finds in `s` is among `bound`.
pub open spec fn placeholders_in(s: Seq<char>, bound: Set<Seq<char>>) -> bool {
    forall|p: int| #[trigger] sql::placeholder_at(s, p) ==> bound.contains(sql::name_at(s, p))
}

/// Every fragment of the clause references bound parameters only.
pub open spec fn all_bound(c: ClauseView) -> bool {
    forall|i: int| 0 <= i < c.frags.len() ==> frag_bound(#[trigger] c.frags[i], c.params.dom())
}

/// Characters that neither open a literal or comment nor start a placeholder.
pub open spec fn tame(s: Seq<char>) -> bool {
    forall|i: int| 0 <= i < s.len() ==> tame_char(#[trigger] s[i])
}

pub open spec fn tame_char(c: char) -> bool {
    c != '\'' && c != '"' && c != '`' && c != '-' && c != '/' && c != ':'
}

/// A run of word characters that ends at `end`.
pub proof fn lemma_run_within(s: Seq<char>, i: int, end: int)
    requires
        0 <= i <= end <= s.len(),
        forall|k: int| i <= k < end ==> text::is_word(#[trigger] s[k]),
        end < s.len() ==> !text::is_word(s[end]),
    ensures
        sql::run_end(s, i) == end,
    decreases end - i,
{
    if i < end {
        lemma_run_within(s, i + 1, end);
    }
}

/// Where a run that starts at `i` ends.
pub proof fn lemma_run_bounds(s: Seq<char>, i: int)
    requires
        0 <= i <= s.len(),
    ensures
        i <= sql::run_end(s, i) <= s.len(),
        forall|k: int| i <= k < sql::run_end(s, i) ==> text::is_word(#[trigger] s[k]),
        sql::run_end(s, i) < s.len() ==> !text::is_word(s[sql::run_end(s, i)]),
    decreases s.len() - i,
{
    if i < s.len() && text::is_word(s[i]) {
        lemma_run_bounds(s, i + 1);
    }
}

/// `prefix:name suffix`, with one placeholder that is bound, references bound names only.
pub proof fn lemma_one_placeholder(
    prefix: Seq<char>,
    name: Seq<char>,
    suffix: Seq<char>,
    bound: Set<Seq<char>>,
)
    requires
        tame(prefix),
        tame(suffix),
        suffix.len() > 0 ==> !text::is_word(suffix[0]),
        column_like(name),
        bound.contains(name),
    ensures
        frag_bound(prefix + seq![':'] + name + suffix, bound),
{
    let s = prefix + seq![':'] + name + suffix;
    let at = prefix.len() as int;
    let end = at + 1 + name.len();
    assert(s[at] == ':');
    assert forall|k: int| 0 <= k < s.len() && k != at implies tame_char(#[trigger] s[k]) by {
        if k < at {
            assert(s[k] == prefix[k]);
        } else if k < end {
            assert(s[k] == name[k - at - 1]);
        } else {
            assert(s[k] == suffix[k - end]);
        }
    }
    assert(sql::is_plain(s));
    assert forall|p: int| #[trigger] sql::placeholder_at(s, p) implies bound.contains(
        sql::name_at(s, p),
    ) by {
        assert(p == at);
        assert forall|k: int| at + 1 <= k < end implies text::is_word(#[trigger] s[k]) by {
            assert(s[k] == name[k - at - 1]);
            assert(s[at + 1] == name[0]);
        }
        if end < s.len() {
            assert(s[end] == suffix[0]);
        }
        lemma_run_within(s, at + 1, end);
        assert(sql::name_at(s, p) =~= name);
    }
}

/// Text without colons references nothing.
pub proof fn lemma_no_placeholder(s: Seq<char>, bound: Set<Seq<char>>)
    requires
        tame(s),
    ensures
        frag_bound(s, bound),
{
}

/// A separator: it starts and ends with a character that belongs to no word or placeholder.
pub open spec fn separator(sep: Seq<char>) -> bool {
    sep.len() > 0 && tame(sep) && !text::is_word(sep[0]) && !text::is_word(sep.last())
        && sep.last() != '*' && sep[0] != '*'
}

/// Two pieces that reference bound names only do so when put together.
pub proof fn lemma_bound_concat(a: Seq<char>, sep: Seq<char>, b: Seq<char>, bound: Set<Seq<char>>)
    requires
        frag_bound(a, bound),
        frag_bound(b, bound),
        separator(sep),
    ensures
        frag_bound(a + sep + b, bound),
{
    let s = a + sep + b;
    let n = a.len() as int;
    let m = n + sep.len();
    assert(sql::is_plain(s)) by {
        assert forall|k: int| 0 <= k < s.len() implies {
            &&& #[trigger] s[k] != '\'' && s[k] != '"' && s[k] != '`'
            &&& !(s[k] == '-' && sql::char_at(s, k + 1) == Some('-'))
            &&& !(s[k] == '/' && sql::char_at(s, k + 1) == Some('*'))
        } by {
            if k < n {
                assert(s[k] == a[k]);
                if k + 1 < n {
                    assert(s[k + 1] == a[k + 1]);
                } else {
                    assert(s[k + 1] == sep[0]);
                }
            } else if k < m {
                assert(s[k] == sep[k - n]);
            } else {
                assert(s[k] == b[k - m]);
                if k + 1 < s.len() {
                    assert(s[k + 1] == b[k + 1 - m]);
                }
            }
        }
    }
    assert forall|p: int| #[trigger] sql::placeholder_at(s, p) implies bound.contains(
        sql::name_at(s, p),
    ) by {
        if p < n {
            if p + 1 == n {
                assert(s[p + 1] == sep[0]);
            }
            assert(s[p + 1] == a[p + 1]);
            assert(s[p] == a[p]);
            if p > 0 {
                assert(s[p - 1] == a[p - 1]);
            }
            assert(sql::placeholder_at(a, p));
            lemma_run_bounds(a, p + 1);
            let e = sql::run_end(a, p + 1);
            assert forall|k: int| p + 1 <= k < e implies text::is_word(#[trigger] s[k]) by {
                assert(s[k] == a[k]);
            }
            if e < n {
                assert(s[e] == a[e]);
            } else {
                assert(s[e] == sep[0]);
            }
            lemma_run_within(s, p + 1, e);
            assert(sql::name_at(s, p) =~= sql::name_at(a, p));
        } else if p < m {
            assert(s[p] == sep[p - n]);
        } else {
            let q = p - m;
            assert(s[p] == b[q]);
            assert(s[p + 1] == b[q + 1]);
            if q > 0 {
                assert(s[p - 1] == b[q - 1]);
            }
            assert(sql::placeholder_at(b, q));
            lemma_run_bounds(b, q + 1);
            let e = sql::run_end(b, q + 1);
            assert forall|k: int| p + 1 <= k < m + e implies text::is_word(#[trigger] s[k]) by {
                assert(s[k] == b[k - m]);
            }
            if e < b.len() {
                assert(s[m + e] == b[e]);
            }
            lemma_run_within(s, p + 1, m + e);
            assert(sql::name_at(s, p) =~= sql::name_at(b, q));
        }
    }
}

proof fn lemma_joined_bound(frags: Seq<Seq<char>>, sep: Seq<char>, bound: Set<Seq<char>>)
    requires
        forall|i: int| 0 <= i < frags.len() ==> frag_bound(#[trigger] frags[i], bound),
        separator(sep),
    ensures
        frag_bound(text::joined(frags, sep), bound),
    decreases frags.len(),
{
    if frags.len() == 0 {
        lemma_no_placeholder(Seq::empty(), bound);
    } else if frags.len() > 1 {
        let rest = frags.drop_last();
        assert forall|i: int| 0 <= i < rest.len() implies frag_bound(#[trigger] rest[i], bound) by {
            assert(rest[i] == frags[i]);
        }
        lemma_joined_bound(rest, sep, bound);
        assert(frag_bound(frags[frags.len() - 1], bound));
        lemma_bound_concat(text::joined(rest, sep), sep, frags.last(), bound);
    }
}

proof fn lemma_names_come_from_placeholders(s: Seq<char>, n: int, bound: Set<Seq<char>>)
    requires
        placeholders_in(s, bound),
    ensures
        forall|i: int|
            0 <= i < sql::names_before(s, n).len() ==> bound.contains(
                #[trigger] sql::names_before(s, n)[i],
            ),
    decreases n,
{
    if n > 0 {
        lemma_names_come_from_placeholders(s, n - 1, bound);
        let names = sql::names_before(s, n);
        let earlier = sql::names_before(s, n - 1);
        assert forall|i: int| 0 <= i < names.len() implies bound.contains(#[trigger] names[i]) by {
            if i < earlier.len() {
                assert(names[i] == earlier[i]);
            }
        }
    }
}

/// Every placeholder that the statement lexer finds in the text of a clause is bound, when
/// every fragment references bound parameters only. `sep` is what the fragments are joined
/// with: `, ` in SET clauses and ` AND ` in filters.
pub proof fn law_placeholders_of_a_clause_are_bound(c: ClauseView, sep: Seq<char>)
    requires
        all_bound(c),
        sep == ", "@ || sep == " AND "@,
    ensures
        forall|i: int|
            0 <= i < sql::placeholder_names(text::joined(c.frags, sep)).len()
                ==> c.params.contains_key(
                #[trigger] sql::placeholder_names(text::joined(c.frags, sep))[i],
            ),
{
    reveal_strlit(", ");
    reveal_strlit(" AND ");
    let s = text::joined(c.frags, sep);
    lemma_joined_bound(c.frags, sep, c.params.dom());
    sql::lemma_plain_is_kept(s, 0);
    assert(s.skip(0) =~= s);
    lemma_names_come_from_placeholders(s, s.len() as int, c.params.dom());
}

/// A bound set that grows keeps a fragment bound.
pub proof fn lemma_more_bound(frag: Seq<char>, bound: Set<Seq<char>>, name: Seq<char>)
    requires
        frag_bound(frag, bound),
    ensures
        frag_bound(frag, bound.insert(name)),
{
}

/// A new fragment that references bound parameters, and a new parameter, keep a clause bound.
pub proof fn lemma_push_and_bind(
    c: ClauseView,
    frag: Seq<char>,
    name: Seq<char>,
    value: ValueView,
)
    requires
        all_bound(c),
        frag_bound(frag, c.params.dom().insert(name)),
    ensures
        all_bound(c.push(frag).bind(name, value)),
{
    let d = c.push(frag).bind(name, value);
    assert(d.params.dom() =~= c.params.dom().insert(name));
    assert forall|i: int| 0 <= i < d.frags.len() implies frag_bound(
        #[trigger] d.frags[i],
        d.params.dom(),
    ) by {
        if i < c.frags.len() {
            assert(d.frags[i] == c.frags[i]);
            lemma_more_bound(c.frags[i], c.params.dom(), name);
        }
    }
}

/// A new fragment that references bound parameters keeps a clause bound.
pub proof fn lemma_push_bound(c: ClauseView, frag: Seq<char>)
    requires
        all_bound(c),
        frag_bound(frag, c.params.dom()),
    ensures
        all_bound(c.push(frag)),
{
    let d = c.push(frag);
    assert forall|i: int| 0 <= i < d.frags.len() implies frag_bound(
        #[trigger] d.frags[i],
        d.params.dom(),
    ) by {
        if i < c.frags.len() {
            assert(d.frags[i] == c.frags[i]);
        }
    }
}

/// Column names are tame.
pub proof fn lemma_column_is_tame(col: Seq<char>)
    requires
        column_like(col),
    ensures
        tame(col),
{
}

/// Concatenation of tame texts is tame.
pub proof fn lemma_tame_concat(a: Seq<char>, b: Seq<char>)
    requires
        tame(a),
        tame(b),
    ensures
        tame(a + b),
{
    assert forall|i: int| 0 <= i < (a + b).len() implies tame_char(#[trigger] (a + b)[i]) by {
        if i < a.len() {
            assert((a + b)[i] == a[i]);
        } else {
            assert((a + b)[i] == b[i - a.len()]);
        }
    }
}

/// `set` keeps every placeholder bound.
pub proof fn law_set_keeps_placeholders_bound(c: ClauseView, col: Seq<char>, value: ValueView)
    requires
        all_bound(c),
        column_like(col),
    ensures
        all_bound(c.push(set_frag(col)).bind(col, value)),
{
    reveal_strlit(" = :");
    lemma_column_is_tame(col);
    let eq = seq![' ', '=', ' '];
    lemma_tame_concat(col, eq);
    lemma_one_placeholder(col + eq, col, Seq::empty(), c.params.dom().insert(col));
    assert(set_frag(col) =~= col + eq + seq![':'] + col + Seq::empty());
    lemma_push_and_bind(c, set_frag(col), col, value);
}

/// `append` keeps every placeholder bound.
pub proof fn law_append_keeps_placeholders_bound(c: ClauseView, col: Seq<char>, value: ValueView)
    requires
        all_bound(c),
        column_like(col),
    ensures
        all_bound(appended(c, col, value)),
{
    reveal_strlit(" = ");
    reveal_strlit(" || :");
    reveal_strlit("__append");
    lemma_column_is_tame(col);
    let name = append_name(col);
    assert(column_like(name)) by {
        assert forall|i: int| 0 <= i < name.len() implies (text::is_word(#[trigger] name[i]) || (i
            == 0 && name[i] == '@')) by {
            if i < col.len() {
                assert(name[i] == col[i]);
            } else {
                assert(name[i] == "__append"@[i - col.len()]);
            }
        }
    }
    let eq = seq![' ', '=', ' '];
    let bars = seq![' ', '|', '|', ' '];
    lemma_tame_concat(col, eq);
    lemma_tame_concat(col + eq, col);
    lemma_tame_concat(col + eq + col, bars);
    lemma_one_placeholder(
        col + eq + col + bars,
        name,
        Seq::empty(),
        c.params.dom().insert(name),
    );
    assert(append_frag(col) =~= col + eq + col + bars + seq![':'] + name + Seq::empty());
    lemma_push_and_bind(
        c,
        append_frag(col),
        name,
        encode::of_kind(KindView::List(seq![value])),
    );
    if c.params.contains_key(name) {
        match c.params[name].kind {
            Some(KindView::List(list)) => {
                let d = c.bind(name, longer_list(list, c.params[name].logical_type, value));
                assert(d.params.dom() =~= c.params.dom());
            },
            _ => {},
        }
    }
}

/// `set_or_null` of an absent value keeps every placeholder bound.
pub proof fn law_null_keeps_placeholders_bound(c: ClauseView, col: Seq<char>)
    requires
        all_bound(c),
        column_like(col),
    ensures
        all_bound(c.push(expr_frag(col, "null"@))),
{
    reveal_strlit(" = ");
    reveal_strlit("null");
    lemma_column_is_tame(col);
    let frag = expr_frag(col, "null"@);
    lemma_tame_concat(col, " = "@);
    lemma_tame_concat(col + " = "@, "null"@);
    lemma_no_placeholder(frag, c.params.dom());
    lemma_push_bound(c, frag);
}

/// `set_raw` keeps every placeholder bound when its fragment references the name that it
/// registers, and names bound before it, only.
pub proof fn law_raw_fragment_keeps_placeholders_bound(
    c: ClauseView,
    frag: Seq<char>,
    name: Seq<char>,
    value: ValueView,
)
    requires
        all_bound(c),
        frag_bound(frag, c.params.dom().insert(name)),
    ensures
        all_bound(c.push(frag).bind(name, value)),
{
    lemma_push_and_bind(c, frag, name, value);
}

/// `bind` keeps every placeholder bound.
pub proof fn law_bind_keeps_placeholders_bound(c: ClauseView, name: Seq<char>, value: ValueView)
    requires
        all_bound(c),
    ensures
        all_bound(c.bind(name, value)),
{
    let d = c.bind(name, value);
    assert(d.params.dom() =~= c.params.dom().insert(name));
    assert forall|i: int| 0 <= i < d.frags.len() implies frag_bound(
        #[trigger] d.frags[i],
        d.params.dom(),
    ) by {
        assert(d.frags[i] == c.frags[i]);
        lemma_more_bound(c.frags[i], c.params.dom(), name);
    }
}

/// `set` assigns the column from the parameter of the column's own name, which holds the
/// value; every other parameter and every earlier fragment stays.
pub proof fn law_set_assigns_the_value(c: ClauseView, col: Seq<char>, value: ValueView)
    ensures
        c.push(set_frag(col)).bind(col, value).frags == c.frags.push(col + " = :"@ + col),
        c.push(set_frag(col)).bind(col, value).params.contains_key(col),
        c.push(set_frag(col)).bind(col, value).params[col] == value,
        forall|k: Seq<char>|
            k != col ==> ((#[trigger] c.push(set_frag(col)).bind(col, value).params.contains_key(k))
                <==> c.params.contains_key(k)) && (c.params.contains_key(k) ==> c.push(
                set_frag(col),
            ).bind(col, value).params[k] == c.params[k]),
{
}

/// The first append to a column adds `col = col || :col__append` and binds a list of the one
/// value; a later append adds no fragment and puts its value at the end of that list.
pub proof fn law_append_adds_at_the_end(c: ClauseView, col: Seq<char>, value: ValueView)
    ensures
        ({
            let r = appended(c, col, value);
            let name = col + "__append"@;
            &&& r.params.contains_key(name)
            &&& r.params[name].kind matches Some(KindView::List(l)) && l.len() > 0 && l.last()
                == value
            &&& forall|k: Seq<char>|
                k != name ==> ((#[trigger] r.params.contains_key(k)) <==> c.params.contains_key(k))
                    && (c.params.contains_key(k) ==> r.params[k] == c.params[k])
        }),
        !c.params.contains_key(col + "__append"@) ==> {
            let r = appended(c, col, value);
            &&& r.frags == c.frags.push(col + " = "@ + col + " || :"@ + (col + "__append"@))
            &&& r.params[col + "__append"@].kind == Some(KindView::List(seq![value]))
            &&& r.params[col + "__append"@].logical_type.len() == 0
        },
        c.params.contains_key(col + "__append"@) ==> (c.params[col
            + "__append"@].kind matches Some(KindView::List(l)) ==> {
            let r = appended(c, col, value);
            &&& r.frags == c.frags
            &&& r.params[col + "__append"@].kind == Some(KindView::List(l.push(value)))
            &&& r.params[col + "__append"@].logical_type == c.params[col
                + "__append"@].logical_type
        }),
{
    assert(append_name(col) == col + "__append"@);
}

/// An assignment from an expression is the column, an equals sign and the expression.
pub proof fn law_expressions_stand_behind_the_column(
    c: ClauseView,
    col: Seq<char>,
    expr: Seq<char>,
)
    ensures
        c.push(expr_frag(col, expr)).frags == c.frags.push(col + " = "@ + expr),
        c.push(expr_frag(col, expr)).params == c.params,
{
}

/// A new clause has no fragment and no parameter.
pub proof fn law_a_new_clause_is_empty()
    ensures
        no_clause().frags.len() == 0,
        forall|k: Seq<char>| !(#[trigger] no_clause().params.contains_key(k)),
{
}

/// Pushing a fragment puts it at the end and binds nothing; binding a parameter sets it and
/// leaves the fragments and every other parameter.
pub proof fn law_pushing_and_binding(c: ClauseView, frag: Seq<char>, name: Seq<char>, v: ValueView)
    ensures
        c.push(frag).frags == c.frags.push(frag),
        c.push(frag).params == c.params,
        c.bind(name, v).frags == c.frags,
        c.bind(name, v).params == c.params.insert(name, v),
{
}

} // verus!
