//! Where placeholders occur in text that is put together from pieces.

use vstd::prelude::*;
use crate::clause;
use crate::sql;
use crate::text;

verus! {

/// The placeholders of a text that is its own skeleton, in order, with repetition.
pub open spec fn occurring(s: Seq<char>) -> Seq<Seq<char>> {
    sql::occurrences_before(s, s.len() as int)
}

/// A name that the statement lexer takes whole for a placeholder behind a colon.
pub open spec fn identifier(s: Seq<char>) -> bool {
    s.len() > 0 && text::is_word_start(s[0]) && forall|i: int|
        0 <= i < s.len() ==> text::is_word(#[trigger] s[i])
}

/// The placeholders of all pieces, piece by piece.
pub open spec fn occurring_in(pieces: Seq<Seq<char>>) -> Seq<Seq<char>>
    decreases pieces.len(),
{
    if pieces.len() == 0 {
        Seq::empty()
    } else {
        occurring_in(pieces.drop_last()) + occurring(pieces.last())
    }
}

/// No piece opens a literal or a comment.
pub open spec fn all_plain(pieces: Seq<Seq<char>>) -> bool {
    forall|i: int| 0 <= i < pieces.len() ==> sql::is_plain(#[trigger] pieces[i])
}

/// No placeholder starts on a character that is no colon.
proof fn lemma_none_between(s: Seq<char>, i: int, j: int)
    requires
        0 <= i <= j <= s.len(),
        forall|k: int| i <= k < j ==> s[k] != ':',
    ensures
        sql::occurrences_before(s, j) == sql::occurrences_before(s, i),
    decreases j - i,
{
    if i < j {
        lemma_none_between(s, i, j - 1);
    }
}

/// Text without colons references nothing.
pub proof fn lemma_nothing_occurs(s: Seq<char>)
    requires
        clause::tame(s),
    ensures
        sql::is_plain(s),
        occurring(s) == Seq::<Seq<char>>::empty(),
{
    clause::lemma_no_placeholder(s, Set::empty());
    assert forall|k: int| 0 <= k < s.len() implies s[k] != ':' by {
        assert(clause::tame_char(s[k]));
    }
    lemma_none_between(s, 0, s.len() as int);
}

/// `prefix:name suffix` references `name`, once.
pub proof fn lemma_one_occurs(prefix: Seq<char>, name: Seq<char>, suffix: Seq<char>)
    requires
        clause::tame(prefix),
        clause::tame(suffix),
        suffix.len() > 0 ==> !text::is_word(suffix[0]),
        identifier(name),
    ensures
        sql::is_plain(prefix + seq![':'] + name + suffix),
        occurring(prefix + seq![':'] + name + suffix) == seq![name],
{
    let s = prefix + seq![':'] + name + suffix;
    let at = prefix.len() as int;
    let end = at + 1 + name.len();
    clause::lemma_one_placeholder(prefix, name, suffix, set![name]);
    assert(s[at] == ':');
    assert forall|k: int| 0 <= k < s.len() && k != at implies clause::tame_char(
        #[trigger] s[k],
    ) by {
        if k < at {
            assert(s[k] == prefix[k]);
        } else if k < end {
            assert(s[k] == name[k - at - 1]);
        } else {
            assert(s[k] == suffix[k - end]);
        }
    }
    assert forall|k: int| at + 1 <= k < end implies text::is_word(#[trigger] s[k]) by {
        assert(s[k] == name[k - at - 1]);
    }
    if end < s.len() {
        assert(s[end] == suffix[0]);
    }
    clause::lemma_run_within(s, at + 1, end);
    assert(sql::name_at(s, at) =~= name);
    assert(s[at + 1] == name[0]);
    if at > 0 {
        assert(clause::tame_char(s[at - 1]));
    }
    assert(sql::placeholder_at(s, at));
    lemma_none_between(s, 0, at);
    lemma_none_between(s, at + 1, s.len() as int);
    assert(sql::occurrences_before(s, at + 1) =~= seq![name]);
}

/// The first piece of two keeps its placeholders.
proof fn lemma_first_piece(a: Seq<char>, sep: Seq<char>, b: Seq<char>, n: int)
    requires
        clause::separator(sep),
        0 <= n <= a.len(),
    ensures
        sql::occurrences_before(a + sep + b, n) == sql::occurrences_before(a, n),
    decreases n,
{
    let s = a + sep + b;
    if n > 0 {
        lemma_first_piece(a, sep, b, n - 1);
        let p = n - 1;
        assert(s[p] == a[p]);
        if p > 0 {
            assert(s[p - 1] == a[p - 1]);
        }
        if n < a.len() {
            assert(s[n] == a[n]);
            clause::lemma_run_bounds(a, n);
            let e = sql::run_end(a, n);
            assert forall|k: int| n <= k < e implies text::is_word(#[trigger] s[k]) by {
                assert(s[k] == a[k]);
            }
            if e < a.len() {
                assert(s[e] == a[e]);
            } else {
                assert(s[e] == sep[0]);
            }
            clause::lemma_run_within(s, n, e);
            assert(sql::name_at(s, p) =~= sql::name_at(a, p));
        } else {
            assert(s[n] == sep[0]);
        }
        assert(sql::placeholder_at(s, p) == sql::placeholder_at(a, p));
    }
}

/// The second piece of two keeps its placeholders, behind those of the first.
proof fn lemma_second_piece(a: Seq<char>, sep: Seq<char>, b: Seq<char>, n: int)
    requires
        clause::separator(sep),
        0 <= n <= b.len(),
    ensures
        sql::occurrences_before(a + sep + b, a.len() + sep.len() + n) == occurring(a)
            + sql::occurrences_before(b, n),
    decreases n,
{
    let s = a + sep + b;
    let m = (a.len() + sep.len()) as int;
    if n > 0 {
        lemma_second_piece(a, sep, b, n - 1);
        let q = n - 1;
        let p = m + q;
        assert(s[p] == b[q]);
        if q > 0 {
            assert(s[p - 1] == b[q - 1]);
        } else {
            assert(s[p - 1] == sep.last());
            assert(clause::tame_char(sep[sep.len() - 1]));
        }
        if n < b.len() {
            assert(s[p + 1] == b[n]);
            clause::lemma_run_bounds(b, n);
            let e = sql::run_end(b, n);
            assert forall|k: int| p + 1 <= k < m + e implies text::is_word(#[trigger] s[k]) by {
                assert(s[k] == b[k - m]);
            }
            if e < b.len() {
                assert(s[m + e] == b[e]);
            }
            clause::lemma_run_within(s, p + 1, m + e);
            assert(sql::name_at(s, p) =~= sql::name_at(b, q));
        }
        assert(sql::placeholder_at(s, p) == sql::placeholder_at(b, q));
        let before = sql::occurrences_before(b, q);
        if sql::placeholder_at(b, q) {
            let name = sql::name_at(b, q);
            assert((occurring(a) + before).push(name) =~= occurring(a) + before.push(name));
        }
    } else {
        lemma_first_piece(a, sep, b, a.len() as int);
        assert forall|k: int| a.len() <= k < m implies s[k] != ':' by {
            assert(s[k] == sep[k - a.len()]);
            assert(clause::tame_char(sep[k - a.len()]));
        }
        lemma_none_between(s, a.len() as int, m);
        assert(occurring(a) + Seq::<Seq<char>>::empty() =~= occurring(a));
    }
}

/// Two pieces put together reference what the first does and then what the second does.
pub proof fn lemma_pieces(a: Seq<char>, sep: Seq<char>, b: Seq<char>)
    requires
        sql::is_plain(a),
        sql::is_plain(b),
        clause::separator(sep),
    ensures
        sql::is_plain(a + sep + b),
        occurring(a + sep + b) == occurring(a) + occurring(b),
{
    let all = Set::<Seq<char>>::full();
    clause::lemma_bound_concat(a, sep, b, all);
    lemma_second_piece(a, sep, b, b.len() as int);
}

/// Joined pieces reference what the pieces do, in order.
pub proof fn lemma_joined(pieces: Seq<Seq<char>>, sep: Seq<char>)
    requires
        all_plain(pieces),
        clause::separator(sep),
    ensures
        sql::is_plain(text::joined(pieces, sep)),
        occurring(text::joined(pieces, sep)) == occurring_in(pieces),
    decreases pieces.len(),
{
    if pieces.len() == 0 {
        lemma_nothing_occurs(Seq::empty());
    } else if pieces.len() == 1 {
        assert(sql::is_plain(pieces[0]));
        assert(occurring_in(pieces.drop_last()) =~= Seq::empty());
        assert(occurring_in(pieces) =~= occurring(pieces[0]));
    } else {
        let rest = pieces.drop_last();
        assert forall|i: int| 0 <= i < rest.len() implies sql::is_plain(#[trigger] rest[i]) by {
            assert(rest[i] == pieces[i]);
        }
        lemma_joined(rest, sep);
        assert(sql::is_plain(pieces[pieces.len() - 1]));
        lemma_pieces(text::joined(rest, sep), sep, pieces.last());
    }
}

/// The placeholders of the statement text of a clause are those of its fragments, in order.
pub proof fn lemma_clause_text(pieces: Seq<Seq<char>>, sep: Seq<char>)
    requires
        all_plain(pieces),
        sep == ", "@ || sep == " AND "@,
    ensures
        sql::placeholder_occurrences(text::joined(pieces, sep)) == occurring_in(pieces),
{
    reveal_strlit(", ");
    reveal_strlit(" AND ");
    let s = text::joined(pieces, sep);
    lemma_joined(pieces, sep);
    sql::lemma_plain_is_kept(s, 0);
    assert(s.skip(0) =~= s);
}

/// Without repetition, the placeholder names of a skeleton are its occurrences.
pub proof fn lemma_distinct_occurrences(s: Seq<char>, n: int)
    requires
        sql::occurrences_before(s, n).no_duplicates(),
    ensures
        sql::names_before(s, n) == sql::occurrences_before(s, n),
    decreases n,
{
    if n > 0 {
        let now = sql::occurrences_before(s, n);
        let earlier = sql::occurrences_before(s, n - 1);
        assert(earlier.no_duplicates()) by {
            assert forall|i: int, j: int|
                0 <= i < earlier.len() && 0 <= j < earlier.len() && i != j implies earlier[i]
                != earlier[j] by {
                assert(now[i] == earlier[i] && now[j] == earlier[j]);
            }
        }
        lemma_distinct_occurrences(s, n - 1);
        if sql::placeholder_at(s, n - 1) {
            let name = sql::name_at(s, n - 1);
            if earlier.contains(name) {
                let i = choose|i: int| 0 <= i < earlier.len() && earlier[i] == name;
                assert(now[i] == now[now.len() - 1]);
            }
        }
    }
}

} // verus!
