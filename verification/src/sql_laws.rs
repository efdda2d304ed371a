//! Laws of the statement checker: letter case, words, clauses, nesting and comments.

use vstd::prelude::*;
use crate::sql;
use crate::sql::Lex;
use crate::text;

verus! {

// ---------------------------------------------------------------------------
// Letter case
// ---------------------------------------------------------------------------

proof fn lemma_same_letter(a: char, b: char)
    requires
        text::same_letter(a, b),
    ensures
        text::is_word(a) == text::is_word(b),
        text::is_word_start(a) == text::is_word_start(b),
        text::is_space(a) == text::is_space(b),
        text::upper(a) == text::upper(b),
        !text::is_alpha(a) ==> a == b,
        !text::is_alpha(b) ==> a == b,
{
}

proof fn lemma_strip_case(s: Seq<char>, t: Seq<char>, i: int, state: Lex)
    requires
        text::same_letters(s, t),
        0 <= i <= s.len(),
    ensures
        sql::strip_from(s, i, state).1 == sql::strip_from(t, i, state).1,
        text::same_letters(sql::strip_from(s, i, state).0, sql::strip_from(t, i, state).0),
    decreases s.len() - i,
{
    if i < s.len() {
        lemma_same_letter(s[i], t[i]);
        if i + 1 < s.len() {
            lemma_same_letter(s[i + 1], t[i + 1]);
        }
        let a = sql::step_of(state, s[i], sql::char_at(s, i + 1));
        let b = sql::step_of(state, t[i], sql::char_at(t, i + 1));
        assert(a.state == b.state && a.wide == b.wide && text::same_letter(a.first, b.first));
        if a.wide {
            if i + 2 <= s.len() {
                lemma_strip_case(s, t, i + 2, a.state);
            }
        } else {
            lemma_strip_case(s, t, i + 1, a.state);
        }
    }
}

proof fn lemma_scan_case(s: Seq<char>, t: Seq<char>, n: int)
    requires
        text::same_letters(s, t),
        n <= s.len(),
    ensures
        sql::balance_scan(s, n) == sql::balance_scan(t, n),
    decreases n,
{
    if n > 0 {
        lemma_scan_case(s, t, n - 1);
        lemma_same_letter(s[n - 1], t[n - 1]);
    }
}

proof fn lemma_script_case(s: Seq<char>, t: Seq<char>)
    requires
        text::same_letters(s, t),
        sql::statement_body(s).contains(';'),
    ensures
        sql::statement_body(t).contains(';'),
{
    sql::lemma_script(s);
    sql::lemma_script(t);
    let (i, j) = choose|i: int, j: int| sql::interior_semicolon(s, i, j);
    lemma_same_letter(s[i], t[i]);
    lemma_same_letter(s[j], t[j]);
    assert(sql::interior_semicolon(t, i, j));
}

proof fn lemma_swap_letters(s: Seq<char>, t: Seq<char>)
    requires
        text::same_letters(s, t),
    ensures
        text::same_letters(t, s),
{
}

proof fn lemma_uppered_case(s: Seq<char>, t: Seq<char>)
    requires
        text::same_letters(s, t),
    ensures
        text::uppered(s) == text::uppered(t),
{
    assert forall|i: int| 0 <= i < s.len() implies text::upper(#[trigger] s[i]) == text::upper(
        t[i],
    ) by {
        lemma_same_letter(s[i], t[i]);
    }
    assert(text::uppered(s) =~= text::uppered(t));
}

proof fn lemma_words_case(s: Seq<char>, t: Seq<char>, i: int, j: int)
    requires
        text::same_letters(s, t),
        0 <= i <= j <= s.len(),
    ensures
        sql::words_from(s, j) == sql::words_from(t, j),
        i < j ==> sql::word_then_rest(s, i, j) == sql::word_then_rest(t, i, j),
    decreases s.len() - j,
{
    if j < s.len() {
        lemma_same_letter(s[j], t[j]);
        lemma_words_case(s, t, i, j + 1);
        lemma_words_case(s, t, j, j + 1);
    }
    let a = s.subrange(i, j);
    let b = t.subrange(i, j);
    assert(text::same_letters(a, b)) by {
        assert forall|k: int| #![trigger a[k]] #![trigger b[k]] 0 <= k < a.len() implies text::same_letter(
            a[k],
            b[k],
        ) by {
            assert(text::same_letter(s[i + k], t[i + k]));
        }
    }
    lemma_uppered_case(a, b);
}

proof fn lemma_run_case(s: Seq<char>, t: Seq<char>, i: int)
    requires
        text::same_letters(s, t),
        0 <= i <= s.len(),
    ensures
        sql::run_end(s, i) == sql::run_end(t, i),
        i <= sql::run_end(s, i) <= s.len(),
    decreases s.len() - i,
{
    if i < s.len() {
        lemma_same_letter(s[i], t[i]);
        if text::is_word(s[i]) {
            lemma_run_case(s, t, i + 1);
        }
    }
}

proof fn lemma_name_case(s: Seq<char>, t: Seq<char>, p: int)
    requires
        text::same_letters(s, t),
        sql::placeholder_at(s, p),
    ensures
        sql::placeholder_at(t, p),
        text::uppered(sql::name_at(s, p)) == text::uppered(sql::name_at(t, p)),
{
    lemma_same_letter(s[p], t[p]);
    lemma_same_letter(s[p + 1], t[p + 1]);
    if p > 0 {
        lemma_same_letter(s[p - 1], t[p - 1]);
    }
    lemma_run_case(s, t, p + 1);
    let a = sql::name_at(s, p);
    let b = sql::name_at(t, p);
    assert(text::same_letters(a, b)) by {
        assert forall|k: int| #![trigger a[k]] #![trigger b[k]] 0 <= k < a.len() implies text::same_letter(
            a[k],
            b[k],
        ) by {
            assert(text::same_letter(s[p + 1 + k], t[p + 1 + k]));
        }
    }
    lemma_uppered_case(a, b);
}

proof fn lemma_reserved_errors(names: Seq<Seq<char>>)
    ensures
        sql::reserved_errors(names).len() == 0 <==> forall|i: int|
            0 <= i < names.len() ==> !sql::is_reserved(text::uppered(#[trigger] names[i])),
    decreases names.len(),
{
    if names.len() > 0 {
        let t = names.drop_last();
        lemma_reserved_errors(t);
        if sql::reserved_errors(names).len() == 0 {
            assert forall|i: int| 0 <= i < names.len() implies !sql::is_reserved(
                text::uppered(#[trigger] names[i]),
            ) by {
                if i < t.len() {
                    assert(t[i] == names[i]);
                }
            }
        }
        if forall|i: int|
            0 <= i < names.len() ==> !sql::is_reserved(text::uppered(#[trigger] names[i])) {
            assert forall|i: int| 0 <= i < t.len() implies !sql::is_reserved(
                text::uppered(#[trigger] t[i]),
            ) by {
                assert(t[i] == names[i]);
            }
            assert(!sql::is_reserved(text::uppered(names[names.len() - 1])));
        }
    }
}

/// The names of a text are those of its placeholders, each once.
pub proof fn lemma_names_of_placeholders(s: Seq<char>, n: int)
    requires
        n <= s.len(),
    ensures
        forall|p: int|
            0 <= p < n && #[trigger] sql::placeholder_at(s, p) ==> sql::names_before(s, n).contains(
                sql::name_at(s, p),
            ),
        forall|i: int|
            0 <= i < sql::names_before(s, n).len() ==> exists|p: int|
                0 <= p < n && #[trigger] sql::placeholder_at(s, p) && sql::name_at(s, p)
                    == #[trigger] sql::names_before(s, n)[i],
    decreases n,
{
    if n > 0 {
        lemma_names_of_placeholders(s, n - 1);
        let before = sql::names_before(s, n - 1);
        let names = sql::names_before(s, n);
        assert forall|p: int|
            0 <= p < n && #[trigger] sql::placeholder_at(s, p) implies names.contains(
            sql::name_at(s, p),
        ) by {
            if before.contains(sql::name_at(s, p)) {
                let i = choose|i: int| 0 <= i < before.len() && before[i] == sql::name_at(s, p);
                assert(names[i] == sql::name_at(s, p));
            } else {
                assert(p == n - 1);
                assert(names[names.len() - 1] == sql::name_at(s, p));
            }
        }
        assert forall|i: int| 0 <= i < names.len() implies exists|p: int|
            0 <= p < n && #[trigger] sql::placeholder_at(s, p) && sql::name_at(s, p)
                == #[trigger] names[i] by {
            if i < before.len() {
                assert(names[i] == before[i]);
                let p = choose|p: int|
                    0 <= p < n - 1 && #[trigger] sql::placeholder_at(s, p) && sql::name_at(s, p)
                        == before[i];
                assert(sql::placeholder_at(s, p));
            } else {
                assert(sql::placeholder_at(s, n - 1));
            }
        }
    }
}

proof fn lemma_reserved_names(s: Seq<char>)
    ensures
        sql::reserved_errors(sql::names_before(s, s.len() as int)).len() == 0 <==> forall|p: int|
            #[trigger] sql::placeholder_at(s, p) ==> !sql::is_reserved(
                text::uppered(sql::name_at(s, p)),
            ),
{
    let names = sql::names_before(s, s.len() as int);
    lemma_names_of_placeholders(s, s.len() as int);
    lemma_reserved_errors(names);
    if sql::reserved_errors(names).len() == 0 {
        assert forall|p: int| #[trigger] sql::placeholder_at(s, p) implies !sql::is_reserved(
            text::uppered(sql::name_at(s, p)),
        ) by {
            let i = choose|i: int| 0 <= i < names.len() && names[i] == sql::name_at(s, p);
            assert(!sql::is_reserved(text::uppered(names[i])));
        }
    }
    if forall|p: int| #[trigger]
        sql::placeholder_at(s, p) ==> !sql::is_reserved(text::uppered(sql::name_at(s, p))) {
        assert forall|i: int| 0 <= i < names.len() implies !sql::is_reserved(
            text::uppered(#[trigger] names[i]),
        ) by {
            let p = choose|p: int|
                0 <= p < s.len() && #[trigger] sql::placeholder_at(s, p) && sql::name_at(s, p)
                    == names[i];
            assert(!sql::is_reserved(text::uppered(sql::name_at(s, p))));
        }
    }
}

proof fn lemma_case_one_way(s: Seq<char>, t: Seq<char>)
    requires
        text::same_letters(s, t),
        sql::problems(s).len() == 0,
    ensures
        sql::problems(t).len() == 0,
{
    lemma_strip_case(s, t, 0, Lex::Normal);
    let a = sql::skeleton(s);
    let b = sql::skeleton(t);
    lemma_scan_case(a, b, a.len() as int);
    if sql::statement_body(b).contains(';') {
        lemma_swap_letters(a, b);
        lemma_script_case(b, a);
    }
    lemma_words_case(a, b, 0, 0);
    lemma_reserved_names(a);
    lemma_reserved_names(b);
    lemma_swap_letters(a, b);
    assert forall|p: int| #[trigger] sql::placeholder_at(b, p) implies !sql::is_reserved(
        text::uppered(sql::name_at(b, p)),
    ) by {
        lemma_name_case(b, a, p);
    }
    if sql::is_blank(t) {
        assert forall|i: int| 0 <= i < s.len() implies text::is_space(#[trigger] s[i]) by {
            lemma_same_letter(s[i], t[i]);
            assert(text::is_space(t[i]));
        }
    }
}

/// Whether a statement is accepted does not depend on the case of its ASCII letters.
pub proof fn law_letter_case_does_not_matter(s: Seq<char>, t: Seq<char>)
    requires
        text::same_letters(s, t),
    ensures
        sql::problems(s).len() == 0 <==> sql::problems(t).len() == 0,
{
    lemma_swap_letters(s, t);
    if sql::problems(s).len() == 0 {
        lemma_case_one_way(s, t);
    }
    if sql::problems(t).len() == 0 {
        lemma_case_one_way(t, s);
    }
}

/// A statement is accepted exactly when the same statement in capitals is.
pub proof fn law_capitals_do_not_matter(s: Seq<char>)
    ensures
        sql::problems(s).len() == 0 <==> sql::problems(text::uppered(s)).len() == 0,
        sql::problems(s).len() == 0 <==> sql::problems(text::lowered(s)).len() == 0,
{
    let u = text::uppered(s);
    let l = text::lowered(s);
    assert(text::same_letters(s, u));
    assert(text::same_letters(s, l));
    law_letter_case_does_not_matter(s, u);
    law_letter_case_does_not_matter(s, l);
}

// ---------------------------------------------------------------------------
// Words
// ---------------------------------------------------------------------------

/// A word begins at `i`.
pub open spec fn starts_at(s: Seq<char>, i: int) -> bool {
    0 <= i < s.len() && text::is_word(s[i]) && !(i > 0 && text::is_word(s[i - 1]))
}

/// The places from `i` on at which a word begins, in order.
pub open spec fn starts_from(s: Seq<char>, i: int) -> Seq<int>
    decreases s.len() - i,
{
    if i < 0 || i >= s.len() {
        Seq::empty()
    } else if starts_at(s, i) {
        seq![i] + starts_from(s, i + 1)
    } else {
        starts_from(s, i + 1)
    }
}

/// The whole word that begins at `i` is `word`, but for the case of its letters.
pub open spec fn spells(s: Seq<char>, i: int, word: Seq<char>) -> bool {
    &&& starts_at(s, i)
    &&& i + word.len() <= s.len()
    &&& text::same_letters(s.subrange(i, i + word.len()), word)
    &&& forall|k: int| i <= k < i + word.len() ==> text::is_word(#[trigger] s[k])
    &&& !(i + word.len() < s.len() && text::is_word(s[i + word.len()]))
}

/// No lower-case letter occurs.
pub open spec fn in_capitals(s: Seq<char>) -> bool {
    forall|i: int| 0 <= i < s.len() ==> !(97 <= (#[trigger] s[i]) as u32 <= 122)
}

proof fn lemma_uppered_spells(s: Seq<char>, i: int, j: int)
    requires
        starts_at(s, i),
        i < j <= s.len(),
        forall|k: int| i <= k < j ==> text::is_word(#[trigger] s[k]),
        !(j < s.len() && text::is_word(s[j])),
    ensures
        spells(s, i, text::uppered(s.subrange(i, j))),
        in_capitals(text::uppered(s.subrange(i, j))),
{
    let w = text::uppered(s.subrange(i, j));
    assert(s.subrange(i, i + w.len()) =~= s.subrange(i, j));
}

proof fn lemma_words_are_the_runs(s: Seq<char>, i: int, j: int)
    requires
        0 <= i <= j <= s.len(),
        i == j ==> !(0 < j < s.len() && text::is_word(s[j - 1]) && text::is_word(s[j])),
        i < j ==> starts_at(s, i) && forall|k: int| i <= k < j ==> text::is_word(#[trigger] s[k]),
    ensures
        i == j ==> {
            let w = sql::words_from(s, j);
            let b = starts_from(s, j);
            &&& w.len() == b.len()
            &&& forall|k: int|
                0 <= k < w.len() ==> in_capitals(#[trigger] w[k]) && spells(s, b[k], w[k])
        },
        i < j ==> {
            let w = sql::word_then_rest(s, i, j);
            let b = seq![i] + starts_from(s, j);
            &&& w.len() == b.len()
            &&& forall|k: int|
                0 <= k < w.len() ==> in_capitals(#[trigger] w[k]) && spells(s, b[k], w[k])
        },
    decreases s.len() - j, if i < j { 1int } else { 0int },
{
    if i < j {
        if j < s.len() && text::is_word(s[j]) {
            lemma_words_are_the_runs(s, i, j + 1);
            assert(!starts_at(s, j));
        } else {
            lemma_uppered_spells(s, i, j);
            lemma_words_are_the_runs(s, j, j);
            let w = sql::word_then_rest(s, i, j);
            let b = seq![i] + starts_from(s, j);
            let rest = sql::words_from(s, j);
            assert forall|k: int| 0 <= k < w.len() implies in_capitals(#[trigger] w[k]) && spells(
                s,
                b[k],
                w[k],
            ) by {
                if k > 0 {
                    assert(w[k] == rest[k - 1]);
                    assert(b[k] == starts_from(s, j)[k - 1]);
                }
            }
        }
    } else if j < s.len() {
        if text::is_word(s[j]) {
            assert(starts_at(s, j));
            lemma_words_are_the_runs(s, j, j + 1);
        } else {
            lemma_words_are_the_runs(s, j + 1, j + 1);
        }
    }
}

/// The words of a text are its runs of word characters, each whole, in order and in capitals,
/// whatever the case they are written in.
pub proof fn law_words_are_the_runs_in_capitals(s: Seq<char>)
    ensures
        sql::words_of(s).len() == starts_from(s, 0).len(),
        forall|k: int|
            0 <= k < sql::words_of(s).len() ==> in_capitals(#[trigger] sql::words_of(s)[k])
                && spells(s, starts_from(s, 0)[k], sql::words_of(s)[k]),
{
    lemma_words_are_the_runs(s, 0, 0);
}

proof fn lemma_one_capital(x: char, a: char, b: char)
    requires
        text::same_letter(x, a),
        text::same_letter(x, b),
        !(97 <= a as u32 <= 122),
        !(97 <= b as u32 <= 122),
    ensures
        a == b,
{
}

proof fn lemma_one_spelling(s: Seq<char>, i: int, a: Seq<char>, b: Seq<char>)
    requires
        spells(s, i, a),
        spells(s, i, b),
        in_capitals(a),
        in_capitals(b),
        a.len() > 0,
        b.len() > 0,
    ensures
        a == b,
{
    if a.len() < b.len() {
        assert(text::is_word(s[i + a.len()]));
    }
    if b.len() < a.len() {
        assert(text::is_word(s[i + b.len()]));
    }
    assert forall|k: int| 0 <= k < a.len() implies a[k] == b[k] by {
        let x = s.subrange(i, i + a.len());
        assert(x == s.subrange(i, i + b.len()));
        assert(text::same_letter(x[k], a[k]));
        assert(text::same_letter(x[k], b[k]));
        lemma_one_capital(x[k], a[k], b[k]);
    }
    assert(a =~= b);
}

proof fn lemma_spelled_word(s: Seq<char>, k: int, word: Seq<char>)
    requires
        0 <= k < sql::words_of(s).len(),
        in_capitals(word),
        word.len() > 0,
    ensures
        spells(s, starts_from(s, 0)[k], word) <==> sql::words_of(s)[k] == word,
{
    law_words_are_the_runs_in_capitals(s);
    let w = sql::words_of(s)[k];
    let i = starts_from(s, 0)[k];
    assert(in_capitals(w) && spells(s, i, w));
    assert(w.len() > 0);
    if spells(s, i, word) {
        lemma_one_spelling(s, i, w, word);
    }
}

/// The first place at which a word stands among words, if any.
pub proof fn law_positions_are_the_first(w: Seq<Seq<char>>, word: Seq<char>)
    ensures
        sql::position(w, word) is None <==> !w.contains(word),
        sql::position(w, word) matches Some(i) ==> 0 <= i < w.len() && w[i] == word && forall|j: int|
            0 <= j < i ==> #[trigger] w[j] != word,
{
    lemma_position_is_first(w, word, 0);
    if w.contains(word) {
        let i = choose|i: int| 0 <= i < w.len() && w[i] == word;
        assert(w[i] == word);
    }
}

proof fn lemma_position_is_first(w: Seq<Seq<char>>, word: Seq<char>, from: int)
    requires
        0 <= from,
    ensures
        match sql::position_from(w, word, from) {
            Some(i) => from <= i < w.len() && w[i] == word && forall|j: int|
                from <= j < i ==> #[trigger] w[j] != word,
            None => forall|j: int| from <= j < w.len() ==> #[trigger] w[j] != word,
        },
    decreases w.len() - from,
{
    if from < w.len() && w[from] != word {
        lemma_position_is_first(w, word, from + 1);
    }
}

proof fn lemma_keywords()
    ensures
        in_capitals("DELETE"@) && in_capitals("WHERE"@) && in_capitals("INSERT"@) && in_capitals(
            "INTO"@,
        ),
        in_capitals("CREATE"@) && in_capitals("EDGE"@) && in_capitals("TYPE"@) && in_capitals(
            "FROM"@,
        ) && in_capitals("TO"@) && in_capitals("UPDATE"@) && in_capitals("SET"@),
        "DELETE"@.len() == 6 && "WHERE"@.len() == 5 && "INSERT"@.len() == 6 && "INTO"@.len() == 4,
        "CREATE"@.len() == 6 && "EDGE"@.len() == 4 && "TYPE"@.len() == 4 && "FROM"@.len() == 4
            && "TO"@.len() == 2 && "UPDATE"@.len() == 6 && "SET"@.len() == 3,
{
    reveal_strlit("DELETE");
    reveal_strlit("WHERE");
    reveal_strlit("INSERT");
    reveal_strlit("INTO");
    reveal_strlit("CREATE");
    reveal_strlit("EDGE");
    reveal_strlit("TYPE");
    reveal_strlit("FROM");
    reveal_strlit("TO");
    reveal_strlit("UPDATE");
    reveal_strlit("SET");
}

/// Some word of the text is `word`, in any letter case.
pub open spec fn has_word(s: Seq<char>, word: Seq<char>) -> bool {
    exists|i: int| #[trigger] spells(s, i, word)
}

proof fn lemma_contained_word(s: Seq<char>, word: Seq<char>)
    requires
        in_capitals(word),
        word.len() > 0,
        sql::words_of(s).contains(word),
    ensures
        has_word(s, word),
{
    let w = sql::words_of(s);
    let k = choose|k: int| 0 <= k < w.len() && w[k] == word;
    lemma_spelled_word(s, k, word);
    law_words_are_the_runs_in_capitals(s);
    assert(spells(s, starts_from(s, 0)[k], word));
}

/// An accepted statement that begins with `delete`, in any letter case, has a `where` in some
/// letter case; one that begins with `insert` goes on with `into`; one that begins with
/// `create edge`, and is not about the type, has a `from` and a `to`; one that begins with
/// `update` has a `set`. Words in literals and comments do not count.
pub proof fn law_guards_hold_in_any_letter_case(statement: Seq<char>)
    requires
        sql::problems(statement).len() == 0,
        starts_from(sql::skeleton(statement), 0).len() > 0,
    ensures
        ({
            let s = sql::skeleton(statement);
            let b = starts_from(s, 0);
            &&& spells(s, b[0], "DELETE"@) ==> has_word(s, "WHERE"@)
            &&& spells(s, b[0], "INSERT"@) ==> b.len() > 1 && spells(s, b[1], "INTO"@)
            &&& spells(s, b[0], "CREATE"@) && b.len() > 1 && spells(s, b[1], "EDGE"@) && !(b.len()
                > 2 && spells(s, b[2], "TYPE"@)) ==> has_word(s, "FROM"@) && has_word(s, "TO"@)
            &&& spells(s, b[0], "UPDATE"@) ==> has_word(s, "SET"@)
        }),
{
    lemma_keywords();
    let s = sql::skeleton(statement);
    let w = sql::words_of(s);
    let b = starts_from(s, 0);
    law_words_are_the_runs_in_capitals(s);
    sql::law_accepted_statements_are_guarded(statement);
    lemma_spelled_word(s, 0, "DELETE"@);
    lemma_spelled_word(s, 0, "INSERT"@);
    lemma_spelled_word(s, 0, "CREATE"@);
    lemma_spelled_word(s, 0, "UPDATE"@);
    if b.len() > 1 {
        lemma_spelled_word(s, 1, "INTO"@);
        lemma_spelled_word(s, 1, "EDGE"@);
    }
    if b.len() > 2 {
        lemma_spelled_word(s, 2, "TYPE"@);
    }
    law_positions_are_the_first(w, "FROM"@);
    law_positions_are_the_first(w, "TO"@);
    law_positions_are_the_first(w, "SET"@);
    if w.contains("WHERE"@) {
        lemma_contained_word(s, "WHERE"@);
    }
    if w.contains("FROM"@) {
        lemma_contained_word(s, "FROM"@);
    }
    if w.contains("TO"@) {
        lemma_contained_word(s, "TO"@);
    }
    if w.contains("SET"@) {
        lemma_contained_word(s, "SET"@);
    }
    if w[0] == "UPDATE"@ {
        sql::law_accepted_updates_are_in_order(w);
    }
}

// ---------------------------------------------------------------------------
// Clauses
// ---------------------------------------------------------------------------

/// An `UPDATE` whose clauses stand in the server's order, with a body behind `SET`, has no
/// problem of shape: `WHERE` is optional, `UPSERT` needs it, and `RETURN BEFORE|AFTER` needs
/// both and stands between them.
pub proof fn law_ordered_updates_are_accepted(w: Seq<Seq<char>>, set: int)
    requires
        sql::position(w, "SET"@) == Some(set),
        set + 1 < w.len(),
        sql::position(w, "WHERE"@) matches Some(p) ==> set + 1 < p,
        sql::position(w, "UPSERT"@) matches Some(p) ==> set + 1 < p && (sql::position(
            w,
            "WHERE"@,
        ) matches Some(q) && p < q),
        sql::position(w, "RETURN"@) matches Some(p) ==> (sql::position(
            w,
            "UPSERT"@,
        ) matches Some(u) && u < p) && (sql::position(w, "WHERE"@) matches Some(q) && p < q) && (
        sql::word_at(w, p + 1) == Some("BEFORE"@) || sql::word_at(w, p + 1) == Some("AFTER"@)),
    ensures
        sql::update_errors(w).len() == 0,
{
}

/// A `DELETE` has no problem of shape exactly when it has a `WHERE`, an `INSERT` exactly when
/// `INTO` follows, an instance of `CREATE EDGE` exactly when it has a `FROM` and a `TO`; and a
/// statement that begins with another word has none.
pub proof fn law_shapes_are_checked_by_the_first_word(w: Seq<Seq<char>>)
    requires
        w.len() > 0,
    ensures
        w[0] == "DELETE"@ ==> (sql::shape_errors(w).len() == 0 <==> w.contains("WHERE"@)),
        w[0] == "INSERT"@ ==> (sql::shape_errors(w).len() == 0 <==> w.len() > 1 && w[1] == "INTO"@),
        w[0] == "UPDATE"@ ==> (sql::shape_errors(w).len() == 0 <==> sql::update_errors(w).len()
            == 0),
        w[0] == "CREATE"@ && w.len() > 1 && w[1] == "EDGE"@ ==> (sql::shape_errors(w).len() == 0
            <==> (w.len() > 2 && w[2] == "TYPE"@) || (w.contains("FROM"@) && w.contains("TO"@))),
        w[0] == "CREATE"@ && !(w.len() > 1 && w[1] == "EDGE"@) ==> sql::shape_errors(w).len() == 0,
        w[0] != "DELETE"@ && w[0] != "INSERT"@ && w[0] != "UPDATE"@ && w[0] != "CREATE"@
            ==> sql::shape_errors(w).len() == 0,
{
    reveal_strlit("UPDATE");
    reveal_strlit("DELETE");
    reveal_strlit("INSERT");
    reveal_strlit("CREATE");
    assert("UPDATE"@[0] == 'U' && "DELETE"@[0] == 'D' && "INSERT"@[0] == 'I' && "CREATE"@[0]
        == 'C');
    law_positions_are_the_first(w, "FROM"@);
    law_positions_are_the_first(w, "TO"@);
}

/// A statement is accepted exactly when it is not blank, every literal in it is closed, its
/// delimiters nest, no semicolon stands before the end, its shape is sound, and no
/// placeholder is named like a keyword.
pub proof fn law_sound_statements_are_accepted(statement: Seq<char>)
    ensures
        ({
            let s = sql::skeleton(statement);
            sql::problems(statement).len() == 0 <==> {
                &&& exists|i: int|
                    0 <= i < statement.len() && !text::is_space(#[trigger] statement[i])
                &&& sql::open_errors(statement).len() == 0
                &&& sql::well_nested(s)
                &&& !exists|i: int, j: int|
                    0 <= i < j < s.len() && #[trigger] s[i] == ';' && !text::is_space(
                        #[trigger] s[j],
                    )
                &&& sql::shape_errors(sql::words_of(s)).len() == 0
                &&& forall|p: int| #[trigger]
                    sql::placeholder_at(s, p) ==> !sql::is_reserved(
                        text::uppered(sql::name_at(s, p)),
                    )
            }
        }),
{
    let s = sql::skeleton(statement);
    lemma_reserved_names(s);
    sql::lemma_script(s);
    if exists|i: int, j: int|
        0 <= i < j < s.len() && #[trigger] s[i] == ';' && !text::is_space(#[trigger] s[j]) {
        let (i, j) = choose|i: int, j: int|
            0 <= i < j < s.len() && #[trigger] s[i] == ';' && !text::is_space(#[trigger] s[j]);
        assert(sql::interior_semicolon(s, i, j));
    }
    if exists|i: int, j: int| sql::interior_semicolon(s, i, j) {
        let (i, j) = choose|i: int, j: int| sql::interior_semicolon(s, i, j);
        assert(s[i] == ';' && !text::is_space(s[j]));
    }
    if sql::balance_errors(s).len() == 0 {
        assert(sql::balance_errors(s) =~= Seq::empty());
    }
}

/// The statement is accepted only where every literal and block comment in it is closed.
pub proof fn law_open_literals_are_refused(statement: Seq<char>)
    ensures
        sql::open_errors(statement).len() == 0 <==> {
            let end = sql::strip_from(statement, 0, Lex::Normal).1;
            end is Normal || end is LineComment
        },
        sql::open_errors(statement).len() > 0 ==> sql::problems(statement).len() > 0,
{
}

/// The keywords that no placeholder may be named after.
pub proof fn law_keywords_are_reserved(w: Seq<char>)
    ensures
        sql::is_reserved("SELECT"@) && sql::is_reserved("FROM"@) && sql::is_reserved("WHERE"@)
            && sql::is_reserved("AND"@) && sql::is_reserved("OR"@) && sql::is_reserved("NOT"@)
            && sql::is_reserved("NULL"@) && sql::is_reserved("TRUE"@) && sql::is_reserved("FALSE"@),
        sql::is_reserved("UPDATE"@) && sql::is_reserved("SET"@) && sql::is_reserved("UPSERT"@)
            && sql::is_reserved("RETURN"@) && sql::is_reserved("BEFORE"@) && sql::is_reserved(
            "AFTER"@,
        ) && sql::is_reserved("INSERT"@) && sql::is_reserved("DELETE"@) && sql::is_reserved(
            "CREATE"@,
        ),
        sql::is_reserved("LIKE"@) && sql::is_reserved("ILIKE"@) && sql::is_reserved("IN"@)
            && sql::is_reserved("IS"@) && sql::is_reserved("AS"@) && sql::is_reserved("BETWEEN"@)
            && sql::is_reserved("CONTAINS"@) && sql::is_reserved("CONTAINSALL"@)
            && sql::is_reserved("CONTAINSANY"@),
        sql::is_reserved("LET"@) && sql::is_reserved("TRAVERSE"@) && sql::is_reserved("MATCH"@)
            && sql::is_reserved("ORDER"@) && sql::is_reserved("GROUP"@) && sql::is_reserved("BY"@)
            && sql::is_reserved("ASC"@) && sql::is_reserved("DESC"@),
        sql::is_reserved(w) ==> in_capitals(w) && 2 <= w.len() <= 11 && forall|i: int|
            0 <= i < w.len() ==> text::is_upper(#[trigger] w[i]),
{
    lemma_reserved_words_are_capitals(w);
}

proof fn lemma_reserved_words_are_capitals(w: Seq<char>)
    ensures
        sql::is_reserved(w) ==> 2 <= w.len() <= 11 && forall|i: int|
            0 <= i < w.len() ==> text::is_upper(#[trigger] w[i]),
{
    reveal_strlit("AFTER");
    reveal_strlit("BEFORE");
    reveal_strlit("WHERE");
    reveal_strlit("UPSERT");
    reveal_strlit("RETURN");
    reveal_strlit("SET");
    reveal_strlit("UPDATE");
    reveal_strlit("SELECT");
    reveal_strlit("FROM");
    reveal_strlit("AS");
    reveal_strlit("AND");
    reveal_strlit("OR");
    reveal_strlit("NOT");
    reveal_strlit("NULL");
    reveal_strlit("TRUE");
    reveal_strlit("FALSE");
    reveal_strlit("LIKE");
    reveal_strlit("ILIKE");
    reveal_strlit("IN");
    reveal_strlit("CONTAINS");
    reveal_strlit("CONTAINSALL");
    reveal_strlit("CONTAINSANY");
    reveal_strlit("BETWEEN");
    reveal_strlit("IS");
    reveal_strlit("LET");
    reveal_strlit("TRAVERSE");
    reveal_strlit("MATCH");
    reveal_strlit("INSERT");
    reveal_strlit("DELETE");
    reveal_strlit("CREATE");
    reveal_strlit("ORDER");
    reveal_strlit("BY");
    reveal_strlit("GROUP");
    reveal_strlit("ASC");
    reveal_strlit("DESC");
}

// ---------------------------------------------------------------------------
// Placeholders
// ---------------------------------------------------------------------------

/// A colon that follows no colon, and behind it the whole run of word characters `name`, which
/// does not begin with a digit.
pub open spec fn names_a_parameter(s: Seq<char>, p: int, name: Seq<char>) -> bool {
    &&& 0 <= p < s.len()
    &&& s[p] == ':'
    &&& !(p > 0 && s[p - 1] == ':')
    &&& name.len() > 0
    &&& !text::is_digit(name[0])
    &&& p + 1 + name.len() <= s.len()
    &&& s.subrange(p + 1, p + 1 + name.len()) == name
    &&& forall|k: int| 0 <= k < name.len() ==> text::is_word(#[trigger] name[k])
    &&& !(p + 1 + name.len() < s.len() && text::is_word(s[p + 1 + name.len()]))
}

proof fn lemma_run(s: Seq<char>, i: int)
    requires
        0 <= i <= s.len(),
    ensures
        i <= sql::run_end(s, i) <= s.len(),
        forall|k: int| i <= k < sql::run_end(s, i) ==> text::is_word(#[trigger] s[k]),
        !(sql::run_end(s, i) < s.len() && text::is_word(s[sql::run_end(s, i)])),
    decreases s.len() - i,
{
    if i < s.len() && text::is_word(s[i]) {
        lemma_run(s, i + 1);
    }
}

proof fn lemma_placeholder_name(s: Seq<char>, p: int, name: Seq<char>)
    ensures
        names_a_parameter(s, p, name) <==> sql::placeholder_at(s, p) && sql::name_at(s, p) == name,
{
    if 0 <= p < s.len() {
        lemma_run(s, p + 1);
        let e = sql::run_end(s, p + 1);
        if sql::placeholder_at(s, p) && sql::name_at(s, p) == name {
            assert(text::is_word(s[p + 1]));
            assert(e > p + 1);
            assert(name[0] == s[p + 1]);
            assert forall|k: int| 0 <= k < name.len() implies text::is_word(#[trigger] name[k]) by {
                assert(name[k] == s[p + 1 + k]);
            }
        }
        if names_a_parameter(s, p, name) {
            let end = p + 1 + name.len();
            assert(name[0] == s[p + 1]);
            assert(text::is_word(name[0]));
            assert(sql::placeholder_at(s, p));
            if e < end {
                assert(name[e - p - 1] == s[e]);
            }
            if e > end {
                assert(text::is_word(s[end]));
            }
            assert(sql::name_at(s, p) =~= name);
        }
    }
}

/// The placeholders of a statement are the names behind single colons outside literals and
/// comments, and each is listed once.
pub proof fn law_placeholders_are_the_names_behind_colons(statement: Seq<char>, name: Seq<char>)
    ensures
        sql::placeholder_names(statement).contains(name) <==> exists|p: int| #[trigger]
            names_a_parameter(sql::skeleton(statement), p, name),
        sql::placeholder_names(statement).no_duplicates(),
{
    let s = sql::skeleton(statement);
    let names = sql::placeholder_names(statement);
    lemma_names_of_placeholders(s, s.len() as int);
    lemma_names_once(s, s.len() as int);
    if names.contains(name) {
        let i = choose|i: int| 0 <= i < names.len() && names[i] == name;
        let p = choose|p: int|
            0 <= p < s.len() && #[trigger] sql::placeholder_at(s, p) && sql::name_at(s, p)
                == names[i];
        lemma_placeholder_name(s, p, name);
        assert(names_a_parameter(s, p, name));
    }
    if exists|p: int| #[trigger] names_a_parameter(s, p, name) {
        let p = choose|p: int| #[trigger] names_a_parameter(s, p, name);
        lemma_placeholder_name(s, p, name);
    }
}

proof fn lemma_names_once(s: Seq<char>, n: int)
    ensures
        sql::names_before(s, n).no_duplicates(),
    decreases n,
{
    if n > 0 {
        lemma_names_once(s, n - 1);
        let before = sql::names_before(s, n - 1);
        let names = sql::names_before(s, n);
        if names.len() > before.len() {
            assert forall|i: int, j: int| 0 <= i < names.len() && 0 <= j < names.len() && i
                != j implies names[i] != names[j] by {
                if i == before.len() {
                    assert(before.contains(before[j]));
                } else if j == before.len() {
                    assert(before.contains(before[i]));
                }
            }
        }
    }
}

/// No placeholder of an accepted statement is a keyword, in any letter case.
pub proof fn law_accepted_placeholders_are_no_keywords(
    statement: Seq<char>,
    p: int,
    name: Seq<char>,
    keyword: Seq<char>,
)
    requires
        sql::problems(statement).len() == 0,
        names_a_parameter(sql::skeleton(statement), p, name),
        sql::is_reserved(keyword),
    ensures
        !text::same_letters(name, keyword),
{
    law_sound_statements_are_accepted(statement);
    lemma_placeholder_name(sql::skeleton(statement), p, name);
    law_keywords_are_reserved(keyword);
    if text::same_letters(name, keyword) {
        lemma_uppered_case(name, keyword);
        assert(text::uppered(keyword) =~= keyword);
    }
}

// ---------------------------------------------------------------------------
// Nesting
// ---------------------------------------------------------------------------

/// A delimiter that closes what the other opens.
pub open spec fn closes(open: char, close: char) -> bool {
    (open == '(' && close == ')') || (open == '[' && close == ']') || (open == '{' && close == '}')
}

/// An opening or closing delimiter.
pub open spec fn is_delimiter(c: char) -> bool {
    c == '(' || c == ')' || c == '[' || c == ']' || c == '{' || c == '}'
}

/// How often `c` occurs in `s`.
pub open spec fn count(s: Seq<char>, c: char) -> int
    decreases s.len(),
{
    if s.len() == 0 {
        0
    } else {
        count(s.drop_last(), c) + if s.last() == c {
            1int
        } else {
            0int
        }
    }
}

proof fn lemma_count_positive(s: Seq<char>, c: char)
    ensures
        count(s, c) >= 0,
    decreases s.len(),
{
    if s.len() > 0 {
        lemma_count_positive(s.drop_last(), c);
    }
}

proof fn lemma_count_push(s: Seq<char>, d: char, c: char)
    ensures
        count(s.push(d), c) == count(s, c) + if d == c {
            1int
        } else {
            0int
        },
{
    assert(s.push(d).drop_last() =~= s);
}

proof fn lemma_scan_counts(s: Seq<char>, n: int, open: char, close: char)
    requires
        0 <= n <= s.len(),
        closes(open, close),
        sql::balance_scan(s, n).0.len() == 0,
    ensures
        count(sql::balance_scan(s, n).1, open) == count(s.take(n), open) - count(s.take(n), close),
    decreases n,
{
    if n > 0 {
        sql::lemma_scan_errors_grow(s, n - 1, n);
        lemma_scan_counts(s, n - 1, open, close);
        let c = s[n - 1];
        let stack = sql::balance_scan(s, n - 1).1;
        assert(s.take(n) =~= s.take(n - 1).push(c));
        lemma_count_push(s.take(n - 1), c, open);
        lemma_count_push(s.take(n - 1), c, close);
        lemma_count_push(stack, c, open);
    } else {
        assert(s.take(0) =~= Seq::empty());
    }
}

/// In a well-nested text every delimiter is opened as often as it is closed, and up to no
/// place is it closed more often than opened.
pub proof fn law_delimiters_are_opened_before_they_are_closed(
    s: Seq<char>,
    n: int,
    open: char,
    close: char,
)
    requires
        sql::well_nested(s),
        0 <= n <= s.len(),
        closes(open, close),
    ensures
        count(s.take(n), close) <= count(s.take(n), open),
        count(s, close) == count(s, open),
{
    let len = s.len() as int;
    sql::lemma_well_nested_scan(s);
    sql::lemma_scan_errors_grow(s, n, len);
    lemma_scan_counts(s, n, open, close);
    lemma_count_positive(sql::balance_scan(s, n).1, open);
    lemma_scan_counts(s, len, open, close);
    assert(s.take(len) =~= s);
    assert(sql::balance_scan(s, len).1 =~= Seq::empty());
}

proof fn lemma_scan_on(x: Seq<char>, n: int, y: Seq<char>, m: int, k: int)
    requires
        0 <= n,
        0 <= m,
        0 <= k,
        n + k <= x.len(),
        m + k <= y.len(),
        sql::balance_scan(x, n) == sql::balance_scan(y, m),
        forall|i: int| 0 <= i < k ==> #[trigger] x[n + i] == y[m + i],
    ensures
        sql::balance_scan(x, n + k) == sql::balance_scan(y, m + k),
    decreases k,
{
    if k > 0 {
        lemma_scan_on(x, n, y, m, k - 1);
        assert(x[n + (k - 1)] == y[m + (k - 1)]);
    }
}

proof fn lemma_scan_over(s: Seq<char>, n: int, k: int)
    requires
        0 <= n,
        0 <= k,
        n + k <= s.len(),
        forall|i: int| n <= i < n + k ==> !is_delimiter(#[trigger] s[i]),
    ensures
        sql::balance_scan(s, n + k) == sql::balance_scan(s, n),
    decreases k,
{
    if k > 0 {
        lemma_scan_over(s, n, k - 1);
        assert(!is_delimiter(s[n + k - 1]));
    }
}

/// An opening and a closing delimiter with none between them must belong together, and then
/// the text is well nested exactly when it is without the two.
pub proof fn law_innermost_delimiters_match(
    a: Seq<char>,
    open: char,
    m: Seq<char>,
    close: char,
    b: Seq<char>,
)
    requires
        open == '(' || open == '[' || open == '{',
        close == ')' || close == ']' || close == '}',
        forall|i: int| 0 <= i < m.len() ==> !is_delimiter(#[trigger] m[i]),
    ensures
        sql::well_nested(a + seq![open] + m + seq![close] + b) <==> closes(open, close)
            && sql::well_nested(a + m + b),
{
    let s = a + seq![open] + m + seq![close] + b;
    let t = a + m + b;
    let p = a.len() as int;
    let q = p + 1 + m.len();
    sql::lemma_well_nested_scan(s);
    sql::lemma_well_nested_scan(t);
    assert(s =~= a + (seq![open] + m + seq![close] + b));
    assert(t =~= a + (m + b));
    sql::lemma_scan_prefix(a, seq![open] + m + seq![close] + b, p);
    sql::lemma_scan_prefix(a, m + b, p);
    assert(s[p] == open);
    assert(s[q] == close);
    assert forall|i: int| p + 1 <= i < q implies !is_delimiter(#[trigger] s[i]) by {
        assert(s[i] == m[i - p - 1]);
    }
    assert forall|i: int| p <= i < p + m.len() implies !is_delimiter(#[trigger] t[i]) by {
        assert(t[i] == m[i - p]);
    }
    lemma_scan_over(s, p + 1, m.len() as int);
    lemma_scan_over(t, p, m.len() as int);
    let outer = sql::balance_scan(s, p);
    assert(sql::balance_scan(s, p + 1) == (outer.0, outer.1.push(open)));
    assert(sql::balance_scan(s, q) == (outer.0, outer.1.push(open)));
    if closes(open, close) {
        assert(outer.1.push(open).drop_last() =~= outer.1);
        assert(sql::balance_scan(s, q + 1) == outer);
        assert forall|i: int| 0 <= i < b.len() implies #[trigger] s[q + 1 + i] == t[p + m.len()
            + i] by {
            assert(s[q + 1 + i] == b[i]);
        }
        lemma_scan_on(s, q + 1, t, p + m.len(), b.len() as int);
    } else {
        assert(sql::balance_scan(s, q + 1).0.len() > 0);
        sql::lemma_scan_errors_grow(s, q + 1, s.len() as int);
    }
}

/// A text without delimiters is well nested.
pub proof fn law_no_delimiters_nest(s: Seq<char>)
    requires
        forall|i: int| 0 <= i < s.len() ==> !is_delimiter(#[trigger] s[i]),
    ensures
        sql::well_nested(s),
{
    lemma_scan_over(s, 0, s.len() as int);
    sql::lemma_well_nested_scan(s);
}

// ---------------------------------------------------------------------------
// Literals and comments
// ---------------------------------------------------------------------------

/// Two characters in a row that mean something else together than each alone.
pub open spec fn couples(c: char, d: char) -> bool {
    (c == '-' && d == '-') || (c == '/' && d == '*') || (c == '\'' && d == '\'')
}

proof fn lemma_strip_first(a: Seq<char>, t: Seq<char>, i: int, state: Lex)
    requires
        0 <= i <= a.len(),
        t.len() > 0,
        a.len() > 0 ==> !couples(a.last(), t[0]),
        sql::strip_from(a, i, state).1 is Normal,
    ensures
        sql::strip_from(a + t, i, state).0 == sql::strip_from(a, i, state).0 + sql::strip_from(
            a + t,
            a.len() as int,
            Lex::Normal,
        ).0,
        sql::strip_from(a + t, i, state).1 == sql::strip_from(
            a + t,
            a.len() as int,
            Lex::Normal,
        ).1,
    decreases a.len() - i,
{
    let s = a + t;
    let rest = sql::strip_from(s, a.len() as int, Lex::Normal);
    if i < a.len() {
        let step = sql::step_of(state, a[i], sql::char_at(a, i + 1));
        assert(s[i] == a[i]);
        if i + 1 < a.len() {
            assert(s[i + 1] == a[i + 1]);
        } else {
            assert(s[i + 1] == t[0]);
            assert(a[i] == a.last());
            assert(sql::strip_from(a, i + 1, step.state) == (Seq::<char>::empty(), step.state));
        }
        assert(step == sql::step_of(state, s[i], sql::char_at(s, i + 1)));
        if step.wide {
            lemma_strip_first(a, t, i + 2, step.state);
            let tail = sql::strip_from(a, i + 2, step.state).0;
            assert(seq![step.first, ' '] + (tail + rest.0) =~= (seq![step.first, ' '] + tail)
                + rest.0);
        } else {
            lemma_strip_first(a, t, i + 1, step.state);
            let tail = sql::strip_from(a, i + 1, step.state).0;
            assert(seq![step.first] + (tail + rest.0) =~= (seq![step.first] + tail) + rest.0);
        }
    } else {
        assert(sql::strip_from(a, i, state).0 + rest.0 =~= rest.0);
    }
}

proof fn lemma_strip_body(s: Seq<char>, i: int, end: int, state: Lex)
    requires
        0 <= i <= end <= s.len(),
        forall|k: int|
            i <= k < end ==> sql::step_of(state, #[trigger] s[k], sql::char_at(s, k + 1)) == (
            sql::Step { state, first: ' ', wide: false }),
    ensures
        sql::strip_from(s, i, state).0 == sql::spaces((end - i) as nat) + sql::strip_from(
            s,
            end,
            state,
        ).0,
        sql::strip_from(s, i, state).1 == sql::strip_from(s, end, state).1,
    decreases end - i,
{
    let tail = sql::strip_from(s, end, state).0;
    if i < end {
        lemma_strip_body(s, i + 1, end, state);
        let body = sql::spaces((end - i - 1) as nat);
        assert(sql::step_of(state, s[i], sql::char_at(s, i + 1)).first == ' ');
        assert(seq![' '] + (body + tail) =~= sql::spaces((end - i) as nat) + tail);
    } else {
        assert(sql::spaces(0) + tail =~= tail);
    }
}

proof fn lemma_spaces(m: nat, n: nat, rest: Seq<char>)
    ensures
        sql::spaces(m) + (sql::spaces(n) + rest) == sql::spaces(m + n) + rest,
{
    assert(sql::spaces(m) + (sql::spaces(n) + rest) =~= sql::spaces(m + n) + rest);
}

/// An opening, a body and a closing that are each blanked are blanked together.
proof fn lemma_delimited(s: Seq<char>, p: int, first: int, end: int, last: int, state: Lex)
    requires
        0 <= p <= first <= end <= last,
        sql::strip_from(s, p, Lex::Normal) == (
            sql::spaces((first - p) as nat) + sql::strip_from(s, first, state).0,
            sql::strip_from(s, first, state).1,
        ),
        sql::strip_from(s, first, state).0 == sql::spaces((end - first) as nat) + sql::strip_from(
            s,
            end,
            state,
        ).0,
        sql::strip_from(s, first, state).1 == sql::strip_from(s, end, state).1,
        sql::strip_from(s, end, state) == (
            sql::spaces((last - end) as nat) + sql::strip_from(s, last, Lex::Normal).0,
            sql::strip_from(s, last, Lex::Normal).1,
        ),
    ensures
        sql::strip_from(s, p, Lex::Normal) == (
            sql::spaces((last - p) as nat) + sql::strip_from(s, last, Lex::Normal).0,
            sql::strip_from(s, last, Lex::Normal).1,
        ),
{
    let rest = sql::strip_from(s, last, Lex::Normal).0;
    lemma_spaces((end - first) as nat, (last - end) as nat, rest);
    lemma_spaces((first - p) as nat, (last - first) as nat, rest);
}

/// What stands between `a`, which ends outside every literal, and `b` counts as so many
/// spaces, and `b` is read as if it stood alone.
pub open spec fn blanked(a: Seq<char>, middle: Seq<char>, b: Seq<char>) -> bool {
    let s = a + (middle + b);
    &&& sql::skeleton(s) == sql::skeleton(a) + sql::spaces(middle.len()) + sql::skeleton(b)
    &&& sql::open_errors(s) == sql::open_errors(b)
}

proof fn lemma_blanked(a: Seq<char>, middle: Seq<char>, b: Seq<char>)
    requires
        middle.len() > 0,
        a.len() > 0 ==> !couples(a.last(), middle[0]),
        sql::strip_from(a, 0, Lex::Normal).1 is Normal,
        ({
            let s = a + (middle + b);
            let p = a.len() as int;
            let e = p + middle.len();
            let rest = sql::strip_from(s, e, Lex::Normal);
            sql::strip_from(s, p, Lex::Normal) == (sql::spaces(middle.len()) + rest.0, rest.1)
        }),
    ensures
        blanked(a, middle, b),
{
    let t = middle + b;
    let s = a + t;
    let e = a.len() as int + middle.len();
    assert(t[0] == middle[0]);
    lemma_strip_first(a, t, 0, Lex::Normal);
    assert(s.skip(e) =~= b.skip(0));
    sql::lemma_strip_suffix(s, b, e, 0, Lex::Normal);
    assert(sql::skeleton(s) =~= sql::skeleton(a) + sql::spaces(middle.len()) + sql::skeleton(b));
}

/// A line comment counts as white space up to and with the end of its line, whatever it says.
pub proof fn law_line_comments_are_blank(a: Seq<char>, x: Seq<char>, b: Seq<char>)
    requires
        sql::strip_from(a, 0, Lex::Normal).1 is Normal,
        a.len() > 0 ==> a.last() != '-',
        !x.contains('\n'),
    ensures
        blanked(a, seq!['-', '-'] + x + seq!['\n'], b),
{
    let middle = seq!['-', '-'] + x + seq!['\n'];
    let s = a + (middle + b);
    let p = a.len() as int;
    let end = p + 2 + x.len();
    assert(s[p] == '-' && s[p + 1] == '-' && s[end] == '\n');
    assert forall|k: int| p + 2 <= k < end implies #[trigger] s[k] != '\n' by {
        assert(s[k] == x[k - p - 2]);
        assert(x.contains(x[k - p - 2]));
    }
    lemma_strip_body(s, p + 2, end, Lex::LineComment);
    assert(seq![' '] =~= sql::spaces(1));
    assert(seq![' ', ' '] =~= sql::spaces(2));
    lemma_delimited(s, p, p + 2, end, end + 1, Lex::LineComment);
    lemma_blanked(a, middle, b);
}

/// A block comment counts as white space, whatever it says. It says nothing with a star or a
/// line break in it here.
pub proof fn law_block_comments_are_blank(a: Seq<char>, x: Seq<char>, b: Seq<char>)
    requires
        sql::strip_from(a, 0, Lex::Normal).1 is Normal,
        !x.contains('*'),
        !x.contains('\n'),
    ensures
        blanked(a, seq!['/', '*'] + x + seq!['*', '/'], b),
{
    let middle = seq!['/', '*'] + x + seq!['*', '/'];
    let s = a + (middle + b);
    let p = a.len() as int;
    let end = p + 2 + x.len();
    assert(s[p] == '/' && s[p + 1] == '*' && s[end] == '*' && s[end + 1] == '/');
    assert forall|k: int| p + 2 <= k < end implies #[trigger] s[k] != '\n' && s[k] != '*' by {
        assert(s[k] == x[k - p - 2]);
        assert(x.contains(x[k - p - 2]));
    }
    lemma_strip_body(s, p + 2, end, Lex::BlockComment);
    assert(seq![' ', ' '] =~= sql::spaces(2));
    lemma_delimited(s, p, p + 2, end, end + 2, Lex::BlockComment);
    lemma_blanked(a, middle, b);
}

/// A double-quoted span counts as white space, whatever stands in it; so does one in
/// backticks. The first holds no quote or backslash here, the second no line break.
pub proof fn law_quoted_spans_are_blank(a: Seq<char>, x: Seq<char>, b: Seq<char>)
    requires
        sql::strip_from(a, 0, Lex::Normal).1 is Normal,
    ensures
        !x.contains('"') && !x.contains('\\') ==> blanked(a, seq!['"'] + x + seq!['"'], b),
        !x.contains('`') && !x.contains('\n') ==> blanked(a, seq!['`'] + x + seq!['`'], b),
{
    let p = a.len() as int;
    let end = p + 1 + x.len();
    if !x.contains('"') && !x.contains('\\') {
        let middle = seq!['"'] + x + seq!['"'];
        let s = a + (middle + b);
        assert(s[p] == '"' && s[end] == '"');
        assert forall|k: int| p + 1 <= k < end implies #[trigger] s[k] != '"' && s[k] != '\\' by {
            assert(s[k] == x[k - p - 1]);
            assert(x.contains(x[k - p - 1]));
        }
        lemma_strip_body(s, p + 1, end, Lex::Double);
        assert(seq![' '] =~= sql::spaces(1));
        lemma_delimited(s, p, p + 1, end, end + 1, Lex::Double);
        lemma_blanked(a, middle, b);
    }
    if !x.contains('`') && !x.contains('\n') {
        let middle = seq!['`'] + x + seq!['`'];
        let s = a + (middle + b);
        assert(s[p] == '`' && s[end] == '`');
        assert forall|k: int| p + 1 <= k < end implies #[trigger] s[k] != '`' && s[k] != '\n' by {
            assert(s[k] == x[k - p - 1]);
            assert(x.contains(x[k - p - 1]));
        }
        lemma_strip_body(s, p + 1, end, Lex::Backtick);
        assert(seq![' '] =~= sql::spaces(1));
        lemma_delimited(s, p, p + 1, end, end + 1, Lex::Backtick);
        lemma_blanked(a, middle, b);
    }
}

/// A string literal counts as white space, and a doubled quote in it does not end it.
pub proof fn law_string_literals_are_blank(
    a: Seq<char>,
    x: Seq<char>,
    y: Seq<char>,
    b: Seq<char>,
)
    requires
        sql::strip_from(a, 0, Lex::Normal).1 is Normal,
        a.len() > 0 ==> a.last() != '\'',
        b.len() > 0 ==> b[0] != '\'',
        !x.contains('\''),
        !y.contains('\''),
    ensures
        blanked(a, seq!['\''] + x + seq!['\''], b),
        blanked(a, seq!['\''] + x + seq!['\'', '\''] + y + seq!['\''], b),
{
    let p = a.len() as int;
    let end = p + 1 + x.len();
    let one = seq!['\''] + x + seq!['\''];
    let s = a + (one + b);
    assert(s[p] == '\'' && s[end] == '\'');
    assert(b.len() > 0 ==> s[end + 1] == b[0]);
    assert forall|k: int| p + 1 <= k < end implies #[trigger] s[k] != '\'' by {
        assert(s[k] == x[k - p - 1]);
        assert(x.contains(x[k - p - 1]));
    }
    lemma_strip_body(s, p + 1, end, Lex::Single);
    assert(seq![' '] =~= sql::spaces(1));
    lemma_delimited(s, p, p + 1, end, end + 1, Lex::Single);
    lemma_blanked(a, one, b);
    lemma_doubled_quote(a, x, y, b);
}

proof fn lemma_doubled_quote_steps(s: Seq<char>, p: int, mid: int, end: int)
    requires
        0 <= p < mid,
        mid + 2 <= end < s.len(),
        s[p] == '\'' && s[mid] == '\'' && s[mid + 1] == '\'' && s[end] == '\'',
        end + 1 < s.len() ==> s[end + 1] != '\'',
        forall|k: int| p + 1 <= k < mid ==> #[trigger] s[k] != '\'',
        forall|k: int| mid + 2 <= k < end ==> #[trigger] s[k] != '\'',
    ensures
        sql::strip_from(s, p, Lex::Normal) == (
            sql::spaces((end + 1 - p) as nat) + sql::strip_from(s, end + 1, Lex::Normal).0,
            sql::strip_from(s, end + 1, Lex::Normal).1,
        ),
{
    lemma_strip_body(s, p + 1, mid, Lex::Single);
    lemma_strip_body(s, mid + 2, end, Lex::Single);
    assert(seq![' '] =~= sql::spaces(1));
    assert(seq![' ', ' '] =~= sql::spaces(2));
    let tail = sql::strip_from(s, end, Lex::Single).0;
    lemma_spaces(2, (end - mid - 2) as nat, tail);
    lemma_spaces((mid - p - 1) as nat, (end - mid) as nat, tail);
    lemma_delimited(s, p, p + 1, end, end + 1, Lex::Single);
}

#[verifier::rlimit(40)]
proof fn lemma_doubled_quote(a: Seq<char>, x: Seq<char>, y: Seq<char>, b: Seq<char>)
    requires
        sql::strip_from(a, 0, Lex::Normal).1 is Normal,
        a.len() > 0 ==> a.last() != '\'',
        b.len() > 0 ==> b[0] != '\'',
        !x.contains('\''),
        !y.contains('\''),
    ensures
        blanked(a, seq!['\''] + x + seq!['\'', '\''] + y + seq!['\''], b),
{
    let p = a.len() as int;
    let mid = p + 1 + x.len();
    let end = mid + 2 + y.len();
    let two = seq!['\''] + x + seq!['\'', '\''] + y + seq!['\''];
    let s = a + (two + b);
    assert(two.len() == end + 1 - p);
    assert forall|k: int| 0 <= k < two.len() implies #[trigger] s[p + k] == two[k] by {}
    assert(two[0] == '\'' && two[mid - p] == '\'' && two[mid + 1 - p] == '\'' && two[end - p]
        == '\'');
    assert(s[p + 0] == '\'' && s[p + (mid - p)] == '\'' && s[p + (mid + 1 - p)] == '\'' && s[p + (end
        - p)] == '\'');
    assert(b.len() > 0 ==> s[end + 1] == b[0]);
    assert forall|k: int| p + 1 <= k < mid implies #[trigger] s[k] != '\'' by {
        assert(s[p + (k - p)] == two[k - p]);
        assert(two[k - p] == x[k - p - 1]);
        assert(x.contains(x[k - p - 1]));
    }
    assert forall|k: int| mid + 2 <= k < end implies #[trigger] s[k] != '\'' by {
        assert(s[p + (k - p)] == two[k - p]);
        assert(two[k - p] == y[k - mid - 2]);
        assert(y.contains(y[k - mid - 2]));
    }
    lemma_doubled_quote_steps(s, p, mid, end);
    lemma_blanked(a, two, b);
}

/// Outside literals and comments a statement is read as it stands.
pub proof fn law_plain_text_is_kept(s: Seq<char>)
    requires
        !s.contains('\''),
        !s.contains('"'),
        !s.contains('`'),
        !s.contains('-'),
        !s.contains('/'),
    ensures
        sql::skeleton(s) == s,
        sql::open_errors(s).len() == 0,
{
    assert forall|k: int| 0 <= k < s.len() implies s.contains(#[trigger] s[k]) by {}
    assert(sql::is_plain(s));
    sql::lemma_plain_is_kept(s, 0);
    assert(s.skip(0) =~= s);
}

// ---------------------------------------------------------------------------
// Messages
// ---------------------------------------------------------------------------

/// What is said of literals that are left open, of delimiters and of names.
pub proof fn law_problems_are_named(
    statement: Seq<char>,
    open: char,
    close: char,
    name: Seq<char>,
)
    ensures
        ({
            let end = sql::strip_from(statement, 0, Lex::Normal).1;
            let said = sql::open_errors(statement);
            &&& end is Single ==> said == seq!["unterminated string literal"@]
            &&& end is Double ==> said == seq!["unterminated quoted identifier"@]
            &&& end is Backtick ==> said == seq!["unterminated backtick span"@]
            &&& end is BlockComment ==> said == seq!["unterminated block comment"@]
        }),
        sql::mismatch_text(open, close) == "mismatched delimiters: `"@ + seq![open]
            + "` closed by `"@ + seq![close] + "`"@,
        sql::unmatched_text(close) == "unmatched closing `"@ + seq![close] + "`"@,
        sql::unclosed_text(open) == "unclosed `"@ + seq![open] + "`"@,
        sql::reserved_text(name) == "placeholder `:"@ + name
            + "` collides with a reserved keyword and fails to parse — rename it (e.g. `:"@ + name
            + "_v`)"@,
        sql::is_blank(statement) ==> sql::problems(statement) == seq!["empty SQL statement"@],
{
}

} // verus!
