//! Syntax checks on statement literals: clause order, balanced delimiters, reserved
//! placeholder names, pasted scripts and destructive shapes.
//!
//! A statement is first lexed into its *skeleton*, in which string literals, quoted
//! identifiers, backtick spans and comments are blanked. All further checks look at the
//! skeleton, so nothing inside a literal can be taken for syntax.

use vstd::prelude::*;
use vstd::string::*;
use crate::text;

verus! {

// ---------------------------------------------------------------------------
// Skeleton
// ---------------------------------------------------------------------------

/// Where in a statement the lexer stands.
#[derive(Clone, Copy, PartialEq, Eq, Structural)]
pub enum Lex {
    /// Statement syntax.
    Normal,
    /// Inside `'...'`; `''` is an escaped quote.
    Single,
    /// Inside `"..."`; a backslash escapes the next character.
    Double,
    /// Inside a backtick span.
    Backtick,
    /// After `--`, up to the end of the line.
    LineComment,
    /// Inside `/* ... */`.
    BlockComment,
}

/// One lexer step: the state it leads to, what the first consumed character becomes, and
/// whether a second character is consumed (it becomes a space).
pub struct Step {
    pub state: Lex,
    pub first: char,
    pub wide: bool,
}

/// The step taken on character `c` followed by `next`.
pub open spec fn step_of(state: Lex, c: char, next: Option<char>) -> Step {
    match state {
        Lex::Normal => if c == '\'' {
            Step { state: Lex::Single, first: ' ', wide: false }
        } else if c == '"' {
            Step { state: Lex::Double, first: ' ', wide: false }
        } else if c == '`' {
            Step { state: Lex::Backtick, first: ' ', wide: false }
        } else if c == '-' && next == Some('-') {
            Step { state: Lex::LineComment, first: ' ', wide: true }
        } else if c == '/' && next == Some('*') {
            Step { state: Lex::BlockComment, first: ' ', wide: true }
        } else {
            Step { state: Lex::Normal, first: c, wide: false }
        },
        Lex::Single => if c == '\'' && next == Some('\'') {
            Step { state: Lex::Single, first: ' ', wide: true }
        } else if c == '\'' {
            Step { state: Lex::Normal, first: ' ', wide: false }
        } else {
            Step { state: Lex::Single, first: ' ', wide: false }
        },
        Lex::Double => if c == '\\' {
            Step { state: Lex::Double, first: ' ', wide: next is Some }
        } else if c == '"' {
            Step { state: Lex::Normal, first: ' ', wide: false }
        } else {
            Step { state: Lex::Double, first: ' ', wide: false }
        },
        Lex::Backtick => if c == '`' {
            Step { state: Lex::Normal, first: ' ', wide: false }
        } else {
            Step { state: Lex::Backtick, first: if c == '\n' { '\n' } else { ' ' }, wide: false }
        },
        Lex::LineComment => if c == '\n' {
            Step { state: Lex::Normal, first: ' ', wide: false }
        } else {
            Step { state: Lex::LineComment, first: ' ', wide: false }
        },
        Lex::BlockComment => if c == '*' && next == Some('/') {
            Step { state: Lex::Normal, first: ' ', wide: true }
        } else {
            Step { state: Lex::BlockComment, first: if c == '\n' { '\n' } else { ' ' }, wide: false }
        },
    }
}

/// The character at position `i`, if there is one.
pub open spec fn char_at(s: Seq<char>, i: int) -> Option<char> {
    if 0 <= i < s.len() {
        Some(s[i])
    } else {
        None
    }
}

/// The skeleton of `s` from position `i` on, lexed from `state`, and the state at its end.
pub open spec fn strip_from(s: Seq<char>, i: int, state: Lex) -> (Seq<char>, Lex)
    decreases s.len() - i,
{
    if i < 0 || i >= s.len() {
        (Seq::empty(), state)
    } else {
        let step = step_of(state, s[i], char_at(s, i + 1));
        if step.wide {
            let rest = strip_from(s, i + 2, step.state);
            (seq![step.first, ' '] + rest.0, rest.1)
        } else {
            let rest = strip_from(s, i + 1, step.state);
            (seq![step.first] + rest.0, rest.1)
        }
    }
}

/// The skeleton of a statement: literals and comments blanked, positions kept.
pub open spec fn skeleton(s: Seq<char>) -> Seq<char> {
    strip_from(s, 0, Lex::Normal).0
}

/// The complaint about a literal or block comment that is still open at the end.
pub open spec fn open_errors(s: Seq<char>) -> Seq<Seq<char>> {
    match strip_from(s, 0, Lex::Normal).1 {
        Lex::Single => seq!["unterminated string literal"@],
        Lex::Double => seq!["unterminated quoted identifier"@],
        Lex::Backtick => seq!["unterminated backtick span"@],
        Lex::BlockComment => seq!["unterminated block comment"@],
        _ => Seq::empty(),
    }
}

fn step(state: Lex, c: char, next: Option<char>) -> (r: Step)
    ensures
        r == step_of(state, c, next),
{
    let dash = match next {
        Some(n) => n == '-',
        None => false,
    };
    let star = match next {
        Some(n) => n == '*',
        None => false,
    };
    let slash = match next {
        Some(n) => n == '/',
        None => false,
    };
    let quote = match next {
        Some(n) => n == '\'',
        None => false,
    };
    match state {
        Lex::Normal => if c == '\'' {
            Step { state: Lex::Single, first: ' ', wide: false }
        } else if c == '"' {
            Step { state: Lex::Double, first: ' ', wide: false }
        } else if c == '`' {
            Step { state: Lex::Backtick, first: ' ', wide: false }
        } else if c == '-' && dash {
            Step { state: Lex::LineComment, first: ' ', wide: true }
        } else if c == '/' && star {
            Step { state: Lex::BlockComment, first: ' ', wide: true }
        } else {
            Step { state: Lex::Normal, first: c, wide: false }
        },
        Lex::Single => if c == '\'' && quote {
            Step { state: Lex::Single, first: ' ', wide: true }
        } else if c == '\'' {
            Step { state: Lex::Normal, first: ' ', wide: false }
        } else {
            Step { state: Lex::Single, first: ' ', wide: false }
        },
        Lex::Double => if c == '\\' {
            Step { state: Lex::Double, first: ' ', wide: next.is_some() }
        } else if c == '"' {
            Step { state: Lex::Normal, first: ' ', wide: false }
        } else {
            Step { state: Lex::Double, first: ' ', wide: false }
        },
        Lex::Backtick => if c == '`' {
            Step { state: Lex::Normal, first: ' ', wide: false }
        } else {
            Step { state: Lex::Backtick, first: if c == '\n' { '\n' } else { ' ' }, wide: false }
        },
        Lex::LineComment => if c == '\n' {
            Step { state: Lex::Normal, first: ' ', wide: false }
        } else {
            Step { state: Lex::LineComment, first: ' ', wide: false }
        },
        Lex::BlockComment => if c == '*' && slash {
            Step { state: Lex::Normal, first: ' ', wide: true }
        } else {
            Step { state: Lex::BlockComment, first: if c == '\n' { '\n' } else { ' ' }, wide: false }
        },
    }
}

/// A wide step has a second character to consume.
proof fn lemma_wide_has_next(state: Lex, c: char, next: Option<char>)
    ensures
        step_of(state, c, next).wide ==> next is Some,
{
}

/// The skeleton of `sql`; a literal or block comment left open is reported in `errors`.
pub fn strip_literals_and_comments(sql: &str, errors: &mut Vec<String>) -> (out: String)
    ensures
        out@ == skeleton(sql@),
        text::texts(final(errors)@) == text::texts(old(errors)@) + open_errors(sql@),
{
    let chars = text::chars_of(sql);
    let mut out = String::new();
    let mut state = Lex::Normal;
    let mut i: usize = 0;
    while i < chars.len()
        invariant
            i <= chars.len(),
            chars@ == sql@,
            out@ + strip_from(sql@, i as int, state).0 == skeleton(sql@),
            strip_from(sql@, i as int, state).1 == strip_from(sql@, 0, Lex::Normal).1,
        decreases chars.len() - i,
    {
        let ghost before = out@;
        let next: Option<char> = if i + 1 < chars.len() {
            Some(chars[i + 1])
        } else {
            None
        };
        let s = step(state, chars[i], next);
        proof {
            lemma_wide_has_next(state, sql@[i as int], char_at(sql@, i + 1));
        }
        out.push(s.first);
        state = s.state;
        if s.wide {
            out.push(' ');
            i += 2;
            assert(before.push(s.first).push(' ') + strip_from(sql@, i as int, state).0 =~= before
                + (seq![s.first, ' '] + strip_from(sql@, i as int, state).0));
        } else {
            i += 1;
            assert(before.push(s.first) + strip_from(sql@, i as int, state).0 =~= before + (
            seq![s.first] + strip_from(sql@, i as int, state).0));
        }
    }
    assert(out@ =~= skeleton(sql@));
    match state {
        Lex::Single => text::note(errors, "unterminated string literal"),
        Lex::Double => text::note(errors, "unterminated quoted identifier"),
        Lex::Backtick => text::note(errors, "unterminated backtick span"),
        Lex::BlockComment => text::note(errors, "unterminated block comment"),
        _ => {},
    }
    assert(text::texts(errors@) =~= text::texts(old(errors)@) + open_errors(sql@));
    out
}

// ---------------------------------------------------------------------------
// Delimiters
// ---------------------------------------------------------------------------

pub open spec fn is_opening(c: char) -> bool {
    c == '(' || c == '[' || c == '{'
}

pub open spec fn is_closing(c: char) -> bool {
    c == ')' || c == ']' || c == '}'
}

/// The opening delimiter that `c` closes.
pub open spec fn opening_of(c: char) -> char {
    if c == ')' {
        '('
    } else if c == ']' {
        '['
    } else {
        '{'
    }
}

pub open spec fn mismatch_text(open: char, c: char) -> Seq<char> {
    "mismatched delimiters: `"@ + seq![open] + "` closed by `"@ + seq![c] + "`"@
}

pub open spec fn unmatched_text(c: char) -> Seq<char> {
    "unmatched closing `"@ + seq![c] + "`"@
}

pub open spec fn unclosed_text(c: char) -> Seq<char> {
    "unclosed `"@ + seq![c] + "`"@
}

/// The complaints of a left-to-right scan of the first `n` characters, and the delimiters
/// that are open after it, outermost first.
pub open spec fn balance_scan(s: Seq<char>, n: int) -> (Seq<Seq<char>>, Seq<char>)
    decreases n,
{
    if n <= 0 {
        (Seq::empty(), Seq::empty())
    } else {
        let (errors, stack) = balance_scan(s, n - 1);
        let c = s[n - 1];
        if is_opening(c) {
            (errors, stack.push(c))
        } else if is_closing(c) {
            if stack.len() == 0 {
                (errors.push(unmatched_text(c)), stack)
            } else if stack.last() == opening_of(c) {
                (errors, stack.drop_last())
            } else {
                (errors.push(mismatch_text(stack.last(), c)), stack.drop_last())
            }
        } else {
            (errors, stack)
        }
    }
}

/// All complaints about the delimiters of `s`.
pub open spec fn balance_errors(s: Seq<char>) -> Seq<Seq<char>> {
    let (errors, stack) = balance_scan(s, s.len() as int);
    errors + Seq::new(stack.len(), |i: int| unclosed_text(stack[i]))
}

/// Report unmatched, mismatched and unclosed delimiters.
pub fn check_balance(cleaned: &str, errors: &mut Vec<String>)
    ensures
        text::texts(final(errors)@) == text::texts(old(errors)@) + balance_errors(cleaned@),
{
    let chars = text::chars_of(cleaned);
    let mut stack: Vec<char> = Vec::new();
    let ghost start = text::texts(errors@);
    for i in 0..chars.len()
        invariant
            chars@ == cleaned@,
            stack@ == balance_scan(cleaned@, i as int).1,
            text::texts(errors@) == start + balance_scan(cleaned@, i as int).0,
    {
        let c = chars[i];
        let ghost so_far = balance_scan(cleaned@, i as int).0;
        if c == '(' || c == '[' || c == '{' {
            stack.push(c);
        } else if c == ')' || c == ']' || c == '}' {
            let want = if c == ')' {
                '('
            } else if c == ']' {
                '['
            } else {
                '{'
            };
            match stack.pop() {
                Some(open) => {
                    if open != want {
                        let mut msg = String::new();
                        msg.append("mismatched delimiters: `");
                        msg.push(open);
                        msg.append("` closed by `");
                        msg.push(c);
                        msg.append("`");
                        assert(msg@ =~= mismatch_text(open, c));
                        text::note(errors, msg.as_str());
                        assert(start + so_far.push(msg@) =~= (start + so_far).push(msg@));
                    }
                },
                None => {
                    let mut msg = String::new();
                    msg.append("unmatched closing `");
                    msg.push(c);
                    msg.append("`");
                    assert(msg@ =~= unmatched_text(c));
                    text::note(errors, msg.as_str());
                    assert(start + so_far.push(msg@) =~= (start + so_far).push(msg@));
                },
            }
        }
        assert(text::texts(errors@) =~= start + balance_scan(cleaned@, i + 1).0);
        assert(stack@ =~= balance_scan(cleaned@, i + 1).1);
    }
    let ghost scanned = balance_scan(cleaned@, cleaned@.len() as int).0;
    let ghost tail = Seq::new(stack@.len(), |k: int| unclosed_text(stack@[k]));
    for i in 0..stack.len()
        invariant
            tail == Seq::new(stack@.len(), |k: int| unclosed_text(stack@[k])),
            text::texts(errors@) == start + scanned + tail.take(i as int),
    {
        let mut msg = String::new();
        msg.append("unclosed `");
        msg.push(stack[i]);
        msg.append("`");
        assert(msg@ =~= unclosed_text(stack@[i as int]));
        text::note(errors, msg.as_str());
        assert(text::texts(errors@) =~= start + scanned + tail.take(i + 1));
    }
    assert(text::texts(errors@) =~= start + balance_errors(cleaned@));
}

// ---------------------------------------------------------------------------
// Words
// ---------------------------------------------------------------------------

/// The end of the run of word characters that starts at `i`.
pub open spec fn run_end(s: Seq<char>, i: int) -> int
    decreases s.len() - i,
{
    if 0 <= i < s.len() && text::is_word(s[i]) {
        run_end(s, i + 1)
    } else {
        i
    }
}

/// The upper-cased words of `s` from position `i` on.
pub open spec fn words_from(s: Seq<char>, i: int) -> Seq<Seq<char>>
    decreases s.len() - i, 1int,
{
    if i < 0 || i >= s.len() {
        Seq::empty()
    } else if !text::is_word(s[i]) {
        words_from(s, i + 1)
    } else {
        word_then_rest(s, i, i + 1)
    }
}

/// The word that starts at `i` and reaches at least to `j`, then the words behind it.
pub open spec fn word_then_rest(s: Seq<char>, i: int, j: int) -> Seq<Seq<char>>
    decreases s.len() - j, 2int,
{
    if 0 <= j < s.len() && text::is_word(s[j]) {
        word_then_rest(s, i, j + 1)
    } else {
        seq![text::uppered(s.subrange(i, j))] + words_from(s, j)
    }
}

/// The words of `s`: its maximal runs of word characters, upper-cased, in order.
pub open spec fn words_of(s: Seq<char>) -> Seq<Seq<char>> {
    words_from(s, 0)
}

/// Words (upper-cased) of a skeleton, in order.
pub fn words(cleaned: &str) -> (out: Vec<String>)
    ensures
        text::texts(out@) == words_of(cleaned@),
{
    let chars = text::chars_of(cleaned);
    let mut out: Vec<String> = Vec::new();
    let mut i: usize = 0;
    while i < chars.len()
        invariant
            i <= chars.len(),
            chars@ == cleaned@,
            text::texts(out@) + words_from(cleaned@, i as int) == words_of(cleaned@),
        decreases chars.len() - i,
    {
        if !text::word(chars[i]) {
            i += 1;
        } else {
            let mut j: usize = i + 1;
            while j < chars.len() && text::word(chars[j])
                invariant
                    i < j <= chars.len(),
                    chars@ == cleaned@,
                    word_then_rest(cleaned@, i as int, j as int) == words_from(cleaned@, i as int),
                decreases chars.len() - j,
            {
                j += 1;
            }
            let ghost before = text::texts(out@);
            let raw = text::text_of(&chars, i, j);
            let up = text::upper_text(raw.as_str());
            text::note(&mut out, up.as_str());
            assert(before + (seq![up@] + words_from(cleaned@, j as int)) =~= before.push(up@)
                + words_from(cleaned@, j as int));
            i = j;
        }
    }
    assert(text::texts(out@) =~= words_of(cleaned@));
    out
}

/// The first position of `kw` in `w` at or after `from`.
pub open spec fn position_from(w: Seq<Seq<char>>, kw: Seq<char>, from: int) -> Option<int>
    decreases w.len() - from,
{
    if from < 0 || from >= w.len() {
        None
    } else if w[from] == kw {
        Some(from)
    } else {
        position_from(w, kw, from + 1)
    }
}

/// The first position of `kw` in `w`.
pub open spec fn position(w: Seq<Seq<char>>, kw: Seq<char>) -> Option<int> {
    position_from(w, kw, 0)
}

/// The word at position `i`, if there is one.
pub open spec fn word_at(w: Seq<Seq<char>>, i: int) -> Option<Seq<char>> {
    if 0 <= i < w.len() {
        Some(w[i])
    } else {
        None
    }
}

fn find(w: &Vec<String>, kw: &str) -> (r: Option<usize>)
    ensures
        match r {
            Some(i) => i < w.len() && position(text::texts(w@), kw@) == Some(i as int),
            None => position(text::texts(w@), kw@) is None,
        },
{
    let mut i: usize = 0;
    while i < w.len()
        invariant
            i <= w.len(),
            position_from(text::texts(w@), kw@, i as int) == position(text::texts(w@), kw@),
        decreases w.len() - i,
    {
        if text::same(w[i].as_str(), kw) {
            return Some(i);
        }
        i += 1;
    }
    None
}

fn word_is(w: &Vec<String>, i: usize, kw: &str) -> (r: bool)
    ensures
        r == (word_at(text::texts(w@), i as int) == Some(kw@)),
{
    if i < w.len() {
        text::same(w[i].as_str(), kw)
    } else {
        false
    }
}

// ---------------------------------------------------------------------------
// Statement checks
// ---------------------------------------------------------------------------

/// `s` without its trailing white space.
pub open spec fn trim_end(s: Seq<char>) -> Seq<char>
    decreases s.len(),
{
    if s.len() > 0 && text::is_space(s.last()) {
        trim_end(s.drop_last())
    } else {
        s
    }
}

/// The skeleton without trailing white space and without one closing `;`.
pub open spec fn statement_body(s: Seq<char>) -> Seq<char> {
    let t = trim_end(s);
    if t.len() > 0 && t.last() == ';' {
        t.drop_last()
    } else {
        t
    }
}

/// One complaint when `cond` holds, none otherwise.
pub open spec fn when(cond: bool, msg: Seq<char>) -> Seq<Seq<char>> {
    if cond {
        seq![msg]
    } else {
        Seq::empty()
    }
}

/// The complaint about an interior `;`.
pub open spec fn script_errors(s: Seq<char>) -> Seq<Seq<char>> {
    when(
        statement_body(s).contains(';'),
        "multiple statements — pass one statement per sql! (split the script or leave it a plain literal)"@,
    )
}

/// One statement per literal: an interior `;` means a pasted script; one trailing `;` is fine.
pub fn check_single_statement(cleaned: &str, errors: &mut Vec<String>)
    ensures
        text::texts(final(errors)@) == text::texts(old(errors)@) + script_errors(cleaned@),
{
    let chars = text::chars_of(cleaned);
    let mut end: usize = chars.len();
    assert(cleaned@.take(end as int) =~= cleaned@);
    while end > 0 && text::space(chars[end - 1])
        invariant
            end <= chars.len(),
            chars@ == cleaned@,
            trim_end(cleaned@.take(end as int)) == trim_end(cleaned@),
        decreases end,
    {
        assert(cleaned@.take(end as int).drop_last() =~= cleaned@.take(end - 1));
        end -= 1;
    }
    assert(trim_end(cleaned@) =~= cleaned@.take(end as int));
    if end > 0 && chars[end - 1] == ';' {
        end -= 1;
    }
    let ghost body = statement_body(cleaned@);
    assert(body =~= cleaned@.take(end as int));
    let mut found = false;
    for i in 0..end
        invariant
            end <= chars.len(),
            chars@ == cleaned@,
            body == cleaned@.take(end as int),
            found == body.take(i as int).contains(';'),
    {
        let ghost prefix = body.take(i + 1);
        assert(prefix.drop_last() =~= body.take(i as int));
        assert(prefix.last() == chars@[i as int]);
        proof {
            if found {
                let k = choose|k: int| 0 <= k < i && body.take(i as int)[k] == ';';
                assert(prefix[k] == ';');
            }
            if prefix.contains(';') {
                let k = choose|k: int| 0 <= k < i + 1 && prefix[k] == ';';
                if k < i {
                    assert(body.take(i as int)[k] == ';');
                }
            }
            assert(prefix[i as int] == chars@[i as int]);
        }
        if chars[i] == ';' {
            found = true;
        }
    }
    assert(body.take(end as int) =~= body);
    if found {
        text::note(
            errors,
            "multiple statements — pass one statement per sql! (split the script or leave it a plain literal)",
        );
    }
    assert(text::texts(errors@) =~= text::texts(old(errors)@) + script_errors(cleaned@));
}

/// The smaller of two positions.
pub open spec fn earlier(a: Option<int>, b: Option<int>) -> Option<int> {
    match (a, b) {
        (Some(x), Some(y)) => if x <= y {
            Some(x)
        } else {
            Some(y)
        },
        (Some(x), None) => Some(x),
        (None, _) => b,
    }
}

/// Complaints about where `UPSERT` stands relative to `SET` and `WHERE`.
pub open spec fn upsert_errors(set: int, upsert: Option<int>, wher: Option<int>) -> Seq<
    Seq<char>,
> {
    match upsert {
        None => Seq::empty(),
        Some(u) => when(
            u < set,
            "UPSERT before SET — ArcadeDB order is UPDATE … SET … UPSERT WHERE …"@,
        ) + match wher {
            Some(wh) => when(
                u >= wh,
                "UPSERT after WHERE — ArcadeDB order is UPDATE … SET … UPSERT WHERE …"@,
            ),
            None => seq![
                "UPSERT without WHERE — an unconditional UPSERT would upsert every row"@,
            ],
        },
    }
}

/// Complaints about the `RETURN` clause at position `ret`, followed by `after`.
pub open spec fn return_errors(
    set: int,
    upsert: Option<int>,
    ret: Option<int>,
    wher: Option<int>,
    after: Option<Seq<char>>,
) -> Seq<Seq<char>> {
    match ret {
        None => Seq::empty(),
        Some(r) => when(
            after != Some("BEFORE"@) && after != Some("AFTER"@),
            "RETURN must be followed by BEFORE or AFTER"@,
        ) + when(
            upsert is None,
            "RETURN without UPSERT — RETURN BEFORE|AFTER belongs to the UPSERT shape (`… UPSERT RETURN AFTER WHERE …`)"@,
        ) + when(
            r < set,
            "RETURN before SET — ArcadeDB order is … UPSERT RETURN AFTER WHERE …"@,
        ) + when(
            upsert is Some && r < upsert->0,
            "RETURN before UPSERT — ArcadeDB order is … UPSERT RETURN AFTER WHERE …"@,
        ) + match wher {
            Some(wh) => when(
                r >= wh,
                "RETURN AFTER at the end — it sits BETWEEN UPSERT and WHERE (`… UPSERT RETURN AFTER WHERE …`)"@,
            ),
            None => seq!["RETURN without WHERE — the RETURN clause needs its predicate"@],
        },
    }
}

/// Complaints about an `UPDATE` of `len` words whose first `SET` stands at `set`.
pub open spec fn clause_errors(
    len: int,
    set: int,
    upsert: Option<int>,
    ret: Option<int>,
    wher: Option<int>,
    after: Option<Seq<char>>,
) -> Seq<Seq<char>> {
    when(
        match earlier(earlier(upsert, ret), wher) {
            Some(next) => next == set + 1,
            None => len == set + 1,
        },
        "UPDATE with empty SET — no columns to write"@,
    ) + when(
        wher is Some && wher->0 < set,
        "WHERE before SET — ArcadeDB order is UPDATE … SET … WHERE …"@,
    ) + upsert_errors(set, upsert, wher) + return_errors(set, upsert, ret, wher, after)
}

/// Complaints about the clause order of an `UPDATE` with the words `w`.
pub open spec fn update_errors(w: Seq<Seq<char>>) -> Seq<Seq<char>> {
    let ret = position(w, "RETURN"@);
    match position(w, "SET"@) {
        None => seq!["UPDATE without SET — nothing to write"@],
        Some(set) => clause_errors(
            w.len() as int,
            set,
            position(w, "UPSERT"@),
            ret,
            position(w, "WHERE"@),
            match ret {
                Some(r) => word_at(w, r + 1),
                None => None,
            },
        ),
    }
}

fn note_when(cond: bool, msg: &str, errors: &mut Vec<String>)
    ensures
        text::texts(final(errors)@) == text::texts(old(errors)@) + when(cond, msg@),
{
    if cond {
        text::note(errors, msg);
    }
    assert(text::texts(errors@) =~= text::texts(old(errors)@) + when(cond, msg@));
}

fn min_position(a: Option<usize>, b: Option<usize>) -> (r: Option<usize>)
    ensures
        widen(r) == earlier(widen(a), widen(b)),
{
    match (a, b) {
        (Some(x), Some(y)) => if x <= y {
            Some(x)
        } else {
            Some(y)
        },
        (Some(x), None) => Some(x),
        (None, _) => b,
    }
}

fn check_upsert(set: usize, upsert: Option<usize>, wher: Option<usize>, errors: &mut Vec<String>)
    ensures
        text::texts(final(errors)@) == text::texts(old(errors)@) + upsert_errors(
            set as int,
            widen(upsert),
            widen(wher),
        ),
{
    if let Some(u) = upsert {
        note_when(
            u < set,
            "UPSERT before SET — ArcadeDB order is UPDATE … SET … UPSERT WHERE …",
            errors,
        );
        match wher {
            Some(wh) => note_when(
                u >= wh,
                "UPSERT after WHERE — ArcadeDB order is UPDATE … SET … UPSERT WHERE …",
                errors,
            ),
            None => text::note(
                errors,
                "UPSERT without WHERE — an unconditional UPSERT would upsert every row",
            ),
        }
    }
    assert(text::texts(errors@) =~= text::texts(old(errors)@) + upsert_errors(
        set as int,
        widen(upsert),
        widen(wher),
    ));
}

/// A machine-sized position as a mathematical one.
pub open spec fn widen(p: Option<usize>) -> Option<int> {
    match p {
        Some(i) => Some(i as int),
        None => None,
    }
}

fn check_return(
    set: usize,
    upsert: Option<usize>,
    r: usize,
    wher: Option<usize>,
    proper: bool,
    errors: &mut Vec<String>,
    Ghost(after): Ghost<Option<Seq<char>>>,
)
    requires
        proper == (after == Some("BEFORE"@) || after == Some("AFTER"@)),
    ensures
        text::texts(final(errors)@) == text::texts(old(errors)@) + return_errors(
            set as int,
            widen(upsert),
            Some(r as int),
            widen(wher),
            after,
        ),
{
    note_when(!proper, "RETURN must be followed by BEFORE or AFTER", errors);
    note_when(
        upsert.is_none(),
        "RETURN without UPSERT — RETURN BEFORE|AFTER belongs to the UPSERT shape (`… UPSERT RETURN AFTER WHERE …`)",
        errors,
    );
    note_when(
        r < set,
        "RETURN before SET — ArcadeDB order is … UPSERT RETURN AFTER WHERE …",
        errors,
    );
    let early = match upsert {
        Some(u) => r < u,
        None => false,
    };
    note_when(
        early,
        "RETURN before UPSERT — ArcadeDB order is … UPSERT RETURN AFTER WHERE …",
        errors,
    );
    match wher {
        Some(wh) => note_when(
            r >= wh,
            "RETURN AFTER at the end — it sits BETWEEN UPSERT and WHERE (`… UPSERT RETURN AFTER WHERE …`)",
            errors,
        ),
        None => text::note(
            errors,
            "RETURN without WHERE — the RETURN clause needs its predicate",
        ),
    }
    assert(text::texts(errors@) =~= text::texts(old(errors)@) + return_errors(
        set as int,
        widen(upsert),
        Some(r as int),
        widen(wher),
        after,
    ));
}

proof fn lemma_regroup(
    t: Seq<Seq<char>>,
    a: Seq<Seq<char>>,
    b: Seq<Seq<char>>,
    c: Seq<Seq<char>>,
    d: Seq<Seq<char>>,
)
    ensures
        t + a + b + c + d == t + (a + b + c + d),
        t + Seq::<Seq<char>>::empty() == t,
{
    assert(t + a + b + c + d =~= t + (a + b + c + d));
    assert(t + Seq::<Seq<char>>::empty() =~= t);
}

fn check_clauses(
    len: usize,
    set: usize,
    upsert: Option<usize>,
    ret: Option<usize>,
    wher: Option<usize>,
    proper: bool,
    errors: &mut Vec<String>,
    Ghost(after): Ghost<Option<Seq<char>>>,
)
    requires
        set < len,
        proper == (after == Some("BEFORE"@) || after == Some("AFTER"@)),
    ensures
        text::texts(final(errors)@) == text::texts(old(errors)@) + clause_errors(
            len as int,
            set as int,
            widen(upsert),
            widen(ret),
            widen(wher),
            after,
        ),
{
    let ghost t0 = text::texts(errors@);
    let bare = match min_position(min_position(upsert, ret), wher) {
        Some(n) => n == set + 1,
        None => len == set + 1,
    };
    note_when(bare, "UPDATE with empty SET — no columns to write", errors);
    let early = match wher {
        Some(wh) => wh < set,
        None => false,
    };
    note_when(early, "WHERE before SET — ArcadeDB order is UPDATE … SET … WHERE …", errors);
    check_upsert(set, upsert, wher, errors);
    let ghost t3 = text::texts(errors@);
    if let Some(r) = ret {
        check_return(set, upsert, r, wher, proper, errors, Ghost(after));
    }
    proof {
        let e1 = when(bare, "UPDATE with empty SET — no columns to write"@);
        let e2 = when(early, "WHERE before SET — ArcadeDB order is UPDATE … SET … WHERE …"@);
        let e3 = upsert_errors(set as int, widen(upsert), widen(wher));
        let e4 = return_errors(set as int, widen(upsert), widen(ret), widen(wher), after);
        lemma_regroup(t0, e1, e2, e3, e4);
        lemma_regroup(t3, e1, e2, e3, e4);
    }
}

/// ArcadeDB clause order: `UPDATE … SET … [UPSERT] [RETURN BEFORE|AFTER] WHERE …`.
pub fn check_update_order(w: &Vec<String>, errors: &mut Vec<String>)
    ensures
        text::texts(final(errors)@) == text::texts(old(errors)@) + update_errors(text::texts(w@)),
{
    let ghost all = text::texts(w@);
    let upsert = find(w, "UPSERT");
    let ret = find(w, "RETURN");
    let wher = find(w, "WHERE");
    match find(w, "SET") {
        None => {
            text::note(errors, "UPDATE without SET — nothing to write");
            assert(text::texts(errors@) =~= text::texts(old(errors)@) + update_errors(all));
        },
        Some(set) => {
            let proper = match ret {
                Some(r) => word_is(w, r + 1, "BEFORE") || word_is(w, r + 1, "AFTER"),
                None => false,
            };
            let ghost after = match ret {
                Some(r) => word_at(all, r + 1),
                None => None,
            };
            check_clauses(w.len(), set, upsert, ret, wher, proper, errors, Ghost(after));
        },
    }
}

/// The complaint about a `DELETE` with the words `w`.
pub open spec fn delete_errors(w: Seq<Seq<char>>) -> Seq<Seq<char>> {
    when(
        !w.contains("WHERE"@),
        "DELETE without WHERE — this wipes the whole type; leave it a plain literal if that is really intended"@,
    )
}

/// A `DELETE` without `WHERE` wipes the type.
pub fn check_delete(w: &Vec<String>, errors: &mut Vec<String>)
    ensures
        text::texts(final(errors)@) == text::texts(old(errors)@) + delete_errors(text::texts(w@)),
{
    note_when(
        !text::holds(w, "WHERE"),
        "DELETE without WHERE — this wipes the whole type; leave it a plain literal if that is really intended",
        errors,
    );
}

/// The complaint about an `INSERT` with the words `w`.
pub open spec fn insert_errors(w: Seq<Seq<char>>) -> Seq<Seq<char>> {
    when(
        word_at(w, 1) != Some("INTO"@),
        "INSERT must be followed by INTO (`INSERT INTO …`)"@,
    )
}

/// `INSERT` always names its target (`INSERT INTO …`).
pub fn check_insert(w: &Vec<String>, errors: &mut Vec<String>)
    ensures
        text::texts(final(errors)@) == text::texts(old(errors)@) + insert_errors(text::texts(w@)),
{
    note_when(
        !word_is(w, 1, "INTO"),
        "INSERT must be followed by INTO (`INSERT INTO …`)",
        errors,
    );
}

/// The complaint about a `CREATE EDGE` with the words `w`; `CREATE EDGE TYPE` declares a
/// type and needs no endpoints.
pub open spec fn create_edge_errors(w: Seq<Seq<char>>) -> Seq<Seq<char>> {
    if word_at(w, 2) == Some("TYPE"@) {
        Seq::empty()
    } else if position(w, "FROM"@) is None {
        seq![
            "CREATE EDGE without FROM — edges need both endpoints (`CREATE EDGE … FROM … TO …`)"@,
        ]
    } else {
        when(
            position(w, "TO"@) is None,
            "CREATE EDGE without TO — edges need both endpoints (`CREATE EDGE … FROM … TO …`)"@,
        )
    }
}

/// `CREATE EDGE … FROM … TO …` needs both endpoints.
pub fn check_create_edge(w: &Vec<String>, errors: &mut Vec<String>)
    ensures
        text::texts(final(errors)@) == text::texts(old(errors)@) + create_edge_errors(
            text::texts(w@),
        ),
{
    if !word_is(w, 2, "TYPE") {
        let from = find(w, "FROM");
        let to = find(w, "TO");
        if from.is_none() {
            text::note(
                errors,
                "CREATE EDGE without FROM — edges need both endpoints (`CREATE EDGE … FROM … TO …`)",
            );
        } else {
            note_when(
                to.is_none(),
                "CREATE EDGE without TO — edges need both endpoints (`CREATE EDGE … FROM … TO …`)",
                errors,
            );
        }
    }
    assert(text::texts(errors@) =~= text::texts(old(errors)@) + create_edge_errors(
        text::texts(w@),
    ));
}

// ---------------------------------------------------------------------------
// Placeholders
// ---------------------------------------------------------------------------

/// A placeholder `:name` starts at position `p` of a skeleton: a colon that is not part of
/// a `::` cast, followed by an identifier.
pub open spec fn placeholder_at(s: Seq<char>, p: int) -> bool {
    &&& 0 <= p && p + 1 < s.len()
    &&& s[p] == ':'
    &&& text::is_word_start(s[p + 1])
    &&& !(p > 0 && s[p - 1] == ':')
}

/// The name of the placeholder at position `p`.
pub open spec fn name_at(s: Seq<char>, p: int) -> Seq<char> {
    s.subrange(p + 1, run_end(s, p + 1))
}

/// The distinct placeholder names of a skeleton that start before `n`, by first occurrence.
pub open spec fn names_before(s: Seq<char>, n: int) -> Seq<Seq<char>>
    decreases n,
{
    if n <= 0 {
        Seq::empty()
    } else {
        let earlier = names_before(s, n - 1);
        if placeholder_at(s, n - 1) && !earlier.contains(name_at(s, n - 1)) {
            earlier.push(name_at(s, n - 1))
        } else {
            earlier
        }
    }
}

/// The distinct placeholder names of a statement, by first occurrence.
pub open spec fn placeholder_names(sql: Seq<char>) -> Seq<Seq<char>> {
    names_before(skeleton(sql), skeleton(sql).len() as int)
}

/// The names of all placeholders of a skeleton that start before `n`, in order, with
/// repetition.
pub open spec fn occurrences_before(s: Seq<char>, n: int) -> Seq<Seq<char>>
    decreases n,
{
    if n <= 0 {
        Seq::empty()
    } else if placeholder_at(s, n - 1) {
        occurrences_before(s, n - 1).push(name_at(s, n - 1))
    } else {
        occurrences_before(s, n - 1)
    }
}

/// The names of all placeholders of a statement, in order, with repetition.
pub open spec fn placeholder_occurrences(sql: Seq<char>) -> Seq<Seq<char>> {
    occurrences_before(skeleton(sql), skeleton(sql).len() as int)
}

/// No placeholder starts on a character that is no colon.
proof fn lemma_no_names_between(s: Seq<char>, i: int, j: int)
    requires
        0 <= i <= j <= s.len(),
        forall|k: int| i <= k < j ==> s[k] != ':',
    ensures
        names_before(s, j) == names_before(s, i),
    decreases j - i,
{
    if i < j {
        lemma_no_names_between(s, i, j - 1);
    }
}

/// Placeholder names (`:name`) outside literals and comments, without repetition.
pub fn placeholders(sql: &str) -> (out: Vec<String>)
    ensures
        text::texts(out@) == placeholder_names(sql@),
{
    let mut discard: Vec<String> = Vec::new();
    let cleaned = strip_literals_and_comments(sql, &mut discard);
    let chars = text::chars_of(cleaned.as_str());
    let ghost s = skeleton(sql@);
    let mut out: Vec<String> = Vec::new();
    assert(text::texts(out@) =~= names_before(s, 0));
    let mut i: usize = 0;
    while i < chars.len()
        invariant
            i <= chars.len(),
            chars@ == s,
            text::texts(out@) == names_before(s, i as int),
        decreases chars.len() - i,
    {
        if chars[i] == ':' {
            let mut j: usize = i + 1;
            while j < chars.len() && text::word(chars[j])
                invariant
                    i < j <= chars.len(),
                    chars@ == s,
                    run_end(s, j as int) == run_end(s, i + 1),
                    forall|k: int| i < k < j ==> text::is_word(s[k]),
                decreases chars.len() - j,
            {
                j += 1;
            }
            let after_colon = i > 0 && chars[i - 1] == ':';
            let starts = j > i + 1 && text::word_start(chars[i + 1]);
            assert(placeholder_at(s, i as int) == (starts && !after_colon));
            if starts && !after_colon {
                let name = text::text_of(&chars, i + 1, j);
                if !text::holds(&out, name.as_str()) {
                    text::note(&mut out, name.as_str());
                }
            }
            assert(text::texts(out@) == names_before(s, i + 1));
            proof {
                lemma_no_names_between(s, i + 1, j as int);
            }
            i = j;
        } else {
            i += 1;
        }
    }
    out
}

/// Names that the statement lexer takes for keywords.
pub open spec fn is_reserved(w: Seq<char>) -> bool {
    ||| w == "AFTER"@
    ||| w == "BEFORE"@
    ||| w == "WHERE"@
    ||| w == "UPSERT"@
    ||| w == "RETURN"@
    ||| w == "SET"@
    ||| w == "UPDATE"@
    ||| w == "SELECT"@
    ||| w == "FROM"@
    ||| w == "AS"@
    ||| w == "AND"@
    ||| w == "OR"@
    ||| w == "NOT"@
    ||| w == "NULL"@
    ||| w == "TRUE"@
    ||| w == "FALSE"@
    ||| w == "LIKE"@
    ||| w == "ILIKE"@
    ||| w == "IN"@
    ||| w == "CONTAINS"@
    ||| w == "CONTAINSALL"@
    ||| w == "CONTAINSANY"@
    ||| w == "BETWEEN"@
    ||| w == "IS"@
    ||| w == "LET"@
    ||| w == "TRAVERSE"@
    ||| w == "MATCH"@
    ||| w == "INSERT"@
    ||| w == "DELETE"@
    ||| w == "CREATE"@
    ||| w == "ORDER"@
    ||| w == "BY"@
    ||| w == "GROUP"@
    ||| w == "ASC"@
    ||| w == "DESC"@
}

fn reserved(w: &str) -> (r: bool)
    ensures
        r == is_reserved(w@),
{
    text::same(w, "AFTER")
        || text::same(w, "BEFORE")
        || text::same(w, "WHERE")
        || text::same(w, "UPSERT")
        || text::same(w, "RETURN")
        || text::same(w, "SET")
        || text::same(w, "UPDATE")
        || text::same(w, "SELECT")
        || text::same(w, "FROM")
        || text::same(w, "AS")
        || text::same(w, "AND")
        || text::same(w, "OR")
        || text::same(w, "NOT")
        || text::same(w, "NULL")
        || text::same(w, "TRUE")
        || text::same(w, "FALSE")
        || text::same(w, "LIKE")
        || text::same(w, "ILIKE")
        || text::same(w, "IN")
        || text::same(w, "CONTAINS")
        || text::same(w, "CONTAINSALL")
        || text::same(w, "CONTAINSANY")
        || text::same(w, "BETWEEN")
        || text::same(w, "IS")
        || text::same(w, "LET")
        || text::same(w, "TRAVERSE")
        || text::same(w, "MATCH")
        || text::same(w, "INSERT")
        || text::same(w, "DELETE")
        || text::same(w, "CREATE")
        || text::same(w, "ORDER")
        || text::same(w, "BY")
        || text::same(w, "GROUP")
        || text::same(w, "ASC")
        || text::same(w, "DESC")
}

pub open spec fn reserved_text(name: Seq<char>) -> Seq<char> {
    "placeholder `:"@ + name
        + "` collides with a reserved keyword and fails to parse — rename it (e.g. `:"@ + name
        + "_v`)"@
}

/// One complaint per name among `names` that is a keyword in any letter case.
pub open spec fn reserved_errors(names: Seq<Seq<char>>) -> Seq<Seq<char>>
    decreases names.len(),
{
    if names.len() == 0 {
        Seq::empty()
    } else {
        reserved_errors(names.drop_last()) + when(
            is_reserved(text::uppered(names.last())),
            reserved_text(names.last()),
        )
    }
}

/// Report placeholder names that collide with the statement lexer.
pub fn check_reserved_placeholders(sql: &str, errors: &mut Vec<String>)
    ensures
        text::texts(final(errors)@) == text::texts(old(errors)@) + reserved_errors(
            placeholder_names(sql@),
        ),
{
    let names = placeholders(sql);
    let ghost all = text::texts(names@);
    let ghost start = text::texts(errors@);
    assert(start + reserved_errors(all.take(0)) =~= start);
    for i in 0..names.len()
        invariant
            all == text::texts(names@),
            text::texts(errors@) == start + reserved_errors(all.take(i as int)),
    {
        let name = names[i].as_str();
        let ghost before = text::texts(errors@);
        assert(all.take(i + 1).drop_last() =~= all.take(i as int));
        assert(all.take(i + 1).last() == name@);
        let up = text::upper_text(name);
        if reserved(up.as_str()) {
            let mut msg = String::new();
            msg.append("placeholder `:");
            msg.append(name);
            msg.append(
                "` collides with a reserved keyword and fails to parse — rename it (e.g. `:",
            );
            msg.append(name);
            msg.append("_v`)");
            assert(msg@ =~= reserved_text(name@));
            text::note(errors, msg.as_str());
        }
        assert(text::texts(errors@) =~= start + reserved_errors(all.take(i + 1)));
    }
    assert(all.take(all.len() as int) =~= all);
}

// ---------------------------------------------------------------------------
// Whole statements
// ---------------------------------------------------------------------------

/// `s` holds nothing but white space.
pub open spec fn is_blank(s: Seq<char>) -> bool {
    forall|i: int| 0 <= i < s.len() ==> text::is_space(#[trigger] s[i])
}

/// Complaints about the shape of a statement, chosen by its leading words.
pub open spec fn shape_errors(w: Seq<Seq<char>>) -> Seq<Seq<char>> {
    if word_at(w, 0) == Some("UPDATE"@) {
        update_errors(w)
    } else if word_at(w, 0) == Some("DELETE"@) {
        delete_errors(w)
    } else if word_at(w, 0) == Some("INSERT"@) {
        insert_errors(w)
    } else if word_at(w, 0) == Some("CREATE"@) && word_at(w, 1) == Some("EDGE"@) {
        create_edge_errors(w)
    } else {
        Seq::empty()
    }
}

/// All complaints about a statement, in reporting order.
pub open spec fn problems(sql: Seq<char>) -> Seq<Seq<char>> {
    if is_blank(sql) {
        seq!["empty SQL statement"@]
    } else {
        open_errors(sql) + balance_errors(skeleton(sql)) + script_errors(skeleton(sql))
            + shape_errors(words_of(skeleton(sql))) + reserved_errors(placeholder_names(sql))
    }
}

fn blank(sql: &str) -> (r: bool)
    ensures
        r == is_blank(sql@),
{
    let chars = text::chars_of(sql);
    for i in 0..chars.len()
        invariant
            chars@ == sql@,
            forall|k: int| 0 <= k < i ==> text::is_space(#[trigger] sql@[k]),
    {
        if !text::space(chars[i]) {
            assert(!text::is_space(sql@[i as int]));
            return false;
        }
    }
    true
}

fn check_shape(w: &Vec<String>, errors: &mut Vec<String>)
    ensures
        text::texts(final(errors)@) == text::texts(old(errors)@) + shape_errors(text::texts(w@)),
{
    if word_is(w, 0, "UPDATE") {
        check_update_order(w, errors);
    } else if word_is(w, 0, "DELETE") {
        check_delete(w, errors);
    } else if word_is(w, 0, "INSERT") {
        check_insert(w, errors);
    } else if word_is(w, 0, "CREATE") && word_is(w, 1, "EDGE") {
        check_create_edge(w, errors);
    } else {
        assert(text::texts(errors@) =~= text::texts(old(errors)@) + shape_errors(text::texts(w@)));
    }
}

/// All problems found in `sql`; empty means valid.
pub fn validate(sql: &str) -> (errors: Vec<String>)
    ensures
        text::texts(errors@) == problems(sql@),
{
    let mut errors: Vec<String> = Vec::new();
    if blank(sql) {
        text::note(&mut errors, "empty SQL statement");
        assert(text::texts(errors@) =~= problems(sql@));
        return errors;
    }
    let cleaned = strip_literals_and_comments(sql, &mut errors);
    check_balance(cleaned.as_str(), &mut errors);
    check_single_statement(cleaned.as_str(), &mut errors);
    let w = words(cleaned.as_str());
    check_shape(&w, &mut errors);
    check_reserved_placeholders(sql, &mut errors);
    proof {
        let none = Seq::<Seq<char>>::empty();
        assert(text::texts(Seq::<String>::empty()) =~= none);
        lemma_regroup(
            open_errors(sql@),
            balance_errors(cleaned@),
            script_errors(cleaned@),
            shape_errors(words_of(cleaned@)),
            reserved_errors(placeholder_names(sql@)),
        );
        assert(none + open_errors(sql@) =~= open_errors(sql@));
    }
    errors
}

/// A statement in its checked form: as it stands, or all its problems, one per line.
pub fn sql(statement: &str) -> (r: Result<&str, String>)
    ensures
        match r {
            Ok(s) => problems(statement@).len() == 0 && s@ == statement@,
            Err(e) => problems(statement@).len() > 0 && e@ == text::joined(
                problems(statement@),
                "\n"@,
            ),
        },
{
    let errors = validate(statement);
    assert(text::texts(errors@).len() == errors@.len());
    if errors.len() == 0 {
        Ok(statement)
    } else {
        Err(text::join(&errors, "\n"))
    }
}

// ---------------------------------------------------------------------------
// Laws
// ---------------------------------------------------------------------------

/// A skeleton has the length of its statement, and each of its characters is the one of the
/// statement at that position or a space.
pub proof fn law_skeleton_keeps_positions(s: Seq<char>)
    ensures
        skeleton(s).len() == s.len(),
        forall|k: int| 0 <= k < s.len() ==> (#[trigger] skeleton(s)[k] == s[k] || skeleton(s)[k] == ' '),
{
    lemma_strip_shape(s, 0, Lex::Normal);
}

pub proof fn lemma_strip_shape(s: Seq<char>, i: int, state: Lex)
    requires
        0 <= i <= s.len(),
    ensures
        strip_from(s, i, state).0.len() == s.len() - i,
        forall|k: int|
            0 <= k < s.len() - i ==> (#[trigger] strip_from(s, i, state).0[k] == s[i + k]
                || strip_from(s, i, state).0[k] == ' '),
    decreases s.len() - i,
{
    if i < s.len() {
        let step = step_of(state, s[i], char_at(s, i + 1));
        let out = strip_from(s, i, state).0;
        if step.wide {
            lemma_strip_shape(s, i + 2, step.state);
            let rest = strip_from(s, i + 2, step.state).0;
            assert forall|k: int| 0 <= k < s.len() - i implies (#[trigger] out[k] == s[i + k]
                || out[k] == ' ') by {
                if k >= 2 {
                    assert(out[k] == rest[k - 2]);
                }
            }
        } else {
            lemma_strip_shape(s, i + 1, step.state);
            let rest = strip_from(s, i + 1, step.state).0;
            assert forall|k: int| 0 <= k < s.len() - i implies (#[trigger] out[k] == s[i + k]
                || out[k] == ' ') by {
                if k >= 1 {
                    assert(out[k] == rest[k - 1]);
                }
            }
        }
    }
}

/// Nothing in `s` opens a literal or a comment.
pub open spec fn is_plain(s: Seq<char>) -> bool {
    forall|k: int|
        0 <= k < s.len() ==> {
            &&& #[trigger] s[k] != '\'' && s[k] != '"' && s[k] != '`'
            &&& !(s[k] == '-' && char_at(s, k + 1) == Some('-'))
            &&& !(s[k] == '/' && char_at(s, k + 1) == Some('*'))
        }
}

proof fn lemma_strip_is_plain(s: Seq<char>, i: int, state: Lex)
    requires
        0 <= i <= s.len(),
    ensures
        is_plain(strip_from(s, i, state).0),
    decreases s.len() - i,
{
    if i < s.len() {
        let step = step_of(state, s[i], char_at(s, i + 1));
        let out = strip_from(s, i, state).0;
        let w: int = if step.wide {
            2
        } else {
            1
        };
        lemma_wide_has_next(state, s[i], char_at(s, i + 1));
        lemma_strip_is_plain(s, i + w, step.state);
        lemma_strip_shape(s, i + w, step.state);
        let rest = strip_from(s, i + w, step.state).0;
        assert forall|k: int| 0 <= k < out.len() implies {
            &&& #[trigger] out[k] != '\'' && out[k] != '"' && out[k] != '`'
            &&& !(out[k] == '-' && char_at(out, k + 1) == Some('-'))
            &&& !(out[k] == '/' && char_at(out, k + 1) == Some('*'))
        } by {
            if k >= w {
                assert(out[k] == rest[k - w]);
                assert(char_at(out, k + 1) == char_at(rest, k - w + 1));
            } else if k == 0 && w == 1 && out.len() > 1 {
                assert(out[1] == rest[0]);
            }
        }
    }
}

/// Text that opens no literal and no comment is its own skeleton.
pub proof fn lemma_plain_is_kept(s: Seq<char>, i: int)
    requires
        is_plain(s),
        0 <= i <= s.len(),
    ensures
        strip_from(s, i, Lex::Normal) == (s.skip(i), Lex::Normal),
    decreases s.len() - i,
{
    if i < s.len() {
        lemma_plain_is_kept(s, i + 1);
        assert(seq![s[i]] + s.skip(i + 1) =~= s.skip(i));
    } else {
        assert(s.skip(i) =~= Seq::empty());
    }
}

/// Taking the skeleton of a skeleton changes nothing and finds nothing left open.
pub proof fn law_skeleton_is_stable(s: Seq<char>)
    ensures
        skeleton(skeleton(s)) == skeleton(s),
        open_errors(skeleton(s)) == Seq::<Seq<char>>::empty(),
{
    lemma_strip_is_plain(s, 0, Lex::Normal);
    lemma_plain_is_kept(skeleton(s), 0);
    assert(skeleton(s).skip(0) =~= skeleton(s));
}

/// Lexing `a`, which leaves nothing open, and then `t`, which starts with a single quote: the
/// quote is blanked and the lexer stands inside a string literal, also where the quote pairs
/// with one at the end of `a`.
proof fn lemma_strip_concat(a: Seq<char>, t: Seq<char>, i: int, state: Lex)
    requires
        0 <= i <= a.len(),
        t.len() > 0,
        t[0] == '\'',
        strip_from(a, i, state).1 is Normal,
    ensures
        strip_from(a + t, i, state).0 == strip_from(a, i, state).0 + (seq![' '] + strip_from(
            a + t,
            a.len() as int + 1,
            Lex::Single,
        ).0),
        strip_from(a + t, i, state).1 == strip_from(a + t, a.len() as int + 1, Lex::Single).1,
    decreases a.len() - i,
{
    let s = a + t;
    let tail = strip_from(s, a.len() as int + 1, Lex::Single).0;
    let none = Seq::<char>::empty();
    if i < a.len() {
        assert(s[i] == a[i]);
        if i + 1 < a.len() {
            assert(s[i + 1] == a[i + 1]);
        } else {
            assert(s[i + 1] == t[0]);
            assert(strip_from(a, i + 1, step_of(state, a[i], None).state).1 is Normal);
        }
        let step = step_of(state, s[i], char_at(s, i + 1));
        if i + 1 == a.len() && a[i] == '\'' && state is Single {
            assert(strip_from(a, i + 1, Lex::Normal).0 =~= none);
            assert(strip_from(a, i, state).0 =~= seq![' ']);
            assert(seq![' ', ' '] + tail =~= seq![' '] + (seq![' '] + tail));
        } else {
            assert(step == step_of(state, a[i], char_at(a, i + 1)));
            lemma_wide_has_next(state, a[i], char_at(a, i + 1));
            if step.wide {
                lemma_strip_concat(a, t, i + 2, step.state);
                assert(seq![step.first, ' '] + (strip_from(a, i + 2, step.state).0 + (seq![' ']
                    + tail)) =~= (seq![step.first, ' '] + strip_from(a, i + 2, step.state).0) + (
                seq![' '] + tail));
            } else {
                lemma_strip_concat(a, t, i + 1, step.state);
                assert(seq![step.first] + (strip_from(a, i + 1, step.state).0 + (seq![' ']
                    + tail)) =~= (seq![step.first] + strip_from(a, i + 1, step.state).0) + (
                seq![' '] + tail));
            }
        }
    } else {
        assert(s[i] == t[0]);
        assert(strip_from(a, i, state).0 =~= none);
        assert(none + (seq![' '] + tail) =~= seq![' '] + tail);
    }
}

/// The end of a lexer run does not depend on what lies before its start.
pub proof fn lemma_strip_suffix(s: Seq<char>, t: Seq<char>, i: int, j: int, state: Lex)
    requires
        0 <= i <= s.len(),
        0 <= j <= t.len(),
        s.skip(i) == t.skip(j),
    ensures
        strip_from(s, i, state) == strip_from(t, j, state),
    decreases s.len() - i,
{
    assert(s.skip(i).len() == s.len() - i && t.skip(j).len() == t.len() - j);
    if i < s.len() {
        assert(s.skip(i)[0] == s[i] && t.skip(j)[0] == t[j]);
        if i + 1 < s.len() {
            assert(s.skip(i)[1] == s[i + 1] && t.skip(j)[1] == t[j + 1]);
        }
        let step = step_of(state, s[i], char_at(s, i + 1));
        lemma_wide_has_next(state, s[i], char_at(s, i + 1));
        assert(s.skip(i + 1) =~= s.skip(i).skip(1));
        assert(t.skip(j + 1) =~= t.skip(j).skip(1));
        lemma_strip_suffix(s, t, i + 1, j + 1, step.state);
        if step.wide {
            assert(s.skip(i + 2) =~= s.skip(i).skip(2));
            assert(t.skip(j + 2) =~= t.skip(j).skip(2));
            lemma_strip_suffix(s, t, i + 2, j + 2, step.state);
        }
    }
}

/// The body of a string literal that holds no quote is blanked character by character.
proof fn lemma_strip_literal(s: Seq<char>, i: int, end: int)
    requires
        0 <= i <= end < s.len(),
        forall|k: int| i <= k < end ==> s[k] != '\'',
        s[end] == '\'',
    ensures
        strip_from(s, i, Lex::Single).0 == Seq::new((end - i) as nat, |k: int| ' ') + strip_from(
            s,
            end,
            Lex::Single,
        ).0,
        strip_from(s, i, Lex::Single).1 == strip_from(s, end, Lex::Single).1,
    decreases end - i,
{
    let tail = strip_from(s, end, Lex::Single).0;
    if i < end {
        lemma_strip_literal(s, i + 1, end);
        assert(seq![' '] + (Seq::new((end - i - 1) as nat, |k: int| ' ') + tail) =~= Seq::new(
            (end - i) as nat,
            |k: int| ' ',
        ) + tail);
    } else {
        assert(Seq::new(0nat, |k: int| ' ') + tail =~= tail);
    }
}

/// `a`, then the string literal with body `x`, then `b`.
pub open spec fn around(a: Seq<char>, x: Seq<char>, b: Seq<char>) -> Seq<char> {
    a + (seq!['\''] + x + seq!['\''] + b)
}

/// That many spaces.
pub open spec fn spaces(n: nat) -> Seq<char> {
    Seq::new(n, |k: int| ' ')
}

proof fn lemma_around(a: Seq<char>, x: Seq<char>, b: Seq<char>)
    requires
        strip_from(a, 0, Lex::Normal).1 is Normal,
        !x.contains('\''),
    ensures
        ({
            let s = around(a, x, b);
            let end = a.len() + 1 + x.len() as int;
            &&& skeleton(s) == skeleton(a).push(' ') + spaces(x.len()) + strip_from(
                s,
                end,
                Lex::Single,
            ).0
            &&& strip_from(s, 0, Lex::Normal).1 == strip_from(s, end, Lex::Single).1
        }),
{
    let t = seq!['\''] + x + seq!['\''] + b;
    let s = around(a, x, b);
    let n = a.len() as int;
    let end = n + 1 + x.len();
    lemma_strip_concat(a, t, 0, Lex::Normal);
    assert forall|k: int| n + 1 <= k < end implies s[k] != '\'' by {
        assert(s[k] == x[k - n - 1]);
    }
    assert(s[end] == '\'');
    lemma_strip_literal(s, n + 1, end);
    assert((end - (n + 1)) as nat == x.len());
    let tail = strip_from(s, end, Lex::Single).0;
    assert(skeleton(a) + (seq![' '] + (Seq::new(x.len(), |k: int| ' ') + tail)) =~= skeleton(
        a,
    ).push(' ') + spaces(x.len()) + tail);
}

/// A space behind a space changes no complaint about delimiters.
proof fn lemma_space_keeps_scan(p: Seq<char>, q: Seq<char>, n: int)
    requires
        0 <= n <= p.len() + q.len(),
    ensures
        n <= p.len() ==> balance_scan(p.push(' ') + q, n) == balance_scan(p + q, n),
        n >= p.len() ==> balance_scan(p.push(' ') + q, n + 1) == balance_scan(p + q, n),
    decreases n,
{
    let s = p + q;
    let t = p.push(' ') + q;
    if n > 0 {
        lemma_space_keeps_scan(p, q, n - 1);
        if n <= p.len() {
            assert(s[n - 1] == t[n - 1]);
        } else {
            assert(s[n - 1] == t[n]);
        }
    }
    if n == p.len() {
        assert(t[n] == ' ');
        assert(balance_scan(t, n + 1) == balance_scan(t, n));
    }
}

/// Trailing white space ends where the last other character stands.
proof fn lemma_trim_end(s: Seq<char>) -> (e: int)
    ensures
        0 <= e <= s.len(),
        trim_end(s) == s.take(e),
        e > 0 ==> !text::is_space(s[e - 1]),
        forall|k: int| e <= k < s.len() ==> text::is_space(#[trigger] s[k]),
    decreases s.len(),
{
    if s.len() > 0 && text::is_space(s.last()) {
        let e = lemma_trim_end(s.drop_last());
        assert(s.drop_last().take(e) =~= s.take(e));
        assert forall|k: int| e <= k < s.len() implies text::is_space(#[trigger] s[k]) by {
            if k < s.len() - 1 {
                assert(s.drop_last()[k] == s[k]);
            }
        }
        if e > 0 {
            assert(s.drop_last()[e - 1] == s[e - 1]);
        }
        e
    } else {
        assert(s.take(s.len() as int) =~= s);
        s.len() as int
    }
}

/// A semicolon stands before a character that is no white space.
pub open spec fn interior_semicolon(s: Seq<char>, i: int, j: int) -> bool {
    0 <= i < j < s.len() && s[i] == ';' && !text::is_space(s[j])
}

pub proof fn lemma_script(s: Seq<char>)
    ensures
        statement_body(s).contains(';') == exists|i: int, j: int| interior_semicolon(s, i, j),
{
    let e = lemma_trim_end(s);
    let body = statement_body(s);
    assert(!text::is_space(';'));
    let end = if e > 0 && s[e - 1] == ';' {
        e - 1
    } else {
        e
    };
    if e > 0 {
        assert(s.take(e).last() == s[e - 1]);
    }
    assert(body =~= s.take(end));
    if body.contains(';') {
        let i = choose|i: int| 0 <= i < body.len() && body[i] == ';';
        assert(s[i] == ';');
        assert(interior_semicolon(s, i, e - 1));
    }
    if exists|i: int, j: int| interior_semicolon(s, i, j) {
        let (i, j) = choose|i: int, j: int| interior_semicolon(s, i, j);
        assert(j < e);
        assert(body[i] == ';');
    }
}

/// A space changes nothing about interior semicolons.
proof fn lemma_space_keeps_script(p: Seq<char>, q: Seq<char>)
    ensures
        script_errors(p.push(' ') + q) == script_errors(p + q),
{
    let s = p + q;
    let t = p.push(' ') + q;
    let n = p.len() as int;
    lemma_script(s);
    lemma_script(t);
    assert(text::is_space(' '));
    if exists|i: int, j: int| interior_semicolon(s, i, j) {
        let (i, j) = choose|i: int, j: int| interior_semicolon(s, i, j);
        let i2 = if i < n {
            i
        } else {
            i + 1
        };
        let j2 = if j < n {
            j
        } else {
            j + 1
        };
        assert(t[i2] == s[i] && t[j2] == s[j]);
        assert(interior_semicolon(t, i2, j2));
    }
    if exists|i: int, j: int| interior_semicolon(t, i, j) {
        let (i, j) = choose|i: int, j: int| interior_semicolon(t, i, j);
        assert(t[n] == ' ');
        assert(i != n && j != n);
        let i2 = if i < n {
            i
        } else {
            i - 1
        };
        let j2 = if j < n {
            j
        } else {
            j - 1
        };
        assert(t[i] == s[i2] && t[j] == s[j2]);
        assert(interior_semicolon(s, i2, j2));
    }
}

/// Behind the inserted space, words are found one position later.
proof fn lemma_words_behind(p: Seq<char>, q: Seq<char>, i: int, j: int)
    requires
        p.len() <= i <= j <= p.len() + q.len(),
    ensures
        words_from(p.push(' ') + q, j + 1) == words_from(p + q, j),
        i < j ==> word_then_rest(p.push(' ') + q, i + 1, j + 1) == word_then_rest(p + q, i, j),
    decreases p.len() + q.len() - j,
{
    let s = p + q;
    let t = p.push(' ') + q;
    assert(t.len() == s.len() + 1);
    if j < s.len() {
        assert(t[j + 1] == s[j]);
        lemma_words_behind(p, q, i, j + 1);
        lemma_words_behind(p, q, j, j + 1);
    }
    assert(t.subrange(i + 1, j + 1) =~= s.subrange(i, j));
}

/// A space behind a space changes no word.
proof fn lemma_space_keeps_words(p: Seq<char>, q: Seq<char>, i: int, j: int)
    requires
        p.len() > 0,
        p.last() == ' ',
        0 <= i <= j <= p.len(),
        i < j ==> j < p.len(),
    ensures
        words_from(p.push(' ') + q, j) == words_from(p + q, j),
        i < j ==> word_then_rest(p.push(' ') + q, i, j) == word_then_rest(p + q, i, j),
    decreases p.len() - j,
{
    let s = p + q;
    let t = p.push(' ') + q;
    let n = p.len() as int;
    assert(!text::is_word(' '));
    if j < n {
        assert(t[j] == p[j] && s[j] == p[j]);
        if j + 1 < n {
            lemma_space_keeps_words(p, q, i, j + 1);
            lemma_space_keeps_words(p, q, j, j + 1);
        } else {
            lemma_space_keeps_words(p, q, j + 1, j + 1);
        }
        assert(t.subrange(i, j) =~= s.subrange(i, j));
    } else {
        assert(t[n] == ' ');
        lemma_words_behind(p, q, n, n);
    }
}

/// Before the space at the end of `p`, runs end where they did.
proof fn lemma_run_before(p: Seq<char>, q: Seq<char>, i: int)
    requires
        p.len() > 0,
        p.last() == ' ',
        0 <= i < p.len(),
    ensures
        run_end(p.push(' ') + q, i) == run_end(p + q, i),
        run_end(p + q, i) < p.len(),
        i <= run_end(p + q, i),
    decreases p.len() - i,
{
    let s = p + q;
    let t = p.push(' ') + q;
    assert(t[i] == p[i] && s[i] == p[i]);
    assert(!text::is_word(' '));
    if text::is_word(p[i]) {
        lemma_run_before(p, q, i + 1);
    }
}

/// Behind the inserted space, runs end one position later.
proof fn lemma_run_behind(p: Seq<char>, q: Seq<char>, i: int)
    requires
        p.len() <= i <= p.len() + q.len(),
    ensures
        run_end(p.push(' ') + q, i + 1) == run_end(p + q, i) + 1,
        i <= run_end(p + q, i) <= p.len() + q.len(),
    decreases p.len() + q.len() - i,
{
    let s = p + q;
    let t = p.push(' ') + q;
    if i < s.len() {
        assert(t[i + 1] == s[i]);
        if text::is_word(s[i]) {
            lemma_run_behind(p, q, i + 1);
        }
    }
}

/// A space behind a space changes no placeholder.
proof fn lemma_space_keeps_names(p: Seq<char>, q: Seq<char>, n: int)
    requires
        p.len() > 0,
        p.last() == ' ',
        0 <= n <= p.len() + q.len(),
    ensures
        n <= p.len() ==> names_before(p.push(' ') + q, n) == names_before(p + q, n),
        n >= p.len() ==> names_before(p.push(' ') + q, n + 1) == names_before(p + q, n),
    decreases n,
{
    let s = p + q;
    let t = p.push(' ') + q;
    let len = p.len() as int;
    if n > 0 {
        lemma_space_keeps_names(p, q, n - 1);
        let k = n - 1;
        if n <= len {
            assert(t[k] == p[k] && s[k] == p[k]);
            if n < len {
                assert(t[n] == p[n] && s[n] == p[n]);
                lemma_run_before(p, q, n);
                assert(t.subrange(n, run_end(t, n)) =~= s.subrange(n, run_end(s, n)));
            }
            if k > 0 {
                assert(t[k - 1] == p[k - 1] && s[k - 1] == p[k - 1]);
            }
            assert(placeholder_at(t, k) == placeholder_at(s, k));
        } else {
            assert(t[n] == s[k]);
            if n < s.len() {
                assert(t[n + 1] == s[n]);
            }
            if k > len {
                assert(t[k] == s[k - 1]);
            } else {
                assert(t[k] == ' ' && s[k - 1] == p[len - 1]);
            }
            assert(placeholder_at(t, n) == placeholder_at(s, k));
            lemma_run_behind(p, q, n);
            assert(t.subrange(n + 1, run_end(t, n + 1)) =~= s.subrange(n, run_end(s, n)));
        }
    }
    if n == len {
        assert(t[n] == ' ');
        assert(names_before(t, n + 1) == names_before(t, n));
    }
}

/// Two skeletons give rise to the same complaints.
spec fn alike(s: Seq<char>, t: Seq<char>) -> bool {
    &&& balance_errors(s) == balance_errors(t)
    &&& script_errors(s) == script_errors(t)
    &&& words_of(s) == words_of(t)
    &&& names_before(s, s.len() as int) == names_before(t, t.len() as int)
}

/// More spaces behind a space change no complaint.
proof fn lemma_spaces_change_nothing(p: Seq<char>, n: nat, q: Seq<char>)
    requires
        p.len() > 0,
        p.last() == ' ',
    ensures
        alike(p + spaces(n) + q, p + q),
    decreases n,
{
    if n == 0 {
        assert(p + spaces(0) + q =~= p + q);
    } else {
        let m = (n - 1) as nat;
        lemma_spaces_change_nothing(p, m, q);
        let shorter = p + spaces(m);
        assert(p + spaces(n) =~= shorter.push(' '));
        assert(shorter.last() == ' ');
        let len = (shorter + q).len() as int;
        assert((shorter.push(' ') + q).len() == len + 1);
        lemma_space_keeps_scan(shorter, q, len);
        lemma_space_keeps_script(shorter, q);
        lemma_space_keeps_words(shorter, q, 0, 0);
        lemma_space_keeps_names(shorter, q, len);
    }
}

/// What a string literal says is invisible to every check: two statements that differ only
/// in the body of a literal have the same problems and the same placeholders, and at equal
/// length the same skeleton.
pub proof fn law_literal_bodies_are_invisible(
    a: Seq<char>,
    x: Seq<char>,
    y: Seq<char>,
    b: Seq<char>,
)
    requires
        strip_from(a, 0, Lex::Normal).1 is Normal,
        !x.contains('\''),
        !y.contains('\''),
    ensures
        problems(around(a, x, b)) == problems(around(a, y, b)),
        placeholder_names(around(a, x, b)) == placeholder_names(around(a, y, b)),
        x.len() == y.len() ==> skeleton(around(a, x, b)) == skeleton(around(a, y, b)),
{
    let s = around(a, x, b);
    let t = around(a, y, b);
    let s_end = a.len() + 1 + x.len() as int;
    let t_end = a.len() + 1 + y.len() as int;
    lemma_around(a, x, b);
    lemma_around(a, y, b);
    assert(s.skip(s_end) =~= t.skip(t_end));
    lemma_strip_suffix(s, t, s_end, t_end, Lex::Single);
    let p = skeleton(a).push(' ');
    let q = strip_from(s, s_end, Lex::Single).0;
    lemma_spaces_change_nothing(p, x.len(), q);
    lemma_spaces_change_nothing(p, y.len(), q);
    assert(s[a.len() as int] == '\'' && t[a.len() as int] == '\'');
    assert(!text::is_space('\''));
}

/// `s` complains about no delimiter and leaves none open.
pub open spec fn well_nested(s: Seq<char>) -> bool {
    balance_errors(s) == Seq::<Seq<char>>::empty()
}

pub proof fn lemma_well_nested_scan(s: Seq<char>)
    ensures
        well_nested(s) == (balance_scan(s, s.len() as int).0.len() == 0 && balance_scan(
            s,
            s.len() as int,
        ).1.len() == 0),
{
    let (errors, stack) = balance_scan(s, s.len() as int);
    let all = balance_errors(s);
    assert(all.len() == errors.len() + stack.len());
    if all.len() == 0 {
        assert(all =~= Seq::empty());
    }
}

/// The complaints of a prefix stay.
pub proof fn lemma_scan_errors_grow(s: Seq<char>, n: int, m: int)
    requires
        0 <= n <= m,
    ensures
        balance_scan(s, n).0.len() <= balance_scan(s, m).0.len(),
    decreases m - n,
{
    if n < m {
        lemma_scan_errors_grow(s, n, m - 1);
    }
}

/// Scanning `b`, which is clean by itself, behind `a` leaves what was open before it.
proof fn lemma_scan_frame(a: Seq<char>, b: Seq<char>, n: int)
    requires
        0 <= n <= b.len(),
        balance_scan(b, n).0.len() == 0,
    ensures
        balance_scan(a + b, a.len() + n).0 == balance_scan(a + b, a.len() as int).0,
        balance_scan(a + b, a.len() + n).1 == balance_scan(a + b, a.len() as int).1
            + balance_scan(b, n).1,
    decreases n,
{
    let outer = balance_scan(a + b, a.len() as int).1;
    if n > 0 {
        lemma_scan_errors_grow(b, n - 1, n);
        lemma_scan_frame(a, b, n - 1);
        let inner = balance_scan(b, n - 1).1;
        let c = b[n - 1];
        assert((a + b)[a.len() + n - 1] == c);
        if is_opening(c) {
            assert((outer + inner).push(c) =~= outer + inner.push(c));
        } else if is_closing(c) {
            assert(inner.len() > 0);
            assert((outer + inner).last() == inner.last());
            assert((outer + inner).drop_last() =~= outer + inner.drop_last());
        }
    } else {
        assert(outer + Seq::<char>::empty() =~= outer);
    }
}

/// A scan of a prefix does not see what follows it.
pub proof fn lemma_scan_prefix(a: Seq<char>, b: Seq<char>, n: int)
    requires
        0 <= n <= a.len(),
    ensures
        balance_scan(a + b, n) == balance_scan(a, n),
    decreases n,
{
    if n > 0 {
        lemma_scan_prefix(a, b, n - 1);
        assert((a + b)[n - 1] == a[n - 1]);
    }
}

/// Two well-nested pieces in a row are well nested.
pub proof fn law_nesting_concatenates(a: Seq<char>, b: Seq<char>)
    requires
        well_nested(a),
        well_nested(b),
    ensures
        well_nested(a + b),
{
    lemma_well_nested_scan(a);
    lemma_well_nested_scan(b);
    lemma_well_nested_scan(a + b);
    lemma_scan_prefix(a, b, a.len() as int);
    lemma_scan_frame(a, b, b.len() as int);
}

/// A well-nested piece between an opening delimiter and its closing one is well nested.
pub proof fn law_nesting_wraps(a: Seq<char>, close: char)
    requires
        well_nested(a),
        is_closing(close),
    ensures
        well_nested(seq![opening_of(close)] + a + seq![close]),
{
    let open = seq![opening_of(close)];
    let s = open + a;
    let all = s + seq![close];
    lemma_well_nested_scan(a);
    lemma_scan_prefix(open, a, 1);
    reveal_with_fuel(balance_scan, 3);
    assert(balance_scan(open, 1).1 =~= open);
    lemma_scan_frame(open, a, a.len() as int);
    assert(balance_scan(s, s.len() as int).1 =~= open);
    lemma_scan_prefix(s, seq![close], s.len() as int);
    assert(all[s.len() as int] == close);
    lemma_well_nested_scan(all);
    assert(balance_scan(all, all.len() as int).1 =~= open.drop_last());
}

pub proof fn lemma_position_found(w: Seq<Seq<char>>, kw: Seq<char>, from: int)
    requires
        0 <= from,
    ensures
        match position_from(w, kw, from) {
            Some(i) => from <= i < w.len() && w[i] == kw,
            None => true,
        },
    decreases w.len() - from,
{
    if from < w.len() && w[from] != kw {
        lemma_position_found(w, kw, from + 1);
    }
}

/// An accepted `UPDATE` has its clauses in the one order that the server takes:
/// `SET`, then `UPSERT`, then `RETURN BEFORE|AFTER`, then `WHERE`, where `UPSERT` needs a
/// `WHERE`, `RETURN` needs both, and `SET` has a body.
pub proof fn law_accepted_updates_are_in_order(w: Seq<Seq<char>>)
    requires
        update_errors(w).len() == 0,
    ensures
        position(w, "SET"@) is Some,
        position(w, "WHERE"@) is Some ==> position(w, "SET"@)->0 + 1 < position(w, "WHERE"@)->0,
        position(w, "UPSERT"@) is Some ==> position(w, "WHERE"@) is Some && position(w, "SET"@)->0
            + 1 < position(w, "UPSERT"@)->0 < position(w, "WHERE"@)->0,
        position(w, "RETURN"@) is Some ==> position(w, "UPSERT"@) is Some && position(
            w,
            "UPSERT"@,
        )->0 < position(w, "RETURN"@)->0 < position(w, "WHERE"@)->0 && (word_at(
            w,
            position(w, "RETURN"@)->0 + 1,
        ) == Some("BEFORE"@) || word_at(w, position(w, "RETURN"@)->0 + 1) == Some("AFTER"@)),
{
    reveal_strlit("SET");
    reveal_strlit("UPSERT");
    reveal_strlit("RETURN");
    reveal_strlit("WHERE");
    assert("UPSERT"@[0] == 'U' && "RETURN"@[0] == 'R' && "WHERE"@[0] == 'W' && "SET"@[0] == 'S');
    lemma_position_found(w, "SET"@, 0);
    lemma_position_found(w, "UPSERT"@, 0);
    lemma_position_found(w, "RETURN"@, 0);
    lemma_position_found(w, "WHERE"@, 0);
}

/// An accepted statement is well nested, is a single statement with every literal closed,
/// names no placeholder after a keyword, and carries the guards of its shape: `DELETE` has a
/// `WHERE`, `INSERT` goes `INTO`, and an instance of `CREATE EDGE` names both endpoints.
pub proof fn law_accepted_statements_are_guarded(sql: Seq<char>)
    requires
        problems(sql).len() == 0,
    ensures
        well_nested(skeleton(sql)),
        !statement_body(skeleton(sql)).contains(';'),
        open_errors(sql).len() == 0,
        forall|i: int|
            0 <= i < placeholder_names(sql).len() ==> !is_reserved(
                text::uppered(#[trigger] placeholder_names(sql)[i]),
            ),
        word_at(words_of(skeleton(sql)), 0) == Some("DELETE"@) ==> words_of(skeleton(sql)).contains(
            "WHERE"@,
        ),
        word_at(words_of(skeleton(sql)), 0) == Some("INSERT"@) ==> word_at(
            words_of(skeleton(sql)),
            1,
        ) == Some("INTO"@),
        word_at(words_of(skeleton(sql)), 0) == Some("CREATE"@) && word_at(
            words_of(skeleton(sql)),
            1,
        ) == Some("EDGE"@) && word_at(words_of(skeleton(sql)), 2) != Some("TYPE"@) ==> position(
            words_of(skeleton(sql)),
            "FROM"@,
        ) is Some && position(words_of(skeleton(sql)), "TO"@) is Some,
        word_at(words_of(skeleton(sql)), 0) == Some("UPDATE"@) ==> update_errors(
            words_of(skeleton(sql)),
        ).len() == 0,
{
    reveal_strlit("UPDATE");
    reveal_strlit("DELETE");
    reveal_strlit("INSERT");
    reveal_strlit("CREATE");
    assert("UPDATE"@[0] == 'U' && "DELETE"@[0] == 'D' && "INSERT"@[0] == 'I' && "CREATE"@[0]
        == 'C');
    assert(balance_errors(skeleton(sql)) =~= Seq::empty());
    assert(reserved_errors(placeholder_names(sql)).len() == 0);
    lemma_no_reserved(placeholder_names(sql));
}

proof fn lemma_no_reserved(names: Seq<Seq<char>>)
    requires
        reserved_errors(names).len() == 0,
    ensures
        forall|i: int| 0 <= i < names.len() ==> !is_reserved(text::uppered(#[trigger] names[i])),
    decreases names.len(),
{
    if names.len() > 0 {
        lemma_no_reserved(names.drop_last());
        assert forall|i: int| 0 <= i < names.len() implies !is_reserved(
            text::uppered(#[trigger] names[i]),
        ) by {
            if i < names.len() - 1 {
                assert(names.drop_last()[i] == names[i]);
            }
        }
    }
}

} // verus!
