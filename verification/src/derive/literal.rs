//! String literals of emitted source text.

use vstd::prelude::*;
use vstd::string::*;
use crate::text;
use crate::derive::decode;

verus! {

/// How one character stands inside a string literal.
pub open spec fn escape(c: char) -> Seq<char> {
    if c == '"' || c == '\\' {
        seq!['\\', c]
    } else if c == '\r' {
        seq!['\\', 'r']
    } else {
        seq![c]
    }
}

/// How `s` stands inside a string literal.
pub open spec fn escaped(s: Seq<char>) -> Seq<char>
    decreases s.len(),
{
    if s.len() == 0 {
        Seq::empty()
    } else {
        escaped(s.drop_last()) + escape(s.last())
    }
}

/// The string literal for `s`.
pub open spec fn quoted(s: Seq<char>) -> Seq<char> {
    seq!['"'] + escaped(s) + seq!['"']
}

/// The literals for `list`, each followed by a comma.
pub open spec fn list(list: Seq<Seq<char>>) -> Seq<char>
    decreases list.len(),
{
    if list.len() == 0 {
        Seq::empty()
    } else {
        self::list(list.drop_last()) + quoted(list.last()) + ", "@
    }
}

/// The pairs of literals for `pairs`, each followed by a comma.
pub open spec fn pairs(pairs: Seq<(Seq<char>, Seq<char>)>) -> Seq<char>
    decreases pairs.len(),
{
    if pairs.len() == 0 {
        Seq::empty()
    } else {
        self::pairs(pairs.drop_last()) + "("@ + quoted(pairs.last().0) + ", "@ + quoted(
            pairs.last().1,
        ) + "), "@
    }
}

/// The string literal for `s`.
pub fn quote(s: &str) -> (r: String)
    ensures
        r@ == quoted(s@),
{
    let mut out = String::new();
    out.push('"');
    assert(out@ =~= seq!['"'] + escaped(s@.take(0)));
    for c in it: s.chars()
        invariant
            it.seq() == s@,
            out@ == seq!['"'] + escaped(s@.take(it.index() as int)),
    {
        let ghost before = out@;
        assert(s@.take(it.index() + 1).drop_last() =~= s@.take(it.index() as int));
        if c == '"' || c == '\\' {
            out.push('\\');
            out.push(c);
        } else if c == '\r' {
            out.push('\\');
            out.push('r');
        } else {
            out.push(c);
        }
        assert(out@ =~= before + escape(c));
        assert(out@ =~= seq!['"'] + escaped(s@.take(it.index() + 1)));
    }
    assert(s@.take(s@.len() as int) =~= s@);
    out.push('"');
    assert(out@ =~= quoted(s@));
    out
}

/// The literals for `words`, each followed by a comma.
pub fn quote_list(words: &Vec<String>) -> (r: String)
    ensures
        r@ == list(text::texts(words@)),
{
    let mut out = String::new();
    let ghost all = text::texts(words@);
    assert(all.take(0) =~= Seq::empty());
    for i in 0..words.len()
        invariant
            all == text::texts(words@),
            out@ == list(all.take(i as int)),
    {
        assert(all.take(i + 1).drop_last() =~= all.take(i as int));
        assert(all.take(i + 1).last() == words@[i as int]@);
        out.append(quote(words[i].as_str()).as_str());
        out.append(", ");
    }
    assert(all.take(all.len() as int) =~= all);
    out
}

/// The pairs of literals for `words`, each followed by a comma.
pub fn quote_pairs(words: &Vec<(String, String)>) -> (r: String)
    ensures
        r@ == pairs(decode::kind_views(words@)),
{
    let mut out = String::new();
    let ghost all = decode::kind_views(words@);
    assert(all.take(0) =~= Seq::empty());
    for i in 0..words.len()
        invariant
            all == decode::kind_views(words@),
            out@ == pairs(all.take(i as int)),
    {
        assert(all.take(i + 1).drop_last() =~= all.take(i as int));
        assert(all.take(i + 1).last() == (words@[i as int].0@, words@[i as int].1@));
        out.append("(");
        out.append(quote(words[i].0.as_str()).as_str());
        out.append(", ");
        out.append(quote(words[i].1.as_str()).as_str());
        out.append("), ");
    }
    assert(all.take(all.len() as int) =~= all);
    out
}

// ---------------------------------------------------------------------------
// Laws
// ---------------------------------------------------------------------------

/// What the inside of a string literal denotes.
pub open spec fn denoted(s: Seq<char>) -> Seq<char>
    decreases s.len(),
{
    if s.len() == 0 {
        Seq::empty()
    } else if s[0] == '\\' && s.len() >= 2 {
        seq![if s[1] == 'r' { '\r' } else { s[1] }] + denoted(s.skip(2))
    } else {
        seq![s[0]] + denoted(s.skip(1))
    }
}

/// The place of the first quote that is not escaped.
pub open spec fn closes_at(s: Seq<char>) -> Option<int>
    decreases s.len(),
{
    if s.len() == 0 {
        None
    } else if s[0] == '"' {
        Some(0)
    } else {
        let step: int = if s[0] == '\\' && s.len() >= 2 {
            2
        } else {
            1
        };
        match closes_at(s.skip(step)) {
            Some(n) => Some(n + step),
            None => None,
        }
    }
}

proof fn lemma_escaped_prefix(s: Seq<char>, tail: Seq<char>)
    ensures
        denoted(escaped(s) + tail) == s + denoted(tail),
        closes_at(tail) is Some ==> closes_at(escaped(s) + tail) == Some(
            escaped(s).len() + closes_at(tail)->Some_0,
        ),
    decreases s.len(),
{
    if s.len() == 0 {
        assert(escaped(s) + tail =~= tail);
        assert(s + denoted(tail) =~= denoted(tail));
    } else {
        let e = escape(s.last());
        let rest = e + tail;
        assert(escaped(s) + tail =~= escaped(s.drop_last()) + rest);
        lemma_escaped_prefix(s.drop_last(), rest);
        assert(rest.skip(e.len() as int) =~= tail);
        assert(denoted(rest) == seq![s.last()] + denoted(tail));
        assert(s.drop_last() + (seq![s.last()] + denoted(tail)) =~= s + denoted(tail));
    }
}

/// A literal ends at its last character and denotes the text that it was made for.
pub proof fn law_literals_read_back(s: Seq<char>)
    ensures
        quoted(s)[0] == '"',
        closes_at(quoted(s).skip(1)) == Some(quoted(s).len() - 2),
        denoted(quoted(s).subrange(1, quoted(s).len() - 1)) == s,
{
    let q = quoted(s);
    assert(q.skip(1) =~= escaped(s) + seq!['"']);
    lemma_escaped_prefix(s, seq!['"']);
    assert(closes_at(seq!['"']) == Some(0int));
    assert(q.subrange(1, q.len() - 1) =~= escaped(s) + Seq::<char>::empty());
    lemma_escaped_prefix(s, Seq::empty());
    assert(s + Seq::<char>::empty() =~= s);
}

/// A list of literals has each text quoted and followed by a comma, in order; a list of pairs
/// has each pair in brackets.
pub proof fn law_lists_quote_every_text(
    texts: Seq<Seq<char>>,
    t: Seq<char>,
    two: Seq<(Seq<char>, Seq<char>)>,
    p: (Seq<char>, Seq<char>),
)
    ensures
        list(Seq::empty()).len() == 0,
        list(texts.push(t)) == list(texts) + quoted(t) + ", "@,
        pairs(Seq::empty()).len() == 0,
        pairs(two.push(p)) == pairs(two) + "("@ + quoted(p.0) + ", "@ + quoted(p.1) + "), "@,
        quoted(t).len() >= 2 && quoted(t)[0] == '"' && quoted(t).last() == '"',
{
    assert(texts.push(t).drop_last() =~= texts);
    assert(two.push(p).drop_last() =~= two);
}

} // verus!
