//! Record ids: `#bucket:pos`.

use vstd::prelude::*;
use vstd::string::*;
use crate::record;
use crate::record::RecordDecodeError;
use crate::text;

verus! {

/// A record identifier (`#bucket:pos`): a record's own `@rid` or an edge endpoint.
#[derive(Debug, Clone, Copy, PartialEq, Eq, Hash, PartialOrd, Ord, Structural)]
pub struct Link {
    /// The bucket id (before the colon).
    pub bucket: i32,
    /// The position within the bucket (after the colon).
    pub pos: i64,
}

/// The position of the first colon of `s` at or after `from`.
pub open spec fn colon_from(s: Seq<char>, from: int) -> Option<int>
    decreases s.len() - from,
{
    if from < 0 || from >= s.len() {
        None
    } else if s[from] == ':' {
        Some(from)
    } else {
        colon_from(s, from + 1)
    }
}

/// The bucket and position that a rid names: a `#`, a non-negative 32-bit bucket, a colon and
/// a non-negative 64-bit position.
pub open spec fn rid_parts(s: Seq<char>) -> Option<(int, int)> {
    if s.len() == 0 || s[0] != '#' {
        None
    } else {
        match colon_from(s, 1) {
            None => None,
            Some(c) => match (
                text::integer_value(s.subrange(1, c)),
                text::integer_value(s.skip(c + 1)),
            ) {
                (Some(b), Some(p)) => if 0 <= b <= i32::MAX && 0 <= p <= i64::MAX {
                    Some((b, p))
                } else {
                    None
                },
                _ => None,
            },
        }
    }
}

/// The rid text of a bucket and a position.
pub open spec fn rid_text(bucket: int, pos: int) -> Seq<char> {
    "#"@ + text::decimal(bucket) + ":"@ + text::decimal(pos)
}

/// The complaint about a text that is no rid.
pub open spec fn invalid_rid(s: Seq<char>) -> record::ErrorView {
    record::ErrorView::Conversion("invalid rid `"@ + s + "`"@)
}

fn invalid(s: &str) -> (e: RecordDecodeError)
    ensures
        e@ == invalid_rid(s@),
{
    let mut message = String::new();
    message.append("invalid rid `");
    message.append(s);
    message.append("`");
    assert(message@ =~= "invalid rid `"@ + s@ + "`"@);
    RecordDecodeError::Conversion { message }
}

fn copy_range(v: &Vec<char>, from: usize, to: usize) -> (r: Vec<char>)
    requires
        from <= to <= v.len(),
    ensures
        r@ == v@.subrange(from as int, to as int),
{
    let mut out: Vec<char> = Vec::new();
    let mut i: usize = from;
    while i < to
        invariant
            from <= i <= to <= v.len(),
            out@ == v@.subrange(from as int, i as int),
        decreases to - i,
    {
        out.push(v[i]);
        assert(v@.subrange(from as int, i as int).push(v@[i as int]) =~= v@.subrange(
            from as int,
            i + 1,
        ));
        i += 1;
    }
    out
}

impl Link {
    /// The rid text of this link.
    pub open spec fn rid(self) -> Seq<char> {
        rid_text(self.bucket as int, self.pos as int)
    }

    pub fn new(bucket: i32, pos: i64) -> (l: Self)
        ensures
            l == (Link { bucket, pos }),
    {
        Link { bucket, pos }
    }

    /// Parse `#bucket:pos`. Both parts are non-negative; the leading `#` is required.
    pub fn parse(s: &str) -> (r: Result<Self, RecordDecodeError>)
        ensures
            match r {
                Ok(l) => rid_parts(s@) == Some((l.bucket as int, l.pos as int)),
                Err(e) => rid_parts(s@) is None && e@ == invalid_rid(s@),
            },
    {
        let v = text::chars_of(s);
        if v.len() == 0 || v[0] != '#' {
            return Err(invalid(s));
        }
        let mut c: usize = 1;
        while c < v.len() && v[c] != ':'
            invariant
                1 <= c <= v.len(),
                v@ == s@,
                colon_from(s@, c as int) == colon_from(s@, 1),
            decreases v.len() - c,
        {
            c += 1;
        }
        if c == v.len() {
            return Err(invalid(s));
        }
        let head = copy_range(&v, 1, c);
        let tail = copy_range(&v, c + 1, v.len());
        assert(tail@ =~= s@.skip(c + 1));
        match text::parse_integer(&head, -0x8000_0000i64, 0x7fff_ffffi64) {
            None => Err(invalid(s)),
            Some(b) => {
                match text::parse_integer(&tail, i64::MIN, i64::MAX) {
                    None => Err(invalid(s)),
                    Some(p) => {
                        if b < 0 || p < 0 {
                            Err(invalid(s))
                        } else {
                            Ok(Link { bucket: b as i32, pos: p })
                        }
                    },
                }
            },
        }
    }

    /// The canonical rid text, `#bucket:pos`.
    pub fn to_rid_string(&self) -> (r: String)
        ensures
            r@ == rid_text(self.bucket as int, self.pos as int),
    {
        let mut out = String::new();
        out.append("#");
        out.append(text::signed_text(self.bucket as i64).as_str());
        out.append(":");
        out.append(text::signed_text(self.pos).as_str());
        assert(out@ =~= rid_text(self.bucket as int, self.pos as int));
        out
    }

    /// The canonical rid text, `#bucket:pos`.
    pub fn to_string(&self) -> (r: String)
        ensures
            r@ == rid_text(self.bucket as int, self.pos as int),
    {
        self.to_rid_string()
    }
}

impl std::str::FromStr for Link {
    type Err = RecordDecodeError;

    fn from_str(s: &str) -> (r: Result<Self, RecordDecodeError>) {
        Link::parse(s)
    }
}

proof fn lemma_colon(s: Seq<char>, from: int, at: int)
    requires
        0 <= from <= at < s.len(),
        s[at] == ':',
        forall|i: int| from <= i < at ==> s[i] != ':',
    ensures
        colon_from(s, from) == Some(at),
    decreases at - from,
{
    if from < at {
        lemma_colon(s, from + 1, at);
    }
}

/// Parsing the rid text of a link with non-negative parts gives the link back.
pub proof fn law_rid_text_parses_back(bucket: int, pos: int)
    requires
        0 <= bucket <= i32::MAX,
        0 <= pos <= i64::MAX,
    ensures
        rid_parts(rid_text(bucket, pos)) == Some((bucket, pos)),
{
    reveal_strlit("#");
    reveal_strlit(":");
    let s = rid_text(bucket, pos);
    let b = text::digits(bucket as nat);
    let p = text::digits(pos as nat);
    text::lemma_digits_read_back(bucket as nat);
    text::law_decimal_reads_back(bucket);
    text::law_decimal_reads_back(pos);
    let c = 1 + b.len() as int;
    assert(s[0] == '#');
    assert(s[c] == ':');
    assert forall|i: int| 1 <= i < c implies s[i] != ':' by {
        assert(s[i] == b[i - 1]);
        assert(text::is_digit(b[i - 1]));
    }
    lemma_colon(s, 1, c);
    assert(s.subrange(1, c) =~= b);
    assert(s.skip(c + 1) =~= p);
}

/// A rid is a hash sign, the bucket, a colon and the position.
pub proof fn law_rids_are_bucket_and_position(l: crate::record::Link)
    ensures
        l.rid() == "#"@ + text::decimal(l.bucket as int) + ":"@ + text::decimal(l.pos as int),
{
}

proof fn lemma_first_colon(s: Seq<char>, from: int)
    requires
        0 <= from,
    ensures
        colon_from(s, from) matches Some(c) ==> from <= c < s.len() && s[c] == ':' && forall|i: int|
            from <= i < c ==> #[trigger] s[i] != ':',
        colon_from(s, from) is None ==> forall|i: int| from <= i < s.len() ==> #[trigger] s[i] != ':',
    decreases s.len() - from,
{
    if from < s.len() && s[from] != ':' {
        lemma_first_colon(s, from + 1);
    }
}

/// A text is a rid exactly when it is a hash sign, a number that fits a bucket, a colon and a
/// number that fits a position; neither is negative. The first colon divides it.
pub proof fn law_rids_are_two_numbers(s: Seq<char>, bucket: int, pos: int)
    ensures
        rid_parts(s) == Some((bucket, pos)) <==> 0 <= bucket <= i32::MAX && 0 <= pos <= i64::MAX
            && s.len() > 0 && s[0] == '#' && exists|c: int|
            1 <= c < s.len() && #[trigger] s[c] == ':' && (forall|i: int|
                1 <= i < c ==> #[trigger] s[i] != ':') && text::integer_value(s.subrange(1, c))
                == Some(bucket) && text::integer_value(s.skip(c + 1)) == Some(pos),
{
    lemma_first_colon(s, 1);
    if rid_parts(s) == Some((bucket, pos)) {
        let c = colon_from(s, 1)->0;
        assert(s[c] == ':');
    }
    if s.len() > 0 && s[0] == '#' && exists|c: int|
        1 <= c < s.len() && #[trigger] s[c] == ':' && (forall|i: int|
            1 <= i < c ==> #[trigger] s[i] != ':') && text::integer_value(s.subrange(1, c)) == Some(
            bucket,
        ) && text::integer_value(s.skip(c + 1)) == Some(pos) {
        let c = choose|c: int|
            1 <= c < s.len() && #[trigger] s[c] == ':' && (forall|i: int|
                1 <= i < c ==> #[trigger] s[i] != ':') && text::integer_value(s.subrange(1, c))
                == Some(bucket) && text::integer_value(s.skip(c + 1)) == Some(pos);
        assert(colon_from(s, 1) == Some(c));
    }
}

} // verus!
