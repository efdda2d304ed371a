//! `rename_all` rules, in serde's exact case dialect: fields are taken to be snake_case,
//! variants PascalCase, and acronyms are not regrouped.

use vstd::prelude::*;
use vstd::string::*;
use crate::text;

verus! {

/// A `rename_all` case rule.
#[derive(Debug, Clone, Copy, PartialEq, Eq, Structural)]
pub enum RenameRule {
    Lower,
    Upper,
    Pascal,
    Camel,
    Snake,
    ScreamingSnake,
    Kebab,
    ScreamingKebab,
}

/// The rule that a name stands for.
pub open spec fn rule_named(s: Seq<char>) -> Option<RenameRule> {
    if s == "lowercase"@ {
        Some(RenameRule::Lower)
    } else if s == "UPPERCASE"@ {
        Some(RenameRule::Upper)
    } else if s == "PascalCase"@ {
        Some(RenameRule::Pascal)
    } else if s == "camelCase"@ {
        Some(RenameRule::Camel)
    } else if s == "snake_case"@ {
        Some(RenameRule::Snake)
    } else if s == "SCREAMING_SNAKE_CASE"@ {
        Some(RenameRule::ScreamingSnake)
    } else if s == "kebab-case"@ {
        Some(RenameRule::Kebab)
    } else if s == "SCREAMING-KEBAB-CASE"@ {
        Some(RenameRule::ScreamingKebab)
    } else {
        None
    }
}

/// `s` with its first character in lower case.
pub open spec fn lowered_first(s: Seq<char>) -> Seq<char> {
    if s.len() == 0 {
        s
    } else {
        text::lowercase_of(s[0]) + s.skip(1)
    }
}

/// A variant name in snake case: an underscore before every upper-case character but a
/// leading one, and ASCII letters in lower case.
pub open spec fn snaked(s: Seq<char>) -> Seq<char>
    decreases s.len(),
{
    if s.len() == 0 {
        s
    } else if s.len() > 1 && text::is_uppercase(s.last()) {
        snaked(s.drop_last()).push('_').push(text::lower(s.last()))
    } else {
        snaked(s.drop_last()).push(text::lower(s.last()))
    }
}

/// A field name in Pascal case: underscores are dropped, and the character at the start or
/// behind an underscore becomes upper case.
pub open spec fn pascaled(s: Seq<char>) -> Seq<char>
    decreases s.len(),
{
    if s.len() == 0 {
        s
    } else if s.last() == '_' {
        pascaled(s.drop_last())
    } else if s.len() == 1 || s[s.len() - 2] == '_' {
        pascaled(s.drop_last()).push(text::upper(s.last()))
    } else {
        pascaled(s.drop_last()).push(s.last())
    }
}

/// A variant name under a rule.
pub open spec fn variant_name(rule: RenameRule, variant: Seq<char>) -> Seq<char> {
    match rule {
        RenameRule::Pascal => variant,
        RenameRule::Lower => text::lowered(variant),
        RenameRule::Upper => text::uppered(variant),
        RenameRule::Camel => lowered_first(variant),
        RenameRule::Snake => snaked(variant),
        RenameRule::ScreamingSnake => text::uppered(snaked(variant)),
        RenameRule::Kebab => text::swapped(snaked(variant), '_', '-'),
        RenameRule::ScreamingKebab => text::swapped(text::uppered(snaked(variant)), '_', '-'),
    }
}

/// A field name under a rule.
pub open spec fn field_name(rule: RenameRule, field: Seq<char>) -> Seq<char> {
    match rule {
        RenameRule::Lower => field,
        RenameRule::Snake => field,
        RenameRule::Upper => text::uppered(field),
        RenameRule::Pascal => pascaled(field),
        RenameRule::Camel => lowered_first(pascaled(field)),
        RenameRule::ScreamingSnake => text::uppered(field),
        RenameRule::Kebab => text::swapped(field, '_', '-'),
        RenameRule::ScreamingKebab => text::swapped(text::uppered(field), '_', '-'),
    }
}

/// `s` with its first character in lower case.
pub fn lower_first(s: &str) -> (out: String)
    ensures
        out@ == lowered_first(s@),
{
    let chars = text::chars_of(s);
    if chars.len() == 0 {
        assert(s@ =~= lowered_first(s@));
        return s.to_owned();
    }
    let mut out = text::lowercase(chars[0]);
    out.append(text::text_of(&chars, 1, chars.len()).as_str());
    assert(s@.subrange(1, s@.len() as int) =~= s@.skip(1));
    out
}

fn snake(s: &str) -> (out: String)
    ensures
        out@ == snaked(s@),
{
    let chars = text::chars_of(s);
    let mut out = String::new();
    assert(s@.take(0) =~= Seq::empty());
    for i in 0..chars.len()
        invariant
            chars@ == s@,
            out@ == snaked(s@.take(i as int)),
    {
        let ghost head = s@.take(i + 1);
        assert(head.drop_last() =~= s@.take(i as int));
        assert(head.last() == chars@[i as int]);
        if i > 0 && text::uppercase(chars[i]) {
            out.push('_');
        }
        out.push(text::to_lower(chars[i]));
    }
    assert(s@.take(s@.len() as int) =~= s@);
    out
}

fn pascal(s: &str) -> (out: String)
    ensures
        out@ == pascaled(s@),
{
    let chars = text::chars_of(s);
    let mut out = String::new();
    let mut capitalize = true;
    assert(s@.take(0) =~= Seq::empty());
    for i in 0..chars.len()
        invariant
            chars@ == s@,
            out@ == pascaled(s@.take(i as int)),
            capitalize == (i == 0 || s@[i - 1] == '_'),
    {
        let ghost head = s@.take(i + 1);
        assert(head.drop_last() =~= s@.take(i as int));
        assert(head.last() == chars@[i as int]);
        let c = chars[i];
        if c == '_' {
            capitalize = true;
        } else if capitalize {
            out.push(text::to_upper(c));
            capitalize = false;
        } else {
            out.push(c);
        }
    }
    assert(s@.take(s@.len() as int) =~= s@);
    out
}

impl RenameRule {
    /// One of serde's eight rule names; anything else is no rule.
    pub fn parse(s: &str) -> (r: Option<Self>)
        ensures
            r == rule_named(s@),
    {
        if text::same(s, "lowercase") {
            Some(RenameRule::Lower)
        } else if text::same(s, "UPPERCASE") {
            Some(RenameRule::Upper)
        } else if text::same(s, "PascalCase") {
            Some(RenameRule::Pascal)
        } else if text::same(s, "camelCase") {
            Some(RenameRule::Camel)
        } else if text::same(s, "snake_case") {
            Some(RenameRule::Snake)
        } else if text::same(s, "SCREAMING_SNAKE_CASE") {
            Some(RenameRule::ScreamingSnake)
        } else if text::same(s, "kebab-case") {
            Some(RenameRule::Kebab)
        } else if text::same(s, "SCREAMING-KEBAB-CASE") {
            Some(RenameRule::ScreamingKebab)
        } else {
            None
        }
    }

    /// Apply the rule to a variant name (PascalCase input).
    pub fn apply_to_variant(self, variant: &str) -> (out: String)
        ensures
            out@ == variant_name(self, variant@),
    {
        match self {
            RenameRule::Pascal => variant.to_owned(),
            RenameRule::Lower => text::lower_text(variant),
            RenameRule::Upper => text::upper_text(variant),
            RenameRule::Camel => lower_first(variant),
            RenameRule::Snake => snake(variant),
            RenameRule::ScreamingSnake => text::upper_text(snake(variant).as_str()),
            RenameRule::Kebab => text::swap_char(snake(variant).as_str(), '_', '-'),
            RenameRule::ScreamingKebab => {
                let screaming = text::upper_text(snake(variant).as_str());
                text::swap_char(screaming.as_str(), '_', '-')
            },
        }
    }

    /// Apply the rule to a field name (snake_case input). `lowercase` and `snake_case` keep it.
    pub fn apply_to_field(self, field: &str) -> (out: String)
        ensures
            out@ == field_name(self, field@),
    {
        match self {
            RenameRule::Lower => field.to_owned(),
            RenameRule::Snake => field.to_owned(),
            RenameRule::Upper => text::upper_text(field),
            RenameRule::Pascal => pascal(field),
            RenameRule::Camel => lower_first(pascal(field).as_str()),
            RenameRule::ScreamingSnake => text::upper_text(field),
            RenameRule::Kebab => text::swap_char(field, '_', '-'),
            RenameRule::ScreamingKebab => text::swap_char(
                text::upper_text(field).as_str(),
                '_',
                '-',
            ),
        }
    }
}

// ---------------------------------------------------------------------------
// Laws
// ---------------------------------------------------------------------------

/// ASCII letters and digits, the first of them an upper-case letter.
pub open spec fn pascal_ident(s: Seq<char>) -> bool {
    s.len() > 0 && text::is_upper(s[0]) && forall|i: int|
        0 <= i < s.len() ==> text::is_alnum(#[trigger] s[i])
}

proof fn lemma_snake_then_pascal(s: Seq<char>)
    requires
        pascal_ident(s),
    ensures
        pascaled(snaked(s)) == s,
        snaked(s).len() > 0,
        snaked(s).last() == text::lower(s.last()),
    decreases s.len(),
{
    let t = snaked(s);
    let head = s.drop_last();
    let low = text::lower(s.last());
    assert(low != '_');
    if s.len() == 1 {
        assert(head.len() == 0);
        assert(snaked(head) == head);
        assert(t =~= head.push(low));
        assert(t.drop_last() =~= head);
        assert(pascaled(t.drop_last()) == head);
        assert(pascaled(t) =~= s);
    } else {
        assert(pascal_ident(head));
        lemma_snake_then_pascal(head);
        if text::is_uppercase(s.last()) {
            let u = snaked(head).push('_');
            assert(t.drop_last() =~= u);
            assert(u.drop_last() =~= snaked(head));
            assert(t[t.len() - 2] == '_');
            assert(pascaled(u) == pascaled(snaked(head)));
        } else {
            assert(t.drop_last() =~= snaked(head));
            assert(t[t.len() - 2] == snaked(head).last());
            assert(snaked(head).last() != '_');
        }
        assert(pascaled(t) =~= s);
    }
}

/// Snake case loses nothing of an ASCII PascalCase variant name: Pascal case gives it back. So
/// no two such variants of an enum get the same snake-case name.
pub proof fn law_snake_case_is_reversible(a: Seq<char>, b: Seq<char>)
    requires
        pascal_ident(a),
        pascal_ident(b),
    ensures
        field_name(RenameRule::Pascal, variant_name(RenameRule::Snake, a)) == a,
        variant_name(RenameRule::Snake, a) == variant_name(RenameRule::Snake, b) ==> a == b,
{
    lemma_snake_then_pascal(a);
    lemma_snake_then_pascal(b);
}

/// The kebab rules are the snake rules with dashes, for variants and for fields.
pub proof fn law_kebab_is_snake_with_dashes(s: Seq<char>)
    ensures
        variant_name(RenameRule::Kebab, s) == text::swapped(
            variant_name(RenameRule::Snake, s),
            '_',
            '-',
        ),
        variant_name(RenameRule::ScreamingKebab, s) == text::swapped(
            variant_name(RenameRule::ScreamingSnake, s),
            '_',
            '-',
        ),
        field_name(RenameRule::Kebab, s) == text::swapped(
            field_name(RenameRule::Snake, s),
            '_',
            '-',
        ),
        field_name(RenameRule::ScreamingKebab, s) == text::swapped(
            field_name(RenameRule::ScreamingSnake, s),
            '_',
            '-',
        ),
{
}

} // verus!
