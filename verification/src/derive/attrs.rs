//! `#[serde(...)]` and `#[record(...)]` attributes of a row type, its fields and its variants.
//!
//! Both namespaces share `rename`, `default`, `flatten` and the `skip` spellings; `with`, `key`
//! and `crate_path` belong to `record`. The `serde` namespace tolerates metas that are not
//! modelled here, the `record` namespace refuses them.

use vstd::prelude::*;
use vstd::string::*;
use crate::text;
use crate::derive::naming;
use crate::derive::naming::RenameRule;

verus! {

/// One meta inside the parentheses of an attribute.
#[derive(Debug)]
pub struct Meta {
    pub name: String,
    pub value: MetaValue,
}

#[derive(Debug)]
pub enum MetaValue {
    /// `name`.
    Bare,
    /// `name = "text"`.
    Text(PathText),
    /// `name = ` anything that is no string literal.
    Expr,
    /// `name(...)`.
    Nested(Vec<Meta>),
}

#[derive(Debug, Clone, Copy, PartialEq, Eq, Structural)]
pub enum AttrSpace {
    Serde,
    Record,
    Other,
}

/// `#[space(metas)]`.
#[derive(Debug)]
pub struct Attribute {
    pub space: AttrSpace,
    pub metas: Vec<Meta>,
}

// ---------------------------------------------------------------------------
// Paths
// ---------------------------------------------------------------------------

/// A string literal of an attribute, and what the parser finds wrong with it as a Rust path,
/// where it was read as one.
#[derive(Debug)]
pub struct PathText {
    pub text: String,
    pub problem: Option<String>,
}

/// `syn::parse_str::<syn::Path>`: nothing where the text is a Rust path, else the words of the
/// parser's error. Nothing is claimed of the outcome: which lexer reads the text depends on
/// whether the call is made inside a procedural macro.
#[verifier::external_body]
fn path_error(s: &str) -> (r: Option<String>)
{
    match syn::parse_str::<syn::Path>(s) {
        Ok(_) => None,
        Err(e) => Some(e.to_string()),
    }
}

/// Read a text as a Rust path. Whether it is one is the parser's to say.
pub fn read_path(text: String) -> (p: PathText)
    ensures
        p.text == text,
{
    let problem = path_error(text.as_str());
    PathText { text, problem }
}

/// The metas whose text is a path.
pub open spec fn takes_path(space: AttrSpace, name: Seq<char>) -> bool {
    ||| name == "default"@ || name == "skip_serializing_if"@
    ||| space == AttrSpace::Record && (name == "with"@ || name == "deserialize_with"@ || name
        == "crate_path"@)
}

/// Read the text of a meta: as a path where the meta takes one.
pub fn read_text(space: AttrSpace, name: &str, text: String) -> (p: PathText)
    ensures
        p.text == text,
        !takes_path(space, name@) ==> p.problem is None,
{
    if text::same(name, "default") || text::same(name, "skip_serializing_if") || (space
        == AttrSpace::Record && (text::same(name, "with") || text::same(name, "deserialize_with")
        || text::same(name, "crate_path"))) {
        read_path(text)
    } else {
        PathText { text, problem: None }
    }
}

// ---------------------------------------------------------------------------
// Values of metas
// ---------------------------------------------------------------------------

/// The parser's words where something else was expected, at the end of the list or before it.
pub open spec fn expected_instead(what: Seq<char>, last: bool) -> Seq<char> {
    if last {
        "unexpected end of input, "@ + what
    } else {
        what
    }
}

/// `= "text"`.
pub open spec fn text_value(value: MetaValue, last: bool) -> Result<Seq<char>, Seq<char>> {
    match value {
        MetaValue::Text(p) => Ok(p.text@),
        MetaValue::Expr => Err("expected string literal"@),
        MetaValue::Bare => Err(expected_instead("expected `=`"@, last)),
        MetaValue::Nested(_) => Err("expected `=`"@),
    }
}

/// `= "path"`: what the parser finds wrong with it is the refusal.
pub open spec fn path_value(value: MetaValue, last: bool) -> Result<Seq<char>, Seq<char>> {
    match value {
        MetaValue::Text(p) => match p.problem {
            None => Ok(p.text@),
            Some(words) => Err(words@),
        },
        _ => text_value(value, last),
    }
}

/// A flag takes no value.
pub open spec fn flag_value(value: MetaValue) -> Result<(), Seq<char>> {
    match value {
        MetaValue::Bare => Ok(()),
        _ => Err("expected `,`"@),
    }
}

/// Whether an outcome is the stated one, for results that are text.
pub open spec fn same_text(r: Result<String, String>, stated: Result<Seq<char>, Seq<char>>) -> bool {
    match (r, stated) {
        (Ok(a), Ok(b)) => a@ == b,
        (Err(e), Err(p)) => e@ == p,
        _ => false,
    }
}

fn expected(what: &str, last: bool) -> (r: String)
    ensures
        r@ == expected_instead(what@, last),
{
    if last {
        let mut e = "unexpected end of input, ".to_owned();
        e.append(what);
        e
    } else {
        what.to_owned()
    }
}

fn text_of_value(value: &MetaValue, last: bool) -> (r: Result<String, String>)
    ensures
        same_text(r, text_value(*value, last)),
{
    match value {
        MetaValue::Text(p) => Ok(p.text.clone()),
        MetaValue::Expr => Err("expected string literal".to_owned()),
        MetaValue::Bare => Err(expected("expected `=`", last)),
        MetaValue::Nested(_) => Err("expected `=`".to_owned()),
    }
}

fn path_of_value(value: &MetaValue, last: bool) -> (r: Result<String, String>)
    ensures
        same_text(r, path_value(*value, last)),
{
    match value {
        MetaValue::Text(p) => match &p.problem {
            None => Ok(p.text.clone()),
            Some(words) => Err(words.clone()),
        },
        _ => text_of_value(value, last),
    }
}

fn flag_of_value(value: &MetaValue) -> (r: Result<(), String>)
    ensures
        match (r, flag_value(*value)) {
            (Ok(_), Ok(_)) => true,
            (Err(e), Err(p)) => e@ == p,
            _ => false,
        },
{
    match value {
        MetaValue::Bare => Ok(()),
        _ => Err("expected `,`".to_owned()),
    }
}

// ---------------------------------------------------------------------------
// rename
// ---------------------------------------------------------------------------

/// The two sides of a rename: what decoding reads and what encoding writes.
pub ghost struct Names {
    pub read: Option<Seq<char>>,
    pub written: Option<Seq<char>>,
}

/// One side inside `rename(...)`; other names there are ignored.
pub open spec fn with_side(names: Names, meta: Meta, last: bool) -> Result<Names, Seq<char>> {
    if meta.name@ == "deserialize"@ {
        match text_value(meta.value, last) {
            Ok(s) => Ok(Names { read: Some(s), ..names }),
            Err(p) => Err(p),
        }
    } else if meta.name@ == "serialize"@ {
        match text_value(meta.value, last) {
            Ok(s) => Ok(Names { written: Some(s), ..names }),
            Err(p) => Err(p),
        }
    } else {
        Ok(names)
    }
}

/// The first `n` sides of `rename(...)`, in order; the first problem ends it.
pub open spec fn with_sides(names: Names, metas: Seq<Meta>, n: nat) -> Result<Names, Seq<char>>
    decreases n,
{
    if n == 0 {
        Ok(names)
    } else {
        match with_sides(names, metas, (n - 1) as nat) {
            Ok(before) => with_side(before, metas[n - 1], n == metas.len()),
            Err(p) => Err(p),
        }
    }
}

/// `rename = "..."` sets both sides; `rename(serialize = "...", deserialize = "...")` sets
/// those that it names.
pub open spec fn with_rename(names: Names, value: MetaValue, last: bool) -> Result<Names, Seq<char>> {
    match value {
        MetaValue::Text(p) => Ok(Names { read: Some(p.text@), written: Some(p.text@) }),
        MetaValue::Expr => Err("expected string literal"@),
        MetaValue::Bare => Err(expected_instead("expected parentheses"@, last)),
        MetaValue::Nested(metas) => with_sides(names, metas@, metas@.len()),
    }
}

/// `rename = "..."` and `rename(serialize = "...", deserialize = "...")`.
#[verifier::loop_isolation(false)]
fn parse_rename(
    value: &MetaValue,
    last: bool,
    read: Option<String>,
    written: Option<String>,
) -> (r: Result<(Option<String>, Option<String>), String>)
    ensures
        match (
            r,
            with_rename(
                Names { read: text::optional(read), written: text::optional(written) },
                *value,
                last,
            ),
        ) {
            (Ok(pair), Ok(names)) => text::optional(pair.0) == names.read && text::optional(pair.1)
                == names.written,
            (Err(e), Err(p)) => e@ == p,
            _ => false,
        },
{
    match value {
        MetaValue::Text(p) => Ok((Some(p.text.clone()), Some(p.text.clone()))),
        MetaValue::Expr => Err("expected string literal".to_owned()),
        MetaValue::Bare => Err(expected("expected parentheses", last)),
        MetaValue::Nested(metas) => {
            let ghost names = Names { read: text::optional(read), written: text::optional(written) };
            let mut now_read = read;
            let mut now_written = written;
            for i in 0..metas.len()
                invariant
                    *value == MetaValue::Nested(*metas),
                    with_sides(names, metas@, i as nat) == Ok::<Names, Seq<char>>(
                        Names { read: text::optional(now_read), written: text::optional(now_written) },
                    ),
            {
                let is_last = i + 1 == metas.len();
                let m = &metas[i];
                if text::same(m.name.as_str(), "deserialize") {
                    match text_of_value(&m.value, is_last) {
                        Ok(s) => {
                            now_read = Some(s);
                        },
                        Err(e) => {
                            proof {
                                lemma_sides_fail(names, metas@, (i + 1) as nat, metas@.len());
                            }
                            return Err(e);
                        },
                    }
                } else if text::same(m.name.as_str(), "serialize") {
                    match text_of_value(&m.value, is_last) {
                        Ok(s) => {
                            now_written = Some(s);
                        },
                        Err(e) => {
                            proof {
                                lemma_sides_fail(names, metas@, (i + 1) as nat, metas@.len());
                            }
                            return Err(e);
                        },
                    }
                }
            }
            Ok((now_read, now_written))
        },
    }
}

proof fn lemma_sides_fail(names: Names, metas: Seq<Meta>, n: nat, m: nat)
    requires
        n <= m,
        with_sides(names, metas, n) is Err,
    ensures
        with_sides(names, metas, m) == with_sides(names, metas, n),
    decreases m,
{
    if n < m {
        lemma_sides_fail(names, metas, n, (m - 1) as nat);
    }
}

// ---------------------------------------------------------------------------
// Fields
// ---------------------------------------------------------------------------

/// What a missing property becomes.
#[derive(Debug, PartialEq, Eq)]
pub enum Fallback {
    /// Nothing: it is an error.
    Required,
    /// `default`.
    Default,
    /// `default = "path"`.
    Path(String),
}

pub ghost enum FallbackView {
    Required,
    Default,
    Path(Seq<char>),
}

impl View for Fallback {
    type V = FallbackView;

    open spec fn view(&self) -> FallbackView {
        match self {
            Fallback::Required => FallbackView::Required,
            Fallback::Default => FallbackView::Default,
            Fallback::Path(p) => FallbackView::Path(p@),
        }
    }
}

/// The attributes of a field.
#[derive(Debug)]
pub struct FieldCfg {
    /// The name that decoding reads.
    pub rename: Option<String>,
    /// The name that encoding writes; `rename = "..."` sets both.
    pub serialize_rename: Option<String>,
    pub default: Fallback,
    /// Path of a custom conversion.
    pub with: Option<String>,
    pub skip_decode: bool,
    pub skip_encode: bool,
    /// Path of a predicate under which encoding leaves the property out.
    pub skip_serializing_if: Option<String>,
    /// Part of the bulk-conflict identity.
    pub key: bool,
    pub flatten: bool,
}

pub ghost struct FieldView {
    pub names: Names,
    pub default: FallbackView,
    pub with: Option<Seq<char>>,
    pub skip_decode: bool,
    pub skip_encode: bool,
    pub skip_if: Option<Seq<char>>,
    pub key: bool,
    pub flatten: bool,
}

impl View for FieldCfg {
    type V = FieldView;

    open spec fn view(&self) -> FieldView {
        FieldView {
            names: Names {
                read: text::optional(self.rename),
                written: text::optional(self.serialize_rename),
            },
            default: self.default@,
            with: text::optional(self.with),
            skip_decode: self.skip_decode,
            skip_encode: self.skip_encode,
            skip_if: text::optional(self.skip_serializing_if),
            key: self.key,
            flatten: self.flatten,
        }
    }
}

/// A field without attributes.
pub open spec fn plain_field() -> FieldView {
    FieldView {
        names: Names { read: None, written: None },
        default: FallbackView::Required,
        with: None,
        skip_decode: false,
        skip_encode: false,
        skip_if: None,
        key: false,
        flatten: false,
    }
}

/// `default` and `default = "path"`.
pub open spec fn default_value(value: MetaValue, last: bool) -> Result<FallbackView, Seq<char>> {
    match value {
        MetaValue::Bare => Ok(FallbackView::Default),
        MetaValue::Nested(_) => Err("expected `,`"@),
        _ => match path_value(value, last) {
            Ok(p) => Ok(FallbackView::Path(p)),
            Err(p) => Err(p),
        },
    }
}

pub open spec fn flagged(cfg: FieldView, value: MetaValue) -> Result<FieldView, Seq<char>> {
    match flag_value(value) {
        Ok(_) => Ok(cfg),
        Err(p) => Err(p),
    }
}

/// What one meta does to the attributes of a field.
pub open spec fn with_field_meta(cfg: FieldView, meta: Meta, last: bool, record: bool) -> Result<
    FieldView,
    Seq<char>,
> {
    let name = meta.name@;
    if name == "rename"@ {
        match with_rename(cfg.names, meta.value, last) {
            Ok(names) => Ok(FieldView { names, ..cfg }),
            Err(p) => Err(p),
        }
    } else if name == "default"@ {
        match default_value(meta.value, last) {
            Ok(default) => Ok(FieldView { default, ..cfg }),
            Err(p) => Err(p),
        }
    } else if name == "flatten"@ {
        flagged(FieldView { flatten: true, ..cfg }, meta.value)
    } else if name == "skip"@ {
        flagged(FieldView { skip_decode: true, skip_encode: true, ..cfg }, meta.value)
    } else if name == "skip_serializing"@ {
        flagged(FieldView { skip_encode: true, ..cfg }, meta.value)
    } else if name == "skip_deserializing"@ {
        flagged(FieldView { skip_decode: true, ..cfg }, meta.value)
    } else if name == "skip_serializing_if"@ {
        match path_value(meta.value, last) {
            Ok(p) => Ok(FieldView { skip_if: Some(p), ..cfg }),
            Err(p) => Err(p),
        }
    } else if record && (name == "with"@ || name == "deserialize_with"@) {
        match path_value(meta.value, last) {
            Ok(p) => Ok(FieldView { with: Some(p), ..cfg }),
            Err(p) => Err(p),
        }
    } else if record && name == "key"@ {
        flagged(FieldView { key: true, ..cfg }, meta.value)
    } else if record && name == "crate_path"@ {
        Err("`crate_path` is a container-level attribute"@)
    } else if record {
        Err("unknown `record` attribute"@)
    } else {
        Ok(cfg)
    }
}

/// The first `n` metas of an attribute, in order; the first problem ends it.
pub open spec fn with_field_metas(cfg: FieldView, metas: Seq<Meta>, n: nat, record: bool) -> Result<
    FieldView,
    Seq<char>,
>
    decreases n,
{
    if n == 0 {
        Ok(cfg)
    } else {
        match with_field_metas(cfg, metas, (n - 1) as nat, record) {
            Ok(before) => with_field_meta(before, metas[n - 1], n == metas.len(), record),
            Err(p) => Err(p),
        }
    }
}

/// One attribute; those of other namespaces are not looked at.
pub open spec fn with_field_attr(cfg: FieldView, attr: Attribute) -> Result<FieldView, Seq<char>> {
    match attr.space {
        AttrSpace::Serde => with_field_metas(cfg, attr.metas@, attr.metas@.len(), false),
        AttrSpace::Record => with_field_metas(cfg, attr.metas@, attr.metas@.len(), true),
        AttrSpace::Other => Ok(cfg),
    }
}

/// The first `n` attributes of a field, in order; the first problem ends it.
pub open spec fn field_attrs(attrs: Seq<Attribute>, n: nat) -> Result<FieldView, Seq<char>>
    decreases n,
{
    if n == 0 {
        Ok(plain_field())
    } else {
        match field_attrs(attrs, (n - 1) as nat) {
            Ok(before) => with_field_attr(before, attrs[n - 1]),
            Err(p) => Err(p),
        }
    }
}

/// The attributes of a field.
pub open spec fn field_config(attrs: Seq<Attribute>) -> Result<FieldView, Seq<char>> {
    field_attrs(attrs, attrs.len())
}

proof fn lemma_field_metas_fail(cfg: FieldView, metas: Seq<Meta>, n: nat, m: nat, record: bool)
    requires
        n <= m,
        with_field_metas(cfg, metas, n, record) is Err,
    ensures
        with_field_metas(cfg, metas, m, record) == with_field_metas(cfg, metas, n, record),
    decreases m,
{
    if n < m {
        lemma_field_metas_fail(cfg, metas, n, (m - 1) as nat, record);
    }
}

proof fn lemma_field_attrs_fail(attrs: Seq<Attribute>, n: nat, m: nat)
    requires
        n <= m,
        field_attrs(attrs, n) is Err,
    ensures
        field_attrs(attrs, m) == field_attrs(attrs, n),
    decreases m,
{
    if n < m {
        lemma_field_attrs_fail(attrs, n, (m - 1) as nat);
    }
}

/// Whether an outcome is the stated one, for the attributes of a field.
pub open spec fn same_field(r: Result<FieldCfg, String>, stated: Result<FieldView, Seq<char>>) -> bool {
    match (r, stated) {
        (Ok(a), Ok(b)) => a@ == b,
        (Err(e), Err(p)) => e@ == p,
        _ => false,
    }
}

/// `default` and `default = "path"`.
fn parse_default(value: &MetaValue, last: bool) -> (r: Result<Fallback, String>)
    ensures
        match (r, default_value(*value, last)) {
            (Ok(a), Ok(b)) => a@ == b,
            (Err(e), Err(p)) => e@ == p,
            _ => false,
        },
{
    match value {
        MetaValue::Bare => Ok(Fallback::Default),
        MetaValue::Nested(_) => Err("expected `,`".to_owned()),
        _ => match path_of_value(value, last) {
            Ok(p) => Ok(Fallback::Path(p)),
            Err(e) => Err(e),
        },
    }
}

impl FieldCfg {
    /// The attributes of a field.
    pub fn parse(attrs: &Vec<Attribute>) -> (r: Result<Self, String>)
        ensures
            same_field(r, field_config(attrs@)),
    {
        let mut cfg = FieldCfg {
            rename: None,
            serialize_rename: None,
            default: Fallback::Required,
            with: None,
            skip_decode: false,
            skip_encode: false,
            skip_serializing_if: None,
            key: false,
            flatten: false,
        };
        for i in 0..attrs.len()
            invariant
                field_attrs(attrs@, i as nat) == Ok::<FieldView, Seq<char>>(cfg@),
        {
            let attr = &attrs[i];
            let parsed = match attr.space {
                AttrSpace::Serde => Self::parse_metas(cfg, &attr.metas, false),
                AttrSpace::Record => Self::parse_metas(cfg, &attr.metas, true),
                AttrSpace::Other => Ok(cfg),
            };
            match parsed {
                Ok(c) => {
                    cfg = c;
                },
                Err(e) => {
                    proof {
                        lemma_field_attrs_fail(attrs@, (i + 1) as nat, attrs@.len());
                    }
                    return Err(e);
                },
            }
        }
        Ok(cfg)
    }

    #[verifier::loop_isolation(false)]
    fn parse_metas(cfg: Self, metas: &Vec<Meta>, record_ns: bool) -> (r: Result<Self, String>)
        ensures
            same_field(r, with_field_metas(cfg@, metas@, metas@.len(), record_ns)),
    {
        let ghost start = cfg@;
        let mut now = cfg;
        for i in 0..metas.len()
            invariant
                with_field_metas(start, metas@, i as nat, record_ns) == Ok::<FieldView, Seq<char>>(
                    now@,
                ),
        {
            match Self::parse_meta(now, &metas[i], i + 1 == metas.len(), record_ns) {
                Ok(c) => {
                    now = c;
                },
                Err(e) => {
                    proof {
                        lemma_field_metas_fail(
                            start,
                            metas@,
                            (i + 1) as nat,
                            metas@.len(),
                            record_ns,
                        );
                    }
                    return Err(e);
                },
            }
        }
        Ok(now)
    }

    /// One meta. `record_ns` says which namespace it stands in, `last` whether it is the last
    /// of its list.
    pub fn parse_meta(cfg: Self, meta: &Meta, last: bool, record_ns: bool) -> (r: Result<
        Self,
        String,
    >)
        ensures
            same_field(r, with_field_meta(cfg@, *meta, last, record_ns)),
    {
        let mut cfg = cfg;
        let name = meta.name.as_str();
        if text::same(name, "rename") {
            let (read, written) = parse_rename(&meta.value, last, cfg.rename, cfg.serialize_rename)?;
            cfg.rename = read;
            cfg.serialize_rename = written;
        } else if text::same(name, "default") {
            cfg.default = parse_default(&meta.value, last)?;
        } else if text::same(name, "flatten") {
            flag_of_value(&meta.value)?;
            cfg.flatten = true;
        } else if text::same(name, "skip") {
            flag_of_value(&meta.value)?;
            cfg.skip_decode = true;
            cfg.skip_encode = true;
        } else if text::same(name, "skip_serializing") {
            flag_of_value(&meta.value)?;
            cfg.skip_encode = true;
        } else if text::same(name, "skip_deserializing") {
            flag_of_value(&meta.value)?;
            cfg.skip_decode = true;
        } else if text::same(name, "skip_serializing_if") {
            cfg.skip_serializing_if = Some(path_of_value(&meta.value, last)?);
        } else if record_ns && (text::same(name, "with") || text::same(name, "deserialize_with")) {
            cfg.with = Some(path_of_value(&meta.value, last)?);
        } else if record_ns && text::same(name, "key") {
            flag_of_value(&meta.value)?;
            cfg.key = true;
        } else if record_ns && text::same(name, "crate_path") {
            return Err("`crate_path` is a container-level attribute".to_owned());
        } else if record_ns {
            return Err("unknown `record` attribute".to_owned());
        }
        Ok(cfg)
    }
}

// ---------------------------------------------------------------------------
// Containers
// ---------------------------------------------------------------------------

/// The attributes of a struct or an enum.
#[derive(Debug)]
pub struct ContainerCfg {
    /// Where the generated code finds the runtime.
    pub crate_path: String,
    /// Names the fields of a struct and the variants of an enum.
    pub rename_all: Option<RenameRule>,
    /// Names the fields of an enum's variants.
    pub rename_all_fields: Option<RenameRule>,
    /// The discriminator key of an internally tagged enum.
    pub tag: Option<String>,
}

pub ghost struct ContainerView {
    pub crate_path: Seq<char>,
    pub rename_all: Option<RenameRule>,
    pub rename_all_fields: Option<RenameRule>,
    pub tag: Option<Seq<char>>,
}

impl View for ContainerCfg {
    type V = ContainerView;

    open spec fn view(&self) -> ContainerView {
        ContainerView {
            crate_path: self.crate_path@,
            rename_all: self.rename_all,
            rename_all_fields: self.rename_all_fields,
            tag: text::optional(self.tag),
        }
    }
}

/// A container without attributes.
pub open spec fn plain_container() -> ContainerView {
    ContainerView {
        crate_path: "::arcadedb_protocol"@,
        rename_all: None,
        rename_all_fields: None,
        tag: None,
    }
}

/// What is said of a `rename_all` rule that is none.
pub open spec fn unknown_rule(rule: Seq<char>) -> Seq<char> {
    "unknown rename_all rule `"@ + rule
        + "`; expected one of `lowercase`, `UPPERCASE`, `PascalCase`, `camelCase`, `snake_case`, `SCREAMING_SNAKE_CASE`, `kebab-case`, `SCREAMING-KEBAB-CASE`"@
}

/// `= "rule"`.
pub open spec fn rule_value(value: MetaValue, last: bool) -> Result<RenameRule, Seq<char>> {
    match text_value(value, last) {
        Ok(s) => match naming::rule_named(s) {
            Some(rule) => Ok(rule),
            None => Err(unknown_rule(s)),
        },
        Err(p) => Err(p),
    }
}

/// What one meta does to the attributes of a container.
pub open spec fn with_container_meta(
    cfg: ContainerView,
    meta: Meta,
    last: bool,
    record: bool,
) -> Result<ContainerView, Seq<char>> {
    let name = meta.name@;
    if record && name == "crate_path"@ {
        match path_value(meta.value, last) {
            Ok(crate_path) => Ok(ContainerView { crate_path, ..cfg }),
            Err(p) => Err(p),
        }
    } else if record {
        Err("unknown `record` container attribute"@)
    } else if name == "rename_all"@ {
        match rule_value(meta.value, last) {
            Ok(rule) => Ok(ContainerView { rename_all: Some(rule), ..cfg }),
            Err(p) => Err(p),
        }
    } else if name == "rename_all_fields"@ {
        match rule_value(meta.value, last) {
            Ok(rule) => Ok(ContainerView { rename_all_fields: Some(rule), ..cfg }),
            Err(p) => Err(p),
        }
    } else if name == "tag"@ {
        match text_value(meta.value, last) {
            Ok(tag) => Ok(ContainerView { tag: Some(tag), ..cfg }),
            Err(p) => Err(p),
        }
    } else {
        Ok(cfg)
    }
}

/// The first `n` metas of an attribute, in order; the first problem ends it.
pub open spec fn with_container_metas(
    cfg: ContainerView,
    metas: Seq<Meta>,
    n: nat,
    record: bool,
) -> Result<ContainerView, Seq<char>>
    decreases n,
{
    if n == 0 {
        Ok(cfg)
    } else {
        match with_container_metas(cfg, metas, (n - 1) as nat, record) {
            Ok(before) => with_container_meta(before, metas[n - 1], n == metas.len(), record),
            Err(p) => Err(p),
        }
    }
}

/// One attribute; those of other namespaces are not looked at.
pub open spec fn with_container_attr(cfg: ContainerView, attr: Attribute) -> Result<
    ContainerView,
    Seq<char>,
> {
    match attr.space {
        AttrSpace::Serde => with_container_metas(cfg, attr.metas@, attr.metas@.len(), false),
        AttrSpace::Record => with_container_metas(cfg, attr.metas@, attr.metas@.len(), true),
        AttrSpace::Other => Ok(cfg),
    }
}

/// The first `n` attributes of a container, in order; the first problem ends it.
pub open spec fn container_attrs(attrs: Seq<Attribute>, n: nat) -> Result<ContainerView, Seq<char>>
    decreases n,
{
    if n == 0 {
        Ok(plain_container())
    } else {
        match container_attrs(attrs, (n - 1) as nat) {
            Ok(before) => with_container_attr(before, attrs[n - 1]),
            Err(p) => Err(p),
        }
    }
}

/// The attributes of a container.
pub open spec fn container_config(attrs: Seq<Attribute>) -> Result<ContainerView, Seq<char>> {
    container_attrs(attrs, attrs.len())
}

proof fn lemma_container_metas_fail(
    cfg: ContainerView,
    metas: Seq<Meta>,
    n: nat,
    m: nat,
    record: bool,
)
    requires
        n <= m,
        with_container_metas(cfg, metas, n, record) is Err,
    ensures
        with_container_metas(cfg, metas, m, record) == with_container_metas(cfg, metas, n, record),
    decreases m,
{
    if n < m {
        lemma_container_metas_fail(cfg, metas, n, (m - 1) as nat, record);
    }
}

proof fn lemma_container_attrs_fail(attrs: Seq<Attribute>, n: nat, m: nat)
    requires
        n <= m,
        container_attrs(attrs, n) is Err,
    ensures
        container_attrs(attrs, m) == container_attrs(attrs, n),
    decreases m,
{
    if n < m {
        lemma_container_attrs_fail(attrs, n, (m - 1) as nat);
    }
}

/// Whether an outcome is the stated one, for the attributes of a container.
pub open spec fn same_container(
    r: Result<ContainerCfg, String>,
    stated: Result<ContainerView, Seq<char>>,
) -> bool {
    match (r, stated) {
        (Ok(a), Ok(b)) => a@ == b,
        (Err(e), Err(p)) => e@ == p,
        _ => false,
    }
}

fn rule_of_value(value: &MetaValue, last: bool) -> (r: Result<RenameRule, String>)
    ensures
        match (r, rule_value(*value, last)) {
            (Ok(a), Ok(b)) => a == b,
            (Err(e), Err(p)) => e@ == p,
            _ => false,
        },
{
    let s = text_of_value(value, last)?;
    match RenameRule::parse(s.as_str()) {
        Some(rule) => Ok(rule),
        None => {
            let mut e = "unknown rename_all rule `".to_owned();
            e.append(s.as_str());
            e.append(
                "`; expected one of `lowercase`, `UPPERCASE`, `PascalCase`, `camelCase`, `snake_case`, `SCREAMING_SNAKE_CASE`, `kebab-case`, `SCREAMING-KEBAB-CASE`",
            );
            Err(e)
        },
    }
}

impl ContainerCfg {
    /// The attributes of a struct or an enum.
    pub fn parse(attrs: &Vec<Attribute>) -> (r: Result<Self, String>)
        ensures
            same_container(r, container_config(attrs@)),
    {
        let mut cfg = ContainerCfg {
            crate_path: "::arcadedb_protocol".to_owned(),
            rename_all: None,
            rename_all_fields: None,
            tag: None,
        };
        for i in 0..attrs.len()
            invariant
                container_attrs(attrs@, i as nat) == Ok::<ContainerView, Seq<char>>(cfg@),
        {
            let attr = &attrs[i];
            let parsed = match attr.space {
                AttrSpace::Serde => Self::parse_metas(cfg, &attr.metas, false),
                AttrSpace::Record => Self::parse_metas(cfg, &attr.metas, true),
                AttrSpace::Other => Ok(cfg),
            };
            match parsed {
                Ok(c) => {
                    cfg = c;
                },
                Err(e) => {
                    proof {
                        lemma_container_attrs_fail(attrs@, (i + 1) as nat, attrs@.len());
                    }
                    return Err(e);
                },
            }
        }
        Ok(cfg)
    }

    #[verifier::loop_isolation(false)]
    fn parse_metas(cfg: Self, metas: &Vec<Meta>, record_ns: bool) -> (r: Result<Self, String>)
        ensures
            same_container(r, with_container_metas(cfg@, metas@, metas@.len(), record_ns)),
    {
        let ghost start = cfg@;
        let mut now = cfg;
        for i in 0..metas.len()
            invariant
                with_container_metas(start, metas@, i as nat, record_ns) == Ok::<
                    ContainerView,
                    Seq<char>,
                >(now@),
        {
            match Self::parse_meta(now, &metas[i], i + 1 == metas.len(), record_ns) {
                Ok(c) => {
                    now = c;
                },
                Err(e) => {
                    proof {
                        lemma_container_metas_fail(
                            start,
                            metas@,
                            (i + 1) as nat,
                            metas@.len(),
                            record_ns,
                        );
                    }
                    return Err(e);
                },
            }
        }
        Ok(now)
    }

    fn parse_meta(cfg: Self, meta: &Meta, last: bool, record_ns: bool) -> (r: Result<Self, String>)
        ensures
            same_container(r, with_container_meta(cfg@, *meta, last, record_ns)),
    {
        let mut cfg = cfg;
        let name = meta.name.as_str();
        if record_ns {
            if !text::same(name, "crate_path") {
                return Err("unknown `record` container attribute".to_owned());
            }
            cfg.crate_path = path_of_value(&meta.value, last)?;
        } else if text::same(name, "rename_all") {
            cfg.rename_all = Some(rule_of_value(&meta.value, last)?);
        } else if text::same(name, "rename_all_fields") {
            cfg.rename_all_fields = Some(rule_of_value(&meta.value, last)?);
        } else if text::same(name, "tag") {
            cfg.tag = Some(text_of_value(&meta.value, last)?);
        }
        Ok(cfg)
    }
}

// ---------------------------------------------------------------------------
// Variants
// ---------------------------------------------------------------------------

/// What one meta does to the names of a variant: only `rename` is looked at.
pub open spec fn with_variant_meta(names: Names, meta: Meta, last: bool) -> Result<Names, Seq<char>> {
    if meta.name@ == "rename"@ {
        with_rename(names, meta.value, last)
    } else {
        Ok(names)
    }
}

/// The first `n` metas of an attribute, in order; the first problem ends it.
pub open spec fn variant_metas(metas: Seq<Meta>, n: nat) -> Result<Names, Seq<char>>
    decreases n,
{
    if n == 0 {
        Ok(Names { read: None, written: None })
    } else {
        match variant_metas(metas, (n - 1) as nat) {
            Ok(before) => with_variant_meta(before, metas[n - 1], n == metas.len()),
            Err(p) => Err(p),
        }
    }
}

/// One side of a rename: the name that is read, or the name that is written, which is the
/// serializing side, else the other one.
pub open spec fn side(names: Names, written: bool) -> Option<Seq<char>> {
    if written && names.written is Some {
        names.written
    } else {
        names.read
    }
}

/// The name that the first `serde` attribute among `attrs[i..]` with a rename for that side
/// gives a variant. Attributes behind it are not read.
pub open spec fn variant_rename(attrs: Seq<Attribute>, i: nat, written: bool) -> Result<
    Option<Seq<char>>,
    Seq<char>,
>
    decreases attrs.len() - i,
{
    if i >= attrs.len() {
        Ok(None)
    } else if attrs[i as int].space == AttrSpace::Serde {
        match variant_metas(attrs[i as int].metas@, attrs[i as int].metas@.len()) {
            Ok(names) => if side(names, written) is Some {
                Ok(side(names, written))
            } else {
                variant_rename(attrs, i + 1, written)
            },
            Err(p) => Err(p),
        }
    } else {
        variant_rename(attrs, i + 1, written)
    }
}

/// The wire form of a variant, read or written: its rename for that side, else the container's
/// rule, else its own name.
pub open spec fn variant_wire(
    ident: Seq<char>,
    attrs: Seq<Attribute>,
    container: ContainerView,
    written: bool,
) -> Result<Seq<char>, Seq<char>> {
    match variant_rename(attrs, 0, written) {
        Ok(Some(r)) => Ok(r),
        Ok(None) => match container.rename_all {
            Some(rule) => Ok(naming::variant_name(rule, ident)),
            None => Ok(ident),
        },
        Err(p) => Err(p),
    }
}

proof fn lemma_variant_metas_fail(metas: Seq<Meta>, n: nat, m: nat)
    requires
        n <= m,
        variant_metas(metas, n) is Err,
    ensures
        variant_metas(metas, m) == variant_metas(metas, n),
    decreases m,
{
    if n < m {
        lemma_variant_metas_fail(metas, n, (m - 1) as nat);
    }
}

fn parse_variant_metas(metas: &Vec<Meta>, wanted: bool) -> (r: Result<Option<String>, String>)
    ensures
        match (r, variant_metas(metas@, metas@.len())) {
            (Ok(a), Ok(names)) => text::optional(a) == side(names, wanted),
            (Err(e), Err(p)) => e@ == p,
            _ => false,
        },
{
    let mut read: Option<String> = None;
    let mut written: Option<String> = None;
    for i in 0..metas.len()
        invariant
            variant_metas(metas@, i as nat) == Ok::<Names, Seq<char>>(
                Names { read: text::optional(read), written: text::optional(written) },
            ),
    {
        if text::same(metas[i].name.as_str(), "rename") {
            match parse_rename(&metas[i].value, i + 1 == metas.len(), read, written) {
                Ok(pair) => {
                    read = pair.0;
                    written = pair.1;
                },
                Err(e) => {
                    proof {
                        lemma_variant_metas_fail(metas@, (i + 1) as nat, metas@.len());
                    }
                    return Err(e);
                },
            }
        }
    }
    if wanted && written.is_some() {
        Ok(written)
    } else {
        Ok(read)
    }
}

/// The wire form of an enum variant: an explicit `#[serde(rename)]` wins, else the container's
/// rule, else the variant's name as it is. A two-sided rename is read by one side and `written`
/// by the other.
pub fn variant_wire_name(
    ident: &String,
    attrs: &Vec<Attribute>,
    container: &ContainerCfg,
    written: bool,
) -> (r: Result<String, String>)
    ensures
        same_text(r, variant_wire(ident@, attrs@, container@, written)),
{
    for i in 0..attrs.len()
        invariant
            variant_rename(attrs@, 0, written) == variant_rename(attrs@, i as nat, written),
    {
        if attrs[i].space == AttrSpace::Serde {
            let found = parse_variant_metas(&attrs[i].metas, written)?;
            if let Some(name) = found {
                return Ok(name);
            }
        }
    }
    match container.rename_all {
        Some(rule) => Ok(rule.apply_to_variant(ident.as_str())),
        None => Ok(ident.clone()),
    }
}

// ---------------------------------------------------------------------------
// Laws
// ---------------------------------------------------------------------------

/// What is said of an attribute's value that is not what it takes.
pub proof fn law_attribute_values_are_checked(value: MetaValue, last: bool)
    ensures
        value matches MetaValue::Text(p) ==> text_value(value, last) == Ok::<Seq<char>, Seq<char>>(
            p.text@,
        ) && flag_value(value) == Err::<(), Seq<char>>("expected `,`"@) && (path_value(
            value,
            last,
        ) is Ok <==> p.problem is None),
        value is Expr ==> text_value(value, last) == Err::<Seq<char>, Seq<char>>(
            "expected string literal"@,
        ),
        value is Bare ==> flag_value(value) is Ok && text_value(value, last) == Err::<
            Seq<char>,
            Seq<char>,
        >(
            if last {
                "unexpected end of input, "@ + "expected `=`"@
            } else {
                "expected `=`"@
            },
        ),
        value is Nested ==> text_value(value, last) == Err::<Seq<char>, Seq<char>>("expected `=`"@)
            && flag_value(value) is Err,
{
}

/// Attributes are taken in order, each in its own space: serde's without the record's names,
/// the record's with them, and others not at all. The first that is refused ends it.
pub proof fn law_attributes_are_taken_in_order(
    cfg: FieldView,
    container: ContainerView,
    attr: Attribute,
    metas: Seq<Meta>,
    n: nat,
    record: bool,
)
    requires
        0 < n <= metas.len(),
    ensures
        attr.space == AttrSpace::Other ==> with_field_attr(cfg, attr) == Ok::<
            FieldView,
            Seq<char>,
        >(cfg) && with_container_attr(container, attr) == Ok::<ContainerView, Seq<char>>(container),
        attr.space == AttrSpace::Serde ==> with_field_attr(cfg, attr) == with_field_metas(
            cfg,
            attr.metas@,
            attr.metas@.len(),
            false,
        ) && with_container_attr(container, attr) == with_container_metas(
            container,
            attr.metas@,
            attr.metas@.len(),
            false,
        ),
        attr.space == AttrSpace::Record ==> with_field_attr(cfg, attr) == with_field_metas(
            cfg,
            attr.metas@,
            attr.metas@.len(),
            true,
        ) && with_container_attr(container, attr) == with_container_metas(
            container,
            attr.metas@,
            attr.metas@.len(),
            true,
        ),
        with_field_metas(cfg, metas, 0, record) == Ok::<FieldView, Seq<char>>(cfg),
        with_field_metas(cfg, metas, n, record) == match with_field_metas(
            cfg,
            metas,
            (n - 1) as nat,
            record,
        ) {
            Ok(before) => with_field_meta(before, metas[n - 1], n == metas.len(), record),
            Err(p) => Err(p),
        },
        with_container_metas(container, metas, n, record) == match with_container_metas(
            container,
            metas,
            (n - 1) as nat,
            record,
        ) {
            Ok(before) => with_container_meta(before, metas[n - 1], n == metas.len(), record),
            Err(p) => Err(p),
        },
{
}

} // verus!
