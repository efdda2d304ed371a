//! The field types that the record derives know, and the wire kinds and schema column types
//! that they stand for.

use vstd::prelude::*;
use vstd::string::*;
use crate::text;

verus! {

// ---------------------------------------------------------------------------
// Type expressions
// ---------------------------------------------------------------------------

/// A Rust type as it is written on a field.
#[derive(Debug)]
pub enum TypeExpr {
    Path(TypePath),
    Reference(TypeRef),
    Slice(Box<TypeExpr>),
    Tuple(Vec<TypeExpr>),
    Paren(Box<TypeExpr>),
    Group(Box<TypeExpr>),
    /// Arrays, pointers, function types and whatever else maps onto no wire kind.
    Other,
}

/// `&elem`, with or without a named lifetime.
#[derive(Debug)]
pub struct TypeRef {
    pub lifetime: bool,
    pub elem: Box<TypeExpr>,
}

/// A path of one or more segments.
#[derive(Debug)]
pub struct TypePath {
    pub leading_colon: bool,
    pub init: Vec<PathSegment>,
    pub last: PathSegment,
}

#[derive(Debug)]
pub struct PathSegment {
    pub ident: String,
    pub args: PathArgs,
}

#[derive(Debug)]
pub enum PathArgs {
    Plain,
    Angle(Vec<GenericArg>),
    /// `Fn(A) -> B`.
    Paren,
}

#[derive(Debug)]
pub enum GenericArg {
    Lifetime,
    Type(TypeExpr),
    Other,
}

/// Whether `ty` is the bare identifier `name`: one segment, no arguments, no leading `::`.
pub open spec fn is_ident(ty: TypeExpr, name: Seq<char>) -> bool {
    match ty {
        TypeExpr::Path(p) => !p.leading_colon && p.init@.len() == 0 && p.last.args is Plain
            && p.last.ident@ == name,
        _ => false,
    }
}

/// The last argument of a segment, where that is a type.
pub open spec fn last_type(seg: PathSegment) -> Option<TypeExpr> {
    match seg.args {
        PathArgs::Angle(args) => if args@.len() > 0 {
            match args@.last() {
                GenericArg::Type(t) => Some(t),
                _ => None,
            }
        } else {
            None
        },
        _ => None,
    }
}

/// `inner` of `Option<inner>`, in any spelling of `Option`.
pub open spec fn inner_of_option(ty: TypeExpr) -> Option<TypeExpr> {
    match ty {
        TypeExpr::Path(p) => if p.last.ident@ == "Option"@ {
            last_type(p.last)
        } else {
            None
        },
        _ => None,
    }
}

/// `Vec<u8>`, in any spelling of `Vec`.
pub open spec fn is_vec_u8(ty: TypeExpr) -> bool {
    match ty {
        TypeExpr::Path(p) => p.last.ident@ == "Vec"@ && match last_type(p.last) {
            Some(t) => is_ident(t, "u8"@),
            None => false,
        },
        _ => false,
    }
}

/// `[u8]`.
pub open spec fn is_u8_slice(ty: TypeExpr) -> bool {
    match ty {
        TypeExpr::Slice(elem) => is_ident(*elem, "u8"@),
        _ => false,
    }
}

pub proof fn lemma_argument_is_smaller(ty: TypeExpr, p: TypePath, args: Vec<GenericArg>, i: int, t: TypeExpr)
    requires
        ty == TypeExpr::Path(p),
        p.last.args == PathArgs::Angle(args),
        0 <= i < args@.len(),
        args@[i] == GenericArg::Type(t),
    ensures
        decreases_to!(ty => t),
{
    assert(decreases_to!(ty => ty->Path_0));
    assert(decreases_to!(p => p.last));
    assert(decreases_to!(p.last => p.last.args));
    assert(decreases_to!(p.last.args => p.last.args->Angle_0));
    assert(decreases_to!(args => args@));
    assert(decreases_to!(args@ => args@[i]));
    assert(decreases_to!(args@[i] => args@[i]->Type_0));
}

/// Whether a type mentions a named lifetime anywhere in its arguments, references, tuple
/// elements or parentheses.
pub open spec fn has_lifetime(ty: TypeExpr) -> bool
    decreases ty,
{
    match ty {
        TypeExpr::Path(p) => some_segment_has_lifetime(p.init@) || segment_has_lifetime(p.last),
        TypeExpr::Reference(r) => r.lifetime || has_lifetime(*r.elem),
        TypeExpr::Tuple(elems) => some_type_has_lifetime(elems@),
        TypeExpr::Paren(elem) => has_lifetime(*elem),
        TypeExpr::Group(elem) => has_lifetime(*elem),
        _ => false,
    }
}

pub open spec fn some_segment_has_lifetime(segs: Seq<PathSegment>) -> bool
    decreases segs,
{
    exists|i: int| 0 <= i < segs.len() && segment_has_lifetime(#[trigger] segs[i])
}

pub open spec fn segment_has_lifetime(seg: PathSegment) -> bool
    decreases seg,
{
    match seg.args {
        PathArgs::Angle(args) => some_argument_has_lifetime(args@),
        _ => false,
    }
}

pub open spec fn some_argument_has_lifetime(args: Seq<GenericArg>) -> bool
    decreases args,
{
    exists|i: int| 0 <= i < args.len() && argument_has_lifetime(#[trigger] args[i])
}

pub open spec fn argument_has_lifetime(arg: GenericArg) -> bool
    decreases arg,
{
    match arg {
        GenericArg::Lifetime => true,
        GenericArg::Type(t) => has_lifetime(t),
        GenericArg::Other => false,
    }
}

pub open spec fn some_type_has_lifetime(types: Seq<TypeExpr>) -> bool
    decreases types,
{
    exists|i: int| 0 <= i < types.len() && has_lifetime(#[trigger] types[i])
}

// ---------------------------------------------------------------------------
// Classification
// ---------------------------------------------------------------------------

/// The types that the record derives support.
#[derive(Debug, PartialEq, Eq)]
pub enum DbType {
    /// `str`, `String`, `Cow<str>`.
    Str,
    /// `char`, encoded as a string of one character.
    Char,
    Bool,
    /// The wire's 32-bit family.
    Int32(Int32W),
    /// The wire's 64-bit family.
    Int64(Int64W),
    F32,
    F64,
    /// `Vec<u8>` and `Cow<[u8]>`.
    Bytes,
    /// A dynamic JSON value.
    Json,
    Link,
    DateTime,
    NaiveDate,
    Decimal,
    /// `Vec<T>`, `HashSet<T>`, `BTreeSet<T>`, `&[T]`: wire lists. Without an inner type the
    /// elements encode themselves.
    ListOf(Box<Option<DbType>>),
    /// `HashMap<String, T>`, `BTreeMap<String, T>`: wire maps.
    MapOf(Box<Option<DbType>>),
}

/// How an `i32` is had from the field.
#[derive(Debug, Clone, Copy, PartialEq, Eq, Structural)]
pub enum Int32W {
    /// An `i32` already.
    Direct,
    /// `i8`, `i16`, `u8`, `u16`.
    Widened,
}

/// How an `i64` is had from the field.
#[derive(Debug, Clone, Copy, PartialEq, Eq, Structural)]
pub enum Int64W {
    /// An `i64` already.
    Direct,
    FromU32,
    /// A `u64`, wrapped: the wire has no unsigned 64-bit kind.
    NarrowedU64,
}

/// `Foreign` types encode themselves.
#[derive(Debug, PartialEq, Eq)]
pub enum Classification {
    Known(DbType),
    Foreign,
}

/// The types without arguments, by name.
pub open spec fn scalar_named(name: Seq<char>) -> Option<DbType> {
    if name == "str"@ || name == "String"@ {
        Some(DbType::Str)
    } else if name == "char"@ {
        Some(DbType::Char)
    } else if name == "bool"@ {
        Some(DbType::Bool)
    } else if name == "i8"@ || name == "i16"@ || name == "u8"@ || name == "u16"@ {
        Some(DbType::Int32(Int32W::Widened))
    } else if name == "i32"@ {
        Some(DbType::Int32(Int32W::Direct))
    } else if name == "i64"@ {
        Some(DbType::Int64(Int64W::Direct))
    } else if name == "u32"@ {
        Some(DbType::Int64(Int64W::FromU32))
    } else if name == "u64"@ {
        Some(DbType::Int64(Int64W::NarrowedU64))
    } else if name == "f32"@ {
        Some(DbType::F32)
    } else if name == "f64"@ {
        Some(DbType::F64)
    } else if name == "Value"@ {
        Some(DbType::Json)
    } else if name == "Link"@ {
        Some(DbType::Link)
    } else if name == "DateTime"@ {
        Some(DbType::DateTime)
    } else if name == "NaiveDate"@ {
        Some(DbType::NaiveDate)
    } else if name == "Decimal"@ {
        Some(DbType::Decimal)
    } else {
        None
    }
}

pub open spec fn names_list(name: Seq<char>) -> bool {
    name == "Vec"@ || name == "HashSet"@ || name == "BTreeSet"@
}

pub open spec fn names_map(name: Seq<char>) -> bool {
    name == "HashMap"@ || name == "BTreeMap"@
}

/// The places of the type arguments among `args`, in order.
pub open spec fn type_places(args: Seq<GenericArg>) -> Seq<int>
    decreases args.len(),
{
    if args.len() == 0 {
        Seq::empty()
    } else if args.last() is Type {
        type_places(args.drop_last()).push(args.len() - 1)
    } else {
        type_places(args.drop_last())
    }
}

pub proof fn lemma_type_places(args: Seq<GenericArg>)
    ensures
        forall|i: int|
            0 <= i < type_places(args).len() ==> 0 <= (#[trigger] type_places(args)[i])
                < args.len() && args[type_places(args)[i]] is Type,
    decreases args.len(),
{
    if args.len() > 0 {
        lemma_type_places(args.drop_last());
    }
}

/// Where the value type of a map stands among the arguments of its segment, or what is wrong
/// with them: the first type must be `String`, the second is the value, and there is no third.
pub open spec fn map_value_place(seg: PathSegment) -> Result<int, Seq<char>> {
    match seg.args {
        PathArgs::Angle(args) => {
            let types = type_places(args@);
            if types.len() == 0 {
                Err("`map` needs a key type"@)
            } else if !is_ident(args@[types[0]]->Type_0, "String"@) {
                Err("RecordEncode: map keys must be `String` (the wire map is string-keyed)"@)
            } else if types.len() == 1 {
                Err("`map` needs a value type"@)
            } else if types.len() > 2 {
                Err("`map` expects exactly two type arguments"@)
            } else {
                Ok(types[1])
            }
        },
        _ => Err("`map` needs type arguments"@),
    }
}

/// The value type of a map.
pub open spec fn value_of_map(seg: PathSegment) -> Result<TypeExpr, Seq<char>> {
    match map_value_place(seg) {
        Ok(i) => Ok(seg.args->Angle_0@[i]->Type_0),
        Err(m) => Err(m),
    }
}

/// What is said of `what` where its argument is missing.
pub open spec fn needs_argument(what: Seq<char>) -> Seq<char> {
    "`"@ + what + "` needs a type argument"@
}

/// The element of a container: known, or foreign.
pub open spec fn element_of(c: Classification) -> Option<DbType> {
    match c {
        Classification::Known(db) => Some(db),
        Classification::Foreign => None,
    }
}

pub open spec fn list_of(c: Result<Classification, Seq<char>>) -> Result<Classification, Seq<char>> {
    match c {
        Ok(c) => Ok(Classification::Known(DbType::ListOf(Box::new(element_of(c))))),
        Err(m) => Err(m),
    }
}

pub open spec fn map_of(c: Result<Classification, Seq<char>>) -> Result<Classification, Seq<char>> {
    match c {
        Ok(c) => Ok(Classification::Known(DbType::MapOf(Box::new(element_of(c))))),
        Err(m) => Err(m),
    }
}

/// `Cow<str>` and `Cow<[u8]>`; nothing else may be in a `Cow`.
pub open spec fn classified_cow(seg: PathSegment) -> Result<Classification, Seq<char>> {
    match last_type(seg) {
        None => Err(needs_argument("Cow"@)),
        Some(inner) => if is_ident(inner, "str"@) {
            Ok(Classification::Known(DbType::Str))
        } else if is_u8_slice(inner) {
            Ok(Classification::Known(DbType::Bytes))
        } else {
            Err("RecordEncode: `Cow` fields must be `Cow<str>` or `Cow<[u8]>`"@)
        },
    }
}

/// What a field type stands for. References and `Option` are looked through, a slice is a
/// list, and a path goes by its last segment. A malformed use of a known family is an error.
pub open spec fn classified(ty: TypeExpr) -> Result<Classification, Seq<char>>
    decreases ty,
{
    match ty {
        TypeExpr::Reference(r) => classified(*r.elem),
        TypeExpr::Slice(elem) => list_of(classified(*elem)),
        TypeExpr::Path(p) => {
            let name = p.last.ident@;
            let inner = last_type(p.last);
            proof {
                if inner is Some {
                    let args = p.last.args->Angle_0;
                    lemma_argument_is_smaller(ty, p, args, args@.len() - 1, inner->Some_0);
                }
                if value_of_map(p.last) is Ok {
                    let args = p.last.args->Angle_0;
                    lemma_type_places(args@);
                    let i = map_value_place(p.last)->Ok_0;
                    lemma_argument_is_smaller(ty, p, args, i, args@[i]->Type_0);
                }
            }
            if name == "Option"@ && inner is Some {
                classified(inner->Some_0)
            } else if name == "Cow"@ {
                classified_cow(p.last)
            } else if scalar_named(name) is Some {
                Ok(Classification::Known(scalar_named(name)->Some_0))
            } else if names_list(name) {
                if is_vec_u8(ty) {
                    Ok(Classification::Known(DbType::Bytes))
                } else if inner is Some {
                    list_of(classified(inner->Some_0))
                } else {
                    Err(needs_argument("list container"@))
                }
            } else if names_map(name) {
                match value_of_map(p.last) {
                    Ok(value) => map_of(classified(value)),
                    Err(m) => Err(m),
                }
            } else {
                Ok(Classification::Foreign)
            }
        },
        _ => Ok(Classification::Foreign),
    }
}

/// The schema column type of a classified field; byte blobs, dynamic values and foreign
/// elements have none.
pub open spec fn rendered(db: DbType) -> Option<Seq<char>>
    decreases db,
{
    match db {
        DbType::Str => Some("STRING"@),
        DbType::Char => Some("STRING"@),
        DbType::Bool => Some("BOOLEAN"@),
        DbType::Int32(_) => Some("INTEGER"@),
        DbType::Int64(_) => Some("LONG"@),
        DbType::F32 => Some("FLOAT"@),
        DbType::F64 => Some("DOUBLE"@),
        DbType::Bytes => None,
        DbType::Json => None,
        DbType::Link => Some("LINK"@),
        DbType::DateTime => Some("DATETIME"@),
        DbType::NaiveDate => Some("DATE"@),
        DbType::Decimal => Some("DECIMAL"@),
        DbType::ListOf(inner) => match *inner {
            Some(elem) => match rendered(elem) {
                Some(s) => Some("LIST OF "@ + s),
                None => None,
            },
            None => None,
        },
        DbType::MapOf(_) => Some("MAP"@),
    }
}

/// The schema column type of a field type, where one is known.
pub open spec fn column_type(ty: TypeExpr) -> Option<Seq<char>> {
    match classified(ty) {
        Ok(Classification::Known(db)) => rendered(db),
        _ => None,
    }
}

// ---------------------------------------------------------------------------
// Executable side
// ---------------------------------------------------------------------------

/// Whether an outcome is the one that `spec` states.
pub open spec fn same_outcome<T>(r: Result<T, String>, stated: Result<T, Seq<char>>) -> bool {
    match (r, stated) {
        (Ok(a), Ok(b)) => a == b,
        (Err(e), Err(m)) => e@ == m,
        _ => false,
    }
}

/// Whether `ty` is the single, unqualified name `name`.
pub fn ident_is(ty: &TypeExpr, name: &str) -> (r: bool)
    ensures
        r == is_ident(*ty, name@),
{
    match ty {
        TypeExpr::Path(p) => {
            let plain = match p.last.args {
                PathArgs::Plain => true,
                _ => false,
            };
            !p.leading_colon && p.init.len() == 0 && plain && text::same(
                p.last.ident.as_str(),
                name,
            )
        },
        _ => false,
    }
}

fn last_argument(seg: &PathSegment) -> (r: Option<&TypeExpr>)
    ensures
        match r {
            Some(t) => last_type(*seg) == Some(*t),
            None => last_type(*seg) is None,
        },
{
    match &seg.args {
        PathArgs::Angle(args) => {
            let n = args.len();
            if n == 0 {
                return None;
            }
            match &args[n - 1] {
                GenericArg::Type(t) => Some(t),
                _ => None,
            }
        },
        _ => None,
    }
}

/// If `ty` is `Option<inner>` (any `Option` spelling), `inner`.
pub fn option_inner(ty: &TypeExpr) -> (r: Option<&TypeExpr>)
    ensures
        match r {
            Some(t) => inner_of_option(*ty) == Some(*t),
            None => inner_of_option(*ty) is None,
        },
{
    match ty {
        TypeExpr::Path(p) => if text::same(p.last.ident.as_str(), "Option") {
            last_argument(&p.last)
        } else {
            None
        },
        _ => None,
    }
}

/// Whether `ty` is `Vec<u8>` (any `Vec` spelling): such fields are byte blobs, not integer
/// lists.
pub fn vec_u8(ty: &TypeExpr) -> (r: bool)
    ensures
        r == is_vec_u8(*ty),
{
    match ty {
        TypeExpr::Path(p) => if text::same(p.last.ident.as_str(), "Vec") {
            match last_argument(&p.last) {
                Some(t) => ident_is(t, "u8"),
                None => false,
            }
        } else {
            false
        },
        _ => false,
    }
}

/// Whether `ty` is `[u8]`.
pub fn u8_slice(ty: &TypeExpr) -> (r: bool)
    ensures
        r == is_u8_slice(*ty),
{
    match ty {
        TypeExpr::Slice(elem) => ident_is(elem, "u8"),
        _ => false,
    }
}

/// The type argument of a container (`Vec<T>`, `Cow<T>`); `what` names it in the error.
pub fn container_inner<'a>(seg: &'a PathSegment, what: &str) -> (r: Result<&'a TypeExpr, String>)
    ensures
        match r {
            Ok(t) => last_type(*seg) == Some(*t),
            Err(e) => last_type(*seg) is None && e@ == needs_argument(what@),
        },
{
    match last_argument(seg) {
        Some(t) => Ok(t),
        None => {
            let mut e = "`".to_owned();
            e.append(what);
            e.append("` needs a type argument");
            Err(e)
        },
    }
}

/// The value type of a `HashMap<String, T>` or `BTreeMap<String, T>`: wire maps carry string
/// keys only.
pub fn map_value_type(seg: &PathSegment) -> (r: Result<&TypeExpr, String>)
    ensures
        match r {
            Ok(t) => value_of_map(*seg) == Ok::<TypeExpr, Seq<char>>(*t),
            Err(e) => value_of_map(*seg) == Err::<TypeExpr, Seq<char>>(e@),
        },
{
    match &seg.args {
        PathArgs::Angle(args) => {
            let mut key: Option<&TypeExpr> = None;
            let mut value: Option<&TypeExpr> = None;
            let mut more = false;
            assert(args@.take(0) =~= Seq::empty());
            for i in 0..args.len()
                invariant
                    match key {
                        Some(t) => type_places(args@.take(i as int)).len() >= 1 && *t
                            == args@[type_places(args@.take(i as int))[0]]->Type_0,
                        None => type_places(args@.take(i as int)).len() == 0,
                    },
                    match value {
                        Some(t) => type_places(args@.take(i as int)).len() >= 2 && *t
                            == args@[type_places(args@.take(i as int))[1]]->Type_0,
                        None => type_places(args@.take(i as int)).len() < 2,
                    },
                    more == (type_places(args@.take(i as int)).len() > 2),
            {
                let ghost head = args@.take(i + 1);
                assert(head.drop_last() =~= args@.take(i as int));
                assert(head.last() == args@[i as int]);
                if let GenericArg::Type(t) = &args[i] {
                    if key.is_none() {
                        key = Some(t);
                    } else if value.is_none() {
                        value = Some(t);
                    } else {
                        more = true;
                    }
                }
            }
            assert(args@.take(args@.len() as int) =~= args@);
            match key {
                None => Err("`map` needs a key type".to_owned()),
                Some(k) => if !ident_is(k, "String") {
                    Err(
                        "RecordEncode: map keys must be `String` (the wire map is string-keyed)".to_owned(),
                    )
                } else {
                    match value {
                        None => Err("`map` needs a value type".to_owned()),
                        Some(v) => if more {
                            Err("`map` expects exactly two type arguments".to_owned())
                        } else {
                            Ok(v)
                        },
                    }
                },
            }
        },
        _ => Err("`map` needs type arguments".to_owned()),
    }
}

/// Whether `ty` mentions a lifetime anywhere. Such a field cannot be the target of the
/// `@rid`/`@type` fallback, whose value would not outlive it.
pub fn type_has_lifetime(ty: &TypeExpr) -> (r: bool)
    ensures
        r == has_lifetime(*ty),
    decreases ty,
{
    match ty {
        TypeExpr::Path(p) => {
            for i in 0..p.init.len()
                invariant
                    *ty == TypeExpr::Path(*p),
                    forall|j: int|
                        0 <= j < i ==> !segment_has_lifetime(#[trigger] p.init@[j]),
            {
                assert(decreases_to!(*ty => ty->Path_0));
                assert(decreases_to!(p.init => p.init@));
                assert(decreases_to!(p.init@ => p.init@[i as int]));
                if segment_lifetime(&p.init[i]) {
                    assert(some_segment_has_lifetime(p.init@));
                    return true;
                }
            }
            assert(!some_segment_has_lifetime(p.init@));
            segment_lifetime(&p.last)
        },
        TypeExpr::Reference(re) => re.lifetime || type_has_lifetime(&re.elem),
        TypeExpr::Tuple(elems) => {
            for i in 0..elems.len()
                invariant
                    *ty == TypeExpr::Tuple(*elems),
                    forall|j: int| 0 <= j < i ==> !has_lifetime(#[trigger] elems@[j]),
            {
                assert(decreases_to!(*ty => ty->Tuple_0));
                assert(decreases_to!(elems => elems@));
                assert(decreases_to!(elems@ => elems@[i as int]));
                if type_has_lifetime(&elems[i]) {
                    assert(some_type_has_lifetime(elems@));
                    return true;
                }
            }
            assert(!some_type_has_lifetime(elems@));
            false
        },
        TypeExpr::Paren(elem) => type_has_lifetime(elem),
        TypeExpr::Group(elem) => type_has_lifetime(elem),
        _ => false,
    }
}

fn segment_lifetime(seg: &PathSegment) -> (r: bool)
    ensures
        r == segment_has_lifetime(*seg),
    decreases seg,
{
    match &seg.args {
        PathArgs::Angle(args) => {
            for i in 0..args.len()
                invariant
                    seg.args == PathArgs::Angle(*args),
                    forall|j: int|
                        0 <= j < i ==> !argument_has_lifetime(#[trigger] args@[j]),
            {
                assert(decreases_to!(seg => seg.args));
                assert(decreases_to!(seg.args => seg.args->Angle_0));
                assert(decreases_to!(args => args@));
                assert(decreases_to!(args@ => args@[i as int]));
                match &args[i] {
                    GenericArg::Lifetime => {
                        return true;
                    },
                    GenericArg::Type(t) => {
                        assert(decreases_to!(args@[i as int] => args@[i as int]->Type_0));
                        if type_has_lifetime(t) {
                            return true;
                        }
                    },
                    GenericArg::Other => {},
                }
            }
            false
        },
        _ => false,
    }
}

fn scalar(name: &str) -> (r: Option<DbType>)
    ensures
        r == scalar_named(name@),
{
    if text::same(name, "str") || text::same(name, "String") {
        Some(DbType::Str)
    } else if text::same(name, "char") {
        Some(DbType::Char)
    } else if text::same(name, "bool") {
        Some(DbType::Bool)
    } else if text::same(name, "i8") || text::same(name, "i16") || text::same(name, "u8")
        || text::same(name, "u16") {
        Some(DbType::Int32(Int32W::Widened))
    } else if text::same(name, "i32") {
        Some(DbType::Int32(Int32W::Direct))
    } else if text::same(name, "i64") {
        Some(DbType::Int64(Int64W::Direct))
    } else if text::same(name, "u32") {
        Some(DbType::Int64(Int64W::FromU32))
    } else if text::same(name, "u64") {
        Some(DbType::Int64(Int64W::NarrowedU64))
    } else if text::same(name, "f32") {
        Some(DbType::F32)
    } else if text::same(name, "f64") {
        Some(DbType::F64)
    } else if text::same(name, "Value") {
        Some(DbType::Json)
    } else if text::same(name, "Link") {
        Some(DbType::Link)
    } else if text::same(name, "DateTime") {
        Some(DbType::DateTime)
    } else if text::same(name, "NaiveDate") {
        Some(DbType::NaiveDate)
    } else if text::same(name, "Decimal") {
        Some(DbType::Decimal)
    } else {
        None
    }
}

/// The one matcher over field types: transparent wrappers first (references, slices as list
/// views, `Option`), then the last path segment.
pub fn classify(ty: &TypeExpr) -> (r: Result<Classification, String>)
    ensures
        same_outcome(r, classified(*ty)),
    decreases ty, 0int,
{
    match ty {
        TypeExpr::Reference(re) => classify(&re.elem),
        TypeExpr::Slice(elem) => {
            let inner = elem_classification(elem)?;
            Ok(Classification::Known(DbType::ListOf(Box::new(inner))))
        },
        TypeExpr::Path(p) => {
            let name = p.last.ident.as_str();
            let inner = last_argument(&p.last);
            proof {
                if inner is Some {
                    let args = p.last.args->Angle_0;
                    lemma_argument_is_smaller(*ty, *p, args, args@.len() - 1, *inner->Some_0);
                }
            }
            if text::same(name, "Option") {
                if let Some(t) = inner {
                    return classify(t);
                }
            }
            if text::same(name, "Cow") {
                let t = container_inner(&p.last, "Cow")?;
                if ident_is(t, "str") {
                    return Ok(Classification::Known(DbType::Str));
                }
                if u8_slice(t) {
                    return Ok(Classification::Known(DbType::Bytes));
                }
                return Err(
                    "RecordEncode: `Cow` fields must be `Cow<str>` or `Cow<[u8]>`".to_owned(),
                );
            }
            if let Some(db) = scalar(name) {
                return Ok(Classification::Known(db));
            }
            if text::same(name, "Vec") || text::same(name, "HashSet") || text::same(
                name,
                "BTreeSet",
            ) {
                if vec_u8(ty) {
                    return Ok(Classification::Known(DbType::Bytes));
                }
                let t = container_inner(&p.last, "list container")?;
                let elem = elem_classification(t)?;
                return Ok(Classification::Known(DbType::ListOf(Box::new(elem))));
            }
            if text::same(name, "HashMap") || text::same(name, "BTreeMap") {
                let t = map_value_type(&p.last)?;
                proof {
                    let args = p.last.args->Angle_0;
                    lemma_type_places(args@);
                    let i = map_value_place(p.last)->Ok_0;
                    lemma_argument_is_smaller(*ty, *p, args, i, *t);
                }
                let value = elem_classification(t)?;
                return Ok(Classification::Known(DbType::MapOf(Box::new(value))));
            }
            Ok(Classification::Foreign)
        },
        _ => Ok(Classification::Foreign),
    }
}

/// Classify the element or value type of a container: known, foreign (`None`) or malformed.
pub fn elem_classification(ty: &TypeExpr) -> (r: Result<Option<DbType>, String>)
    ensures
        match (r, classified(*ty)) {
            (Ok(e), Ok(c)) => e == element_of(c),
            (Err(e), Err(m)) => e@ == m,
            _ => false,
        },
    decreases ty, 1int,
{
    match classify(ty)? {
        Classification::Known(db) => Ok(Some(db)),
        Classification::Foreign => Ok(None),
    }
}

/// The schema column type, in the vocabulary of the drift check.
pub fn render(db: &DbType) -> (r: Option<String>)
    ensures
        text::optional(r) == rendered(*db),
    decreases db,
{
    match db {
        DbType::Str => Some("STRING".to_owned()),
        DbType::Char => Some("STRING".to_owned()),
        DbType::Bool => Some("BOOLEAN".to_owned()),
        DbType::Int32(_) => Some("INTEGER".to_owned()),
        DbType::Int64(_) => Some("LONG".to_owned()),
        DbType::F32 => Some("FLOAT".to_owned()),
        DbType::F64 => Some("DOUBLE".to_owned()),
        DbType::Bytes => None,
        DbType::Json => None,
        DbType::Link => Some("LINK".to_owned()),
        DbType::DateTime => Some("DATETIME".to_owned()),
        DbType::NaiveDate => Some("DATE".to_owned()),
        DbType::Decimal => Some("DECIMAL".to_owned()),
        DbType::ListOf(inner) => match &**inner {
            Some(elem) => match render(elem) {
                Some(s) => {
                    let mut out = "LIST OF ".to_owned();
                    out.append(s.as_str());
                    Some(out)
                },
                None => None,
            },
            None => None,
        },
        DbType::MapOf(_) => Some("MAP".to_owned()),
    }
}

/// The schema column type that a field of this type is expected to have, where one is known.
pub fn db_type_of(ty: &TypeExpr) -> (r: Option<String>)
    ensures
        text::optional(r) == column_type(*ty),
{
    match classify(ty) {
        Ok(Classification::Known(db)) => render(&db),
        _ => None,
    }
}

/// A map of texts has the type of its second argument for its values; other shapes are
/// refused.
pub proof fn law_maps_have_text_keys_and_one_value_type(
    seg: PathSegment,
    key: TypeExpr,
    value: TypeExpr,
)
    ensures
        (seg.args matches PathArgs::Angle(args) && args@ == seq![
            GenericArg::Type(key),
            GenericArg::Type(value),
        ]) ==> if is_ident(key, "String"@) {
            value_of_map(seg) == Ok::<TypeExpr, Seq<char>>(value)
        } else {
            value_of_map(seg) is Err
        },
        !(seg.args is Angle) ==> value_of_map(seg) is Err,
{
    if let PathArgs::Angle(args) = seg.args {
        let two = seq![GenericArg::Type(key), GenericArg::Type(value)];
        if args@ == two {
            reveal_with_fuel(type_places, 3);
            assert(two.drop_last() =~= seq![GenericArg::Type(key)]);
            assert(two.drop_last().drop_last() =~= Seq::empty());
            assert(type_places(two) =~= seq![0int, 1int]);
        }
    }
}

/// A reference with a lifetime has one, as has what holds a type or an argument that has; a
/// plain name has none.
pub proof fn law_lifetimes_are_found(ty: TypeExpr, i: int)
    ensures
        ty matches TypeExpr::Reference(r) ==> has_lifetime(ty) == (r.lifetime || has_lifetime(
            *r.elem,
        )),
        ty matches TypeExpr::Tuple(elems) ==> (0 <= i < elems@.len() && has_lifetime(elems@[i])
            ==> has_lifetime(ty)),
        ty matches TypeExpr::Paren(elem) ==> has_lifetime(ty) == has_lifetime(*elem),
        ty matches TypeExpr::Group(elem) ==> has_lifetime(ty) == has_lifetime(*elem),
        ty matches TypeExpr::Path(p) ==> (p.last.args matches PathArgs::Angle(args) && 0 <= i
            < args@.len() && (args@[i] is Lifetime || (args@[i] matches GenericArg::Type(t)
            && has_lifetime(t))) ==> has_lifetime(ty)),
        ty matches TypeExpr::Path(p) ==> (p.init@.len() == 0 && p.last.args is Plain
            ==> !has_lifetime(ty)),
{
    reveal_with_fuel(has_lifetime, 2);
    if let TypeExpr::Path(p) = ty {
        if let PathArgs::Angle(args) = p.last.args {
            if 0 <= i < args@.len() && (args@[i] is Lifetime || (args@[i] matches GenericArg::Type(
                t,
            ) && has_lifetime(t))) {
                assert(argument_has_lifetime(args@[i]));
                assert(some_argument_has_lifetime(args@));
                assert(segment_has_lifetime(p.last));
            }
        }
    }
    if let TypeExpr::Tuple(elems) = ty {
        if 0 <= i < elems@.len() && has_lifetime(elems@[i]) {
            assert(some_type_has_lifetime(elems@));
        }
    }
}

} // verus!
