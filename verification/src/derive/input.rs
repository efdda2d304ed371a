//! A row type as the derives see it, and where in it a refusal points.

use vstd::prelude::*;
use vstd::string::*;
use crate::text;
use crate::derive::attrs;
use crate::derive::attrs::Attribute;
use crate::derive::naming;
use crate::derive::naming::RenameRule;
use crate::derive::types::TypeExpr;

verus! {

#[derive(Debug)]
pub struct Field {
    /// Empty for the fields of a tuple struct.
    pub ident: String,
    pub ty: TypeExpr,
    pub attrs: Vec<Attribute>,
}

#[derive(Debug)]
pub enum Fields {
    Named(Vec<Field>),
    Unnamed(Vec<Field>),
    Unit,
}

#[derive(Debug)]
pub struct Variant {
    pub ident: String,
    pub attrs: Vec<Attribute>,
    pub fields: Fields,
}

#[derive(Debug)]
pub enum Shape {
    Struct(Fields),
    Enum(Vec<Variant>),
    Union,
}

#[derive(Debug)]
pub enum Param {
    Lifetime(String),
    /// A type or const parameter.
    Other,
}

/// The item that a derive stands on.
#[derive(Debug)]
pub struct RowType {
    pub ident: String,
    pub params: Vec<Param>,
    pub attrs: Vec<Attribute>,
    pub shape: Shape,
}

/// Where in a row type a refusal points.
#[derive(Debug, Clone, Copy, PartialEq, Eq, Structural)]
pub enum Place {
    Container,
    Field(usize),
    Variant(usize),
    VariantField(usize, usize),
}

/// Why a derive is refused.
#[derive(Debug, PartialEq, Eq)]
pub struct DeriveError {
    pub message: String,
    pub at: Place,
}

/// What a refusal says, and where it points.
pub ghost struct Refusal {
    pub message: Seq<char>,
    pub at: Place,
}

impl DeriveError {
    /// Whether this error is the stated refusal.
    pub open spec fn reports(self, r: Refusal) -> bool {
        self.message@ == r.message && self.at == r.at
    }
}

pub open spec fn refusal(message: Seq<char>, at: Place) -> Refusal {
    Refusal { message, at }
}

/// The wire name of a field: its rename, else the container's rule, else its own name.
pub open spec fn field_wire(
    ident: Seq<char>,
    rename: Option<Seq<char>>,
    rule: Option<RenameRule>,
) -> Seq<char> {
    match rename {
        Some(r) => r,
        None => match rule {
            Some(rule) => naming::field_name(rule, ident),
            None => ident,
        },
    }
}

/// The wire name of a field: its rename, else the container's rule, else its own name.
pub fn wire_name(ident: &String, rename: &Option<String>, rule: Option<RenameRule>) -> (r: String)
    ensures
        r@ == field_wire(ident@, text::optional(*rename), rule),
{
    match rename {
        Some(name) => name.clone(),
        None => match rule {
            Some(rule) => rule.apply_to_field(ident.as_str()),
            None => ident.clone(),
        },
    }
}

/// The lifetimes among the generic parameters, in order.
pub open spec fn lifetimes(params: Seq<Param>) -> Seq<Seq<char>>
    decreases params.len(),
{
    if params.len() == 0 {
        Seq::empty()
    } else {
        match params.last() {
            Param::Lifetime(l) => lifetimes(params.drop_last()).push(l@),
            Param::Other => lifetimes(params.drop_last()),
        }
    }
}

/// Whether a type or const parameter is among the generic parameters.
pub open spec fn has_other_param(params: Seq<Param>) -> bool {
    exists|i: int| 0 <= i < params.len() && (#[trigger] params[i]) is Other
}

/// The one lifetime that a row type may have, where it has no other parameters.
pub open spec fn checked_params(params: Seq<Param>, derive: Seq<char>) -> Result<
    Option<Seq<char>>,
    Refusal,
> {
    if lifetimes(params).len() > 1 {
        Err(refusal(derive + " supports at most one lifetime parameter"@, Place::Container))
    } else if has_other_param(params) {
        Err(refusal(derive + " does not support type/const generic parameters"@, Place::Container))
    } else if lifetimes(params).len() == 1 {
        Ok(Some(lifetimes(params)[0]))
    } else {
        Ok(None)
    }
}

fn refuse(derive: &str, what: &str) -> (e: DeriveError)
    ensures
        e.reports(refusal(derive@ + what@, Place::Container)),
{
    let mut message = derive.to_owned();
    message.append(what);
    DeriveError { message, at: Place::Container }
}

/// At most one lifetime parameter and no type or const parameters: the wire mapping is
/// concrete per type. `derive` is the name that refusals start with.
pub fn check_params(params: &Vec<Param>, derive: &str) -> (r: Result<Option<String>, DeriveError>)
    ensures
        match (r, checked_params(params@, derive@)) {
            (Ok(a), Ok(b)) => text::optional(a) == b,
            (Err(e), Err(p)) => e.reports(p),
            _ => false,
        },
{
    let mut found: Option<String> = None;
    let mut more = false;
    let mut other = false;
    assert(params@.take(0) =~= Seq::empty());
    for i in 0..params.len()
        invariant
            match found {
                Some(l) => lifetimes(params@.take(i as int)).len() >= 1 && l@ == lifetimes(
                    params@.take(i as int),
                )[0],
                None => lifetimes(params@.take(i as int)).len() == 0,
            },
            more == (lifetimes(params@.take(i as int)).len() > 1),
            other == exists|j: int| 0 <= j < i && (#[trigger] params@[j]) is Other,
    {
        let ghost head = params@.take(i + 1);
        assert(head.drop_last() =~= params@.take(i as int));
        assert(head.last() == params@[i as int]);
        match &params[i] {
            Param::Lifetime(l) => if found.is_none() {
                found = Some(l.clone());
            } else {
                more = true;
            },
            Param::Other => {
                other = true;
            },
        }
    }
    assert(params@.take(params@.len() as int) =~= params@);
    if more {
        return Err(refuse(derive, " supports at most one lifetime parameter"));
    }
    if other {
        return Err(refuse(derive, " does not support type/const generic parameters"));
    }
    Ok(found)
}

/// A row type may have one lifetime and no other parameter; the lifetime is handed on.
pub proof fn law_rows_have_at_most_one_lifetime(params: Seq<Param>, derive: Seq<char>)
    ensures
        checked_params(params, derive) is Ok <==> lifetimes(params).len() <= 1 && forall|i: int|
            0 <= i < params.len() ==> (#[trigger] params[i]) is Lifetime,
        checked_params(params, derive) matches Ok(l) ==> (l is None <==> lifetimes(params).len()
            == 0) && (l matches Some(name) ==> lifetimes(params) == seq![name]),
        lifetimes(params).len() > 1 ==> checked_params(params, derive) == Err::<
            Option<Seq<char>>,
            Refusal,
        >(
            Refusal {
                message: derive + " supports at most one lifetime parameter"@,
                at: Place::Container,
            },
        ),
{
    if checked_params(params, derive) is Ok {
        assert forall|i: int| 0 <= i < params.len() implies (#[trigger] params[i]) is Lifetime by {
            assert(!(params[i] is Other));
        }
        if lifetimes(params).len() == 1 {
            assert(lifetimes(params) =~= seq![lifetimes(params)[0]]);
        }
    }
}

} // verus!
