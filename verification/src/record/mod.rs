//! Typed access to record properties: decode errors, record ids, the conversion traits and
//! the property getters.

pub mod access;
pub mod convert;
pub mod derived;
pub mod laws;
pub mod link;
pub mod rows;

use vstd::prelude::*;
use vstd::string::*;
use crate::wire::{Kind, KindView};

pub use access::{
    from_map_via_value, get, get_bytes, get_bytes_or, get_opt, get_opt_bytes, get_opt_with, get_or,
    get_with, get_with_or, visible, DecodeFromMap,
};
pub use convert::{set_elements, FromGrpcValue, Number, Real32, Real64};
pub use link::Link;
pub use rows::{changed_param_map, props_diff, ToGrpcRecord};

verus! {

// ---------------------------------------------------------------------------
// Errors
// ---------------------------------------------------------------------------

/// A decode failure for one property. It carries the property path: dotted for nested
/// records, `list[3]` for elements.
#[derive(Debug, PartialEq, Eq)]
#[non_exhaustive]
pub enum RecordDecodeError {
    /// The property is absent and the field is neither optional nor defaulted.
    MissingField {
        /// Path of the missing property.
        path: String,
    },
    /// The value kind did not match the target type, or the payload could not convert.
    TypeMismatch {
        /// Property path; empty when raised deep inside a list or an embedded record.
        path: String,
        /// The target type, as in `"i32"`.
        expected: &'static str,
        /// The wire kind, as in `"int64"`.
        actual: &'static str,
    },
    /// Anything else: an unknown variant, a custom conversion, an invalid payload.
    Conversion { message: String },
}

/// What a decode error says.
pub enum ErrorView {
    MissingField(Seq<char>),
    TypeMismatch(Seq<char>, Seq<char>, Seq<char>),
    Conversion(Seq<char>),
}

impl View for RecordDecodeError {
    type V = ErrorView;

    open spec fn view(&self) -> ErrorView {
        match self {
            RecordDecodeError::MissingField { path } => ErrorView::MissingField(path@),
            RecordDecodeError::TypeMismatch { path, expected, actual } => ErrorView::TypeMismatch(
                path@,
                expected@,
                actual@,
            ),
            RecordDecodeError::Conversion { message } => ErrorView::Conversion(message@),
        }
    }
}

impl Clone for RecordDecodeError {
    fn clone(&self) -> (r: Self)
        ensures
            r@ == self@,
    {
        match self {
            RecordDecodeError::MissingField { path } => {
                RecordDecodeError::MissingField { path: path.clone() }
            },
            RecordDecodeError::TypeMismatch { path, expected, actual } => {
                RecordDecodeError::TypeMismatch { path: path.clone(), expected, actual }
            },
            RecordDecodeError::Conversion { message } => {
                RecordDecodeError::Conversion { message: message.clone() }
            },
        }
    }
}

/// `path` below the property `field`.
pub open spec fn below(field: Seq<char>, path: Seq<char>) -> Seq<char> {
    if path.len() == 0 {
        field
    } else {
        field + "."@ + path
    }
}

/// The error `e`, raised while decoding the property `field`.
pub open spec fn in_field(e: ErrorView, field: Seq<char>) -> ErrorView {
    match e {
        ErrorView::MissingField(path) => ErrorView::MissingField(below(field, path)),
        ErrorView::TypeMismatch(path, expected, actual) => ErrorView::TypeMismatch(
            below(field, path),
            expected,
            actual,
        ),
        ErrorView::Conversion(message) => ErrorView::Conversion(
            "field `"@ + field + "`: "@ + message,
        ),
    }
}

/// A kind mismatch without a property path.
pub open spec fn mismatch(expected: Seq<char>, actual: Seq<char>) -> ErrorView {
    ErrorView::TypeMismatch(Seq::empty(), expected, actual)
}

/// How an error reads.
pub open spec fn error_text(e: ErrorView) -> Seq<char> {
    match e {
        ErrorView::MissingField(path) => "missing property `"@ + path + "`"@,
        ErrorView::TypeMismatch(path, expected, actual) => if path.len() == 0 {
            "expected "@ + expected + ", got "@ + actual
        } else {
            "property `"@ + path + "`: expected "@ + expected + ", got "@ + actual
        },
        ErrorView::Conversion(message) => message,
    }
}

fn path_below(field: &str, path: String) -> (r: String)
    ensures
        r@ == below(field@, path@),
{
    if path.as_str().is_empty() {
        field.to_owned()
    } else {
        let mut out = field.to_owned();
        out.append(".");
        out.append(path.as_str());
        out
    }
}

impl RecordDecodeError {
    /// The property `field` is missing.
    pub fn missing_field(field: &str) -> (e: Self)
        ensures
            e@ == ErrorView::MissingField(field@),
    {
        RecordDecodeError::MissingField { path: field.to_owned() }
    }

    /// A kind mismatch without a property path.
    pub fn type_mismatch(expected: &'static str, actual: &'static str) -> (e: Self)
        ensures
            e@ == mismatch(expected@, actual@),
    {
        RecordDecodeError::TypeMismatch { path: String::new(), expected, actual }
    }

    /// A free-form conversion error.
    pub fn conversion(message: &str) -> (e: Self)
        ensures
            e@ == ErrorView::Conversion(message@),
    {
        RecordDecodeError::Conversion { message: message.to_owned() }
    }

    /// An unknown variant name.
    pub fn unknown_variant(variant: &str) -> (e: Self)
        ensures
            e@ == ErrorView::Conversion("unknown variant `"@ + variant@ + "`"@),
    {
        let mut message = String::new();
        message.append("unknown variant `");
        message.append(variant);
        message.append("`");
        assert(message@ =~= "unknown variant `"@ + variant@ + "`"@);
        RecordDecodeError::Conversion { message }
    }

    /// This error, raised while decoding the property `field`.
    pub fn with_field(self, field: &str) -> (e: Self)
        ensures
            e@ == in_field(self@, field@),
    {
        match self {
            RecordDecodeError::MissingField { path } => {
                RecordDecodeError::MissingField { path: path_below(field, path) }
            },
            RecordDecodeError::TypeMismatch { path, expected, actual } => {
                RecordDecodeError::TypeMismatch { path: path_below(field, path), expected, actual }
            },
            RecordDecodeError::Conversion { message } => {
                let mut out = String::new();
                out.append("field `");
                out.append(field);
                out.append("`: ");
                out.append(message.as_str());
                assert(out@ =~= "field `"@ + field@ + "`: "@ + message@);
                RecordDecodeError::Conversion { message: out }
            },
        }
    }

    /// The error in words.
    pub fn to_string(&self) -> (r: String)
        ensures
            r@ == error_text(self@),
    {
        match self {
            RecordDecodeError::MissingField { path } => {
                let mut out = String::new();
                out.append("missing property `");
                out.append(path.as_str());
                out.append("`");
                assert(out@ =~= error_text(self@));
                out
            },
            RecordDecodeError::TypeMismatch { path, expected, actual } => {
                let mut out = String::new();
                if !path.as_str().is_empty() {
                    out.append("property `");
                    out.append(path.as_str());
                    out.append("`: expected ");
                } else {
                    out.append("expected ");
                }
                out.append(expected);
                out.append(", got ");
                out.append(actual);
                assert(out@ =~= error_text(self@));
                out
            },
            RecordDecodeError::Conversion { message } => message.clone(),
        }
    }
}

// ---------------------------------------------------------------------------
// Kind names
// ---------------------------------------------------------------------------

/// The name of a payload kind; `null` when the payload is unset.
pub open spec fn kind_text(kind: Option<KindView>) -> Seq<char> {
    match kind {
        None => "null"@,
        Some(k) => match k {
            KindView::Bool(_) => "bool"@,
            KindView::Int32(_) => "int32"@,
            KindView::Int64(_) => "int64"@,
            KindView::Float(_) => "float"@,
            KindView::Double(_) => "double"@,
            KindView::Text(_) => "string"@,
            KindView::Bytes(_) => "bytes"@,
            KindView::Time(_) => "timestamp"@,
            KindView::List(_) => "list"@,
            KindView::Entries(_) => "map"@,
            KindView::Embedded(_, _) => "embedded"@,
            KindView::Link(_, _) => "link"@,
            KindView::Decimal(_, _, _) => "decimal"@,
        },
    }
}

/// What an optional payload says.
pub open spec fn kind_of(kind: Option<Kind>) -> Option<KindView> {
    match kind {
        None => None,
        Some(k) => Some(k@),
    }
}

/// The name of a payload kind; `null` when the payload is unset.
pub fn kind_name(kind: &Option<Kind>) -> (r: &'static str)
    ensures
        r@ == kind_text(kind_of(*kind)),
{
    match kind {
        None => "null",
        Some(Kind::BoolValue(_)) => "bool",
        Some(Kind::Int32Value(_)) => "int32",
        Some(Kind::Int64Value(_)) => "int64",
        Some(Kind::FloatValue(_)) => "float",
        Some(Kind::DoubleValue(_)) => "double",
        Some(Kind::StringValue(_)) => "string",
        Some(Kind::BytesValue(_)) => "bytes",
        Some(Kind::TimestampValue(_)) => "timestamp",
        Some(Kind::ListValue(_)) => "list",
        Some(Kind::MapValue(_)) => "map",
        Some(Kind::EmbeddedValue(_)) => "embedded",
        Some(Kind::LinkValue(_)) => "link",
        Some(Kind::DecimalValue(_)) => "decimal",
    }
}

// ---------------------------------------------------------------------------
// Laws
// ---------------------------------------------------------------------------

/// An error in a field names the field in front of its own path; the message of a conversion
/// names the field.
pub proof fn law_errors_name_the_field(e: ErrorView, field: Seq<char>)
    ensures
        e matches ErrorView::MissingField(path) ==> in_field(e, field) == ErrorView::MissingField(
            if path.len() == 0 {
                field
            } else {
                field + "."@ + path
            },
        ),
        e matches ErrorView::TypeMismatch(path, expected, actual) ==> in_field(e, field)
            == ErrorView::TypeMismatch(
            if path.len() == 0 {
                field
            } else {
                field + "."@ + path
            },
            expected,
            actual,
        ),
        e matches ErrorView::Conversion(message) ==> in_field(e, field) == ErrorView::Conversion(
            "field `"@ + field + "`: "@ + message,
        ),
{
}

/// What a decode error says to a reader.
pub proof fn law_decode_errors_say_what_is_wrong(path: Seq<char>, a: Seq<char>, b: Seq<char>)
    ensures
        error_text(ErrorView::MissingField(path)) == "missing property `"@ + path + "`"@,
        error_text(mismatch(a, b)) == "expected "@ + a + ", got "@ + b,
        path.len() > 0 ==> error_text(ErrorView::TypeMismatch(path, a, b)) == "property `"@ + path
            + "`: expected "@ + a + ", got "@ + b,
        error_text(ErrorView::Conversion(a)) == a,
{
}

/// Every kind goes by its own name.
pub proof fn law_kinds_have_their_names(k: KindView)
    ensures
        kind_text(None) == "null"@,
        k is Bool ==> kind_text(Some(k)) == "bool"@,
        k is Int32 ==> kind_text(Some(k)) == "int32"@,
        k is Int64 ==> kind_text(Some(k)) == "int64"@,
        k is Float ==> kind_text(Some(k)) == "float"@,
        k is Double ==> kind_text(Some(k)) == "double"@,
        k is Text ==> kind_text(Some(k)) == "string"@,
        k is Bytes ==> kind_text(Some(k)) == "bytes"@,
        k is Time ==> kind_text(Some(k)) == "timestamp"@,
        k is List ==> kind_text(Some(k)) == "list"@,
        k is Entries ==> kind_text(Some(k)) == "map"@,
        k is Embedded ==> kind_text(Some(k)) == "embedded"@,
        k is Link ==> kind_text(Some(k)) == "link"@,
        k is Decimal ==> kind_text(Some(k)) == "decimal"@,
{
}

/// A decode error is seen as what it is.
pub proof fn law_decode_errors_are_seen_as_they_are(e: RecordDecodeError)
    ensures
        e matches RecordDecodeError::MissingField { path } ==> e@ == ErrorView::MissingField(path@),
        e matches RecordDecodeError::TypeMismatch { path, expected, actual } ==> e@
            == ErrorView::TypeMismatch(path@, expected@, actual@),
        e matches RecordDecodeError::Conversion { message } ==> e@ == ErrorView::Conversion(
            message@,
        ),
{
}

} // verus!
