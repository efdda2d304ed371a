//! The client-facing error: what failed, in which category, and with which gRPC status.

use vstd::prelude::*;
use vstd::string::*;
use crate::record;
use crate::record::RecordDecodeError;
use crate::text;

verus! {

// ---------------------------------------------------------------------------
// Status
// ---------------------------------------------------------------------------

/// A gRPC status code.
#[derive(Debug, Clone, Copy, PartialEq, Eq, Structural)]
pub enum Code {
    /// `OK`.
    Success,
    Cancelled,
    Unknown,
    InvalidArgument,
    DeadlineExceeded,
    NotFound,
    AlreadyExists,
    PermissionDenied,
    ResourceExhausted,
    FailedPrecondition,
    Aborted,
    OutOfRange,
    Unimplemented,
    Internal,
    Unavailable,
    DataLoss,
    Unauthenticated,
}

impl Code {
    /// The number of the code on the wire.
    pub open spec fn number(self) -> i32 {
        match self {
            Code::Success => 0,
            Code::Cancelled => 1,
            Code::Unknown => 2,
            Code::InvalidArgument => 3,
            Code::DeadlineExceeded => 4,
            Code::NotFound => 5,
            Code::AlreadyExists => 6,
            Code::PermissionDenied => 7,
            Code::ResourceExhausted => 8,
            Code::FailedPrecondition => 9,
            Code::Aborted => 10,
            Code::OutOfRange => 11,
            Code::Unimplemented => 12,
            Code::Internal => 13,
            Code::Unavailable => 14,
            Code::DataLoss => 15,
            Code::Unauthenticated => 16,
        }
    }

    /// The number of the code on the wire.
    pub fn as_i32(self) -> (n: i32)
        ensures
            n == self.number(),
    {
        match self {
            Code::Success => 0,
            Code::Cancelled => 1,
            Code::Unknown => 2,
            Code::InvalidArgument => 3,
            Code::DeadlineExceeded => 4,
            Code::NotFound => 5,
            Code::AlreadyExists => 6,
            Code::PermissionDenied => 7,
            Code::ResourceExhausted => 8,
            Code::FailedPrecondition => 9,
            Code::Aborted => 10,
            Code::OutOfRange => 11,
            Code::Unimplemented => 12,
            Code::Internal => 13,
            Code::Unavailable => 14,
            Code::DataLoss => 15,
            Code::Unauthenticated => 16,
        }
    }

    /// The code with a number; an unassigned number is `Unknown`.
    pub fn from_i32(n: i32) -> (c: Self)
        ensures
            0 <= n <= 16 ==> c.number() == n,
            !(0 <= n <= 16) ==> c == Code::Unknown,
    {
        match n {
            0 => Code::Success,
            1 => Code::Cancelled,
            2 => Code::Unknown,
            3 => Code::InvalidArgument,
            4 => Code::DeadlineExceeded,
            5 => Code::NotFound,
            6 => Code::AlreadyExists,
            7 => Code::PermissionDenied,
            8 => Code::ResourceExhausted,
            9 => Code::FailedPrecondition,
            10 => Code::Aborted,
            11 => Code::OutOfRange,
            12 => Code::Unimplemented,
            13 => Code::Internal,
            14 => Code::Unavailable,
            15 => Code::DataLoss,
            16 => Code::Unauthenticated,
            _ => Code::Unknown,
        }
    }
}

/// The outcome of a failed RPC, as the transport reports it.
#[derive(Debug, PartialEq, Eq)]
pub struct Status {
    pub code: Code,
    /// The server's message.
    pub message: String,
    /// The server's binary details.
    pub details: Vec<u8>,
    /// The names and values of the metadata that came with it, in order.
    pub metadata: Vec<(String, Vec<u8>)>,
    /// The error behind a failure on this side, in debug form.
    pub source: Option<String>,
}

pub ghost struct StatusView {
    pub code: Code,
    pub message: Seq<char>,
    pub details: Seq<u8>,
    pub metadata: Seq<(Seq<char>, Seq<u8>)>,
    pub source: Option<Seq<char>>,
}

impl View for Status {
    type V = StatusView;

    open spec fn view(&self) -> StatusView {
        StatusView {
            code: self.code,
            message: self.message@,
            details: self.details@,
            metadata: Seq::new(
                self.metadata@.len(),
                |i: int| (self.metadata@[i].0@, self.metadata@[i].1@),
            ),
            source: text::optional(self.source),
        }
    }
}

impl Status {
    /// A status with nothing but a code and a message.
    pub fn new(code: Code, message: &str) -> (s: Self)
        ensures
            s@ == (StatusView {
                code,
                message: message@,
                details: Seq::empty(),
                metadata: Seq::empty(),
                source: None,
            }),
    {
        let s = Status {
            code,
            message: message.to_owned(),
            details: Vec::new(),
            metadata: Vec::new(),
            source: None,
        };
        assert(s@.details =~= Seq::empty());
        assert(s@.metadata =~= Seq::empty());
        s
    }
}

/// How a status reads: as `tonic` renders its code and message, with the error behind it where
/// there is one. Details and metadata are not shown.
pub open spec fn shown(s: StatusView) -> Seq<char> {
    match s.source {
        None => status_text(s.code.number(), s.message),
        Some(source) => status_text(s.code.number(), s.message) + ", source: "@ + source,
    }
}

/// How `tonic` renders a status with this code number and message and no error behind it.
pub uninterp spec fn status_text(code: i32, message: Seq<char>) -> Seq<char>;

/// `tonic::Status` made of a code and a message, displayed: a function of the two.
#[verifier::external_body]
fn render_status(code: i32, message: &str) -> (r: String)
    ensures
        r@ == status_text(code, message@),
{
    tonic::Status::new(tonic::Code::from_i32(code), message).to_string()
}

impl Status {
    /// The status in words.
    pub fn to_string(&self) -> (r: String)
        ensures
            r@ == shown(self@),
    {
        let mut s = render_status(self.code.as_i32(), self.message.as_str());
        if let Some(source) = &self.source {
            s.append(", source: ");
            s.append(source.as_str());
        }
        s
    }
}

// ---------------------------------------------------------------------------
// Errors
// ---------------------------------------------------------------------------

/// The error of all client operations, by failure category.
#[derive(Debug)]
#[non_exhaustive]
#[allow(inconsistent_fields)]
pub enum ArcadeDbError {
    /// The connect retries are exhausted. `source` is the last transport error, where an
    /// attempt got that far.
    Connect { addr: String, attempts: u32, source: Option<String> },
    /// The endpoint is no URI; `source` says why.
    InvalidEndpoint { addr: String, source: String },
    /// A call failed at the status layer. `detail` is its subject: the SQL text, a rid, a
    /// name, or nothing.
    Rpc { operation: String, detail: String, status: Status },
    /// The server refused because the target already exists.
    AlreadyExists { what: String, message: String },
    /// The server answered `success = false`.
    CommandFailed { operation: String, message: String, affected: Option<i64> },
    /// A returned record did not decode.
    Decode { what: String, source: RecordDecodeError },
    /// A read that needs a row found none.
    NotFound { operation: String, detail: String },
    /// Refused before it reached the wire.
    InvalidInput { message: String },
}

/// What an error says.
pub ghost enum FailureView {
    Connect(Seq<char>, u32, Option<Seq<char>>),
    InvalidEndpoint(Seq<char>, Seq<char>),
    Rpc(Seq<char>, Seq<char>, StatusView),
    AlreadyExists(Seq<char>, Seq<char>),
    CommandFailed(Seq<char>, Seq<char>, Option<i64>),
    Decode(Seq<char>, record::ErrorView),
    NotFound(Seq<char>, Seq<char>),
    InvalidInput(Seq<char>),
}

impl View for ArcadeDbError {
    type V = FailureView;

    open spec fn view(&self) -> FailureView {
        match self {
            ArcadeDbError::Connect { addr, attempts, source } => FailureView::Connect(
                addr@,
                *attempts,
                text::optional(*source),
            ),
            ArcadeDbError::InvalidEndpoint { addr, source } => FailureView::InvalidEndpoint(
                addr@,
                source@,
            ),
            ArcadeDbError::Rpc { operation, detail, status } => FailureView::Rpc(
                operation@,
                detail@,
                status@,
            ),
            ArcadeDbError::AlreadyExists { what, message } => FailureView::AlreadyExists(
                what@,
                message@,
            ),
            ArcadeDbError::CommandFailed { operation, message, affected } => {
                FailureView::CommandFailed(operation@, message@, *affected)
            },
            ArcadeDbError::Decode { what, source } => FailureView::Decode(what@, source@),
            ArcadeDbError::NotFound { operation, detail } => FailureView::NotFound(
                operation@,
                detail@,
            ),
            ArcadeDbError::InvalidInput { message } => FailureView::InvalidInput(message@),
        }
    }
}

/// The status code that an error carries.
pub open spec fn code_of(e: FailureView) -> Option<Code> {
    match e {
        FailureView::Rpc(_, _, status) => Some(status.code),
        _ => None,
    }
}

/// The server's own message, where an error carries one.
pub open spec fn message_of(e: FailureView) -> Option<Seq<char>> {
    match e {
        FailureView::Rpc(_, _, status) => Some(status.message),
        FailureView::CommandFailed(_, message, _) => Some(message),
        FailureView::AlreadyExists(_, message) => Some(message),
        _ => None,
    }
}

/// How an error reads.
pub open spec fn failure_text(e: FailureView) -> Seq<char> {
    match e {
        FailureView::Connect(addr, attempts, _) => "failed to connect to ArcadeDB gRPC at "@ + addr
            + " after "@ + text::decimal(attempts as int) + " attempts"@,
        FailureView::InvalidEndpoint(addr, _) => "invalid gRPC endpoint "@ + addr,
        FailureView::Rpc(operation, detail, status) => operation + " failed: "@ + shown(status)
            + " (in: "@ + detail + ")"@,
        FailureView::AlreadyExists(what, message) => what + ": "@ + message,
        FailureView::CommandFailed(_, message, _) => "command failed: "@ + message,
        FailureView::Decode(what, _) => "decode "@ + what,
        FailureView::NotFound(operation, detail) => "no rows returned by "@ + operation
            + " (expected at least one: "@ + detail + ")"@,
        FailureView::InvalidInput(message) => message,
    }
}

impl ArcadeDbError {
    /// The gRPC status code; only a failed RPC has one.
    pub fn code(&self) -> (r: Option<Code>)
        ensures
            r == code_of(self@),
    {
        match self {
            ArcadeDbError::Rpc { operation: _, detail: _, status } => Some(status.code),
            _ => None,
        }
    }

    /// The server's own message: failed RPCs, failed commands and existing targets have one.
    pub fn server_message(&self) -> (r: Option<&str>)
        ensures
            match r {
                Some(m) => message_of(self@) == Some(m@),
                None => message_of(self@) is None,
            },
    {
        match self {
            ArcadeDbError::Rpc { operation: _, detail: _, status } => Some(status.message.as_str()),
            ArcadeDbError::CommandFailed { operation: _, message, affected: _ } => Some(
                message.as_str(),
            ),
            ArcadeDbError::AlreadyExists { what: _, message } => Some(message.as_str()),
            _ => None,
        }
    }

    /// The error in words.
    pub fn to_string(&self) -> (r: String)
        ensures
            r@ == failure_text(self@),
    {
        match self {
            ArcadeDbError::Connect { addr, attempts, source: _ } => {
                let mut s = "failed to connect to ArcadeDB gRPC at ".to_owned();
                s.append(addr.as_str());
                s.append(" after ");
                s.append(text::unsigned_text(*attempts as u64).as_str());
                s.append(" attempts");
                s
            },
            ArcadeDbError::InvalidEndpoint { addr, source: _ } => {
                let mut s = "invalid gRPC endpoint ".to_owned();
                s.append(addr.as_str());
                s
            },
            ArcadeDbError::Rpc { operation, detail, status } => {
                let mut s = operation.clone();
                s.append(" failed: ");
                s.append(status.to_string().as_str());
                s.append(" (in: ");
                s.append(detail.as_str());
                s.append(")");
                s
            },
            ArcadeDbError::AlreadyExists { what, message } => {
                let mut s = what.clone();
                s.append(": ");
                s.append(message.as_str());
                s
            },
            ArcadeDbError::CommandFailed { operation: _, message, affected: _ } => {
                let mut s = "command failed: ".to_owned();
                s.append(message.as_str());
                s
            },
            ArcadeDbError::Decode { what, source: _ } => {
                let mut s = "decode ".to_owned();
                s.append(what.as_str());
                s
            },
            ArcadeDbError::NotFound { operation, detail } => {
                let mut s = "no rows returned by ".to_owned();
                s.append(operation.as_str());
                s.append(" (expected at least one: ");
                s.append(detail.as_str());
                s.append(")");
                s
            },
            ArcadeDbError::InvalidInput { message } => message.clone(),
        }
    }

    /// A call refused before it reached the wire.
    pub fn invalid_input(message: &str) -> (e: Self)
        ensures
            e@ == FailureView::InvalidInput(message@),
    {
        ArcadeDbError::InvalidInput { message: message.to_owned() }
    }

    /// A read that found no row.
    pub fn not_found(operation: &str, detail: &str) -> (e: Self)
        ensures
            e@ == FailureView::NotFound(operation@, detail@),
    {
        ArcadeDbError::NotFound { operation: operation.to_owned(), detail: detail.to_owned() }
    }
}

/// The result of every fallible client operation.
pub type Result<T, E = ArcadeDbError> = core::result::Result<T, E>;

// ---------------------------------------------------------------------------
// Normalization
// ---------------------------------------------------------------------------

/// A message says that the target already exists: the engine reports it in words only.
pub open spec fn says_exists(message: Seq<char>) -> bool {
    text::has_text(text::lowered(message), "already exist"@)
}

/// What a failed RPC becomes.
pub open spec fn rpc_failure(what: Seq<char>, detail: Seq<char>, status: StatusView) -> FailureView {
    if status.code == Code::AlreadyExists || says_exists(status.message) {
        FailureView::AlreadyExists(what, status.message)
    } else {
        FailureView::Rpc(what, detail, status)
    }
}

/// What a command answered with `success = false` becomes.
pub open spec fn command_failure(operation: Seq<char>, message: Seq<char>, affected: i64) -> FailureView {
    if says_exists(message) {
        FailureView::AlreadyExists(operation, message)
    } else {
        FailureView::CommandFailed(operation, message, Some(affected))
    }
}

/// A message that reports a concurrent modification.
pub open spec fn says_conflict(message: Seq<char>) -> bool {
    let m = text::lowered(message);
    text::has_text(m, "concurrent"@) || text::has_text(m, "mvcc"@) || text::has_text(
        m,
        "needretry"@,
    )
}

/// A failure after which a transaction may be tried again.
pub open spec fn retryable(e: FailureView) -> bool {
    match message_of(e) {
        Some(m) => says_conflict(m),
        None => false,
    }
}

/// Turn a failed RPC into an error that keeps the server's message and code. A target that
/// already exists becomes the variant of its own, by code or by message.
pub fn map_rpc_error(what: &str, detail: &str, err: Status) -> (e: ArcadeDbError)
    ensures
        e@ == rpc_failure(what@, detail@, err@),
{
    if err.code == Code::AlreadyExists || text::contains_text(
        text::lower_text(err.message.as_str()).as_str(),
        "already exist",
    ) {
        ArcadeDbError::AlreadyExists { what: what.to_owned(), message: err.message }
    } else {
        ArcadeDbError::Rpc { operation: what.to_owned(), detail: detail.to_owned(), status: err }
    }
}

/// The error of a command answered with `success = false`, normalized as failed RPCs are.
pub fn command_failed(operation: &str, message: String, affected: i64) -> (e: ArcadeDbError)
    ensures
        e@ == command_failure(operation@, message@, affected),
{
    if text::contains_text(text::lower_text(message.as_str()).as_str(), "already exist") {
        ArcadeDbError::AlreadyExists { what: operation.to_owned(), message }
    } else {
        ArcadeDbError::CommandFailed {
            operation: operation.to_owned(),
            message,
            affected: Some(affected),
        }
    }
}

/// Whether the server's message reports a concurrent modification.
pub fn is_retryable_conflict(err: &ArcadeDbError) -> (r: bool)
    ensures
        r == retryable(err@),
{
    match err.server_message() {
        Some(m) => {
            let m = text::lower_text(m);
            text::contains_text(m.as_str(), "concurrent") || text::contains_text(
                m.as_str(),
                "mvcc",
            ) || text::contains_text(m.as_str(), "needretry")
        },
        None => false,
    }
}

// ---------------------------------------------------------------------------
// Laws
// ---------------------------------------------------------------------------

/// A failed RPC and a refused command with the same message become the same category, and
/// both keep the server's message.
pub proof fn law_failures_normalize_alike(
    what: Seq<char>,
    detail: Seq<char>,
    status: StatusView,
    affected: i64,
)
    requires
        status.code != Code::AlreadyExists,
    ensures
        (rpc_failure(what, detail, status) is AlreadyExists) == (command_failure(
            what,
            status.message,
            affected,
        ) is AlreadyExists),
        message_of(rpc_failure(what, detail, status)) == Some(status.message),
        message_of(command_failure(what, status.message, affected)) == Some(status.message),
{
}

/// Normalization loses nothing that the retry decision reads.
pub proof fn law_normalization_keeps_conflicts(
    what: Seq<char>,
    detail: Seq<char>,
    status: StatusView,
)
    ensures
        retryable(rpc_failure(what, detail, status)) == says_conflict(status.message),
{
}

/// The message has `words` in it, in any letter case.
pub open spec fn mentions(message: Seq<char>, words: Seq<char>) -> bool {
    exists|i: int|
        0 <= i <= message.len() - words.len() && text::same_letters(
            #[trigger] message.subrange(i, i + words.len()),
            words,
        )
}

proof fn lemma_same_lower(a: char, b: char)
    requires
        !(65 <= b as u32 <= 90),
    ensures
        text::lower(a) == b <==> text::same_letter(a, b),
{
}

proof fn lemma_mentions(message: Seq<char>, words: Seq<char>)
    requires
        forall|i: int| 0 <= i < words.len() ==> !(65 <= (#[trigger] words[i]) as u32 <= 90),
    ensures
        text::has_text(text::lowered(message), words) <==> mentions(message, words),
{
    let low = text::lowered(message);
    assert forall|i: int| 0 <= i <= message.len() - words.len() implies (text::occurs_at(
        low,
        words,
        i,
    ) <==> text::same_letters(#[trigger] message.subrange(i, i + words.len()), words)) by {
        let part = message.subrange(i, i + words.len());
        let cut = low.subrange(i, i + words.len());
        assert forall|k: int| 0 <= k < words.len() implies (cut[k] == words[k]
            <==> text::same_letter(part[k], words[k])) by {
            assert(cut[k] == text::lower(message[i + k]));
            assert(part[k] == message[i + k]);
            lemma_same_lower(message[i + k], words[k]);
        }
        if text::occurs_at(low, words, i) {
            assert(cut == words);
            assert forall|k: int| #![trigger part[k]] #![trigger words[k]] 0 <= k < part.len() implies text::same_letter(
                part[k],
                words[k],
            ) by {
                assert(cut[k] == words[k]);
            }
        }
        if text::same_letters(part, words) {
            assert forall|k: int| 0 <= k < words.len() implies cut[k] == words[k] by {
                assert(text::same_letter(part[k], words[k]));
            }
            assert(cut =~= words);
        }
    }
    if text::has_text(low, words) {
        let i = choose|i: int| text::occurs_at(low, words, i);
        assert(text::same_letters(message.subrange(i, i + words.len()), words));
    }
    if mentions(message, words) {
        let i = choose|i: int|
            0 <= i <= message.len() - words.len() && text::same_letters(
                #[trigger] message.subrange(i, i + words.len()),
                words,
            );
        assert(text::occurs_at(low, words, i));
    }
}

/// A failure counts as "already exists" exactly when its code says so or its message mentions
/// it, in any letter case; and as a conflict exactly when the message mentions concurrency,
/// MVCC or a needed retry.
pub proof fn law_messages_are_read_in_any_letter_case(message: Seq<char>)
    ensures
        says_exists(message) <==> mentions(message, "already exist"@),
        says_conflict(message) <==> mentions(message, "concurrent"@) || mentions(message, "mvcc"@)
            || mentions(message, "needretry"@),
{
    reveal_strlit("already exist");
    reveal_strlit("concurrent");
    reveal_strlit("mvcc");
    reveal_strlit("needretry");
    lemma_mentions(message, "already exist"@);
    lemma_mentions(message, "concurrent"@);
    lemma_mentions(message, "mvcc"@);
    lemma_mentions(message, "needretry"@);
}

/// A failed call keeps what failed, where and how, unless it failed because something already
/// exists, which has an error of its own with the message.
pub proof fn law_failed_calls_are_told_apart(
    what: Seq<char>,
    detail: Seq<char>,
    status: StatusView,
    affected: i64,
)
    ensures
        status.code == Code::AlreadyExists || mentions(status.message, "already exist"@)
            ==> rpc_failure(what, detail, status) == FailureView::AlreadyExists(
            what,
            status.message,
        ),
        !(status.code == Code::AlreadyExists || mentions(status.message, "already exist"@))
            ==> rpc_failure(what, detail, status) == FailureView::Rpc(what, detail, status),
        mentions(status.message, "already exist"@) ==> command_failure(
            what,
            status.message,
            affected,
        ) == FailureView::AlreadyExists(what, status.message),
        !mentions(status.message, "already exist"@) ==> command_failure(
            what,
            status.message,
            affected,
        ) == FailureView::CommandFailed(what, status.message, Some(affected)),
{
    law_messages_are_read_in_any_letter_case(status.message);
}

/// Only a failure that carries a server message can be a conflict: a failed call, a failed
/// command or one that found something there. Its code and its message are the server's.
pub proof fn law_conflicts_are_told_by_the_server(e: FailureView)
    ensures
        retryable(e) <==> (e matches FailureView::Rpc(_, _, status) && says_conflict(
            status.message,
        )) || (e matches FailureView::CommandFailed(_, message, _) && says_conflict(message)) || (
        e matches FailureView::AlreadyExists(_, message) && says_conflict(message)),
        e matches FailureView::Rpc(_, _, status) ==> code_of(e) == Some(status.code) && message_of(
            e,
        ) == Some(status.message),
        e matches FailureView::CommandFailed(_, message, _) ==> code_of(e) is None && message_of(e)
            == Some(message),
        e matches FailureView::AlreadyExists(_, message) ==> code_of(e) is None && message_of(e)
            == Some(message),
        !(e is Rpc || e is CommandFailed || e is AlreadyExists) ==> code_of(e) is None
            && message_of(e) is None,
{
}

/// What a failure says to a reader.
pub proof fn law_failures_say_what_happened(e: FailureView)
    ensures
        e matches FailureView::Connect(addr, attempts, _) ==> failure_text(e)
            == "failed to connect to ArcadeDB gRPC at "@ + addr + " after "@ + text::decimal(
            attempts as int,
        ) + " attempts"@,
        e matches FailureView::InvalidEndpoint(addr, _) ==> failure_text(e)
            == "invalid gRPC endpoint "@ + addr,
        e matches FailureView::Rpc(operation, detail, status) ==> failure_text(e) == operation
            + " failed: "@ + shown(status) + " (in: "@ + detail + ")"@,
        e matches FailureView::AlreadyExists(what, message) ==> failure_text(e) == what + ": "@
            + message,
        e matches FailureView::CommandFailed(_, message, _) ==> failure_text(e)
            == "command failed: "@ + message,
        e matches FailureView::Decode(what, _) ==> failure_text(e) == "decode "@ + what,
        e matches FailureView::NotFound(operation, detail) ==> failure_text(e)
            == "no rows returned by "@ + operation + " (expected at least one: "@ + detail + ")"@,
        e matches FailureView::InvalidInput(message) ==> failure_text(e) == message,
{
}

/// The codes have the numbers that the protocol gives them.
pub proof fn law_codes_have_their_numbers()
    ensures
        Code::Success.number() == 0 && Code::Cancelled.number() == 1 && Code::Unknown.number()
            == 2 && Code::InvalidArgument.number() == 3,
        Code::DeadlineExceeded.number() == 4 && Code::NotFound.number() == 5
            && Code::AlreadyExists.number() == 6 && Code::PermissionDenied.number() == 7,
        Code::ResourceExhausted.number() == 8 && Code::FailedPrecondition.number() == 9
            && Code::Aborted.number() == 10 && Code::OutOfRange.number() == 11,
        Code::Unimplemented.number() == 12 && Code::Internal.number() == 13
            && Code::Unavailable.number() == 14 && Code::DataLoss.number() == 15
            && Code::Unauthenticated.number() == 16,
{
}

/// A failure and a status are seen as what they are, field by field.
pub proof fn law_failures_are_seen_as_they_are(e: ArcadeDbError, s: Status)
    ensures
        e matches ArcadeDbError::Connect { addr, attempts, source } ==> e@ == FailureView::Connect(
            addr@,
            attempts,
            match source {
                Some(why) => Some(why@),
                None => None,
            },
        ),
        e matches ArcadeDbError::InvalidEndpoint { addr, source } ==> e@
            == FailureView::InvalidEndpoint(addr@, source@),
        e matches ArcadeDbError::Rpc { operation, detail, status } ==> e@ == FailureView::Rpc(
            operation@,
            detail@,
            status@,
        ),
        e matches ArcadeDbError::AlreadyExists { what, message } ==> e@
            == FailureView::AlreadyExists(what@, message@),
        e matches ArcadeDbError::CommandFailed { operation, message, affected } ==> e@
            == FailureView::CommandFailed(operation@, message@, affected),
        e matches ArcadeDbError::Decode { what, source } ==> e@ == FailureView::Decode(
            what@,
            source@,
        ),
        e matches ArcadeDbError::NotFound { operation, detail } ==> e@ == FailureView::NotFound(
            operation@,
            detail@,
        ),
        e matches ArcadeDbError::InvalidInput { message } ==> e@ == FailureView::InvalidInput(
            message@,
        ),
        s@.code == s.code,
        s@.message == s.message@,
        s@.details == s.details@,
        s@.metadata.len() == s.metadata@.len(),
        forall|i: int|
            0 <= i < s.metadata@.len() ==> (#[trigger] s@.metadata[i]).0 == s.metadata@[i].0@
                && s@.metadata[i].1 == s.metadata@[i].1@,
        s.source matches Some(why) ==> s@.source == Some(why@),
        s.source is None ==> s@.source is None,
{
}

/// What a status says to a reader: its code and message, and its source where it has one.
pub proof fn law_statuses_say_their_source(s: StatusView)
    ensures
        s.source is None ==> shown(s) == status_text(s.code.number(), s.message),
        s.source matches Some(why) ==> shown(s) == status_text(s.code.number(), s.message)
            + ", source: "@ + why,
{
}

} // verus!
