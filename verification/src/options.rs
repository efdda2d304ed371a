//! Connection settings: endpoint, credentials, TLS, retry policy and deadlines.

use vstd::prelude::*;
use vstd::string::*;
use crate::encode::IntoText;
use crate::error::{ArcadeDbError, FailureView, Result};
use crate::text;

verus! {

// ---------------------------------------------------------------------------
// Durations
// ---------------------------------------------------------------------------

/// A span of time: whole seconds and the nanoseconds of the rest.
#[derive(Debug, Clone, Copy, PartialEq, Eq, Structural)]
pub struct Duration {
    pub secs: u64,
    pub nanos: u32,
}

impl Duration {
    pub fn from_secs(secs: u64) -> (d: Self)
        ensures
            d == (Duration { secs, nanos: 0 }),
    {
        Duration { secs, nanos: 0 }
    }

    pub fn from_millis(millis: u64) -> (d: Self)
        ensures
            d.secs * 1_000_000_000 + d.nanos == millis * 1_000_000,
            d.nanos < 1_000_000_000,
    {
        Duration { secs: millis / 1000, nanos: (millis % 1000) as u32 * 1_000_000 }
    }

    /// The whole seconds.
    pub fn as_secs(&self) -> (r: u64)
        ensures
            r == self.secs,
    {
        self.secs
    }
}

// ---------------------------------------------------------------------------
// Settings
// ---------------------------------------------------------------------------

/// Connection settings. By default the transport is plaintext, a connect is tried 30 times
/// with 400 ms in between, and requests have no deadline.
#[derive(Debug)]
pub struct ClientOptions {
    /// `host:port`.
    pub addr: String,
    pub user: String,
    pub pass: String,
    pub database: String,
    /// Encrypt the transport.
    pub tls: bool,
    /// Deadline of one connect attempt.
    pub connect_timeout: Option<Duration>,
    pub connect_attempts: u32,
    /// Delay between connect attempts.
    pub connect_backoff: Duration,
    /// Deadline of every request.
    pub request_timeout: Option<Duration>,
    /// Create the database on connect where it does not exist.
    pub open_or_create: bool,
}

impl Clone for ClientOptions {
    fn clone(&self) -> (r: Self)
        ensures
            r.addr@ == self.addr@,
            r.user@ == self.user@,
            r.pass@ == self.pass@,
            r.database@ == self.database@,
            r.tls == self.tls,
            r.connect_timeout == self.connect_timeout,
            r.connect_attempts == self.connect_attempts,
            r.connect_backoff == self.connect_backoff,
            r.request_timeout == self.request_timeout,
            r.open_or_create == self.open_or_create,
    {
        ClientOptions {
            addr: self.addr.clone(),
            user: self.user.clone(),
            pass: self.pass.clone(),
            database: self.database.clone(),
            tls: self.tls,
            connect_timeout: self.connect_timeout,
            connect_attempts: self.connect_attempts,
            connect_backoff: self.connect_backoff,
            request_timeout: self.request_timeout,
            open_or_create: self.open_or_create,
        }
    }
}

/// What the environment holds for the four settings.
#[derive(Debug)]
pub struct EnvValues {
    pub addr: Option<String>,
    pub user: Option<String>,
    pub password: Option<String>,
    pub database: Option<String>,
}

/// The default settings for these credentials.
pub open spec fn has_defaults(
    o: ClientOptions,
    addr: Seq<char>,
    user: Seq<char>,
    pass: Seq<char>,
    database: Seq<char>,
) -> bool {
    &&& o.addr@ == addr
    &&& o.user@ == user
    &&& o.pass@ == pass
    &&& o.database@ == database
    &&& !o.tls
    &&& o.connect_timeout is None
    &&& o.connect_attempts == 30
    &&& o.connect_backoff == (Duration { secs: 0, nanos: 400_000_000 })
    &&& o.request_timeout is None
    &&& !o.open_or_create
}

/// A value from the environment that is set and not empty.
pub open spec fn env_value(v: Option<String>) -> Option<Seq<char>> {
    match v {
        Some(s) => if s@.len() == 0 {
            None
        } else {
            Some(s@)
        },
        None => None,
    }
}

/// The environment variable `{prefix}_{suffix}`.
pub open spec fn env_name_of(prefix: Seq<char>, suffix: Seq<char>) -> Seq<char> {
    prefix + "_"@ + suffix
}

/// What is said of a variable that is missing or empty.
pub open spec fn env_missing(prefix: Seq<char>, suffix: Seq<char>) -> FailureView {
    FailureView::InvalidInput(
        "ClientOptions::from_env: environment variable `"@ + env_name_of(prefix, suffix)
            + "` is not set"@,
    )
}

/// Characters that a gRPC metadata value can carry: tab, and the visible ASCII characters with
/// the space.
pub open spec fn metadata_char(c: char) -> bool {
    c == '\t' || (32 <= c as u32 && (c as u32) < 127)
}

pub open spec fn metadata_text(s: Seq<char>) -> bool {
    forall|i: int| 0 <= i < s.len() ==> metadata_char(#[trigger] s[i])
}

/// Characters that pass for metadata in a header: all but the ASCII controls, with tab.
pub open spec fn header_char(c: char) -> bool {
    c == '\t' || (32 <= c as u32 && c as u32 != 127)
}

/// What is wrong with a setting.
pub open spec fn setting_problem(value: Seq<char>, what: Seq<char>) -> Option<FailureView> {
    if value.len() == 0 {
        Some(FailureView::InvalidInput("ClientOptions: "@ + what + " must not be empty"@))
    } else if !metadata_text(value) {
        Some(
            FailureView::InvalidInput(
                "ClientOptions: "@ + what
                    + " contains characters invalid in a gRPC metadata value (visible ASCII only)"@,
            ),
        )
    } else {
        None
    }
}

/// The first problem among address, user, password and database.
pub open spec fn problem(
    addr: Seq<char>,
    user: Seq<char>,
    pass: Seq<char>,
    database: Seq<char>,
) -> Option<FailureView> {
    if setting_problem(addr, "addr"@) is Some {
        setting_problem(addr, "addr"@)
    } else if setting_problem(user, "user"@) is Some {
        setting_problem(user, "user"@)
    } else if setting_problem(pass, "password"@) is Some {
        setting_problem(pass, "password"@)
    } else {
        setting_problem(database, "database"@)
    }
}

/// The endpoint that is dialed.
pub open spec fn endpoint_text(tls: bool, addr: Seq<char>) -> Seq<char> {
    (if tls {
        "https"@
    } else {
        "http"@
    }) + "://"@ + addr
}

/// `str::parse` into a `tonic` metadata value succeeds where no character is an ASCII control
/// other than tab.
#[verifier::external_body]
fn parses_as_metadata(s: &str) -> (r: bool)
    ensures
        r == forall|i: int| 0 <= i < s@.len() ==> header_char(#[trigger] s@[i]),
{
    s.parse::<tonic::metadata::MetadataValue<tonic::metadata::Ascii>>().is_ok()
}

/// What is wrong with a text as an endpoint, in the words of the URI parser.
pub uninterp spec fn endpoint_problem(s: Seq<char>) -> Option<Seq<char>>;

/// `tonic::transport::Channel::from_shared`: `None` where the text is a URI, else the words of
/// the URI parser's error. Both depend on the text alone.
#[verifier::external_body]
fn endpoint_error(s: &str) -> (r: Option<String>)
    ensures
        text::optional(r) == endpoint_problem(s@),
{
    match tonic::transport::Channel::from_shared(s.to_owned()) {
        Ok(_) => None,
        Err(e) => Some(e.to_string()),
    }
}

/// The environment variable `{prefix}_{suffix}`.
pub fn env_name(prefix: &str, suffix: &str) -> (r: String)
    ensures
        r@ == env_name_of(prefix@, suffix@),
{
    let mut name = prefix.to_owned();
    name.append("_");
    name.append(suffix);
    name
}

fn required_value(prefix: &str, suffix: &str, value: Option<String>) -> (r: Result<String>)
    ensures
        match (r, env_value(value)) {
            (Ok(s), Some(v)) => s@ == v,
            (Err(e), None) => e@ == env_missing(prefix@, suffix@),
            _ => false,
        },
{
    if let Some(v) = value {
        if !v.as_str().is_empty() {
            return Ok(v);
        }
    }
    let mut message = "ClientOptions::from_env: environment variable `".to_owned();
    message.append(env_name(prefix, suffix).as_str());
    message.append("` is not set");
    Err(ArcadeDbError::InvalidInput { message })
}

fn check_setting(value: &str, what: &str) -> (r: Result<()>)
    ensures
        match (r, setting_problem(value@, what@)) {
            (Ok(_), None) => true,
            (Err(e), Some(p)) => e@ == p,
            _ => false,
        },
{
    let mut message = "ClientOptions: ".to_owned();
    message.append(what);
    if value.is_empty() {
        message.append(" must not be empty");
        return Err(ArcadeDbError::InvalidInput { message });
    }
    let mut plain = parses_as_metadata(value);
    let chars = text::chars_of(value);
    for i in 0..chars.len()
        invariant
            chars@ == value@,
            plain == ((forall|j: int| 0 <= j < value@.len() ==> header_char(#[trigger] value@[j]))
                && (forall|j: int| 0 <= j < i ==> (#[trigger] value@[j] as u32) < 128)),
    {
        if chars[i] as u32 >= 128 {
            plain = false;
        }
    }
    if !plain {
        assert(!metadata_text(value@));
        message.append(
            " contains characters invalid in a gRPC metadata value (visible ASCII only)",
        );
        return Err(ArcadeDbError::InvalidInput { message });
    }
    assert(metadata_text(value@));
    Ok(())
}

impl ClientOptions {
    /// Settings for `addr` (`host:port`), the credentials and the default database.
    pub fn new<A: IntoText, U: IntoText, P: IntoText, D: IntoText>(
        addr: A,
        user: U,
        pass: P,
        database: D,
    ) -> (o: Self)
        ensures
            has_defaults(o, addr.chars(), user.chars(), pass.chars(), database.chars()),
    {
        ClientOptions {
            addr: addr.into_text(),
            user: user.into_text(),
            pass: pass.into_text(),
            database: database.into_text(),
            tls: false,
            connect_timeout: None,
            connect_attempts: 30,
            connect_backoff: Duration::from_millis(400),
            request_timeout: None,
            open_or_create: false,
        }
    }

    /// After connecting, create the database where it does not exist.
    pub fn open_or_create(self, yes: bool) -> (o: Self)
        ensures
            o == (ClientOptions { open_or_create: yes, ..self }),
    {
        ClientOptions { open_or_create: yes, ..self }
    }

    /// Encrypt the transport; implies the `https` scheme.
    pub fn tls(self) -> (o: Self)
        ensures
            o == (ClientOptions { tls: true, ..self }),
    {
        ClientOptions { tls: true, ..self }
    }

    /// Deadline of one connect attempt.
    pub fn connect_timeout(self, timeout: Duration) -> (o: Self)
        ensures
            o == (ClientOptions { connect_timeout: Some(timeout), ..self }),
    {
        ClientOptions { connect_timeout: Some(timeout), ..self }
    }

    /// How many times a connect is tried, at least once.
    pub fn connect_attempts(self, attempts: u32) -> (o: Self)
        ensures
            o == (ClientOptions {
                connect_attempts: if attempts == 0 {
                    1
                } else {
                    attempts
                },
                ..self
            }),
    {
        ClientOptions {
            connect_attempts: if attempts == 0 {
                1
            } else {
                attempts
            },
            ..self
        }
    }

    /// Delay between connect attempts.
    pub fn connect_backoff(self, backoff: Duration) -> (o: Self)
        ensures
            o == (ClientOptions { connect_backoff: backoff, ..self }),
    {
        ClientOptions { connect_backoff: backoff, ..self }
    }

    /// Deadline of every request.
    pub fn request_timeout(self, timeout: Duration) -> (o: Self)
        ensures
            o == (ClientOptions { request_timeout: Some(timeout), ..self }),
    {
        ClientOptions { request_timeout: Some(timeout), ..self }
    }

    /// The settings of the environment under the prefix `ARCADEDB`.
    pub fn from_env(values: EnvValues) -> (r: Result<Self>)
        ensures
            from_env_outcome("ARCADEDB"@, values, r),
    {
        Self::from_env_prefix("ARCADEDB", values)
    }

    /// The settings of the environment under a prefix (`{PREFIX}_ADDR` and so on). The first
    /// variable that is missing or empty is named in the error.
    pub fn from_env_prefix(prefix: &str, values: EnvValues) -> (r: Result<Self>)
        ensures
            from_env_outcome(prefix@, values, r),
    {
        let addr = required_value(prefix, "ADDR", values.addr)?;
        let user = required_value(prefix, "USER", values.user)?;
        let pass = required_value(prefix, "PASSWORD", values.password)?;
        let database = required_value(prefix, "DATABASE", values.database)?;
        Ok(Self::new(addr, user, pass, database))
    }

    /// Check before dialing: no setting is empty, and all are metadata that a request can carry.
    pub fn validate(&self) -> (r: Result<()>)
        ensures
            match (r, problem(self.addr@, self.user@, self.pass@, self.database@)) {
                (Ok(_), None) => true,
                (Err(e), Some(p)) => e@ == p,
                _ => false,
            },
    {
        check_setting(self.addr.as_str(), "addr")?;
        check_setting(self.user.as_str(), "user")?;
        check_setting(self.pass.as_str(), "password")?;
        check_setting(self.database.as_str(), "database")
    }

    /// The endpoint to dial.
    pub fn endpoint(&self) -> (r: Result<String>)
        ensures
            match (r, endpoint_problem(endpoint_text(self.tls, self.addr@))) {
                (Ok(s), None) => s@ == endpoint_text(self.tls, self.addr@),
                (Err(e), Some(why)) => e@ == FailureView::InvalidEndpoint(self.addr@, why),
                _ => false,
            },
    {
        let mut uri = if self.tls {
            "https".to_owned()
        } else {
            "http".to_owned()
        };
        uri.append("://");
        uri.append(self.addr.as_str());
        match endpoint_error(uri.as_str()) {
            None => Ok(uri),
            Some(source) => Err(
                ArcadeDbError::InvalidEndpoint { addr: self.addr.clone(), source },
            ),
        }
    }

    /// The metadata of every data request: user, password and database.
    pub fn auth_headers(&self) -> (r: Vec<(&'static str, String)>)
        ensures
            r@.len() == 3,
            r@[0].0@ == "x-arcade-user"@ && r@[0].1@ == self.user@,
            r@[1].0@ == "x-arcade-password"@ && r@[1].1@ == self.pass@,
            r@[2].0@ == "x-arcade-database"@ && r@[2].1@ == self.database@,
    {
        let mut out: Vec<(&'static str, String)> = Vec::new();
        out.push(("x-arcade-user", self.user.clone()));
        out.push(("x-arcade-password", self.pass.clone()));
        out.push(("x-arcade-database", self.database.clone()));
        out
    }
}

/// What reading the environment gives: the settings, or the first variable that is missing.
pub open spec fn from_env_outcome(
    prefix: Seq<char>,
    values: EnvValues,
    r: Result<ClientOptions>,
) -> bool {
    match r {
        Ok(o) => {
            &&& env_value(values.addr) is Some
            &&& env_value(values.user) is Some
            &&& env_value(values.password) is Some
            &&& env_value(values.database) is Some
            &&& has_defaults(
                o,
                env_value(values.addr)->Some_0,
                env_value(values.user)->Some_0,
                env_value(values.password)->Some_0,
                env_value(values.database)->Some_0,
            )
        },
        Err(e) => if env_value(values.addr) is None {
            e@ == env_missing(prefix, "ADDR"@)
        } else if env_value(values.user) is None {
            e@ == env_missing(prefix, "USER"@)
        } else if env_value(values.password) is None {
            e@ == env_missing(prefix, "PASSWORD"@)
        } else {
            env_value(values.database) is None && e@ == env_missing(prefix, "DATABASE"@)
        },
    }
}

// ---------------------------------------------------------------------------
// Laws
// ---------------------------------------------------------------------------

proof fn lemma_metadata_char(c: char)
    ensures
        metadata_char(c) <==> (c == '\t' || (' ' <= c && c <= '~')),
{
}

/// A setting is sound exactly when it is not empty and made of visible ASCII characters,
/// spaces and tabs.
pub proof fn law_settings_are_visible_text(value: Seq<char>, what: Seq<char>)
    ensures
        setting_problem(value, what) is None <==> value.len() > 0 && forall|i: int|
            0 <= i < value.len() ==> (#[trigger] value[i] == '\t' || (' ' <= value[i] && value[i]
                <= '~')),
        value.len() == 0 ==> setting_problem(value, what) == Some(
            FailureView::InvalidInput("ClientOptions: "@ + what + " must not be empty"@),
        ),
{
    assert forall|i: int| 0 <= i < value.len() implies (metadata_char(#[trigger] value[i]) <==> (
    value[i] == '\t' || (' ' <= value[i] && value[i] <= '~'))) by {
        lemma_metadata_char(value[i]);
    }
    if metadata_text(value) {
        assert forall|i: int| 0 <= i < value.len() implies (#[trigger] value[i] == '\t' || (' '
            <= value[i] && value[i] <= '~')) by {
            assert(metadata_char(value[i]));
        }
    }
}

/// The settings are looked at in order: the address, the user, the password and the database.
/// The first that is unsound is named, and none is exactly when all are sound.
pub proof fn law_the_first_unsound_setting_is_named(
    addr: Seq<char>,
    user: Seq<char>,
    pass: Seq<char>,
    database: Seq<char>,
)
    ensures
        ({
            let a = setting_problem(addr, "addr"@);
            let u = setting_problem(user, "user"@);
            let p = setting_problem(pass, "password"@);
            let d = setting_problem(database, "database"@);
            let r = problem(addr, user, pass, database);
            &&& r is None <==> a is None && u is None && p is None && d is None
            &&& a is Some ==> r == a
            &&& a is None && u is Some ==> r == u
            &&& a is None && u is None && p is Some ==> r == p
            &&& a is None && u is None && p is None ==> r == d
        }),
{
}

/// The endpoint is the address behind `https` with TLS and behind `http` without.
pub proof fn law_endpoints_have_their_scheme(addr: Seq<char>)
    ensures
        endpoint_text(true, addr) == "https"@ + "://"@ + addr,
        endpoint_text(false, addr) == "http"@ + "://"@ + addr,
{
}

/// Options from the environment are those of the four variables, each set and not empty, with
/// the default settings; the first that is missing, in the order of address, user, password
/// and database, is named with its prefix.
pub proof fn law_the_environment_gives_all_four(
    prefix: Seq<char>,
    values: EnvValues,
    r: Result<ClientOptions>,
)
    requires
        from_env_outcome(prefix, values, r),
    ensures
        ({
            let given = |v: Option<String>| v matches Some(s) && s@.len() > 0;
            let missing = |suffix: Seq<char>|
                FailureView::InvalidInput(
                    "ClientOptions::from_env: environment variable `"@ + (prefix + "_"@ + suffix)
                        + "` is not set"@,
                );
            &&& r is Ok <==> given(values.addr) && given(values.user) && given(values.password)
                && given(values.database)
            &&& r matches Ok(o) ==> o.addr@ == values.addr->0@ && o.user@ == values.user->0@
                && o.pass@ == values.password->0@ && o.database@ == values.database->0@
            &&& r matches Err(e) ==> if !given(values.addr) {
                e@ == missing("ADDR"@)
            } else if !given(values.user) {
                e@ == missing("USER"@)
            } else if !given(values.password) {
                e@ == missing("PASSWORD"@)
            } else {
                e@ == missing("DATABASE"@)
            }
        }),
{
}

/// New options connect without TLS and without time limits, try thirty times with pauses of
/// four tenths of a second, and create no database.
pub proof fn law_the_defaults(
    o: ClientOptions,
    addr: Seq<char>,
    user: Seq<char>,
    pass: Seq<char>,
    database: Seq<char>,
)
    requires
        has_defaults(o, addr, user, pass, database),
    ensures
        o.addr@ == addr && o.user@ == user && o.pass@ == pass && o.database@ == database,
        !o.tls && !o.open_or_create,
        o.connect_timeout is None && o.request_timeout is None,
        o.connect_attempts == 30,
        o.connect_backoff.secs == 0 && o.connect_backoff.nanos == 400_000_000,
{
}

} // verus!
