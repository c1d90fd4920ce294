//! The Postgres connection string: a configured URL is used verbatim;
//! otherwise it is assembled from the connection parts, with the user name
//! and password percent-encoded by the URL codec.
use vstd::prelude::*;
use url::Url;
use crate::text;

verus! {

// The URL is carried between the steps as its serialisation: `Url`
// serialises so that parsing the text gives the same URL back, so each step
// takes the text, parses it, makes its one change and serialises again.

/// What `Url::parse` gives for a text, serialised (`Url::to_string`);
/// `None` when it does not parse.
pub uninterp spec fn url_normalized(s: Seq<char>) -> Option<Seq<char>>;

/// The serialisation after `Url::set_username(user)` on the URL of the
/// text; `None` when the text does not parse or the URL cannot carry a user
/// name (no host, an empty host, cannot be a base, or a `file` URL).
pub uninterp spec fn url_with_username(url: Seq<char>, user: Seq<char>) -> Option<Seq<char>>;

/// The serialisation after `Url::set_password(Some(password))` on the URL
/// of the text; `None` when the text does not parse or the URL cannot carry
/// a password (the same cases as the user name).
pub uninterp spec fn url_with_password(url: Seq<char>, password: Seq<char>) -> Option<Seq<char>>;

/// The serialisation after `query_pairs_mut().append_pair(key, value)` on
/// the URL of the text; `None` when the text does not parse.
pub uninterp spec fn url_with_query_pair(url: Seq<char>, key: Seq<char>, value: Seq<char>) -> Option<
    Seq<char>,
>;

/// Calls `Url::parse` and serialises the URL. The text is named.
#[verifier::external_body]
fn parse_url(s: &str) -> (r: Option<String>)
    ensures
        match r {
            Some(t) => url_normalized(s@) == Some(t@),
            None => url_normalized(s@) is None,
        },
{
    Url::parse(s).ok().map(|u| u.to_string())
}

/// Calls `Url::set_username` on the URL of the text. The text after it is
/// named.
#[verifier::external_body]
fn set_url_username(url: &str, user: &str) -> (r: Option<String>)
    ensures
        match r {
            Some(t) => url_with_username(url@, user@) == Some(t@),
            None => url_with_username(url@, user@) is None,
        },
{
    let mut u = Url::parse(url).ok()?;
    u.set_username(user).ok()?;
    Some(u.to_string())
}

/// Calls `Url::set_password` on the URL of the text. The text after it is
/// named.
#[verifier::external_body]
fn set_url_password(url: &str, password: &str) -> (r: Option<String>)
    ensures
        match r {
            Some(t) => url_with_password(url@, password@) == Some(t@),
            None => url_with_password(url@, password@) is None,
        },
{
    let mut u = Url::parse(url).ok()?;
    u.set_password(Some(password)).ok()?;
    Some(u.to_string())
}

/// Calls `query_pairs_mut().append_pair` on the URL of the text. The text
/// after it is named.
#[verifier::external_body]
fn append_url_query(url: &str, key: &str, value: &str) -> (r: Option<String>)
    ensures
        match r {
            Some(t) => url_with_query_pair(url@, key@, value@) == Some(t@),
            None => url_with_query_pair(url@, key@, value@) is None,
        },
{
    let mut u = Url::parse(url).ok()?;
    u.query_pairs_mut().append_pair(key, value);
    Some(u.to_string())
}

/// The connection settings as configured (`None` when unset).
pub struct DatabaseSettings {
    pub database_url: Option<String>,
    pub host: Option<String>,
    pub port: Option<String>,
    pub user: Option<String>,
    pub db: Option<String>,
    pub password: Option<String>,
    pub sslmode: Option<String>,
}

/// Why no connection string could be made.
#[derive(Debug, PartialEq, Eq, Structural)]
pub enum DatabaseUrlError {
    /// Neither a URL nor a password is configured.
    MissingPassword,
    /// The parts do not form a URL.
    Unparsable,
    /// The URL has no authority to carry the user name.
    NoUsername,
    /// The URL has no authority to carry the password.
    NoPassword,
}

/// A setting's value, or its default when unset.
pub open spec fn setting_or(v: Option<String>, d: Seq<char>) -> Seq<char> {
    match v {
        Some(s) => s@,
        None => d,
    }
}

/// The URL the parts are set on: `postgresql://<host>:<port>/<db>`.
pub open spec fn base_url(s: DatabaseSettings) -> Seq<char> {
    "postgresql://"@ + setting_or(s.host, "localhost"@) + ":"@ + setting_or(s.port, "5432"@) + "/"@
        + setting_or(s.db, "riposte_social"@)
}

/// The assembled connection string, or the step that failed: the base
/// URL parsed, then the user name set, then the password, then the SSL
/// mode appended as `sslmode` when it is set and not empty.
pub open spec fn assembled_url(s: DatabaseSettings, password: Seq<char>) -> Result<
    Seq<char>,
    DatabaseUrlError,
> {
    match url_normalized(base_url(s)) {
        None => Err(DatabaseUrlError::Unparsable),
        Some(u0) => match url_with_username(u0, setting_or(s.user, "riposte_social_user"@)) {
            None => Err(DatabaseUrlError::NoUsername),
            Some(u1) => match url_with_password(u1, password) {
                None => Err(DatabaseUrlError::NoPassword),
                Some(u2) => match s.sslmode {
                    Some(m) => if m@.len() > 0 {
                        match url_with_query_pair(u2, "sslmode"@, m@) {
                            Some(u3) => Ok(u3),
                            None => Err(DatabaseUrlError::Unparsable),
                        }
                    } else {
                        Ok(u2)
                    },
                    None => Ok(u2),
                },
            },
        },
    }
}

/// The result as a plain value.
pub open spec fn result_view(r: Result<String, DatabaseUrlError>) -> Result<Seq<char>, DatabaseUrlError> {
    match r {
        Ok(t) => Ok(t@),
        Err(e) => Err(e),
    }
}

/// Whether a configured URL is used verbatim.
pub open spec fn uses_configured_url(s: DatabaseSettings) -> bool {
    s.database_url matches Some(u) && u@.len() > 0
}

fn part_or(v: &Option<String>, d: &str) -> (r: String)
    ensures
        r@ == (match v {
            Some(s) => s@,
            None => d@,
        }),
{
    match v {
        Some(s) => s.clone(),
        None => text::owned(d),
    }
}

/// The connection string: the configured URL when set and not empty;
/// otherwise `postgresql://<host>:<port>/<db>` (defaults `localhost`,
/// `5432`, `riposte_social`) with the user (default
/// `riposte_social_user`), the password, and the SSL mode as a query
/// parameter when one is set.
pub fn database_url(s: &DatabaseSettings) -> (r: Result<String, DatabaseUrlError>)
    ensures
        uses_configured_url(*s) ==> r == Ok::<String, DatabaseUrlError>(s.database_url->0),
        !uses_configured_url(*s) && s.password is None ==> r == Err::<String, DatabaseUrlError>(
            DatabaseUrlError::MissingPassword,
        ),
        !uses_configured_url(*s) ==> (s.password matches Some(p) ==> result_view(r) == assembled_url(
            *s,
            p@,
        )),
{
    if let Some(u) = &s.database_url {
        if !u.as_str().is_empty() {
            return Ok(u.clone());
        }
    }
    let password = match &s.password {
        Some(p) => p,
        None => return Err(DatabaseUrlError::MissingPassword),
    };
    let host = part_or(&s.host, "localhost");
    let port = part_or(&s.port, "5432");
    let user = part_or(&s.user, "riposte_social_user");
    let db = part_or(&s.db, "riposte_social");
    let mut base = text::owned("postgresql://");
    base.append(host.as_str());
    base.append(":");
    base.append(port.as_str());
    base.append("/");
    base.append(db.as_str());
    proof {
        assert(base@ == base_url(*s));
    }
    let u0 = match parse_url(base.as_str()) {
        Some(u) => u,
        None => return Err(DatabaseUrlError::Unparsable),
    };
    let u1 = match set_url_username(u0.as_str(), user.as_str()) {
        Some(u) => u,
        None => return Err(DatabaseUrlError::NoUsername),
    };
    let u2 = match set_url_password(u1.as_str(), password.as_str()) {
        Some(u) => u,
        None => return Err(DatabaseUrlError::NoPassword),
    };
    if let Some(mode) = &s.sslmode {
        if !mode.as_str().is_empty() {
            return match append_url_query(u2.as_str(), "sslmode", mode.as_str()) {
                Some(u3) => Ok(u3),
                None => Err(DatabaseUrlError::Unparsable),
            };
        }
    }
    Ok(u2)
}

/// What came of one attempt to open the connection pool.
#[derive(Debug, PartialEq, Eq, Structural)]
pub enum ConnectOutcome {
    /// Connected, and the ping answered.
    Ready,
    /// Connected, but the ping failed.
    PingFailed,
    /// The connection itself failed.
    ConnectFailed,
}

/// What the caller does after an attempt.
#[derive(Debug, PartialEq, Eq, Structural)]
pub enum ConnectStep {
    /// Keep the connection.
    Use,
    /// Sleep the retry delay, then try again.
    WaitAndRetry,
    /// Stop and report the last error.
    GiveUp,
}

/// The retry budget of the start-up connection: at most `max_retries`
/// attempts, with a wait between two of them.
pub struct ConnectRetry {
    attempts: u32,
    max_retries: u32,
}

impl ConnectRetry {
    #[verifier::type_invariant]
    spec fn within_budget(self) -> bool {
        self.attempts <= self.max_retries
    }

    pub closed spec fn spec_attempts(self) -> u32 {
        self.attempts
    }

    pub closed spec fn spec_max_retries(self) -> u32 {
        self.max_retries
    }

    pub fn new(max_retries: u32) -> (r: ConnectRetry)
        ensures
            r.spec_attempts() == 0,
            r.spec_max_retries() == max_retries,
    {
        ConnectRetry { attempts: 0, max_retries }
    }

    /// The attempts made so far.
    pub fn attempts(&self) -> (r: u32)
        ensures
            r == self.spec_attempts(),
            r <= self.spec_max_retries(),
    {
        proof {
            use_type_invariant(self);
        }
        self.attempts
    }

    /// Start another attempt when the budget allows one; `false` once all
    /// `max_retries` attempts have been made (at once when it is zero).
    pub fn begin_attempt(&mut self) -> (started: bool)
        ensures
            started == (old(self).spec_attempts() < old(self).spec_max_retries()),
            final(self).spec_max_retries() == old(self).spec_max_retries(),
            final(self).spec_attempts() == if started {
                old(self).spec_attempts() + 1
            } else {
                old(self).spec_attempts() as int
            },
            final(self).spec_attempts() <= final(self).spec_max_retries(),
    {
        proof {
            use_type_invariant(&*self);
        }
        if self.attempts < self.max_retries {
            self.attempts = self.attempts + 1;
            true
        } else {
            false
        }
    }

    /// The step after the current attempt: a ready connection is used; a
    /// failed one is retried after the delay while attempts are left, and
    /// otherwise given up.
    pub fn after(&self, outcome: ConnectOutcome) -> (step: ConnectStep)
        ensures
            outcome == ConnectOutcome::Ready ==> step == ConnectStep::Use,
            outcome != ConnectOutcome::Ready ==> step == if self.spec_attempts()
                < self.spec_max_retries() {
                ConnectStep::WaitAndRetry
            } else {
                ConnectStep::GiveUp
            },
    {
        match outcome {
            ConnectOutcome::Ready => ConnectStep::Use,
            _ => {
                if self.attempts < self.max_retries {
                    ConnectStep::WaitAndRetry
                } else {
                    ConnectStep::GiveUp
                }
            },
        }
    }
}

/// The error reported when no attempt was made at all.
pub fn retries_exhausted_message() -> (r: String)
    ensures
        r@ == "Failed to connect to database after maximum retries"@,
{
    text::owned("Failed to connect to database after maximum retries")
}

} // verus!
