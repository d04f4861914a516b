//! The decisions of the interactive shell: splitting a command line, the
//! prompt, choosing the connection to log into, and the cache of client
//! secrets.
use vstd::prelude::*;

use crate::config::{Config, ConfigConnection};
use crate::error::{error_message, CmisError};
use crate::table::{get_entry, has_key, insert_entry, lookup};
use crate::text::views;

verus! {

/// Whether the shell goes on, with the lines to print, or exits.
pub enum ReplState {
    Continue(Vec<String>),
    Exit,
}

/// Provides the client secret of a connection, and forgets it on request.
/// The shell's provider asks for a secret that is neither cached nor
/// configured, which is input from the user; the decisions around it are
/// `SecretCache::lookup_secret` and `SecretCache::remember_secret`.
pub trait SecretProvider {
    /// The client secret with which to log into `connection`.
    fn get_secret(&mut self, connection: &ConfigConnection) -> String;

    /// Forgets the secret of `connection`, so that it is asked for again.
    fn invalidate_secret(&mut self, connection: &ConfigConnection);
}

/// What `serde_json` makes of the JSON text `text`: the text laid out with
/// an indent of two spaces, or the message of the error that stopped it.
pub uninterp spec fn pretty_json_text(text: Seq<char>) -> Result<Seq<char>, Seq<char>>;

/// `serde_json::from_str::<serde_json::Value>`, then
/// `serde_json::to_string_pretty` on the value read: the JSON text `text`
/// laid out again with an indent of two spaces, or the message of the error
/// of the parse or of the print. Its result depends on the text alone and is
/// left to the name `pretty_json_text`.
#[verifier::external_body]
fn pretty_json(text: &str) -> (res: Result<String, String>)
    ensures
        match res {
            Ok(pretty) => pretty_json_text(text@) == Ok::<Seq<char>, Seq<char>>(pretty@),
            Err(message) => pretty_json_text(text@) == Err::<Seq<char>, Seq<char>>(message@),
        },
{
    match serde_json::from_str::<serde_json::Value>(text) {
        Ok(value) => match serde_json::to_string_pretty(&value) {
            Ok(pretty) => Ok(pretty),
            Err(err) => Err(err.to_string()),
        },
        Err(err) => Err(err.to_string()),
    }
}

/// What `stat` prints of an object whose properties the server gave as the
/// JSON text `raw`: the text laid out again, as one line of output, or the
/// error with the message of the JSON parser.
pub fn stat_output(raw: &str) -> (res: Result<ReplState, CmisError>)
    ensures
        match pretty_json_text(raw@) {
            Ok(pretty) => res matches Ok(ReplState::Continue(lines)) && lines@.len() == 1
                && lines@[0]@ == pretty,
            Err(message) => res matches Err(CmisError::Other(m)) && m@ == message,
        },
{
    match pretty_json(raw) {
        Ok(pretty) => {
            let mut lines: Vec<String> = Vec::new();
            lines.push(pretty);
            Ok(ReplState::Continue(lines))
        },
        Err(message) => Err(CmisError::Other(message)),
    }
}

/// What the shell does after a line has been evaluated.
pub enum LineReaction {
    /// Print these lines, one per line, and prompt again.
    Print(Vec<String>),
    /// Print this error message, and prompt again without a session.
    Report(String),
    /// Leave the loop.
    Exit,
}

/// The shell's reaction to the outcome of evaluating a line: the output of a
/// command is printed, `exit` leaves the loop, and an error is reported and
/// ends the session.
pub fn react_to_line<S>(outcome: Result<ReplState, CmisError>, session: &mut Option<S>) -> (res:
    LineReaction)
    ensures
        match outcome {
            Ok(ReplState::Continue(lines)) => {
                &&& res matches LineReaction::Print(out) && out@ == lines@
                &&& *final(session) == *old(session)
            },
            Ok(ReplState::Exit) => {
                &&& res is Exit
                &&& *final(session) == *old(session)
            },
            Err(e) => {
                &&& res matches LineReaction::Report(message) && message@ == error_message(e)
                &&& *final(session) is None
            },
        },
{
    match outcome {
        Ok(ReplState::Continue(lines)) => LineReaction::Print(lines),
        Ok(ReplState::Exit) => LineReaction::Exit,
        Err(e) => {
            *session = None;
            LineReaction::Report(e.message())
        },
    }
}

/// The state that the whole program shares.
pub struct GlobalState {
    pub config: Config,
}

/// The words that `shlex::split` makes of a line, or nothing when the line
/// is not well formed (an unclosed quote, or a trailing backslash).
pub uninterp spec fn shlex_words(line: Seq<char>) -> Option<Seq<Seq<char>>>;

/// `shlex::split`: splits a line into words as a POSIX shell does. Its result
/// depends on the line alone and is left to the name `shlex_words`.
#[verifier::external_body]
fn shlex_split(line: &str) -> (res: Option<Vec<String>>)
    ensures
        match res {
            Some(words) => shlex_words(line@) == Some(views(words@)),
            None => shlex_words(line@) is None,
        },
{
    shlex::split(line)
}

/// The words of a command line, or the error for a line that cannot be split.
pub fn words_or_error(words: Option<Vec<String>>) -> (res: Result<Vec<String>, CmisError>)
    ensures
        match words {
            Some(w) => res == Ok::<Vec<String>, CmisError>(w),
            None => res matches Err(CmisError::RawParse),
        },
{
    match words {
        Some(w) => Ok(w),
        None => Err(CmisError::RawParse),
    }
}

/// Splits a command line into words as a POSIX shell does.
pub fn split_command_line(line: &str) -> (res: Result<Vec<String>, CmisError>)
    ensures
        match shlex_words(line@) {
            Some(ws) => res matches Ok(w) && views(w@) == ws,
            None => res matches Err(CmisError::RawParse),
        },
{
    words_or_error(shlex_split(line))
}

/// The prompt: `connection:repository:path> ` within a session, `> ` without.
pub open spec fn prompt_text(location: Option<(Seq<char>, Seq<char>, Seq<char>)>) -> Seq<char> {
    match location {
        Some((connection, repository, path)) => connection + ":"@ + repository + ":"@ + path
            + "> "@,
        None => "> "@,
    }
}

/// The prompt for a session at the given connection, repository and path,
/// or for no session.
pub fn prompt(location: Option<(&str, &str, &str)>) -> (res: String)
    ensures
        res@ == prompt_text(
            match location {
                Some((c, r, p)) => Some((c@, r@, p@)),
                None => None,
            },
        ),
{
    match location {
        Some((connection, repository, path)) => {
            let mut res = String::from_str(connection);
            res.append(":");
            res.append(repository);
            res.append(":");
            res.append(path);
            res.append("> ");
            res
        },
        None => String::from_str("> "),
    }
}

/// The connection that `login` opens, or the error naming a connection that
/// the configuration lacks.
pub fn login_target<'a>(config: &'a Config, connection_name: &str) -> (res: Result<
    &'a ConfigConnection,
    CmisError,
>)
    ensures
        match res {
            Ok(c) => lookup(config.spec_connections(), connection_name@) == Some(*c),
            Err(e) => !has_key(config.spec_connections(), connection_name@) && (e matches CmisError::ConnectionNotFound(n)
                && n@ == connection_name@),
        },
{
    match config.get_connection(connection_name) {
        Some(c) => Ok(c),
        None => Err(CmisError::ConnectionNotFound(String::from_str(connection_name))),
    }
}

/// What the cache knows of a secret.
pub enum SecretState {
    /// The secret is known.
    Cached(String),
    /// The secret must be asked for.
    Interactive,
}

/// Where a secret comes from.
pub enum SecretLookup {
    /// The secret is this one.
    Known(String),
    /// The user must type it.
    Ask,
}

/// Client secrets by connection name.
pub struct SecretCache {
    secrets: Vec<(String, SecretState)>,
}

/// What a lookup of the secret of a connection gives: a cached secret; else,
/// when the cache knows nothing of the connection, the secret of its
/// configuration if that is not empty; else the user must type it.
pub open spec fn secret_source(
    state: Option<SecretState>,
    configured: Seq<char>,
) -> Option<Seq<char>> {
    match state {
        Some(SecretState::Cached(s)) => Some(s@),
        Some(SecretState::Interactive) => None,
        None => if configured.len() > 0 {
            Some(configured)
        } else {
            None
        },
    }
}

impl Default for SecretCache {
    /// An empty cache.
    fn default() -> (res: Self)
        ensures
            forall|name: Seq<char>| #[trigger] res.spec_state(name) is None,
    {
        SecretCache { secrets: Vec::new() }
    }
}

impl SecretCache {
    /// What the cache knows of the secret of the connection named `name`.
    pub open spec fn spec_state(&self, name: Seq<char>) -> Option<SecretState> {
        match lookup(self.spec_secrets(), name) {
            Some(e) => Some(e.1),
            None => None,
        }
    }

    /// The entries of the cache.
    pub closed spec fn spec_secrets(&self) -> Seq<(String, SecretState)> {
        self.secrets@
    }

    /// Where the secret of `connection` comes from.
    pub fn lookup_secret(&self, connection: &ConfigConnection) -> (res: SecretLookup)
        ensures
            match res {
                SecretLookup::Known(s) => secret_source(
                    self.spec_state(connection.name@),
                    connection.auth.client_secret@,
                ) == Some(s@),
                SecretLookup::Ask => secret_source(
                    self.spec_state(connection.name@),
                    connection.auth.client_secret@,
                ) is None,
            },
    {
        match get_entry(&self.secrets, connection.name.as_str()) {
            Some(entry) => match &entry.1 {
                SecretState::Cached(secret) => SecretLookup::Known(secret.clone()),
                SecretState::Interactive => SecretLookup::Ask,
            },
            None => {
                if connection.auth.client_secret.as_str().is_empty() {
                    SecretLookup::Ask
                } else {
                    SecretLookup::Known(connection.auth.client_secret.clone())
                }
            },
        }
    }

    /// Caches `secret` for `connection`.
    pub fn remember_secret(&mut self, connection: &ConfigConnection, secret: String)
        ensures
            final(self).spec_state(connection.name@) matches Some(SecretState::Cached(s)) && s
                == secret,
            forall|other: Seq<char>|
                other != connection.name@ ==> #[trigger] final(self).spec_state(other) == old(
                    self,
                ).spec_state(other),
    {
        let ghost name = connection.name@;
        let entry = (connection.name.clone(), SecretState::Cached(secret));
        let ghost e = entry;
        insert_entry(&mut self.secrets, entry);
        assert(lookup(self.secrets@, name) == Some(e));
    }

    /// Marks the secret of `connection` as one to ask for.
    pub fn invalidate_secret(&mut self, connection: &ConfigConnection)
        ensures
            final(self).spec_state(connection.name@) matches Some(SecretState::Interactive),
            forall|other: Seq<char>|
                other != connection.name@ ==> #[trigger] final(self).spec_state(other) == old(
                    self,
                ).spec_state(other),
    {
        let ghost name = connection.name@;
        let entry = (connection.name.clone(), SecretState::Interactive);
        let ghost e = entry;
        insert_entry(&mut self.secrets, entry);
        assert(lookup(self.secrets@, name) == Some(e));
    }
}

/// Invalidating the secret of a connection makes the next lookup ask the
/// user, even when the configuration holds a secret; caching what the user
/// typed makes lookups give that secret. The secrets of other connections
/// stay as they were throughout.
pub proof fn lemma_invalidate_then_ask(
    before: SecretCache,
    invalidated: SecretCache,
    after: SecretCache,
    connection: ConfigConnection,
    typed: String,
    other: Seq<char>,
)
    requires
        invalidated.spec_state(connection.name@) matches Some(SecretState::Interactive),
        forall|o: Seq<char>|
            o != connection.name@ ==> #[trigger] invalidated.spec_state(o) == before.spec_state(o),
        after.spec_state(connection.name@) matches Some(SecretState::Cached(s)) && s == typed,
        forall|o: Seq<char>|
            o != connection.name@ ==> #[trigger] after.spec_state(o) == invalidated.spec_state(o),
    ensures
        secret_source(invalidated.spec_state(connection.name@), connection.auth.client_secret@)
            is None,
        secret_source(after.spec_state(connection.name@), connection.auth.client_secret@) == Some(
            typed@,
        ),
        other != connection.name@ ==> after.spec_state(other) == before.spec_state(other),
{
    if other != connection.name@ {
        assert(after.spec_state(other) == invalidated.spec_state(other));
        assert(invalidated.spec_state(other) == before.spec_state(other));
    }
}

} // verus!
