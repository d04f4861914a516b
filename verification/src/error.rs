//! The errors of the shell and the messages that it prints for them.
use vstd::prelude::*;

verus! {

/// An error of a shell command or of a request to the repository.
pub enum CmisError {
    /// A command needs a session, and there is none.
    NotConnected,
    /// The command exists but does nothing yet.
    NotImplemented,
    /// No object answers to the given name or id.
    NotFound(String),
    /// More than one object answers to the given name or id.
    BadTree(String),
    /// A property is missing or has the wrong kind of value.
    PropertyNotFound(String),
    /// Neither path property is present.
    MissingPath,
    /// The session names a connection that the configuration lacks.
    NoConnectionConfig(String),
    /// `login` names a connection that the configuration lacks.
    ConnectionNotFound(String),
    /// `switch` names a repository that the connection does not offer.
    RepositoryNotFound { repository: String, connection: String },
    /// The command line could not be split into words.
    RawParse,
    /// The server answered with a status that is not a success.
    HttpStatus { status: String, body: String },
    /// Any other failure, with its message.
    Other(String),
}

/// The message printed for an error.
pub open spec fn error_message(e: CmisError) -> Seq<char> {
    match e {
        CmisError::NotConnected => "not connected"@,
        CmisError::NotImplemented => "not implemented"@,
        CmisError::NotFound(s) => "not found: "@ + s@,
        CmisError::BadTree(s) => "bad tree: "@ + s@ + " is not unique"@,
        CmisError::PropertyNotFound(s) => "property not found: "@ + s@,
        CmisError::MissingPath => "missing path attribute: cmis:path or path_tokens"@,
        CmisError::NoConnectionConfig(s) => "No config for connection "@ + s@,
        CmisError::ConnectionNotFound(s) => "connection configuration '"@ + s@ + "' not found"@,
        CmisError::RepositoryNotFound { repository, connection } => "repository '"@ + repository@
            + "' not found in connection '"@ + connection@ + "'"@,
        CmisError::RawParse => "raw parsing error"@,
        CmisError::HttpStatus { status, body } => status@ + ":\n"@ + body@,
        CmisError::Other(s) => s@,
    }
}

impl CmisError {
    /// The message printed for this error.
    pub fn message(&self) -> (res: String)
        ensures
            res@ == error_message(*self),
    {
        match self {
            CmisError::NotConnected => String::from_str("not connected"),
            CmisError::NotImplemented => String::from_str("not implemented"),
            CmisError::NotFound(s) => {
                let mut r = String::from_str("not found: ");
                r.append(s.as_str());
                r
            },
            CmisError::BadTree(s) => {
                let mut r = String::from_str("bad tree: ");
                r.append(s.as_str());
                r.append(" is not unique");
                r
            },
            CmisError::PropertyNotFound(s) => {
                let mut r = String::from_str("property not found: ");
                r.append(s.as_str());
                r
            },
            CmisError::MissingPath => String::from_str(
                "missing path attribute: cmis:path or path_tokens",
            ),
            CmisError::NoConnectionConfig(s) => {
                let mut r = String::from_str("No config for connection ");
                r.append(s.as_str());
                r
            },
            CmisError::ConnectionNotFound(s) => {
                let mut r = String::from_str("connection configuration '");
                r.append(s.as_str());
                r.append("' not found");
                r
            },
            CmisError::RepositoryNotFound { repository, connection } => {
                let mut r = String::from_str("repository '");
                r.append(repository.as_str());
                r.append("' not found in connection '");
                r.append(connection.as_str());
                r.append("'");
                r
            },
            CmisError::RawParse => String::from_str("raw parsing error"),
            CmisError::HttpStatus { status, body } => {
                let mut r = status.clone();
                r.append(":\n");
                r.append(body.as_str());
                r
            },
            CmisError::Other(s) => s.clone(),
        }
    }
}

} // verus!
