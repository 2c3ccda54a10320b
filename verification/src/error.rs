//! The failures that the interaction log reports.
use vstd::prelude::*;
use vstd::string::StringExecFns;

verus! {

/// What can go wrong in an operation on the log.
#[derive(Debug)]
pub enum Error {
    /// The storage engine refused a statement or a connection.
    Database(String),
    /// The import source could not be read as text.
    Io(String),
    /// A text did not hold the JSON that was expected of it.
    Json(String),
    /// A schema upgrade failed while the store was opened.
    Migration(String),
    /// The text generator failed.
    Rig(String),
    /// Anything else, such as a stored timestamp that cannot be read.
    Other(String),
}

impl Error {
    /// The heading under which a variant is reported.
    pub open spec fn heading(&self) -> Seq<char> {
        match self {
            Error::Database(_) => "Database error: "@,
            Error::Io(_) => "IO error: "@,
            Error::Json(_) => "JSON error: "@,
            Error::Migration(_) => "Migration error: "@,
            Error::Rig(_) => "Rig error: "@,
            Error::Other(_) => ""@,
        }
    }

    /// The text held by a variant.
    pub open spec fn detail(&self) -> Seq<char> {
        match self {
            Error::Database(m) => m@,
            Error::Io(m) => m@,
            Error::Json(m) => m@,
            Error::Migration(m) => m@,
            Error::Rig(m) => m@,
            Error::Other(m) => m@,
        }
    }

    /// The error as one line of text: the variant's heading, then its detail.
    pub fn message(&self) -> (text: String)
        ensures
            text@ == self.heading() + self.detail(),
    {
        match self {
            Error::Database(m) => String::from_str("Database error: ").concat(m.as_str()),
            Error::Io(m) => String::from_str("IO error: ").concat(m.as_str()),
            Error::Json(m) => String::from_str("JSON error: ").concat(m.as_str()),
            Error::Migration(m) => String::from_str("Migration error: ").concat(m.as_str()),
            Error::Rig(m) => String::from_str("Rig error: ").concat(m.as_str()),
            Error::Other(m) => {
                let text = String::from_str("").concat(m.as_str());
                text
            },
        }
    }
}

} // verus!
