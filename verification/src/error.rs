use vstd::prelude::*;

verus! {

/// Why an operation on schema migrations was refused.
#[derive(Clone, Debug, PartialEq, Eq)]
pub enum MigrationError {
    /// A request that the developer has to fix: a short machine-readable
    /// code and a message for people.
    BadRequest { short_msg: String, msg: String },
    /// A stored migration record whose state is neither `completed` nor `failed`.
    InvalidMigrationState { state: String },
    /// A table name or field path that is not made of valid identifiers.
    InvalidIdentifier { text: String },
    /// A document id that is not in the id format.
    InvalidDocumentId { text: String },
    /// A handler output that is neither nothing nor the module's JSON text.
    InvalidHandlerOutput,
    /// A table migration's handler result that is not an object.
    PatchNotAnObject,
    /// A field-scoped migration without a field path.
    MissingFieldPath,
    /// A progress document that does not exist.
    MissingProgress,
}

/// The model of a [`MigrationError`].
pub ghost enum MigrationErrorModel {
    BadRequest { short_msg: Seq<char>, msg: Seq<char> },
    InvalidMigrationState { state: Seq<char> },
    InvalidIdentifier { text: Seq<char> },
    InvalidDocumentId { text: Seq<char> },
    InvalidHandlerOutput,
    PatchNotAnObject,
    MissingFieldPath,
    MissingProgress,
}

impl View for MigrationError {
    type V = MigrationErrorModel;

    open spec fn view(&self) -> MigrationErrorModel {
        match self {
            MigrationError::BadRequest { short_msg, msg } => MigrationErrorModel::BadRequest {
                short_msg: short_msg@,
                msg: msg@,
            },
            MigrationError::InvalidMigrationState { state } => MigrationErrorModel::InvalidMigrationState {
                state: state@,
            },
            MigrationError::InvalidIdentifier { text } => MigrationErrorModel::InvalidIdentifier {
                text: text@,
            },
            MigrationError::InvalidDocumentId { text } => MigrationErrorModel::InvalidDocumentId {
                text: text@,
            },
            MigrationError::InvalidHandlerOutput => MigrationErrorModel::InvalidHandlerOutput,
            MigrationError::PatchNotAnObject => MigrationErrorModel::PatchNotAnObject,
            MigrationError::MissingFieldPath => MigrationErrorModel::MissingFieldPath,
            MigrationError::MissingProgress => MigrationErrorModel::MissingProgress,
        }
    }
}

/// The human-readable text of an error.
pub open spec fn error_message(e: MigrationErrorModel) -> Seq<char> {
    match e {
        MigrationErrorModel::BadRequest { short_msg, msg } => msg,
        MigrationErrorModel::InvalidMigrationState { state } => "Invalid schema migration state \""@
            + state + "\""@,
        MigrationErrorModel::InvalidIdentifier { text } => "Invalid identifier \""@ + text
            + "\""@,
        MigrationErrorModel::InvalidDocumentId { text } => "Invalid document id \""@ + text
            + "\""@,
        MigrationErrorModel::InvalidHandlerOutput => "Migration handler output is not valid"@,
        MigrationErrorModel::PatchNotAnObject => "Table migration handler must return an object"@,
        MigrationErrorModel::MissingFieldPath => "Field migration missing field path"@,
        MigrationErrorModel::MissingProgress => "Missing schema migration progress"@,
    }
}

/// `a` followed by `b` followed by `c`.
pub fn concat3(a: &str, b: &str, c: &str) -> (s: String)
    ensures
        s@ == a@ + b@ + c@,
{
    let mut s = String::from_str(a);
    s.append(b);
    s.append(c);
    s
}

impl MigrationError {
    /// The text that reports this error.
    pub fn message(&self) -> (text: String)
        ensures
            text@ == error_message(self@),
    {
        match self {
            MigrationError::BadRequest { short_msg, msg } => msg.clone(),
            MigrationError::InvalidMigrationState { state } => concat3(
                "Invalid schema migration state \"",
                state.as_str(),
                "\"",
            ),
            MigrationError::InvalidIdentifier { text } => concat3(
                "Invalid identifier \"",
                text.as_str(),
                "\"",
            ),
            MigrationError::InvalidDocumentId { text } => concat3(
                "Invalid document id \"",
                text.as_str(),
                "\"",
            ),
            MigrationError::InvalidHandlerOutput => String::from_str(
                "Migration handler output is not valid",
            ),
            MigrationError::PatchNotAnObject => String::from_str(
                "Table migration handler must return an object",
            ),
            MigrationError::MissingFieldPath => String::from_str("Field migration missing field path"),
            MigrationError::MissingProgress => String::from_str("Missing schema migration progress"),
        }
    }

    /// The short code of an error the developer has to fix, if it is one.
    pub fn short_msg(&self) -> (code: Option<String>)
        ensures
            match self@ {
                MigrationErrorModel::BadRequest { short_msg, msg } => code is Some && code->0@
                    == short_msg,
                _ => code is None,
            },
    {
        match self {
            MigrationError::BadRequest { short_msg, msg } => Some(short_msg.clone()),
            _ => None,
        }
    }
}

} // verus!
