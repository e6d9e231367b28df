use vstd::prelude::*;
use vstd::string::*;
use crate::text::{strings_view, concat_all};

verus! {

/// An error of the database layer, with its message.
#[derive(Debug, Clone, PartialEq, Eq)]
pub enum DbError {
    Error(String),
}

/// The errors of the server. An error that comes from another library carries that library's
/// message, which is also its own.
#[derive(Debug, Clone)]
pub enum Error {
    Io(String),
    DbError(String),
    RedbError(String),
    RedbTransactionError(String),
    RedbTableError(String),
    RedbStorageError(String),
    RedbCommitError(String),
    Other(String),
    /// the settings did not pass validation; the messages of the failed checks
    SettingsValidation(Vec<String>),
    /// errors of a service; their messages
    ServiceErrors(Vec<String>),
    HyperError(String),
    /// a file kept changing while it was being copied; the file
    FileTimeCopyError(String),
    JsonError(String),
}

/// The messages one after the other.
pub open spec fn joined(messages: Seq<Seq<char>>) -> Seq<char> {
    concat_all(messages, messages.len())
}

/// Each message followed by `\n` (a backslash and the letter n).
pub open spec fn lines_text(messages: Seq<Seq<char>>, n: nat) -> Seq<char>
    decreases n,
{
    if n == 0 {
        Seq::empty()
    } else {
        lines_text(messages, (n - 1) as nat) + messages[n - 1] + seq!['\\', 'n']
    }
}

/// The message of an error, as it is shown to the user.
pub open spec fn error_message(e: Error) -> Seq<char> {
    match e {
        Error::Io(m) => m@,
        Error::DbError(m) => m@,
        Error::RedbError(m) => m@,
        Error::RedbTransactionError(m) => m@,
        Error::RedbTableError(m) => m@,
        Error::RedbStorageError(m) => m@,
        Error::RedbCommitError(m) => m@,
        Error::Other(m) => m@,
        Error::SettingsValidation(v) => "Ошибка валидации настроек: "@ + joined(strings_view(v@)),
        Error::ServiceErrors(v) => "Ошибка валидации настроек: "@ + joined(strings_view(v@)),
        Error::HyperError(m) => m@,
        Error::FileTimeCopyError(f) => "Превышено максимальное количество попыток при попытке копирования файла `"@
            + f@ + "`, файл должен успевать копироваться в систему в течении 2 минут"@,
        Error::JsonError(m) => m@,
    }
}

fn concat_strings(err: &Vec<String>) -> (out: String)
    ensures
        out@ == joined(strings_view(err@)),
{
    let ghost v = strings_view(err@);
    let mut out = String::new();
    let mut i: usize = 0;
    while i < err.len()
        invariant
            i <= err@.len(),
            v == strings_view(err@),
            out@ == concat_all(v, i as nat),
        decreases err@.len() - i,
    {
        out.append(err[i].as_str());
        proof {
            assert(v[i as int] == err@[i as int]@);
            assert(out@ =~= concat_all(v, (i + 1) as nat));
        }
        i = i + 1;
    }
    out
}

/// The messages of the failed settings checks, one after the other.
pub fn from_validation_error(err: &Vec<String>) -> (out: String)
    ensures
        out@ == joined(strings_view(err@)),
{
    concat_strings(err)
}

/// The messages of service errors, one after the other.
pub fn from_service_error(err: &Vec<String>) -> (out: String)
    ensures
        out@ == joined(strings_view(err@)),
{
    concat_strings(err)
}

/// The messages of the failed settings checks, each followed by `\n`.
pub fn vec_to_str(val: &Vec<String>) -> (out: String)
    ensures
        out@ == lines_text(strings_view(val@), val@.len()),
{
    let ghost v = strings_view(val@);
    let mut errors = String::new();
    let mut i: usize = 0;
    while i < val.len()
        invariant
            i <= val@.len(),
            v == strings_view(val@),
            errors@ == lines_text(v, i as nat),
        decreases val@.len() - i,
    {
        proof {
            reveal_strlit("\\n");
        }
        errors.append(val[i].as_str());
        errors.append("\\n");
        proof {
            assert(v[i as int] == val@[i as int]@);
            assert(errors@ =~= lines_text(v, (i + 1) as nat));
        }
        i = i + 1;
    }
    errors
}

impl Error {
    /// The message of the error.
    pub fn message(&self) -> (s: String)
        ensures
            s@ == error_message(*self),
    {
        match self {
            Error::Io(m) => m.clone(),
            Error::DbError(m) => m.clone(),
            Error::RedbError(m) => m.clone(),
            Error::RedbTransactionError(m) => m.clone(),
            Error::RedbTableError(m) => m.clone(),
            Error::RedbStorageError(m) => m.clone(),
            Error::RedbCommitError(m) => m.clone(),
            Error::Other(m) => m.clone(),
            Error::SettingsValidation(v) => {
                let mut s = String::from_str("Ошибка валидации настроек: ");
                let body = from_validation_error(v);
                s.append(body.as_str());
                s
            },
            Error::ServiceErrors(v) => {
                let mut s = String::from_str("Ошибка валидации настроек: ");
                let body = from_service_error(v);
                s.append(body.as_str());
                s
            },
            Error::HyperError(m) => m.clone(),
            Error::FileTimeCopyError(f) => {
                let mut s = String::from_str(
                    "Превышено максимальное количество попыток при попытке копирования файла `",
                );
                s.append(f.as_str());
                s.append("`, файл должен успевать копироваться в систему в течении 2 минут");
                s
            },
            Error::JsonError(m) => m.clone(),
        }
    }
}

} // verus!
