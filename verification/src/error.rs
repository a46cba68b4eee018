//! Errors of the library.

use vstd::prelude::*;
use crate::text;

verus! {

/// The result of an operation that can fail.
pub type Result<T> = std::result::Result<T, Error>;

/// What went wrong. Failures of the system and of parsers are carried as the
/// message they came with.
#[derive(Debug)]
pub enum Error {
    Io { path: String, source: String },
    IoBare(String),
    Config(String),
    Template { template: String, message: String },
    ExiftoolMissing,
    Exiftool(String),
    Metadata { path: String, message: String },
    Profile(String),
    Source(String),
    DestRootMissing { path: String, kind: &'static str },
    DestRootNotDir { path: String, kind: &'static str },
    DestinationLocked { path: String },
    Cancelled,
    Internal(String),
    TomlDe(String),
    TomlSer(String),
    Json(String),
}

/// What an [`Error`] says.
pub enum ErrorView {
    Io { path: Seq<char>, source: Seq<char> },
    IoBare(Seq<char>),
    Config(Seq<char>),
    Template { template: Seq<char>, message: Seq<char> },
    ExiftoolMissing,
    Exiftool(Seq<char>),
    Metadata { path: Seq<char>, message: Seq<char> },
    Profile(Seq<char>),
    Source(Seq<char>),
    DestRootMissing { path: Seq<char>, kind: Seq<char> },
    DestRootNotDir { path: Seq<char>, kind: Seq<char> },
    DestinationLocked { path: Seq<char> },
    Cancelled,
    Internal(Seq<char>),
    TomlDe(Seq<char>),
    TomlSer(Seq<char>),
    Json(Seq<char>),
}

impl View for Error {
    type V = ErrorView;

    open spec fn view(&self) -> ErrorView {
        match self {
            Error::Io { path, source } => ErrorView::Io { path: path@, source: source@ },
            Error::IoBare(m) => ErrorView::IoBare(m@),
            Error::Config(m) => ErrorView::Config(m@),
            Error::Template { template, message } => ErrorView::Template {
                template: template@,
                message: message@,
            },
            Error::ExiftoolMissing => ErrorView::ExiftoolMissing,
            Error::Exiftool(m) => ErrorView::Exiftool(m@),
            Error::Metadata { path, message } => ErrorView::Metadata {
                path: path@,
                message: message@,
            },
            Error::Profile(m) => ErrorView::Profile(m@),
            Error::Source(m) => ErrorView::Source(m@),
            Error::DestRootMissing { path, kind } => ErrorView::DestRootMissing {
                path: path@,
                kind: kind@,
            },
            Error::DestRootNotDir { path, kind } => ErrorView::DestRootNotDir {
                path: path@,
                kind: kind@,
            },
            Error::DestinationLocked { path } => ErrorView::DestinationLocked { path: path@ },
            Error::Cancelled => ErrorView::Cancelled,
            Error::Internal(m) => ErrorView::Internal(m@),
            Error::TomlDe(m) => ErrorView::TomlDe(m@),
            Error::TomlSer(m) => ErrorView::TomlSer(m@),
            Error::Json(m) => ErrorView::Json(m@),
        }
    }
}

impl ErrorView {
    /// The message shown to the user.
    pub open spec fn message(self) -> Seq<char> {
        match self {
            ErrorView::Io { path, source } => "io error at "@ + path + ": "@ + source,
            ErrorView::IoBare(m) => "io error: "@ + m,
            ErrorView::Config(m) => "config error: "@ + m,
            ErrorView::Template { template, message } => "invalid path template `"@ + template
                + "`: "@ + message,
            ErrorView::ExiftoolMissing =>
                "exiftool not found on PATH; install it from https://exiftool.org/"@,
            ErrorView::Exiftool(m) => "exiftool error: "@ + m,
            ErrorView::Metadata { path, message } => "metadata parse error for "@ + path + ": "@
                + message,
            ErrorView::Profile(m) => "profile error: "@ + m,
            ErrorView::Source(m) => "source error: "@ + m,
            ErrorView::DestRootMissing { path, kind } => "destination root not found: "@ + path
                + " ("@ + kind + "). Create it with `mkdir -p "@ + path
                + "`, or check that the drive is mounted."@,
            ErrorView::DestRootNotDir { path, kind } => "destination root is not a directory: "@
                + path + " ("@ + kind + ")"@,
            ErrorView::DestinationLocked { path } =>
                "another ImageSync import is already using destination root: "@ + path,
            ErrorView::Cancelled => "operation cancelled"@,
            ErrorView::Internal(m) => "internal error: "@ + m,
            ErrorView::TomlDe(m) => "toml parse error: "@ + m,
            ErrorView::TomlSer(m) => "toml serialize error: "@ + m,
            ErrorView::Json(m) => "json error: "@ + m,
        }
    }
}

impl Error {
    /// A failure of the system at a path.
    pub fn io(path: &str, source: &str) -> (r: Self)
        ensures
            r@ == (ErrorView::Io { path: path@, source: source@ }),
    {
        Error::Io { path: text::copy_str(path), source: text::copy_str(source) }
    }

    /// The message shown to the user.
    pub fn to_string(&self) -> (r: String)
        ensures
            r@ == self@.message(),
    {
        match self {
            Error::Io { path, source } => {
                let mut s = text::copy_str("io error at ");
                s.append(path.as_str());
                s.append(": ");
                s.append(source.as_str());
                s
            },
            Error::IoBare(m) => labelled("io error: ", m),
            Error::Config(m) => labelled("config error: ", m),
            Error::Template { template, message } => {
                let mut s = text::copy_str("invalid path template `");
                s.append(template.as_str());
                s.append("`: ");
                s.append(message.as_str());
                s
            },
            Error::ExiftoolMissing => text::copy_str(
                "exiftool not found on PATH; install it from https://exiftool.org/",
            ),
            Error::Exiftool(m) => labelled("exiftool error: ", m),
            Error::Metadata { path, message } => {
                let mut s = text::copy_str("metadata parse error for ");
                s.append(path.as_str());
                s.append(": ");
                s.append(message.as_str());
                s
            },
            Error::Profile(m) => labelled("profile error: ", m),
            Error::Source(m) => labelled("source error: ", m),
            Error::DestRootMissing { path, kind } => {
                let mut s = text::copy_str("destination root not found: ");
                s.append(path.as_str());
                s.append(" (");
                s.append(kind);
                s.append("). Create it with `mkdir -p ");
                s.append(path.as_str());
                s.append("`, or check that the drive is mounted.");
                s
            },
            Error::DestRootNotDir { path, kind } => {
                let mut s = text::copy_str("destination root is not a directory: ");
                s.append(path.as_str());
                s.append(" (");
                s.append(kind);
                s.append(")");
                s
            },
            Error::DestinationLocked { path } => labelled(
                "another ImageSync import is already using destination root: ",
                path,
            ),
            Error::Cancelled => text::copy_str("operation cancelled"),
            Error::Internal(m) => labelled("internal error: ", m),
            Error::TomlDe(m) => labelled("toml parse error: ", m),
            Error::TomlSer(m) => labelled("toml serialize error: ", m),
            Error::Json(m) => labelled("json error: ", m),
        }
    }
}

fn labelled(label: &str, message: &String) -> (r: String)
    ensures
        r@ == label@ + message@,
{
    let mut s = text::copy_str(label);
    s.append(message.as_str());
    s
}

proof fn lemma_two_parts(a: Seq<char>, p: Seq<char>, b: Seq<char>, q: Seq<char>)
    ensures
        (a + p).is_prefix_of(a + p + b + q),
        (b + q).is_suffix_of(a + p + b + q),
{
    let m = a + p + b + q;
    assert(m.take((a + p).len() as int) =~= a + p);
    assert(m.skip(m.len() - (b + q).len()) =~= b + q);
}

/// A message that is about a path or a template begins with it, and ends in what went wrong.
pub proof fn law_messages_tell_their_place(p: Seq<char>, why: Seq<char>)
    ensures
        ({
            let m = (ErrorView::Io { path: p, source: why }).message();
            ("io error at "@ + p).is_prefix_of(m) && (": "@ + why).is_suffix_of(m)
        }),
        ({
            let m = (ErrorView::Template { template: p, message: why }).message();
            ("invalid path template `"@ + p).is_prefix_of(m) && ("`: "@ + why).is_suffix_of(m)
        }),
        ({
            let m = (ErrorView::Metadata { path: p, message: why }).message();
            ("metadata parse error for "@ + p).is_prefix_of(m) && (": "@ + why).is_suffix_of(m)
        }),
        p.is_suffix_of((ErrorView::DestinationLocked { path: p }).message()),
{
    lemma_two_parts("io error at "@, p, ": "@, why);
    lemma_two_parts("invalid path template `"@, p, "`: "@, why);
    lemma_two_parts("metadata parse error for "@, p, ": "@, why);
    let m = (ErrorView::DestinationLocked { path: p }).message();
    assert(m.skip(m.len() - p.len()) =~= p);
}

/// A message about a root begins with its path and tells which root it is; one about a missing
/// root also says how to create it.
pub proof fn law_messages_tell_the_root(p: Seq<char>, kind: Seq<char>)
    ensures
        ({
            let m = (ErrorView::DestRootNotDir { path: p, kind }).message();
            &&& ("destination root is not a directory: "@ + p).is_prefix_of(m)
            &&& (" ("@ + kind + ")"@).is_suffix_of(m)
        }),
        ({
            let m = (ErrorView::DestRootMissing { path: p, kind }).message();
            &&& ("destination root not found: "@ + p + " ("@ + kind).is_prefix_of(m)
            &&& (p + "`, or check that the drive is mounted."@).is_suffix_of(m)
        }),
{
    let a = (ErrorView::DestRootNotDir { path: p, kind }).message();
    let begin = "destination root is not a directory: "@ + p;
    let end = " ("@ + kind + ")"@;
    assert(a.take(begin.len() as int) =~= begin);
    assert(a.skip(a.len() - end.len()) =~= end);
    let b = (ErrorView::DestRootMissing { path: p, kind }).message();
    let head = "destination root not found: "@ + p + " ("@ + kind;
    assert(b.take(head.len() as int) =~= head);
    let tail = p + "`, or check that the drive is mounted."@;
    assert(b.skip(b.len() - tail.len()) =~= tail);
}

/// Any other failure ends in its own message, behind a word that tells its kind.
pub proof fn law_messages_end_in_the_failure(m: Seq<char>)
    ensures
        ErrorView::IoBare(m).message() == "io error: "@ + m,
        m.is_suffix_of(ErrorView::Config(m).message()),
        m.is_suffix_of(ErrorView::Exiftool(m).message()),
        m.is_suffix_of(ErrorView::Profile(m).message()),
        m.is_suffix_of(ErrorView::Source(m).message()),
        m.is_suffix_of(ErrorView::Internal(m).message()),
        m.is_suffix_of(ErrorView::TomlDe(m).message()),
        m.is_suffix_of(ErrorView::TomlSer(m).message()),
        m.is_suffix_of(ErrorView::Json(m).message()),
{
    lemma_behind("config error: "@, m);
    lemma_behind("exiftool error: "@, m);
    lemma_behind("profile error: "@, m);
    lemma_behind("source error: "@, m);
    lemma_behind("internal error: "@, m);
    lemma_behind("toml parse error: "@, m);
    lemma_behind("toml serialize error: "@, m);
    lemma_behind("json error: "@, m);
}

proof fn lemma_behind(a: Seq<char>, m: Seq<char>)
    ensures
        m.is_suffix_of(a + m),
{
    assert((a + m).skip((a + m).len() - m.len()) =~= m);
}

} // verus!
