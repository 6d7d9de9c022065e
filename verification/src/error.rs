//! Application error type and its mapping to HTTP status codes.

use vstd::prelude::*;

verus! {

/// Unified application error type.
#[derive(Debug, Clone, PartialEq, Eq)]
pub enum AppError {
    /// Configuration file could not be read or parsed (500).
    Config(String),
    /// Data serialization / deserialization failure (400).
    Serialization(String),
    /// Requested resource does not exist (404).
    NotFound(String),
    /// Malformed client request (400).
    BadRequest(String),
    /// Unexpected internal failure (500).
    Internal(String),
    /// Scanner failure (500).
    ScanError(String),
}

/// The HTTP status code of each kind of error.
pub open spec fn spec_http_status(e: AppError) -> u16 {
    match e {
        AppError::Config(..) => 500,
        AppError::Serialization(..) => 400,
        AppError::NotFound(..) => 404,
        AppError::BadRequest(..) => 400,
        AppError::Internal(..) => 500,
        AppError::ScanError(..) => 500,
    }
}

/// The human-readable message of an error: a fixed prefix, then the detail.
pub open spec fn spec_message(e: AppError) -> Seq<char> {
    match e {
        AppError::Config(m) => "configuration error: "@ + m@,
        AppError::Serialization(m) => "serialization error: "@ + m@,
        AppError::NotFound(m) => "not found: "@ + m@,
        AppError::BadRequest(m) => "bad request: "@ + m@,
        AppError::Internal(m) => "internal error: "@ + m@,
        AppError::ScanError(m) => "scan error: "@ + m@,
    }
}

/// `e` is an internal error with the given message.
pub open spec fn is_internal(e: AppError, msg: Seq<char>) -> bool {
    e matches AppError::Internal(m) && m@ == msg
}

impl AppError {
    /// Map this error to the appropriate HTTP status code.
    pub fn to_http_status(&self) -> (status: u16)
        ensures
            status == spec_http_status(*self),
    {
        match self {
            AppError::Config(..) => 500,
            AppError::Serialization(..) => 400,
            AppError::NotFound(..) => 404,
            AppError::BadRequest(..) => 400,
            AppError::Internal(..) => 500,
            AppError::ScanError(..) => 500,
        }
    }

    /// The message shown to users: a prefix naming the kind of error, then its detail.
    pub fn message(&self) -> (text: String)
        ensures
            text@ == spec_message(*self),
    {
        let (prefix, detail) = match self {
            AppError::Config(m) => ("configuration error: ", m),
            AppError::Serialization(m) => ("serialization error: ", m),
            AppError::NotFound(m) => ("not found: ", m),
            AppError::BadRequest(m) => ("bad request: ", m),
            AppError::Internal(m) => ("internal error: ", m),
            AppError::ScanError(m) => ("scan error: ", m),
        };
        let mut text = String::from_str(prefix);
        text.append(detail.as_str());
        text
    }
}

#[verifier::external_type_specification]
#[verifier::external_body]
pub struct ExIoError(std::io::Error);

/// Calls `ToString::to_string` on an I/O error (its `Display` text).  Nothing
/// is claimed of the text: for errors from the operating system it depends on
/// the system.
#[verifier::external_body]
fn io_error_text(err: &std::io::Error) -> (text: String) {
    err.to_string()
}

/// An I/O error met while handling the configuration becomes a
/// configuration error carrying the I/O error's text.
impl From<std::io::Error> for AppError {
    fn from(err: std::io::Error) -> (e: Self)
        ensures
            e is Config,
    {
        AppError::Config(io_error_text(&err))
    }
}

impl vstd::std_specs::convert::FromSpecImpl<std::io::Error> for AppError {
    /// The text an I/O error is shown with is not specified, so no value is
    /// promised beyond the variant stated on `from` itself.
    open spec fn obeys_from_spec() -> bool {
        false
    }

    open spec fn from_spec(v: std::io::Error) -> AppError {
        AppError::Config(vstd::pervasive::arbitrary())
    }
}

#[verifier::external_type_specification]
#[verifier::external_body]
pub struct ExJsonError(serde_json::Error);

#[verifier::external_type_specification]
#[verifier::external_body]
pub struct ExTomlDeError(toml::de::Error);

#[verifier::external_type_specification]
#[verifier::external_body]
pub struct ExTomlSerError(toml::ser::Error);

/// The `Display` text of a `serde_json` error: its message, followed by the
/// line and column when it has them.  It depends on the error alone.
pub uninterp spec fn spec_json_error_text(err: serde_json::Error) -> Seq<char>;

/// The `Display` text of a TOML parse error, which depends on the error alone.
pub uninterp spec fn spec_toml_de_error_text(err: toml::de::Error) -> Seq<char>;

/// The `Display` text of a TOML serialization error, which depends on the
/// error alone.
pub uninterp spec fn spec_toml_ser_error_text(err: toml::ser::Error) -> Seq<char>;

/// Calls `ToString::to_string` on a `serde_json` error.  Claimed: the text is
/// the error's `Display` text, named `spec_json_error_text`.
#[verifier::external_body]
fn json_error_text(err: &serde_json::Error) -> (text: String)
    ensures
        text@ == spec_json_error_text(*err),
{
    err.to_string()
}

/// Calls `ToString::to_string` on a TOML parse error.  Claimed: the text is
/// the error's `Display` text, named `spec_toml_de_error_text`.
#[verifier::external_body]
fn toml_de_error_text(err: &toml::de::Error) -> (text: String)
    ensures
        text@ == spec_toml_de_error_text(*err),
{
    err.to_string()
}

/// Calls `ToString::to_string` on a TOML serialization error.  Claimed: the
/// text is the error's `Display` text, named `spec_toml_ser_error_text`.
#[verifier::external_body]
fn toml_ser_error_text(err: &toml::ser::Error) -> (text: String)
    ensures
        text@ == spec_toml_ser_error_text(*err),
{
    err.to_string()
}

/// A configuration file that is not valid TOML is a configuration error.
impl From<toml::de::Error> for AppError {
    fn from(err: toml::de::Error) -> (e: Self)
        ensures
            e matches AppError::Config(m) && m@ == spec_toml_de_error_text(err),
    {
        AppError::Config(toml_de_error_text(&err))
    }
}

impl vstd::std_specs::convert::FromSpecImpl<toml::de::Error> for AppError {
    /// The result is stated on `from` itself: the variant, and the error's
    /// text by its view.  Only that view of the text is known, not the
    /// `String` value that `from_spec` would have to name.
    open spec fn obeys_from_spec() -> bool {
        false
    }

    open spec fn from_spec(v: toml::de::Error) -> AppError {
        AppError::Config(vstd::pervasive::arbitrary())
    }
}

/// A value TOML cannot represent is a serialization error.
impl From<toml::ser::Error> for AppError {
    fn from(err: toml::ser::Error) -> (e: Self)
        ensures
            e matches AppError::Serialization(m) && m@ == spec_toml_ser_error_text(err),
    {
        AppError::Serialization(toml_ser_error_text(&err))
    }
}

impl vstd::std_specs::convert::FromSpecImpl<toml::ser::Error> for AppError {
    /// The result is stated on `from` itself: the variant, and the error's
    /// text by its view.  Only that view of the text is known, not the
    /// `String` value that `from_spec` would have to name.
    open spec fn obeys_from_spec() -> bool {
        false
    }

    open spec fn from_spec(v: toml::ser::Error) -> AppError {
        AppError::Serialization(vstd::pervasive::arbitrary())
    }
}

/// JSON that cannot be read or written is a serialization error.
impl From<serde_json::Error> for AppError {
    fn from(err: serde_json::Error) -> (e: Self)
        ensures
            e matches AppError::Serialization(m) && m@ == spec_json_error_text(err),
    {
        AppError::Serialization(json_error_text(&err))
    }
}

impl vstd::std_specs::convert::FromSpecImpl<serde_json::Error> for AppError {
    /// The result is stated on `from` itself: the variant, and the error's
    /// text by its view.  Only that view of the text is known, not the
    /// `String` value that `from_spec` would have to name.
    open spec fn obeys_from_spec() -> bool {
        false
    }

    open spec fn from_spec(v: serde_json::Error) -> AppError {
        AppError::Serialization(vstd::pervasive::arbitrary())
    }
}

} // verus!
