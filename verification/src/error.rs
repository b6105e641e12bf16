//! Error taxonomy shared by every component of the engine.

use vstd::prelude::*;
use vstd::std_specs::convert::FromSpecImpl;
use vstd::string::StringExecFns;

verus! {

/// Stable, machine-readable category of a failure.
#[derive(Debug, Clone, Copy, PartialEq, Eq, Structural)]
#[allow(non_camel_case_types)]
pub enum ErrorCode {
    /// Invalid or missing credentials.
    E001_InvalidCredentials,
    /// The requested dataset does not exist.
    E002_DatasetNotFound,
    /// Transport failure, timeout or non-success status.
    E003_NetworkError,
    /// Malformed dataset reference or file name.
    E004_InvalidPath,
    /// File system failure.
    E005_IoError,
    /// JSON could not be read or written.
    E006_JsonError,
    /// Archive rejected or corrupt.
    E007_ZipError,
    /// CSV could not be parsed.
    E008_CsvError,
    /// A string handed over by the host was not UTF-8.
    E009_Utf8Error,
    /// The host handed over a null pointer.
    E010_NullPointer,
}

impl ErrorCode {
    /// The four characters of the code, such as `E004`.
    pub open spec fn code_text(self) -> Seq<char> {
        match self {
            ErrorCode::E001_InvalidCredentials => "E001"@,
            ErrorCode::E002_DatasetNotFound => "E002"@,
            ErrorCode::E003_NetworkError => "E003"@,
            ErrorCode::E004_InvalidPath => "E004"@,
            ErrorCode::E005_IoError => "E005"@,
            ErrorCode::E006_JsonError => "E006"@,
            ErrorCode::E007_ZipError => "E007"@,
            ErrorCode::E008_CsvError => "E008"@,
            ErrorCode::E009_Utf8Error => "E009"@,
            ErrorCode::E010_NullPointer => "E010"@,
        }
    }

    /// The short description that belongs to the code.
    pub open spec fn description_text(self) -> Seq<char> {
        match self {
            ErrorCode::E001_InvalidCredentials => "Invalid Kaggle credentials"@,
            ErrorCode::E002_DatasetNotFound => "Dataset not found"@,
            ErrorCode::E003_NetworkError => "Network error"@,
            ErrorCode::E004_InvalidPath => "Invalid dataset path"@,
            ErrorCode::E005_IoError => "File system error"@,
            ErrorCode::E006_JsonError => "JSON error"@,
            ErrorCode::E007_ZipError => "ZIP extraction error"@,
            ErrorCode::E008_CsvError => "CSV parsing error"@,
            ErrorCode::E009_Utf8Error => "UTF-8 encoding error"@,
            ErrorCode::E010_NullPointer => "Null pointer error"@,
        }
    }

    /// What `to_string` renders: the code in brackets, a space, the description.
    pub open spec fn display_text(self) -> Seq<char> {
        "["@ + self.code_text() + "] "@ + self.description_text()
    }

    /// The code as text.
    pub fn code(&self) -> (r: &'static str)
        ensures
            r@ == self.code_text(),
    {
        match self {
            ErrorCode::E001_InvalidCredentials => "E001",
            ErrorCode::E002_DatasetNotFound => "E002",
            ErrorCode::E003_NetworkError => "E003",
            ErrorCode::E004_InvalidPath => "E004",
            ErrorCode::E005_IoError => "E005",
            ErrorCode::E006_JsonError => "E006",
            ErrorCode::E007_ZipError => "E007",
            ErrorCode::E008_CsvError => "E008",
            ErrorCode::E009_Utf8Error => "E009",
            ErrorCode::E010_NullPointer => "E010",
        }
    }

    /// A brief, human-readable description of the category.
    pub fn description(&self) -> (r: &'static str)
        ensures
            r@ == self.description_text(),
    {
        match self {
            ErrorCode::E001_InvalidCredentials => "Invalid Kaggle credentials",
            ErrorCode::E002_DatasetNotFound => "Dataset not found",
            ErrorCode::E003_NetworkError => "Network error",
            ErrorCode::E004_InvalidPath => "Invalid dataset path",
            ErrorCode::E005_IoError => "File system error",
            ErrorCode::E006_JsonError => "JSON error",
            ErrorCode::E007_ZipError => "ZIP extraction error",
            ErrorCode::E008_CsvError => "CSV parsing error",
            ErrorCode::E009_Utf8Error => "UTF-8 encoding error",
            ErrorCode::E010_NullPointer => "Null pointer error",
        }
    }

    /// Renders the code as `[E001] Invalid Kaggle credentials`.
    pub fn to_string(&self) -> (r: String)
        ensures
            r@ == self.display_text(),
    {
        let mut out = String::from_str("[");
        out.append(self.code());
        out.append("] ");
        out.append(self.description());
        out
    }
}

/// A failure of the engine, paired with a stable textual message.
#[derive(Debug, Clone, PartialEq, Eq)]
pub enum GaggleError {
    /// The requested dataset could not be found.
    DatasetNotFound(String),
    /// A string from the host was not valid UTF-8.
    Utf8Error,
    /// The host passed a null pointer.
    NullPointer,
    /// Reading or writing files failed.
    IoError(String),
    /// JSON could not be serialized or deserialized.
    JsonError(String),
    /// A request to the remote service failed.
    HttpRequestError(String),
    /// Credentials are missing or invalid.
    CredentialsError(String),
    /// A dataset reference or file name was rejected.
    InvalidDatasetPath(String),
    /// An archive was rejected or could not be read.
    ZipError(String),
    /// CSV could not be parsed.
    CsvError(String),
}

impl GaggleError {
    /// The category that a failure belongs to.
    pub open spec fn code_of(self) -> ErrorCode {
        match self {
            GaggleError::DatasetNotFound(_) => ErrorCode::E002_DatasetNotFound,
            GaggleError::Utf8Error => ErrorCode::E009_Utf8Error,
            GaggleError::NullPointer => ErrorCode::E010_NullPointer,
            GaggleError::IoError(_) => ErrorCode::E005_IoError,
            GaggleError::JsonError(_) => ErrorCode::E006_JsonError,
            GaggleError::HttpRequestError(_) => ErrorCode::E003_NetworkError,
            GaggleError::CredentialsError(_) => ErrorCode::E001_InvalidCredentials,
            GaggleError::InvalidDatasetPath(_) => ErrorCode::E004_InvalidPath,
            GaggleError::ZipError(_) => ErrorCode::E007_ZipError,
            GaggleError::CsvError(_) => ErrorCode::E008_CsvError,
        }
    }

    /// The fixed text that precedes the detail in the rendered message.
    pub open spec fn prefix_text(self) -> Seq<char> {
        match self {
            GaggleError::DatasetNotFound(_) => "[E002] Dataset not found: "@,
            GaggleError::Utf8Error => "[E009] Invalid UTF-8 string"@,
            GaggleError::NullPointer => "[E010] Null pointer passed"@,
            GaggleError::IoError(_) => "[E005] IO error: "@,
            GaggleError::JsonError(_) => "[E006] JSON serialization error: "@,
            GaggleError::HttpRequestError(_) => "[E003] HTTP request failed: "@,
            GaggleError::CredentialsError(_) => "[E001] Invalid Kaggle credentials: "@,
            GaggleError::InvalidDatasetPath(_) => "[E004] Invalid dataset path: "@,
            GaggleError::ZipError(_) => "[E007] ZIP extraction failed: "@,
            GaggleError::CsvError(_) => "[E008] CSV parsing error: "@,
        }
    }

    /// The detail that the failure carries; empty for the two that carry none.
    pub open spec fn detail_text(self) -> Seq<char> {
        match self {
            GaggleError::DatasetNotFound(m) => m@,
            GaggleError::Utf8Error => Seq::empty(),
            GaggleError::NullPointer => Seq::empty(),
            GaggleError::IoError(m) => m@,
            GaggleError::JsonError(m) => m@,
            GaggleError::HttpRequestError(m) => m@,
            GaggleError::CredentialsError(m) => m@,
            GaggleError::InvalidDatasetPath(m) => m@,
            GaggleError::ZipError(m) => m@,
            GaggleError::CsvError(m) => m@,
        }
    }

    /// The rendered message: the prefix followed by the detail.
    pub open spec fn message_text(self) -> Seq<char> {
        self.prefix_text() + self.detail_text()
    }

    /// The category of this failure.
    pub fn code(&self) -> (r: ErrorCode)
        ensures
            r == self.code_of(),
    {
        match self {
            GaggleError::DatasetNotFound(_) => ErrorCode::E002_DatasetNotFound,
            GaggleError::Utf8Error => ErrorCode::E009_Utf8Error,
            GaggleError::NullPointer => ErrorCode::E010_NullPointer,
            GaggleError::IoError(_) => ErrorCode::E005_IoError,
            GaggleError::JsonError(_) => ErrorCode::E006_JsonError,
            GaggleError::HttpRequestError(_) => ErrorCode::E003_NetworkError,
            GaggleError::CredentialsError(_) => ErrorCode::E001_InvalidCredentials,
            GaggleError::InvalidDatasetPath(_) => ErrorCode::E004_InvalidPath,
            GaggleError::ZipError(_) => ErrorCode::E007_ZipError,
            GaggleError::CsvError(_) => ErrorCode::E008_CsvError,
        }
    }

    /// The category of this failure as text, such as `E003`.
    pub fn code_str(&self) -> (r: &'static str)
        ensures
            r@ == self.code_of().code_text(),
    {
        self.code().code()
    }

    /// Renders the failure as its stable message.
    pub fn to_string(&self) -> (r: String)
        ensures
            r@ == self.message_text(),
    {
        match self {
            GaggleError::DatasetNotFound(m) => String::from_str("[E002] Dataset not found: ").concat(
                m.as_str(),
            ),
            GaggleError::Utf8Error => {
                let r = String::from_str("[E009] Invalid UTF-8 string");
                assert(r@ + Seq::<char>::empty() =~= r@);
                r
            },
            GaggleError::NullPointer => {
                let r = String::from_str("[E010] Null pointer passed");
                assert(r@ + Seq::<char>::empty() =~= r@);
                r
            },
            GaggleError::IoError(m) => String::from_str("[E005] IO error: ").concat(m.as_str()),
            GaggleError::JsonError(m) => String::from_str(
                "[E006] JSON serialization error: ",
            ).concat(m.as_str()),
            GaggleError::HttpRequestError(m) => String::from_str(
                "[E003] HTTP request failed: ",
            ).concat(m.as_str()),
            GaggleError::CredentialsError(m) => String::from_str(
                "[E001] Invalid Kaggle credentials: ",
            ).concat(m.as_str()),
            GaggleError::InvalidDatasetPath(m) => String::from_str(
                "[E004] Invalid dataset path: ",
            ).concat(m.as_str()),
            GaggleError::ZipError(m) => String::from_str("[E007] ZIP extraction failed: ").concat(
                m.as_str(),
            ),
            GaggleError::CsvError(m) => String::from_str("[E008] CSV parsing error: ").concat(
                m.as_str(),
            ),
        }
    }
}


/// The error that decoding a byte sequence as UTF-8 gives.
#[verifier::external_type_specification]
#[verifier::external_body]
pub struct ExUtf8Error(std::str::Utf8Error);

/// The error of an input or output operation.
#[verifier::external_type_specification]
#[verifier::external_body]
pub struct ExIoError(std::io::Error);

/// The error of reading or writing JSON.
#[verifier::external_type_specification]
#[verifier::external_body]
pub struct ExJsonError(serde_json::Error);

/// Renders an I/O error. Calls `to_string` of `std::io::Error`; nothing is claimed of
/// the text.
#[verifier::external_body]
fn io_error_text(err: &std::io::Error) -> (r: String) {
    err.to_string()
}

/// Renders a JSON error. Calls `to_string` of `serde_json::Error`; nothing is claimed
/// of the text.
#[verifier::external_body]
pub(crate) fn json_error_text(err: &serde_json::Error) -> (r: String) {
    err.to_string()
}

impl GaggleError {
    /// The failure that stands for an I/O error: an `IoError` with the error's text.
    pub fn from_io(err: &std::io::Error) -> (r: GaggleError)
        ensures
            r is IoError,
    {
        GaggleError::IoError(io_error_text(err))
    }

    /// The failure that stands for a JSON error: a `JsonError` with the error's text.
    pub fn from_json(err: &serde_json::Error) -> (r: GaggleError)
        ensures
            r is JsonError,
    {
        GaggleError::JsonError(json_error_text(err))
    }
}

impl From<std::str::Utf8Error> for GaggleError {
    fn from(err: std::str::Utf8Error) -> (r: GaggleError) {
        GaggleError::Utf8Error
    }
}

impl FromSpecImpl<std::str::Utf8Error> for GaggleError {
    open spec fn obeys_from_spec() -> bool {
        true
    }

    open spec fn from_spec(err: std::str::Utf8Error) -> GaggleError {
        GaggleError::Utf8Error
    }
}

impl From<std::io::Error> for GaggleError {
    fn from(err: std::io::Error) -> (r: GaggleError) {
        GaggleError::from_io(&err)
    }
}

impl FromSpecImpl<std::io::Error> for GaggleError {
    open spec fn obeys_from_spec() -> bool {
        false
    }

    open spec fn from_spec(err: std::io::Error) -> GaggleError {
        GaggleError::IoError(arbitrary())
    }
}

impl From<serde_json::Error> for GaggleError {
    fn from(err: serde_json::Error) -> (r: GaggleError) {
        GaggleError::from_json(&err)
    }
}

impl FromSpecImpl<serde_json::Error> for GaggleError {
    open spec fn obeys_from_spec() -> bool {
        false
    }

    open spec fn from_spec(err: serde_json::Error) -> GaggleError {
        GaggleError::JsonError(arbitrary())
    }
}

} // verus!
