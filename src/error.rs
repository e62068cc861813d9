//! Errors of the configuration layer and of translation requests.
use vstd::prelude::*;
use vstd::string::*;
use crate::lang::{Language, language_name};
use crate::text::{decimal, write_decimal};

verus! {

/// What is wrong with the configuration on disk.
#[derive(Debug, PartialEq)]
pub enum Error {
    ConfigDirIsFile(String),
    ConfigFileIsDir(String),
    ConfigFileBadFormat(String, String),
}

impl Error {
    pub fn new_config_dir_is_file(path: String) -> (r: Self)
        ensures
            r == Error::ConfigDirIsFile(path),
    {
        Self::ConfigDirIsFile(path)
    }

    pub fn new_config_file_is_dir(path: String) -> (r: Self)
        ensures
            r == Error::ConfigFileIsDir(path),
    {
        Self::ConfigFileIsDir(path)
    }

    pub fn new_config_file_bad_format(path: String, context: String) -> (r: Self)
        ensures
            r == Error::ConfigFileBadFormat(path, context),
    {
        Self::ConfigFileBadFormat(path, context)
    }

    /// A sentence that describes the error.
    pub fn message(&self) -> (r: String)
        ensures
            r@ == match self {
                Error::ConfigDirIsFile(p) => "Config directory '"@ + p@ + "' is a file"@,
                Error::ConfigFileIsDir(p) => "Config file '"@ + p@ + "' is a directory"@,
                Error::ConfigFileBadFormat(p, c) => "Config file '"@ + p@ + "' has a bad format: "@
                    + c@,
            },
    {
        let mut r = String::new();
        match self {
            Error::ConfigDirIsFile(p) => {
                r.append("Config directory '");
                r.append(p.as_str());
                r.append("' is a file");
            },
            Error::ConfigFileIsDir(p) => {
                r.append("Config file '");
                r.append(p.as_str());
                r.append("' is a directory");
            },
            Error::ConfigFileBadFormat(p, c) => {
                r.append("Config file '");
                r.append(p.as_str());
                r.append("' has a bad format: ");
                r.append(c.as_str());
            },
        }
        r
    }
}

/// Why a translation request produced no result.
#[derive(Debug, PartialEq)]
pub enum TranslateError {
    /// A language the provider does not translate; found before any request is sent.
    UnsupportedLanguage(Language),
    /// The connection or the transfer failed.
    Transport(String),
    /// The provider answered with an HTTP status other than 200.
    ProviderError { status: u16, body: String },
    /// The body is not the JSON envelope the provider promises.
    MalformedResponse { body: String, cause: String },
    /// The envelope holds text that is not a dictionary entry.
    SchemaMismatch { text: String, cause: String },
    /// Translators do not store keys; the settings do.
    KeyNotSaved,
}

impl TranslateError {
    /// A sentence that describes the error, fit to show in place of a translation.
    pub fn message(&self) -> (r: String)
        ensures
            r@ == match self {
                TranslateError::UnsupportedLanguage(l) => "Unsupported language: "@ + language_name(
                    *l,
                ),
                TranslateError::Transport(m) => "Request failed: "@ + m@,
                TranslateError::ProviderError { status, body } => "API request failed with status "@
                    + decimal(*status as nat) + ": "@ + body@,
                TranslateError::MalformedResponse { body, cause } => "Failed to parse response: "@
                    + cause@ + ".\nReceived: "@ + body@,
                TranslateError::SchemaMismatch { text, cause } =>
                    "Failed to read AI output as a word explanation: "@ + cause@ + ".\nReceived: "@
                    + text@,
                TranslateError::KeyNotSaved => "API keys are saved with the settings"@,
            },
    {
        let mut r = String::new();
        match self {
            TranslateError::UnsupportedLanguage(l) => {
                r.append("Unsupported language: ");
                r.append(l.name());
            },
            TranslateError::Transport(m) => {
                r.append("Request failed: ");
                r.append(m.as_str());
            },
            TranslateError::ProviderError { status, body } => {
                r.append("API request failed with status ");
                write_decimal(*status as u32, &mut r);
                r.append(": ");
                r.append(body.as_str());
            },
            TranslateError::MalformedResponse { body, cause } => {
                r.append("Failed to parse response: ");
                r.append(cause.as_str());
                r.append(".\nReceived: ");
                r.append(body.as_str());
            },
            TranslateError::SchemaMismatch { text, cause } => {
                r.append("Failed to read AI output as a word explanation: ");
                r.append(cause.as_str());
                r.append(".\nReceived: ");
                r.append(text.as_str());
            },
            TranslateError::KeyNotSaved => {
                r.append("API keys are saved with the settings");
            },
        }
        r
    }
}

} // verus!
