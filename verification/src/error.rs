//! Error values reported while a configuration is built.
//!
//! Every error is detected during setup, before any line is processed, and
//! carries the path of the offending configuration field.  Each error value
//! renders itself as a single diagnostic message through [`ConfigError::message`].

use vstd::prelude::*;
use vstd::string::StringExecFns;

verus! {

/// The JSON shape that a configuration field was expected to have.
#[derive(Clone, Copy, Debug, PartialEq, Eq, Structural)]
pub enum JsonType {
    Str,
    Arr,
    Num,
}

impl JsonType {
    /// The name of the expected shape, as it appears in diagnostics.
    pub open spec fn spec_name(self) -> Seq<char> {
        match self {
            JsonType::Str => "String"@,
            JsonType::Arr => "Array"@,
            JsonType::Num => "Number"@,
        }
    }

    /// Renders the name of the expected shape.
    pub fn name(&self) -> (r: String)
        ensures
            r@ == self.spec_name(),
    {
        match self {
            JsonType::Str => "String".to_owned(),
            JsonType::Arr => "Array".to_owned(),
            JsonType::Num => "Number".to_owned(),
        }
    }
}

/// Why a color token failed to parse as a decimal palette index.
///
/// The cases mirror the failures of parsing an unsigned 8-bit integer from a
/// decimal string, and each renders as the standard library's wording for
/// that failure.
#[derive(Clone, Copy, Debug, PartialEq, Eq, Structural)]
pub enum ColorParseKind {
    Empty,
    InvalidDigit,
    PosOverflow,
}

impl ColorParseKind {
    /// The diagnostic text for this parse failure.
    pub open spec fn spec_text(self) -> Seq<char> {
        match self {
            ColorParseKind::Empty => "cannot parse integer from empty string"@,
            ColorParseKind::InvalidDigit => "invalid digit found in string"@,
            ColorParseKind::PosOverflow => "number too large to fit in target type"@,
        }
    }

    /// Renders the diagnostic text for this parse failure.
    pub fn text(&self) -> (r: String)
        ensures
            r@ == self.spec_text(),
    {
        match self {
            ColorParseKind::Empty => "cannot parse integer from empty string".to_owned(),
            ColorParseKind::InvalidDigit => "invalid digit found in string".to_owned(),
            ColorParseKind::PosOverflow => "number too large to fit in target type".to_owned(),
        }
    }
}

/// A configuration could not be built.
///
/// Each variant names the configuration field that failed; the `JsonParse`
/// variant carries the message of the underlying JSON syntax error, and the
/// `Regex` variant the message of the underlying pattern compilation error.
#[derive(Debug)]
pub enum ConfigError {
    JsonParse(String),
    JsonType(String, JsonType),
    Regex(String, String),
    ParseInt(String, ColorParseKind),
}

impl ConfigError {
    /// The variant-specific part of the diagnostic message.
    pub open spec fn spec_detail(self) -> Seq<char> {
        match self {
            ConfigError::JsonParse(m) => m@,
            ConfigError::JsonType(name, t) => "Invalid Json value type for \""@ + name@
                + "\" (Expected: "@ + t.spec_name() + ")"@,
            ConfigError::Regex(name, err) => "Invalid regex for \""@ + name@ + "\". ("@ + err@
                + ")"@,
            ConfigError::ParseInt(name, k) => "Failed to parse \""@ + name@ + "\". ("@
                + k.spec_text() + ")"@,
        }
    }

    /// The full diagnostic message for this error.
    pub open spec fn spec_message(self) -> Seq<char> {
        "Invalid configuration file: "@ + self.spec_detail()
    }

    /// Renders the full diagnostic message for this error.
    pub fn message(&self) -> (r: String)
        ensures
            r@ == self.spec_message(),
    {
        let mut s: String = "Invalid configuration file: ".to_owned();
        match self {
            ConfigError::JsonParse(m) => {
                s.append(m.as_str());
            },
            ConfigError::JsonType(name, t) => {
                s.append("Invalid Json value type for \"");
                s.append(name.as_str());
                s.append("\" (Expected: ");
                let tn = t.name();
                s.append(tn.as_str());
                s.append(")");
            },
            ConfigError::Regex(name, err) => {
                s.append("Invalid regex for \"");
                s.append(name.as_str());
                s.append("\". (");
                s.append(err.as_str());
                s.append(")");
            },
            ConfigError::ParseInt(name, k) => {
                s.append("Failed to parse \"");
                s.append(name.as_str());
                s.append("\". (");
                let kt = k.text();
                s.append(kt.as_str());
                s.append(")");
            },
        }
        proof {
            assert(s@ =~= self.spec_message());
        }
        s
    }
}

/// A color value given on the command line could not be parsed.
#[derive(Debug)]
pub struct ParseColorError {
    message: String,
}

impl ParseColorError {
    /// The diagnostic message held by this error.
    pub closed spec fn spec_message(self) -> Seq<char> {
        self.message@
    }

    /// Builds the error for a color token `str_value` that failed with `err`.
    pub fn new(str_value: &str, err: ColorParseKind) -> (r: Self)
        ensures
            r.spec_message() == "Invalid color value: "@ + str_value@ + " ("@ + err.spec_text()
                + ")"@,
    {
        let mut s: String = "Invalid color value: ".to_owned();
        s.append(str_value);
        s.append(" (");
        let et = err.text();
        s.append(et.as_str());
        s.append(")");
        proof {
            assert(s@ =~= "Invalid color value: "@ + str_value@ + " ("@ + err.spec_text() + ")"@);
        }
        (ParseColorError { message: s })
    }

    /// Renders the diagnostic message for this error.
    pub fn message(&self) -> (r: String)
        ensures
            r@ == self.spec_message(),
    {
        self.message.clone()
    }
}

} // verus!
