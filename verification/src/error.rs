//! Why a conversion failed.

use vstd::prelude::*;

verus! {

/// The failure of a converter. A variant that carries a text carries the
/// message of the parser or writer that failed.
#[derive(Clone, Debug)]
pub enum ConvertError {
    /// The input that was handed over is not of the kind that the route
    /// reads.
    WrongInput,
    /// The input is not JSON.
    Json(String),
    /// The XML could not be read or written.
    Xml(String),
    /// The input is not CSV.
    Csv(String),
    /// The DOCX package could not be written.
    Docx(String),
}

/// The model of a `ConvertError`.
pub enum Failure {
    WrongInput,
    Json(Seq<char>),
    Xml(Seq<char>),
    Csv(Seq<char>),
    Docx(Seq<char>),
}

impl View for ConvertError {
    type V = Failure;

    open spec fn view(&self) -> Failure {
        match self {
            ConvertError::WrongInput => Failure::WrongInput,
            ConvertError::Json(message) => Failure::Json(message@),
            ConvertError::Xml(message) => Failure::Xml(message@),
            ConvertError::Csv(message) => Failure::Csv(message@),
            ConvertError::Docx(message) => Failure::Docx(message@),
        }
    }
}

impl Failure {
    /// The text to print for a failure.
    pub open spec fn diagnostic(self) -> Seq<char> {
        match self {
            Failure::WrongInput => "Wrong kind of input"@,
            Failure::Json(message) => message,
            Failure::Xml(message) => message,
            Failure::Csv(message) => message,
            Failure::Docx(message) => message,
        }
    }
}

impl ConvertError {
    /// The text to print for an error.
    pub fn message(&self) -> (text: String)
        ensures
            text@ == self@.diagnostic(),
    {
        match self {
            ConvertError::WrongInput => "Wrong kind of input".to_owned(),
            ConvertError::Json(message) => message.clone(),
            ConvertError::Xml(message) => message.clone(),
            ConvertError::Csv(message) => message.clone(),
            ConvertError::Docx(message) => message.clone(),
        }
    }
}

/// The model of the result of a converter that writes text.
pub open spec fn text_outcome(result: Result<String, ConvertError>) -> Result<Seq<char>, Failure> {
    match result {
        Ok(text) => Ok(text@),
        Err(error) => Err(error@),
    }
}

} // verus!
