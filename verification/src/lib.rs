//! Document conversion: argument normalisation, format dispatch and the
//! converters between text, PDF, DOCX, CSV, HTML, JSON and XML.

pub mod convert;
pub mod dispatch;
pub mod docx;
pub mod error;
pub mod format;
pub mod html;
pub mod markup;
pub mod occurrences;
pub mod paginate;
pub mod pdf;
pub mod plain;
pub mod request;
pub mod table_laws;
pub mod text;
