use vstd::prelude::*;

verus! {

/// The failure taxonomy of the workbook engine.
///
/// `ParseError` reports non-numeric text handed to a number cell,
/// `InvalidReference` a malformed or cross-row cell reference,
/// `DuplicateReference` an explicit reference that collides inside a row,
/// and `IOError` a failure while the package archive is produced.
#[derive(Clone, Copy, Debug, PartialEq, Eq, Structural)]
pub enum XlsxError {
    ParseError,
    InvalidReference,
    DuplicateReference,
    IOError,
}

impl XlsxError {
    /// A short description, usable by callers that report failures.
    pub fn describe(&self) -> (r: &'static str)
        ensures
            r@ == self.spec_describe(),
    {
        match self {
            XlsxError::ParseError => "value is not numeric",
            XlsxError::InvalidReference => "invalid cell reference",
            XlsxError::DuplicateReference => "cell reference already exists",
            XlsxError::IOError => "could not write the package",
        }
    }

    pub open spec fn spec_describe(&self) -> Seq<char> {
        match self {
            XlsxError::ParseError => "value is not numeric"@,
            XlsxError::InvalidReference => "invalid cell reference"@,
            XlsxError::DuplicateReference => "cell reference already exists"@,
            XlsxError::IOError => "could not write the package"@,
        }
    }
}

} // verus!
