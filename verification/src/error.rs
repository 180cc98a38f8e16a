//! The error that every fallible operation of this crate reports.

use vstd::prelude::*;
use vstd::string::*;

verus! {

/// A failure, identified by a short machine-readable reason code.
#[derive(Debug)]
pub struct GenericError(pub &'static str);

/// `calamine::Error`, the error of the workbook reader; carried, never inspected.
#[verifier::external_type_specification]
#[verifier::external_body]
pub struct ExCalamineError(calamine::Error);

/// `std::io::Error`, the error of an input or output operation; carried, never inspected.
#[verifier::external_type_specification]
#[verifier::external_body]
pub struct ExIoError(std::io::Error);

/// What went wrong in the workbook reader, as far as this crate tells it apart.
#[derive(Debug, Clone, Copy, PartialEq, Eq, Structural)]
pub enum WorkbookFault {
    /// Input or output failed.
    Io,
    /// An `xlsx` workbook could not be read.
    Xlsx,
    /// An `xls` workbook could not be read.
    Xls,
    /// An `ods` workbook could not be read.
    Ods,
    /// Anything else.
    Other,
}

/// What went wrong in input or output, as far as this crate tells it apart.
#[derive(Debug, Clone, Copy, PartialEq, Eq, Structural)]
pub enum IoFault {
    /// There is no such file.
    NotFound,
    /// Access was denied.
    PermissionDenied,
    /// A connection was refused.
    ConnectionRefused,
    /// Anything else.
    Other,
}

/// Tells the variants of `calamine::Error` apart. Nothing is claimed of the result.
#[verifier::external_body]
fn workbook_fault(error: &calamine::Error) -> (r: WorkbookFault) {
    match error {
        calamine::Error::Io(_) => WorkbookFault::Io,
        calamine::Error::Xlsx(_) => WorkbookFault::Xlsx,
        calamine::Error::Xls(_) => WorkbookFault::Xls,
        calamine::Error::Ods(_) => WorkbookFault::Ods,
        _ => WorkbookFault::Other,
    }
}

/// Tells the kinds of `std::io::Error` apart, by `std::io::Error::kind`.
/// Nothing is claimed of the result.
#[verifier::external_body]
fn io_fault(error: &std::io::Error) -> (r: IoFault) {
    match error.kind() {
        std::io::ErrorKind::NotFound => IoFault::NotFound,
        std::io::ErrorKind::PermissionDenied => IoFault::PermissionDenied,
        std::io::ErrorKind::ConnectionRefused => IoFault::ConnectionRefused,
        _ => IoFault::Other,
    }
}

/// The reason code of a fault of the workbook reader.
pub open spec fn workbook_fault_code(fault: WorkbookFault) -> Seq<char> {
    match fault {
        WorkbookFault::Io => "io_error"@,
        WorkbookFault::Xlsx => "xlsx_error"@,
        WorkbookFault::Xls => "xlsx_error"@,
        WorkbookFault::Ods => "ods_error"@,
        WorkbookFault::Other => "unknown_calamine_error"@,
    }
}

/// The reason code of a fault of input or output.
pub open spec fn io_fault_code(fault: IoFault) -> Seq<char> {
    match fault {
        IoFault::NotFound => "file_not_found"@,
        IoFault::PermissionDenied => "permission_denied"@,
        IoFault::ConnectionRefused => "connection_refused"@,
        IoFault::Other => "io_error"@,
    }
}

impl GenericError {
    /// The reason code.
    pub open spec fn code(&self) -> Seq<char> {
        self.0@
    }

    /// The reason code as an owned text.
    pub fn message(&self) -> (r: String)
        ensures
            r@ == self.code(),
    {
        self.0.to_string()
    }

    /// The error for a fault of the workbook reader.
    pub fn from_workbook_fault(fault: WorkbookFault) -> (r: Self)
        ensures
            r.code() == workbook_fault_code(fault),
    {
        match fault {
            WorkbookFault::Io => GenericError("io_error"),
            WorkbookFault::Xlsx => GenericError("xlsx_error"),
            WorkbookFault::Xls => GenericError("xlsx_error"),
            WorkbookFault::Ods => GenericError("ods_error"),
            WorkbookFault::Other => GenericError("unknown_calamine_error"),
        }
    }

    /// The error for a fault of input or output.
    pub fn from_io_fault(fault: IoFault) -> (r: Self)
        ensures
            r.code() == io_fault_code(fault),
    {
        match fault {
            IoFault::NotFound => GenericError("file_not_found"),
            IoFault::PermissionDenied => GenericError("permission_denied"),
            IoFault::ConnectionRefused => GenericError("connection_refused"),
            IoFault::Other => GenericError("io_error"),
        }
    }

    /// The error for an error of the workbook reader: that of
    /// [`GenericError::from_workbook_fault`] for the kind of the error.
    pub fn from_workbook_error(error: &calamine::Error) -> (r: Self)
        ensures
            exists|fault: WorkbookFault| r.code() == #[trigger] workbook_fault_code(fault),
    {
        let fault = workbook_fault(error);
        let r = GenericError::from_workbook_fault(fault);
        assert(r.code() == workbook_fault_code(fault));
        r
    }

    /// The error for an error of input or output: that of
    /// [`GenericError::from_io_fault`] for the kind of the error.
    pub fn from_io_error(error: &std::io::Error) -> (r: Self)
        ensures
            exists|fault: IoFault| r.code() == #[trigger] io_fault_code(fault),
    {
        let fault = io_fault(error);
        let r = GenericError::from_io_fault(fault);
        assert(r.code() == io_fault_code(fault));
        r
    }
}

} // verus!
