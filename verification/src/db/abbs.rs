//! Diagnostics: what is reported of a package whose declarations are at
//! fault. A diagnostic never stops a scan.

use vstd::prelude::*;

verus! {

/// What a diagnostic is about.
#[derive(Debug, Clone, Copy, PartialEq, Eq, Structural)]
pub enum ErrorType {
    /// One declaration file is malformed.
    Parse,
    /// The merged declarations are no valid package.
    Package,
}

/// A problem with one file of a package or with the package as a whole.
#[derive(Debug, Clone, PartialEq, Eq)]
pub struct PackageError {
    pub package: String,
    pub path: String,
    pub message: String,
    pub err_type: ErrorType,
}

/// A diagnostic as plain text.
pub struct Diagnostic {
    pub package: Seq<char>,
    pub path: Seq<char>,
    pub message: Seq<char>,
    pub kind: ErrorType,
}

impl View for PackageError {
    type V = Diagnostic;

    open spec fn view(&self) -> Diagnostic {
        Diagnostic {
            package: self.package@,
            path: self.path@,
            message: self.message@,
            kind: self.err_type,
        }
    }
}

/// The diagnostics in `v` as plain text, in order.
pub open spec fn diagnostics(v: Seq<PackageError>) -> Seq<Diagnostic> {
    Seq::new(v.len(), |i: int| v[i]@)
}

} // verus!
