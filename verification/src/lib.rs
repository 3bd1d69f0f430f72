//! A linker for a small bytecode module ecosystem.
//!
//! The linker works in two phases. The static phase
//! ([`linker::static_link`]) fuses several compiled object units into one
//! module: it deduplicates the type, local-variable-list, import-module and
//! external-library tables, flattens the function and data sections, resolves
//! intra-module imports to internal definitions and patches the 32-bit operand
//! slots inside the bytecode through relocation tables.  The dynamic phase
//! ([`indexer::sort_modules_by_dependent_deepth`] and
//! [`indexer::dynamic_link`]) orders a set of already-linked modules by their
//! deepest use from the application, resolves every inter-module import to a
//! `(module, internal index)` pair, unifies the external C-ABI libraries and
//! functions across modules and locates the entry points.
//!
//! All inputs and outputs are plain value records ([`entry`]); the linker
//! performs no I/O.

use vstd::prelude::*;

pub mod entry;
pub mod indexer;
pub mod laws;
pub mod linker;
pub mod merger;

use crate::entry::{DataSectionType, MemoryDataType};

verus! {

/// The closed set of errors a link run can end in.  Every variant carries the
/// full name of the offending module, library, function or datum.
#[derive(Debug, PartialEq, Clone)]
pub enum LinkErrorType {
    /// The reader collaborator could not produce an image from its bytes.
    CannotLoadModule(String, String),
    /// Two dependencies share a name but have incompatible variants.
    DependentNameConflict(String),
    /// Two file-based dependencies (both local or both remote) share a name
    /// but point at different sources.
    DependentSourceConflict(String),
    /// Two shared dependencies have versions that cannot coexist.
    DependentVersionConflict(String),
    /// An imported function has no definition anywhere in the link set.
    FunctionNotFound(String),
    /// The imported function exists but is not public.
    FunctionNotExported(String),
    /// The import's declared type differs from the definition's type.
    ImportFunctionTypeMismatch(String),
    /// Two imports of the same function disagree about its type.
    ImportFunctionTypeInconsistant(String),
    /// An imported datum has no definition anywhere in the link set.
    DataNotFound(String),
    /// The imported datum exists but is not public.
    DataNotExported(String),
    /// The import's declared section differs from the definition's section.
    ImportDataSectionMismatch(String, DataSectionType),
    /// Two imports of the same datum disagree about its section.
    ImportDataSectionInconsistant(String),
    /// The import's declared memory type differs from the definition's.
    ImportDataTypeMismatch(String, MemoryDataType),
    /// Two imports of the same datum disagree about its memory type.
    ImportDataTypeInconsistant(String),
    /// Two declarations of one external function disagree about its type.
    ExternalFunctionTypeInconsistent(String),
    /// Two declarations of one external datum disagree about its type.
    ExternalDataTypeInconsistent(String),
    /// A supplied module is reachable from no other module.
    DanglingModule(String),
}

#[derive(Debug)]
pub struct LinkerError {
    pub error_type: LinkErrorType,
}

impl LinkerError {
    pub fn new(error_type: LinkErrorType) -> (r: Self)
        ensures
            r.error_type == error_type,
    {
        Self { error_type }
    }
}

} // verus!
