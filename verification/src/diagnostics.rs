//! What can go wrong while a chunk is rendered.

use crate::ids::{ChunkIdx, ModuleIdx, SymbolRef};
use vstd::prelude::*;
use vstd::string::*;

verus! {

/// The inputs contradict what the earlier passes guarantee. Not a user error: a build that
/// meets one must stop.
#[derive(Clone, Copy, Debug, PartialEq, Eq, Structural)]
pub enum InvariantViolation {
    /// A symbol that the chunk refers to has no rendered name in it.
    MissingCanonicalName { symbol: SymbolRef },
    /// A wrapped module has no wrapper symbol.
    MissingWrapperRef { module: ModuleIdx },
    /// A module that is not wrapped has a wrapper symbol.
    UnexpectedWrapperRef { module: ModuleIdx },
    /// A module handle points outside the tables.
    UnknownModule { module: ModuleIdx },
    /// A chunk handle points outside the chunk graph.
    UnknownChunk { chunk: ChunkIdx },
}

/// Two different bindings are exported under one name.
#[derive(Debug, PartialEq, Eq)]
pub struct ExportConflict {
    /// The entry module whose export list holds both.
    pub module: ModuleIdx,
    /// The name both are exported under.
    pub export_name: String,
    /// The binding that claims the name first.
    pub first: SymbolRef,
    /// The binding that claims it again.
    pub second: SymbolRef,
}

/// Why a chunk could not be rendered.
#[derive(Debug, PartialEq, Eq)]
pub enum BuildDiagnostic {
    ExportConflict(ExportConflict),
    InvariantViolation(InvariantViolation),
}

/// Model of a [`BuildDiagnostic`].
pub enum DiagnosticView {
    ExportConflict { module: ModuleIdx, export_name: Seq<char>, first: SymbolRef, second: SymbolRef },
    InvariantViolation(InvariantViolation),
}

impl View for BuildDiagnostic {
    type V = DiagnosticView;

    open spec fn view(&self) -> DiagnosticView {
        match self {
            BuildDiagnostic::ExportConflict(conflict) => DiagnosticView::ExportConflict {
                module: conflict.module,
                export_name: conflict.export_name@,
                first: conflict.first,
                second: conflict.second,
            },
            BuildDiagnostic::InvariantViolation(violation) => DiagnosticView::InvariantViolation(
                *violation,
            ),
        }
    }
}

impl BuildDiagnostic {
    /// Whether the diagnostic is for the user, as opposed to a sign of a broken build.
    pub fn is_user_facing(&self) -> (r: bool)
        ensures
            r == (self@ is ExportConflict),
    {
        match self {
            BuildDiagnostic::ExportConflict(_) => true,
            BuildDiagnostic::InvariantViolation(_) => false,
        }
    }
}

} // verus!
