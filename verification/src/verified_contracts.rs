//! The table of verified contracts: which compilation matched which
//! deployment, and how.

use vstd::prelude::*;

verus! {

/// A row of the table.
#[derive(Clone, Debug, PartialEq, Eq)]
pub struct Model {
    pub id: i64,
    /// A moment with its offset from UTC, as in `2023-02-01T12:30:00+00:00`.
    pub created_at: String,
    /// A moment with its offset from UTC.
    pub updated_at: String,
    /// The deployment, by its UUID.
    pub deployment_id: [u8; 16],
    /// The compilation, by its UUID.
    pub compilation_id: [u8; 16],
    pub creation_match: bool,
    /// A JSON document, as text.
    pub creation_values: Option<String>,
    /// A JSON document, as text.
    pub creation_transformations: Option<String>,
    pub runtime_match: bool,
    /// A JSON document, as text.
    pub runtime_values: Option<String>,
    /// A JSON document, as text.
    pub runtime_transformations: Option<String>,
}

/// The tables that a row refers to.
#[derive(Clone, Copy, Debug, PartialEq, Eq, Structural)]
pub enum Relation {
    CompiledContracts,
    ContractDeployments,
}

/// The column of this table that refers to another table.
#[derive(Clone, Copy, Debug, PartialEq, Eq, Structural)]
pub enum Column {
    CompilationId,
    DeploymentId,
}

/// What happens to a row when the row that it refers to changes or goes.
#[derive(Clone, Copy, Debug, PartialEq, Eq, Structural)]
pub enum ForeignKeyAction {
    NoAction,
}

/// How rows of this table refer to rows of another: a column of this table
/// holds the `id` of the other.
#[derive(Clone, Copy, Debug, PartialEq, Eq, Structural)]
pub struct RelationDef {
    pub from: Column,
    pub to: Relation,
    pub on_update: ForeignKeyAction,
    pub on_delete: ForeignKeyAction,
}

impl Relation {
    /// The column that holds the reference.
    pub open spec fn column(self) -> Column {
        match self {
            Relation::CompiledContracts => Column::CompilationId,
            Relation::ContractDeployments => Column::DeploymentId,
        }
    }

    /// How rows of this table refer to the rows of the other table.
    pub fn def(self) -> (def: RelationDef)
        ensures
            def == (RelationDef {
                from: self.column(),
                to: self,
                on_update: ForeignKeyAction::NoAction,
                on_delete: ForeignKeyAction::NoAction,
            }),
    {
        RelationDef {
            from: match self {
                Relation::CompiledContracts => Column::CompilationId,
                Relation::ContractDeployments => Column::DeploymentId,
            },
            to: self,
            on_update: ForeignKeyAction::NoAction,
            on_delete: ForeignKeyAction::NoAction,
        }
    }
}

} // verus!
