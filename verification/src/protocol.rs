//! The commands that an ingestion sends to a store, and the store's replies.

use crate::types::{BytecodeType, PartType, SourceType};
use vstd::prelude::*;

verus! {

/// What identifies a bytecode part: its kind and its bytes.
pub type PartKey = (PartType, Seq<u8>);

/// What identifies a source file: its name and its content.
pub type FileKey = (Seq<char>, Seq<char>);

/// The attributes of one compiled contract, as a source row holds them.
#[derive(Clone, Debug, PartialEq, Eq)]
pub struct Source {
    pub source_type: SourceType,
    pub compiler_version: String,
    /// A JSON document, as text.
    pub compiler_settings: String,
    pub file_name: String,
    pub contract_name: String,
    pub raw_creation_input: Vec<u8>,
    pub raw_deployed_bytecode: Vec<u8>,
    /// A JSON document, as text.
    pub abi: Option<String>,
}

/// A `Source` as a mathematical value.
pub struct SourceData {
    pub source_type: SourceType,
    pub compiler_version: Seq<char>,
    pub compiler_settings: Seq<char>,
    pub file_name: Seq<char>,
    pub contract_name: Seq<char>,
    pub raw_creation_input: Seq<u8>,
    pub raw_deployed_bytecode: Seq<u8>,
    pub abi: Option<Seq<char>>,
}

impl SourceData {
    /// The raw bytes that the source holds for the bytecode of one kind.
    pub open spec fn raw(self, bytecode_type: BytecodeType) -> Seq<u8> {
        match bytecode_type {
            BytecodeType::CreationInput => self.raw_creation_input,
            BytecodeType::DeployedBytecode => self.raw_deployed_bytecode,
        }
    }
}

impl View for Source {
    type V = SourceData;

    open spec fn view(&self) -> SourceData {
        SourceData {
            source_type: self.source_type,
            compiler_version: self.compiler_version@,
            compiler_settings: self.compiler_settings@,
            file_name: self.file_name@,
            contract_name: self.contract_name@,
            raw_creation_input: self.raw_creation_input@,
            raw_deployed_bytecode: self.raw_deployed_bytecode@,
            abi: match self.abi {
                Some(text) => Some(text@),
                None => None,
            },
        }
    }
}

/// One row of the relation between bytecodes and parts: the part stands at
/// position `order` of the bytecode.
#[derive(Clone, Copy, Debug, PartialEq, Eq, Structural)]
pub struct BytecodePartRow {
    pub bytecode_id: i64,
    pub order: i64,
    pub part_id: i64,
}

/// One row of the relation between sources and files.
#[derive(Clone, Copy, Debug, PartialEq, Eq, Structural)]
pub struct SourceFileRow {
    pub source_id: i64,
    pub file_id: i64,
}

/// One request to the store. Every write of one ingestion stands between a
/// `Begin` and a `Commit` or `Rollback`.
#[derive(Clone, Debug, PartialEq, Eq)]
pub enum Command {
    /// Open a transaction.
    Begin,
    /// Insert a source row. Answered by `Inserted`.
    InsertSource(Source),
    /// Insert a bytecode row. Answered by `Inserted`.
    InsertBytecode { source_id: i64, bytecode_type: BytecodeType },
    /// Look for the part with this kind and these bytes. Answered by `Found` or
    /// `Missing`.
    FindPart { part_type: PartType, data: Vec<u8> },
    /// Insert a part. Answered by `Inserted`, or by `Conflict` where the store
    /// holds such a part already.
    InsertPart { part_type: PartType, data: Vec<u8> },
    /// Insert a row that puts a part at a position of a bytecode. Answered by
    /// `Done`, or by `Conflict` where the position is taken.
    LinkPart { bytecode_id: i64, order: i64, part_id: i64 },
    /// Look for the file with this name and content. Answered by `Found` or
    /// `Missing`.
    FindFile { name: String, content: String },
    /// Insert a file. Answered by `Inserted`, or by `Conflict` where the store
    /// holds such a file already.
    InsertFile { name: String, content: String },
    /// Insert a row that ties a file to a source. Answered by `Done`, or by
    /// `Conflict` where the two are tied already.
    LinkFile { source_id: i64, file_id: i64 },
    /// Make the writes of the open transaction lasting.
    Commit,
    /// Undo the writes of the open transaction.
    Rollback,
}

/// A `Command` as a mathematical value.
pub enum CommandView {
    Begin,
    InsertSource(SourceData),
    InsertBytecode { source_id: i64, bytecode_type: BytecodeType },
    FindPart { key: PartKey },
    InsertPart { key: PartKey },
    LinkPart { row: BytecodePartRow },
    FindFile { key: FileKey },
    InsertFile { key: FileKey },
    LinkFile { row: SourceFileRow },
    Commit,
    Rollback,
}

impl View for Command {
    type V = CommandView;

    open spec fn view(&self) -> CommandView {
        match *self {
            Command::Begin => CommandView::Begin,
            Command::InsertSource(source) => CommandView::InsertSource(source@),
            Command::InsertBytecode { source_id, bytecode_type } => CommandView::InsertBytecode {
                source_id,
                bytecode_type,
            },
            Command::FindPart { part_type, data } => CommandView::FindPart {
                key: (part_type, data@),
            },
            Command::InsertPart { part_type, data } => CommandView::InsertPart {
                key: (part_type, data@),
            },
            Command::LinkPart { bytecode_id, order, part_id } => CommandView::LinkPart {
                row: BytecodePartRow { bytecode_id, order, part_id },
            },
            Command::FindFile { name, content } => CommandView::FindFile {
                key: (name@, content@),
            },
            Command::InsertFile { name, content } => CommandView::InsertFile {
                key: (name@, content@),
            },
            Command::LinkFile { source_id, file_id } => CommandView::LinkFile {
                row: SourceFileRow { source_id, file_id },
            },
            Command::Commit => CommandView::Commit,
            Command::Rollback => CommandView::Rollback,
        }
    }
}

/// The store's answer to one command.
#[derive(Clone, Copy, Debug, PartialEq, Eq, Structural)]
pub enum Reply {
    /// The command was carried out and has nothing to report.
    Done,
    /// The row was inserted under this identifier.
    Inserted(i64),
    /// A row with the content asked for has this identifier.
    Found(i64),
    /// No row has the content asked for.
    Missing,
    /// The row would have repeated what the store keeps unique.
    Conflict,
    /// The store could not carry the command out.
    Failed,
}

} // verus!
