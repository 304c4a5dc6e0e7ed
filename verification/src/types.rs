//! The record that a verification hands over, and the kinds its rows are tagged with.

use vstd::prelude::*;

verus! {

/// Which of a source's two bytecodes a row stands for.
#[derive(Debug, Clone, Copy, PartialEq, Eq, Structural)]
pub enum BytecodeType {
    CreationInput,
    DeployedBytecode,
}

/// How a contract was submitted for verification.
#[derive(Debug, Clone, Copy, PartialEq, Eq, Structural)]
pub enum VerificationType {
    FlattenedContract,
    Metadata,
    MultiPartFiles,
    StandardJson,
}

/// The language a source was written in.
#[derive(Debug, Clone, Copy, PartialEq, Eq, Structural)]
pub enum SourceType {
    Solidity,
    Vyper,
    Yul,
}

/// The kind a stored bytecode part is tagged with.
#[derive(Debug, Clone, Copy, PartialEq, Eq, Structural)]
pub enum PartType {
    Main,
    Metadata,
}

/// The kind of a bytecode part as a verification reports it.
#[derive(Debug, Clone, Copy, PartialEq, Eq, Structural)]
pub enum BytecodeTy {
    Main,
    Meta,
}

/// The kind under which a part of the reported kind is stored.
pub open spec fn part_type_of(ty: BytecodeTy) -> PartType {
    match ty {
        BytecodeTy::Main => PartType::Main,
        BytecodeTy::Meta => PartType::Metadata,
    }
}

impl From<BytecodeTy> for PartType {
    fn from(ty: BytecodeTy) -> (part_type: Self) {
        match ty {
            BytecodeTy::Main => PartType::Main,
            BytecodeTy::Meta => PartType::Metadata,
        }
    }
}

impl vstd::std_specs::convert::FromSpecImpl<BytecodeTy> for PartType {
    open spec fn obeys_from_spec() -> bool {
        true
    }

    open spec fn from_spec(ty: BytecodeTy) -> Self {
        part_type_of(ty)
    }
}

/// One part of a bytecode: hexadecimal text, with or without a leading `0x`,
/// and the kind of the part.
#[derive(Clone, Debug, PartialEq, Eq)]
pub struct BytecodePart {
    pub data: String,
    pub ty: BytecodeTy,
}

/// What a successful verification of one contract produced.
///
/// `contract_libraries` and `sources` are lists of pairs (name, value); a pair
/// may occur more than once in `sources`.
#[derive(Clone, Debug, PartialEq, Eq)]
pub struct VerificationResult {
    pub file_name: String,
    pub contract_name: String,
    pub compiler_version: String,
    pub evm_version: String,
    pub constructor_arguments: Option<String>,
    pub optimization: Option<bool>,
    pub optimization_runs: Option<usize>,
    pub contract_libraries: Vec<(String, String)>,
    pub abi: Option<String>,
    pub sources: Vec<(String, String)>,
    pub compiler_settings: String,
    pub local_creation_input_parts: Vec<BytecodePart>,
    pub local_deployed_bytecode_parts: Vec<BytecodePart>,
}

} // verus!
