//! One ingestion as a state machine: it is handed the store's reply to its
//! last command and gives the next command, until it is done.
//!
//! The machine does no work on the store itself. Whoever drives it opens the
//! transaction, carries the commands out and hands the replies back; so the
//! same machine writes to a store in memory and to one that is reached over
//! a connection.

use crate::plan::{fragment_keys, holds_together, Fragment, IngestError, Plan, PlanView};
use crate::protocol::{
    BytecodePartRow, Command, CommandView, Reply, Source, SourceFileRow,
};
use crate::types::BytecodeType;
use vstd::prelude::*;

verus! {

/// The command that an ingestion waits to have answered.
#[derive(Clone, Copy, Debug, PartialEq, Eq, Structural)]
pub enum Phase {
    /// No command was given yet.
    Created,
    /// `Begin`.
    Begin,
    /// `InsertSource`.
    Source,
    /// `InsertBytecode` for the bytecode of this kind.
    Bytecode(BytecodeType),
    /// `FindPart` for the part at `index` of the bytecode; `again` after the
    /// store refused to insert the part.
    FindPart { bytecode_type: BytecodeType, index: usize, again: bool },
    /// `InsertPart` for the part at `index` of the bytecode.
    InsertPart { bytecode_type: BytecodeType, index: usize },
    /// `LinkPart` for the part at `index` of the bytecode.
    LinkPart { bytecode_type: BytecodeType, index: usize },
    /// `FindFile` for the file at `index`; `again` after the store refused to
    /// insert the file.
    FindFile { index: usize, again: bool },
    /// `InsertFile` for the file at `index`.
    InsertFile { index: usize },
    /// `LinkFile` for the file at `index`.
    LinkFile { index: usize },
    /// `Commit`.
    Commit,
    /// `Rollback`, sent because of this error.
    Rollback(IngestError),
    /// None: the ingestion was committed.
    Succeeded,
    /// None: the ingestion wrote nothing, because of this error.
    Failed(IngestError),
}

/// What an ingestion asks for next.
#[derive(Debug, PartialEq, Eq)]
pub enum Step {
    /// Carry this command out and hand back the store's reply.
    Run(Command),
    /// Nothing: the ingestion is over, with this outcome.
    Done(Result<(), IngestError>),
}

/// A `Step` as a mathematical value.
pub enum StepView {
    Run(CommandView),
    Done(Result<(), IngestError>),
}

impl View for Step {
    type V = StepView;

    open spec fn view(&self) -> StepView {
        match *self {
            Step::Run(command) => StepView::Run(command@),
            Step::Done(outcome) => StepView::Done(outcome),
        }
    }
}

/// An ingestion as a mathematical value.
pub struct IngestionView {
    pub plan: PlanView,
    pub phase: Phase,
    /// The identifier of the source, once it is inserted.
    pub source_id: i64,
    /// The identifier of the bytecode that was inserted last.
    pub bytecode_id: i64,
}

impl IngestionView {
    /// An ingestion that has given no command yet; it is over at once where
    /// the plan does not hold together.
    pub open spec fn start(plan: PlanView) -> IngestionView {
        IngestionView {
            plan,
            phase: if plan.wf() {
                Phase::Created
            } else {
                Phase::Failed(IngestError::Inconsistent)
            },
            source_id: 0,
            bytecode_id: 0,
        }
    }

    /// The part or file that the phase speaks of is one of the plan.
    pub open spec fn wf(self) -> bool {
        match self.phase {
            Phase::FindPart { bytecode_type, index, .. } => index < self.plan.parts(
                bytecode_type,
            ).len(),
            Phase::InsertPart { bytecode_type, index } => index < self.plan.parts(
                bytecode_type,
            ).len(),
            Phase::LinkPart { bytecode_type, index } => index < self.plan.parts(
                bytecode_type,
            ).len(),
            Phase::FindFile { index, .. } => index < self.plan.files.len(),
            Phase::InsertFile { index } => index < self.plan.files.len(),
            Phase::LinkFile { index } => index < self.plan.files.len(),
            _ => true,
        }
    }

    /// The ingestion in another phase.
    pub open spec fn at(self, phase: Phase) -> IngestionView {
        IngestionView { phase, ..self }
    }

    /// The ingestion is over.
    pub open spec fn finish(self, outcome: Result<(), IngestError>) -> (IngestionView, StepView) {
        (
            self.at(
                match outcome {
                    Ok(_) => Phase::Succeeded,
                    Err(error) => Phase::Failed(error),
                },
            ),
            StepView::Done(outcome),
        )
    }

    /// The transaction is rolled back because of an error.
    pub open spec fn fail(self, error: IngestError) -> (IngestionView, StepView) {
        (self.at(Phase::Rollback(error)), StepView::Run(CommandView::Rollback))
    }

    /// The transaction is rolled back because of a reply that does not say
    /// that the command was carried out.
    pub open spec fn refuse(self, reply: Reply) -> (IngestionView, StepView) {
        self.fail(
            if reply == Reply::Failed {
                IngestError::Storage
            } else {
                IngestError::Protocol
            },
        )
    }

    /// The bytecode of one kind is inserted.
    pub open spec fn insert_bytecode(self, bytecode_type: BytecodeType) -> (
        IngestionView,
        StepView,
    ) {
        (
            self.at(Phase::Bytecode(bytecode_type)),
            StepView::Run(
                CommandView::InsertBytecode { source_id: self.source_id, bytecode_type },
            ),
        )
    }

    /// The part at `index` of a bytecode is looked for; past the last part,
    /// the deployed bytecode follows the creation input, and the files follow
    /// the deployed bytecode.
    pub open spec fn at_part(self, bytecode_type: BytecodeType, index: int) -> (
        IngestionView,
        StepView,
    ) {
        if index < self.plan.parts(bytecode_type).len() {
            (
                self.at(Phase::FindPart { bytecode_type, index: index as usize, again: false }),
                StepView::Run(
                    CommandView::FindPart { key: self.plan.parts(bytecode_type)[index] },
                ),
            )
        } else {
            match bytecode_type {
                BytecodeType::CreationInput => self.insert_bytecode(
                    BytecodeType::DeployedBytecode,
                ),
                BytecodeType::DeployedBytecode => self.at_file(0),
            }
        }
    }

    /// The part at `index` is put at the position `index` of the bytecode;
    /// this fails where an identifier cannot count so far.
    pub open spec fn link_part(self, bytecode_type: BytecodeType, index: usize, part_id: i64) -> (
        IngestionView,
        StepView,
    ) {
        if index <= i64::MAX {
            (
                self.at(Phase::LinkPart { bytecode_type, index }),
                StepView::Run(
                    CommandView::LinkPart {
                        row: BytecodePartRow {
                            bytecode_id: self.bytecode_id,
                            order: index as i64,
                            part_id,
                        },
                    },
                ),
            )
        } else {
            self.fail(IngestError::Storage)
        }
    }

    /// The file at `index` is looked for; past the last file, the
    /// transaction is committed.
    pub open spec fn at_file(self, index: int) -> (IngestionView, StepView) {
        if index < self.plan.files.len() {
            (
                self.at(Phase::FindFile { index: index as usize, again: false }),
                StepView::Run(CommandView::FindFile { key: self.plan.files[index] }),
            )
        } else {
            (self.at(Phase::Commit), StepView::Run(CommandView::Commit))
        }
    }

    /// The file at `index` is tied to the source.
    pub open spec fn link_file(self, index: usize, file_id: i64) -> (IngestionView, StepView) {
        (
            self.at(Phase::LinkFile { index }),
            StepView::Run(
                CommandView::LinkFile { row: SourceFileRow { source_id: self.source_id, file_id } },
            ),
        )
    }

    /// The ingestion after the reply to its last command, and what it asks
    /// for next.
    ///
    /// The source is inserted first, then for each of its two bytecodes the
    /// bytecode and its parts in order, then the files. A part or a file is
    /// looked for, inserted where the store has none, and linked. Where the
    /// store refuses to insert one because it holds it by now, it is looked
    /// for once more. Where the store says that a file is tied to the source
    /// already, the ingestion goes on. A position of a bytecode that is
    /// taken, a reply that does not answer the command, or one that tells of
    /// a failure, has the transaction rolled back.
    pub open spec fn step(self, reply: Reply) -> (IngestionView, StepView) {
        match self.phase {
            Phase::Created => (self.at(Phase::Begin), StepView::Run(CommandView::Begin)),
            Phase::Begin => match reply {
                Reply::Done => (
                    self.at(Phase::Source),
                    StepView::Run(CommandView::InsertSource(self.plan.source)),
                ),
                Reply::Failed => self.finish(Err(IngestError::Storage)),
                _ => self.finish(Err(IngestError::Protocol)),
            },
            Phase::Source => match reply {
                Reply::Inserted(id) => IngestionView { source_id: id, ..self }.insert_bytecode(
                    BytecodeType::CreationInput,
                ),
                _ => self.refuse(reply),
            },
            Phase::Bytecode(bytecode_type) => match reply {
                Reply::Inserted(id) => IngestionView { bytecode_id: id, ..self }.at_part(
                    bytecode_type,
                    0,
                ),
                _ => self.refuse(reply),
            },
            Phase::FindPart { bytecode_type, index, again } => match reply {
                Reply::Found(id) => self.link_part(bytecode_type, index, id),
                Reply::Missing => if again {
                    self.fail(IngestError::Storage)
                } else {
                    (
                        self.at(Phase::InsertPart { bytecode_type, index }),
                        StepView::Run(
                            CommandView::InsertPart {
                                key: self.plan.parts(bytecode_type)[index as int],
                            },
                        ),
                    )
                },
                _ => self.refuse(reply),
            },
            Phase::InsertPart { bytecode_type, index } => match reply {
                Reply::Inserted(id) => self.link_part(bytecode_type, index, id),
                Reply::Conflict => (
                    self.at(Phase::FindPart { bytecode_type, index, again: true }),
                    StepView::Run(
                        CommandView::FindPart { key: self.plan.parts(bytecode_type)[index as int] },
                    ),
                ),
                _ => self.refuse(reply),
            },
            Phase::LinkPart { bytecode_type, index } => match reply {
                Reply::Done => self.at_part(bytecode_type, index + 1),
                Reply::Conflict => self.fail(IngestError::Storage),
                _ => self.refuse(reply),
            },
            Phase::FindFile { index, again } => match reply {
                Reply::Found(id) => self.link_file(index, id),
                Reply::Missing => if again {
                    self.fail(IngestError::Storage)
                } else {
                    (
                        self.at(Phase::InsertFile { index }),
                        StepView::Run(
                            CommandView::InsertFile { key: self.plan.files[index as int] },
                        ),
                    )
                },
                _ => self.refuse(reply),
            },
            Phase::InsertFile { index } => match reply {
                Reply::Inserted(id) => self.link_file(index, id),
                Reply::Conflict => (
                    self.at(Phase::FindFile { index, again: true }),
                    StepView::Run(CommandView::FindFile { key: self.plan.files[index as int] }),
                ),
                _ => self.refuse(reply),
            },
            Phase::LinkFile { index } => match reply {
                Reply::Done => self.at_file(index + 1),
                Reply::Conflict => self.at_file(index + 1),
                _ => self.refuse(reply),
            },
            Phase::Commit => match reply {
                Reply::Done => self.finish(Ok(())),
                Reply::Failed => self.finish(Err(IngestError::Storage)),
                _ => self.finish(Err(IngestError::Protocol)),
            },
            Phase::Rollback(error) => self.finish(Err(error)),
            Phase::Succeeded => (self, StepView::Done(Ok(()))),
            Phase::Failed(error) => (self, StepView::Done(Err(error))),
        }
    }
}

/// One ingestion.
pub struct Ingestion {
    plan: Plan,
    phase: Phase,
    source_id: i64,
    bytecode_id: i64,
}

impl View for Ingestion {
    type V = IngestionView;

    closed spec fn view(&self) -> IngestionView {
        IngestionView {
            plan: self.plan@,
            phase: self.phase,
            source_id: self.source_id,
            bytecode_id: self.bytecode_id,
        }
    }
}

/// A copy of bytes.
fn copy_bytes(bytes: &Vec<u8>) -> (copy: Vec<u8>)
    ensures
        copy@ == bytes@,
{
    let copy = bytes.clone();
    assert(copy@ =~= bytes@);
    copy
}

/// A copy of a source.
fn copy_source(source: &Source) -> (copy: Source)
    ensures
        copy@ == source@,
{
    Source {
        source_type: source.source_type,
        compiler_version: source.compiler_version.clone(),
        compiler_settings: source.compiler_settings.clone(),
        file_name: source.file_name.clone(),
        contract_name: source.contract_name.clone(),
        raw_creation_input: copy_bytes(&source.raw_creation_input),
        raw_deployed_bytecode: copy_bytes(&source.raw_deployed_bytecode),
        abi: match &source.abi {
            Some(text) => Some(text.clone()),
            None => None,
        },
    }
}

impl Ingestion {
    #[verifier::type_invariant]
    spec fn valid(self) -> bool {
        self@.wf()
    }

    /// An ingestion of what the plan holds, which has given no command yet.
    /// Where the plan does not hold together, the ingestion is over at once
    /// and will write nothing.
    pub fn new(plan: Plan) -> (ingestion: Ingestion)
        ensures
            ingestion@ == IngestionView::start(plan@),
            ingestion@.wf(),
    {
        let phase = if holds_together(&plan) {
            Phase::Created
        } else {
            Phase::Failed(IngestError::Inconsistent)
        };
        Ingestion { plan, phase, source_id: 0, bytecode_id: 0 }
    }

    /// The parts of the bytecode of one kind.
    fn fragments(&self, bytecode_type: BytecodeType) -> (fragments: &Vec<Fragment>)
        ensures
            fragment_keys(fragments@) == self@.plan.parts(bytecode_type),
    {
        match bytecode_type {
            BytecodeType::CreationInput => &self.plan.creation,
            BytecodeType::DeployedBytecode => &self.plan.deployed,
        }
    }

    fn finish(&mut self, outcome: Result<(), IngestError>) -> (step: Step)
        ensures
            (final(self)@, step@) == old(self)@.finish(outcome),
    {
        self.phase = match outcome {
            Ok(_) => Phase::Succeeded,
            Err(error) => Phase::Failed(error),
        };
        Step::Done(outcome)
    }

    fn fail(&mut self, error: IngestError) -> (step: Step)
        ensures
            (final(self)@, step@) == old(self)@.fail(error),
    {
        self.phase = Phase::Rollback(error);
        Step::Run(Command::Rollback)
    }

    fn refuse(&mut self, reply: Reply) -> (step: Step)
        ensures
            (final(self)@, step@) == old(self)@.refuse(reply),
    {
        match reply {
            Reply::Failed => self.fail(IngestError::Storage),
            _ => self.fail(IngestError::Protocol),
        }
    }

    fn insert_bytecode(&mut self, bytecode_type: BytecodeType) -> (step: Step)
        ensures
            (final(self)@, step@) == old(self)@.insert_bytecode(bytecode_type),
    {
        self.phase = Phase::Bytecode(bytecode_type);
        Step::Run(Command::InsertBytecode { source_id: self.source_id, bytecode_type })
    }

    fn at_part(&mut self, bytecode_type: BytecodeType, index: usize) -> (step: Step)
        ensures
            (final(self)@, step@) == old(self)@.at_part(bytecode_type, index as int),
    {
        let fragments = self.fragments(bytecode_type);
        if index < fragments.len() {
            let fragment = &fragments[index];
            let command = Command::FindPart {
                part_type: fragment.part_type,
                data: copy_bytes(&fragment.data),
            };
            self.phase = Phase::FindPart { bytecode_type, index, again: false };
            Step::Run(command)
        } else {
            match bytecode_type {
                BytecodeType::CreationInput => self.insert_bytecode(
                    BytecodeType::DeployedBytecode,
                ),
                BytecodeType::DeployedBytecode => self.at_file(0),
            }
        }
    }

    fn link_part(&mut self, bytecode_type: BytecodeType, index: usize, part_id: i64) -> (step: Step)
        requires
            index < old(self)@.plan.parts(bytecode_type).len(),
        ensures
            (final(self)@, step@) == old(self)@.link_part(bytecode_type, index, part_id),
    {
        if index as u64 <= i64::MAX as u64 {
            self.phase = Phase::LinkPart { bytecode_type, index };
            Step::Run(
                Command::LinkPart { bytecode_id: self.bytecode_id, order: index as i64, part_id },
            )
        } else {
            self.fail(IngestError::Storage)
        }
    }

    fn at_file(&mut self, index: usize) -> (step: Step)
        ensures
            (final(self)@, step@) == old(self)@.at_file(index as int),
    {
        if index < self.plan.files.len() {
            let file = &self.plan.files[index];
            let command = Command::FindFile { name: file.0.clone(), content: file.1.clone() };
            self.phase = Phase::FindFile { index, again: false };
            Step::Run(command)
        } else {
            self.phase = Phase::Commit;
            Step::Run(Command::Commit)
        }
    }

    fn link_file(&mut self, index: usize, file_id: i64) -> (step: Step)
        requires
            index < old(self)@.plan.files.len(),
        ensures
            (final(self)@, step@) == old(self)@.link_file(index, file_id),
    {
        self.phase = Phase::LinkFile { index };
        Step::Run(Command::LinkFile { source_id: self.source_id, file_id })
    }

    /// The step that follows a reply about a part: a part is looked for,
    /// inserted where the store has none, and put at its position of the
    /// bytecode; then the next part follows.
    fn insert_parts(&mut self, reply: Reply) -> (step: Step)
        requires
            old(self)@.phase is FindPart || old(self)@.phase is InsertPart || old(self)@.phase
                is LinkPart,
        ensures
            (final(self)@, step@) == old(self)@.step(reply),
    {
        proof {
            use_type_invariant(&*self);
        }
        let phase = self.phase;
        match phase {
            Phase::FindPart { bytecode_type, index, again } => match reply {
                Reply::Found(id) => self.link_part(bytecode_type, index, id),
                Reply::Missing => if again {
                    self.fail(IngestError::Storage)
                } else {
                    let fragment = &self.fragments(bytecode_type)[index];
                    let command = Command::InsertPart {
                        part_type: fragment.part_type,
                        data: copy_bytes(&fragment.data),
                    };
                    self.phase = Phase::InsertPart { bytecode_type, index };
                    Step::Run(command)
                },
                _ => self.refuse(reply),
            },
            Phase::InsertPart { bytecode_type, index } => match reply {
                Reply::Inserted(id) => self.link_part(bytecode_type, index, id),
                Reply::Conflict => {
                    let fragment = &self.fragments(bytecode_type)[index];
                    let command = Command::FindPart {
                        part_type: fragment.part_type,
                        data: copy_bytes(&fragment.data),
                    };
                    self.phase = Phase::FindPart { bytecode_type, index, again: true };
                    Step::Run(command)
                },
                _ => self.refuse(reply),
            },
            Phase::LinkPart { bytecode_type, index } => match reply {
                Reply::Done => {
                    let count = self.fragments(bytecode_type).len();
                    assert(index < count);
                    self.at_part(bytecode_type, index + 1)
                },
                Reply::Conflict => self.fail(IngestError::Storage),
                _ => self.refuse(reply),
            },
            _ => {
                assert(false);
                Step::Done(Err(IngestError::Protocol))
            },
        }
    }

    /// The step that follows a reply about a file: a file is looked for,
    /// inserted where the store has none, and tied to the source; then the
    /// next file follows.
    fn insert_files(&mut self, reply: Reply) -> (step: Step)
        requires
            old(self)@.phase is FindFile || old(self)@.phase is InsertFile || old(self)@.phase
                is LinkFile,
        ensures
            (final(self)@, step@) == old(self)@.step(reply),
    {
        proof {
            use_type_invariant(&*self);
        }
        let phase = self.phase;
        match phase {
            Phase::FindFile { index, again } => match reply {
                Reply::Found(id) => self.link_file(index, id),
                Reply::Missing => if again {
                    self.fail(IngestError::Storage)
                } else {
                    let file = &self.plan.files[index];
                    let command = Command::InsertFile {
                        name: file.0.clone(),
                        content: file.1.clone(),
                    };
                    self.phase = Phase::InsertFile { index };
                    Step::Run(command)
                },
                _ => self.refuse(reply),
            },
            Phase::InsertFile { index } => match reply {
                Reply::Inserted(id) => self.link_file(index, id),
                Reply::Conflict => {
                    let file = &self.plan.files[index];
                    let command = Command::FindFile {
                        name: file.0.clone(),
                        content: file.1.clone(),
                    };
                    self.phase = Phase::FindFile { index, again: true };
                    Step::Run(command)
                },
                _ => self.refuse(reply),
            },
            Phase::LinkFile { index } => {
                let count = self.plan.files.len();
                assert(index < count);
                match reply {
                    Reply::Done => self.at_file(index + 1),
                    Reply::Conflict => self.at_file(index + 1),
                    _ => self.refuse(reply),
                }
            },
            _ => {
                assert(false);
                Step::Done(Err(IngestError::Protocol))
            },
        }
    }

    /// Takes the store's reply to the last command and gives what to do
    /// next. The reply to the first call is not looked at.
    pub fn step(&mut self, reply: Reply) -> (step: Step)
        ensures
            (final(self)@, step@) == old(self)@.step(reply),
            old(self)@.wf(),
            final(self)@.wf(),
    {
        proof {
            use_type_invariant(&*self);
        }
        let phase = self.phase;
        let step = match phase {
            Phase::Created => {
                self.phase = Phase::Begin;
                Step::Run(Command::Begin)
            },
            Phase::Begin => match reply {
                Reply::Done => {
                    self.phase = Phase::Source;
                    Step::Run(Command::InsertSource(copy_source(&self.plan.source)))
                },
                Reply::Failed => self.finish(Err(IngestError::Storage)),
                _ => self.finish(Err(IngestError::Protocol)),
            },
            Phase::Source => match reply {
                Reply::Inserted(id) => {
                    self.source_id = id;
                    self.insert_bytecode(BytecodeType::CreationInput)
                },
                _ => self.refuse(reply),
            },
            Phase::Bytecode(bytecode_type) => match reply {
                Reply::Inserted(id) => {
                    self.bytecode_id = id;
                    self.at_part(bytecode_type, 0)
                },
                _ => self.refuse(reply),
            },
            Phase::FindPart { .. } => self.insert_parts(reply),
            Phase::InsertPart { .. } => self.insert_parts(reply),
            Phase::LinkPart { .. } => self.insert_parts(reply),
            Phase::FindFile { .. } => self.insert_files(reply),
            Phase::InsertFile { .. } => self.insert_files(reply),
            Phase::LinkFile { .. } => self.insert_files(reply),
            Phase::Commit => match reply {
                Reply::Done => self.finish(Ok(())),
                Reply::Failed => self.finish(Err(IngestError::Storage)),
                _ => self.finish(Err(IngestError::Protocol)),
            },
            Phase::Rollback(error) => self.finish(Err(error)),
            Phase::Succeeded => Step::Done(Ok(())),
            Phase::Failed(error) => Step::Done(Err(error)),
        };
        proof {
            use_type_invariant(&*self);
        }
        step
    }

    /// How the ingestion ended, once it is over.
    pub fn outcome(&self) -> (outcome: Option<Result<(), IngestError>>)
        ensures
            outcome == match self@.phase {
                Phase::Succeeded => Some(Ok::<(), IngestError>(())),
                Phase::Failed(error) => Some(Err::<(), IngestError>(error)),
                _ => None,
            },
    {
        match self.phase {
            Phase::Succeeded => Some(Ok(())),
            Phase::Failed(error) => Some(Err(error)),
            _ => None,
        }
    }
}

} // verus!
