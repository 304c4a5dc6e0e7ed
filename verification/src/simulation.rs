//! An ingestion that runs against a store which answers as the store in
//! memory does: what the store holds after every command.

use crate::content::{
    find, lemma_find, lemma_find_push, lemma_intern_all_holds, lemma_intern_all_step,
};
use crate::ingestion::{IngestionView, Phase, StepView};
use crate::plan::{IngestError, PlanView};
use crate::progress::{
    admits, all_links, count, everything, expected, file_links, ingested, lemma_all_parts,
    lemma_expected_everything, lemma_expected_grows, lemma_expected_nothing,
    lemma_expected_truncated, lemma_file_links_stable, lemma_links_stable, new_bytecode_id,
    new_bytecodes, new_link, new_source_id, nothing, offset, outcome, possible, Progress,
};
use crate::protocol::{CommandView, Reply};
use crate::store::{lemma_execute_wf, StoreView};
use crate::types::BytecodeType;
use vstd::prelude::*;

verus! {

/// How far an ingestion has come when it gives the command of a phase.
pub open spec fn before(plan: PlanView, phase: Phase) -> Progress {
    let all = plan.all_parts().len() as int;
    match phase {
        Phase::Bytecode(bytecode_type) => Progress {
            source: true,
            bytecodes: count(bytecode_type) - 1,
            parts: offset(plan, bytecode_type),
            links: offset(plan, bytecode_type),
            files: 0,
            file_links: 0,
        },
        Phase::FindPart { bytecode_type, index, .. } => Progress {
            source: true,
            bytecodes: count(bytecode_type),
            parts: offset(plan, bytecode_type) + index,
            links: offset(plan, bytecode_type) + index,
            files: 0,
            file_links: 0,
        },
        Phase::InsertPart { bytecode_type, index } => Progress {
            source: true,
            bytecodes: count(bytecode_type),
            parts: offset(plan, bytecode_type) + index,
            links: offset(plan, bytecode_type) + index,
            files: 0,
            file_links: 0,
        },
        Phase::LinkPart { bytecode_type, index } => Progress {
            source: true,
            bytecodes: count(bytecode_type),
            parts: offset(plan, bytecode_type) + index + 1,
            links: offset(plan, bytecode_type) + index,
            files: 0,
            file_links: 0,
        },
        Phase::FindFile { index, .. } => Progress {
            source: true,
            bytecodes: 2,
            parts: all,
            links: all,
            files: index as int,
            file_links: index as int,
        },
        Phase::InsertFile { index } => Progress {
            source: true,
            bytecodes: 2,
            parts: all,
            links: all,
            files: index as int,
            file_links: index as int,
        },
        Phase::LinkFile { index } => Progress {
            source: true,
            bytecodes: 2,
            parts: all,
            links: all,
            files: index + 1,
            file_links: index as int,
        },
        Phase::Commit => everything(plan),
        _ => nothing(),
    }
}

/// The command that an ingestion gives when it enters a phase, with the
/// identifiers that a store gives which answers as the store in memory does.
pub open spec fn pending(store: StoreView, plan: PlanView, phase: Phase) -> CommandView {
    let progress = before(plan, phase);
    match phase {
        Phase::Source => CommandView::InsertSource(plan.source),
        Phase::Bytecode(bytecode_type) => CommandView::InsertBytecode {
            source_id: new_source_id(store),
            bytecode_type,
        },
        Phase::FindPart { bytecode_type, index, .. } => CommandView::FindPart {
            key: plan.parts(bytecode_type)[index as int],
        },
        Phase::InsertPart { bytecode_type, index } => CommandView::InsertPart {
            key: plan.parts(bytecode_type)[index as int],
        },
        Phase::LinkPart { bytecode_type, index } => CommandView::LinkPart {
            row: new_link(
                store,
                plan,
                expected(store, plan, progress).parts,
                bytecode_type,
                index as int,
            ),
        },
        Phase::FindFile { index, .. } => CommandView::FindFile { key: plan.files[index as int] },
        Phase::InsertFile { index } => CommandView::InsertFile { key: plan.files[index as int] },
        Phase::LinkFile { index } => CommandView::LinkFile {
            row: file_links(store, plan, expected(store, plan, progress).files)[index as int],
        },
        Phase::Commit => CommandView::Commit,
        Phase::Rollback(_) => CommandView::Rollback,
        _ => CommandView::Begin,
    }
}

/// The identifiers that an ingestion has noted are those that the store
/// gave.
pub open spec fn noted(store: StoreView, ingestion: IngestionView) -> bool {
    match ingestion.phase {
        Phase::Source => true,
        Phase::Bytecode(_) => ingestion.source_id == new_source_id(store),
        Phase::FindPart { bytecode_type, .. } => ingestion.source_id == new_source_id(store)
            && ingestion.bytecode_id == new_bytecode_id(store, bytecode_type),
        Phase::InsertPart { bytecode_type, .. } => ingestion.source_id == new_source_id(store)
            && ingestion.bytecode_id == new_bytecode_id(store, bytecode_type),
        Phase::LinkPart { bytecode_type, .. } => ingestion.source_id == new_source_id(store)
            && ingestion.bytecode_id == new_bytecode_id(store, bytecode_type),
        _ => ingestion.source_id == new_source_id(store),
    }
}

/// What a phase is entered with, besides the progress.
pub open spec fn entered(plan: PlanView, phase: Phase, store: StoreView) -> bool {
    match phase {
        Phase::FindPart { again, .. } => !again,
        Phase::InsertPart { bytecode_type, index } => find(
            store.parts,
            plan.parts(bytecode_type)[index as int],
        ) is None,
        Phase::LinkPart { index, .. } => index <= i64::MAX,
        Phase::FindFile { again, .. } => !again,
        Phase::InsertFile { index } => find(store.files, plan.files[index as int]) is None,
        _ => true,
    }
}

/// The number of commands that an ingestion can give at most once it is
/// through with the part at `index` of a bytecode.
pub open spec fn part_rank(plan: PlanView, bytecode_type: BytecodeType, index: usize) -> int {
    match bytecode_type {
        BytecodeType::CreationInput => 3 + 4 * plan.files.len() + 4 * plan.deployed.len() + 1 + 4
            * (plan.creation.len() - 1 - index),
        BytecodeType::DeployedBytecode => 3 + 4 * plan.files.len() + 4 * (plan.deployed.len() - 1
            - index),
    }
}

/// The number of commands that an ingestion can give at most from a phase on.
pub open spec fn rank(plan: PlanView, phase: Phase) -> int {
    let files: int = 3 + 4 * (plan.files.len() as int);
    let deployed: int = files + 4 * (plan.deployed.len() as int) + 1;
    let creation: int = deployed + 4 * (plan.creation.len() as int) + 1;
    match phase {
        Phase::Created => creation + 3,
        Phase::Begin => creation + 2,
        Phase::Source => creation + 1,
        Phase::Bytecode(BytecodeType::CreationInput) => creation,
        Phase::Bytecode(BytecodeType::DeployedBytecode) => deployed,
        Phase::FindPart { bytecode_type, index, again } => part_rank(plan, bytecode_type, index)
            + if again {
            2int
        } else {
            4int
        },
        Phase::InsertPart { bytecode_type, index } => part_rank(plan, bytecode_type, index) + 3,
        Phase::LinkPart { bytecode_type, index } => part_rank(plan, bytecode_type, index) + 1,
        Phase::FindFile { index, again } => 2 + 4 * (plan.files.len() - 1 - index) + if again {
            2int
        } else {
            4int
        },
        Phase::InsertFile { index } => 2 + 4 * (plan.files.len() - 1 - index) + 3,
        Phase::LinkFile { index } => 2 + 4 * (plan.files.len() - 1 - index) + 1,
        Phase::Commit => 2,
        Phase::Rollback(_) => 1,
        Phase::Succeeded => 0,
        Phase::Failed(_) => 0,
    }
}

/// A phase in which a row is looked for or written.
pub open spec fn working(phase: Phase) -> bool {
    match phase {
        Phase::Created => false,
        Phase::Begin => false,
        Phase::Rollback(_) => false,
        Phase::Succeeded => false,
        Phase::Failed(_) => false,
        _ => true,
    }
}

/// The store `current` and its `reply` are what the store `initial` comes
/// to when it answers, as the store in memory does, the commands that the
/// ingestion of `plan` has given up to its phase.
pub open spec fn related(
    initial: StoreView,
    plan: PlanView,
    ingestion: IngestionView,
    reply: Reply,
    current: StoreView,
) -> bool {
    &&& ingestion.plan == plan
    &&& ingestion.wf()
    &&& plan.wf()
    &&& plan.countable()
    &&& initial.wf()
    &&& current.wf()
    &&& match ingestion.phase {
        Phase::Created => current == initial,
        Phase::Begin => (current, reply) == initial.begin(),
        Phase::Rollback(error) => {
            &&& current == initial
            &&& error == IngestError::Storage
            &&& !admits(initial, plan)
        },
        Phase::Succeeded => false,
        Phase::Failed(_) => false,
        phase => {
            let store = expected(initial, plan, before(plan, phase));
            &&& initial.mark is None
            &&& store.wf()
            &&& possible(plan, before(plan, phase))
            &&& noted(initial, ingestion)
            &&& entered(plan, phase, store)
            &&& (current, reply) == store.execute(pending(initial, plan, phase))
        },
    }
}

/// What one step of an ingestion leads to: the relation holds again after
/// the next command, with fewer commands to come; or the ingestion is over,
/// with the outcome that the store and the plan determine, and the store
/// holds the plan or is as it was before.
pub open spec fn advanced(
    initial: StoreView,
    plan: PlanView,
    ingestion: IngestionView,
    reply: Reply,
    current: StoreView,
) -> bool {
    match ingestion.step(reply) {
        (next, StepView::Run(command)) => {
            &&& related(
                initial,
                plan,
                next,
                current.execute(command).1,
                current.execute(command).0,
            )
            &&& 0 <= rank(plan, next.phase) < rank(plan, ingestion.phase)
        },
        (_, StepView::Done(result)) => {
            &&& result == outcome(initial, plan)
            &&& current == if result is Ok {
                ingested(initial, plan)
            } else {
                initial
            }
        },
    }
}

/// An ingestion that enters a working phase with the store that the phase
/// expects is related to what the store answers.
proof fn lemma_enter(
    initial: StoreView,
    plan: PlanView,
    next: IngestionView,
    command: CommandView,
    current: StoreView,
)
    requires
        next.plan == plan,
        next.wf(),
        plan.wf(),
        plan.countable(),
        initial.wf(),
        initial.mark is None,
        current.wf(),
        working(next.phase),
        current == expected(initial, plan, before(plan, next.phase)),
        possible(plan, before(plan, next.phase)),
        noted(initial, next),
        entered(plan, next.phase, current),
        command == pending(initial, plan, next.phase),
    ensures
        related(initial, plan, next, current.execute(command).1, current.execute(command).0),
{
    lemma_execute_wf(current, command);
}

/// An ingestion that rolls back a transaction in which the store had no room
/// is related to the store as it was.
proof fn lemma_roll_back(
    initial: StoreView,
    plan: PlanView,
    ingestion: IngestionView,
    progress: Progress,
)
    requires
        ingestion.plan == plan,
        plan.wf(),
        plan.countable(),
        initial.wf(),
        initial.mark is None,
        !admits(initial, plan),
    ensures
        related(
            initial,
            plan,
            ingestion.fail(IngestError::Storage).0,
            expected(initial, plan, progress).execute(CommandView::Rollback).1,
            expected(initial, plan, progress).execute(CommandView::Rollback).0,
        ),
{
    lemma_expected_truncated(initial, plan, progress);
}

/// The first step: the transaction is opened.
proof fn lemma_step_created(
    initial: StoreView,
    plan: PlanView,
    ingestion: IngestionView,
    reply: Reply,
    current: StoreView,
)
    requires
        related(initial, plan, ingestion, reply, current),
        ingestion.phase is Created,
    ensures
        advanced(initial, plan, ingestion, reply, current),
{
}

/// The step after `Begin`: the source is inserted, or the ingestion is over
/// because a transaction was open.
proof fn lemma_step_begin(
    initial: StoreView,
    plan: PlanView,
    ingestion: IngestionView,
    reply: Reply,
    current: StoreView,
)
    requires
        related(initial, plan, ingestion, reply, current),
        ingestion.phase is Begin,
    ensures
        advanced(initial, plan, ingestion, reply, current),
{
    if initial.mark is None {
        lemma_expected_nothing(initial, plan);
        let (next, step) = ingestion.step(reply);
        lemma_enter(initial, plan, next, step->Run_0, current);
    }
}

/// The step after `InsertSource`.
proof fn lemma_step_source(
    initial: StoreView,
    plan: PlanView,
    ingestion: IngestionView,
    reply: Reply,
    current: StoreView,
)
    requires
        related(initial, plan, ingestion, reply, current),
        ingestion.phase is Source,
    ensures
        advanced(initial, plan, ingestion, reply, current),
{
    let store = expected(initial, plan, nothing());
    let (next, step) = ingestion.step(reply);
    lemma_expected_nothing(initial, plan);
    if store.sources.len() < store.limit {
        let progress = before(plan, next.phase);
        assert(current =~= expected(initial, plan, progress));
        lemma_enter(initial, plan, next, step->Run_0, current);
    } else {
        lemma_roll_back(initial, plan, ingestion, nothing());
    }
}

/// The step after `InsertBytecode`.
proof fn lemma_step_bytecode(
    initial: StoreView,
    plan: PlanView,
    ingestion: IngestionView,
    reply: Reply,
    current: StoreView,
)
    requires
        related(initial, plan, ingestion, reply, current),
        ingestion.phase is Bytecode,
    ensures
        advanced(initial, plan, ingestion, reply, current),
{
    let bytecode_type = ingestion.phase->Bytecode_0;
    let progress = before(plan, ingestion.phase);
    let store = expected(initial, plan, progress);
    let (next, step) = ingestion.step(reply);
    assert(plan.all_parts().len() == plan.creation.len() + plan.deployed.len());
    if store.bytecodes.len() < store.limit {
        let then = before(plan, next.phase);
        let links = all_links(initial, plan, store.parts);
        assert(new_bytecodes(initial).take(count(bytecode_type)) =~= new_bytecodes(
            initial,
        ).take(count(bytecode_type) - 1).push(new_bytecodes(initial)[count(bytecode_type) - 1]));
        assert(then.parts == progress.parts);
        assert(then.links == progress.links);
        assert(current =~= expected(initial, plan, then));
        lemma_enter(initial, plan, next, step->Run_0, current);
    } else {
        lemma_roll_back(initial, plan, ingestion, progress);
    }
}

/// The step after `FindPart`.
proof fn lemma_step_find_part(
    initial: StoreView,
    plan: PlanView,
    ingestion: IngestionView,
    reply: Reply,
    current: StoreView,
)
    requires
        related(initial, plan, ingestion, reply, current),
        ingestion.phase is FindPart,
    ensures
        advanced(initial, plan, ingestion, reply, current),
{
    let bytecode_type = ingestion.phase->FindPart_bytecode_type;
    let index = ingestion.phase->FindPart_index;
    let progress = before(plan, ingestion.phase);
    let store = expected(initial, plan, progress);
    let (next, step) = ingestion.step(reply);
    let key = plan.parts(bytecode_type)[index as int];
    let at = offset(plan, bytecode_type) + index;
    lemma_all_parts(initial, plan, store.parts, bytecode_type, index as int);
    lemma_intern_all_step(initial.parts, plan.all_parts(), at);
    lemma_find(store.parts, key);
    if find(store.parts, key) is Some {
        if index <= i64::MAX {
            let then = before(plan, next.phase);
            assert(current =~= expected(initial, plan, then));
            lemma_enter(initial, plan, next, step->Run_0, current);
        } else {
            lemma_roll_back(initial, plan, ingestion, progress);
        }
    } else {
        lemma_enter(initial, plan, next, step->Run_0, current);
    }
}

/// The step after `InsertPart`.
proof fn lemma_step_insert_part(
    initial: StoreView,
    plan: PlanView,
    ingestion: IngestionView,
    reply: Reply,
    current: StoreView,
)
    requires
        related(initial, plan, ingestion, reply, current),
        ingestion.phase is InsertPart,
    ensures
        advanced(initial, plan, ingestion, reply, current),
{
    let bytecode_type = ingestion.phase->InsertPart_bytecode_type;
    let index = ingestion.phase->InsertPart_index;
    let progress = before(plan, ingestion.phase);
    let store = expected(initial, plan, progress);
    let (next, step) = ingestion.step(reply);
    let key = plan.parts(bytecode_type)[index as int];
    let at = offset(plan, bytecode_type) + index;
    let then = before(plan, Phase::LinkPart { bytecode_type, index });
    lemma_all_parts(initial, plan, store.parts, bytecode_type, index as int);
    lemma_intern_all_step(initial.parts, plan.all_parts(), at);
    lemma_find_push(store.parts, key, key);
    lemma_links_stable(initial, plan, at, at, at + 1);
    lemma_expected_grows(initial, plan, then);
    assert(expected(initial, plan, then).parts == store.parts.push(key));
    if store.parts.len() < store.limit {
        assert(current =~= expected(initial, plan, then));
        lemma_enter(initial, plan, next, step->Run_0, current);
    } else {
        lemma_roll_back(initial, plan, ingestion, progress);
    }
}

/// The row that an ingestion links a part with is one that the store takes.
proof fn lemma_link_taken(
    initial: StoreView,
    plan: PlanView,
    bytecode_type: BytecodeType,
    index: usize,
)
    requires
        initial.wf(),
        index < plan.parts(bytecode_type).len(),
        index <= i64::MAX,
        expected(
            initial,
            plan,
            before(plan, Phase::LinkPart { bytecode_type, index }),
        ).wf(),
    ensures
        ({
            let store = expected(
                initial,
                plan,
                before(plan, Phase::LinkPart { bytecode_type, index }),
            );
            let row = new_link(initial, plan, store.parts, bytecode_type, index as int);
            &&& store.link_valid(row)
            &&& !store.position_taken(row.bytecode_id, row.order)
        }),
{
    let progress = before(plan, Phase::LinkPart { bytecode_type, index });
    let store = expected(initial, plan, progress);
    let row = new_link(initial, plan, store.parts, bytecode_type, index as int);
    let key = plan.parts(bytecode_type)[index as int];
    let at = offset(plan, bytecode_type) + index;
    let links = all_links(initial, plan, store.parts);
    let old = initial.bytecode_parts;
    lemma_all_parts(initial, plan, store.parts, bytecode_type, index as int);
    lemma_intern_all_holds(initial.parts, plan.all_parts(), at, at + 1);
    lemma_find(store.parts, key);
    assert(store.bytecodes.len() == initial.bytecodes.len() + count(bytecode_type));
    assert(store.link_valid(row));
    assert forall|u: int| 0 <= u < store.bytecode_parts.len() implies !((
    #[trigger] store.bytecode_parts[u]).bytecode_id == row.bytecode_id
        && store.bytecode_parts[u].order == row.order) by {
        if u < old.len() {
            assert(store.bytecode_parts[u] == old[u]);
            assert(initial.link_valid(old[u]));
        } else {
            let v = u - old.len();
            assert(store.bytecode_parts[u] == links[v]);
            if v < plan.creation.len() {
                lemma_all_parts(initial, plan, store.parts, BytecodeType::CreationInput, v);
            } else {
                lemma_all_parts(
                    initial,
                    plan,
                    store.parts,
                    BytecodeType::DeployedBytecode,
                    v - plan.creation.len(),
                );
            }
        }
    }
}

/// The step after `LinkPart`.
proof fn lemma_step_link_part(
    initial: StoreView,
    plan: PlanView,
    ingestion: IngestionView,
    reply: Reply,
    current: StoreView,
)
    requires
        related(initial, plan, ingestion, reply, current),
        ingestion.phase is LinkPart,
    ensures
        advanced(initial, plan, ingestion, reply, current),
{
    let bytecode_type = ingestion.phase->LinkPart_bytecode_type;
    let index = ingestion.phase->LinkPart_index;
    let progress = before(plan, ingestion.phase);
    let store = expected(initial, plan, progress);
    let (next, step) = ingestion.step(reply);
    let at = offset(plan, bytecode_type) + index;
    let links = all_links(initial, plan, store.parts);
    assert(ingestion.phase == Phase::LinkPart { bytecode_type, index });
    lemma_link_taken(initial, plan, bytecode_type, index);
    lemma_all_parts(initial, plan, store.parts, bytecode_type, index as int);
    assert(plan.all_parts().len() == plan.creation.len() + plan.deployed.len());
    if store.bytecode_parts.len() < store.limit {
        let then = before(plan, next.phase);
        assert(links.take(at + 1) =~= links.take(at).push(links[at]));
        assert(then.parts == at + 1);
        assert(then.links == at + 1);
        assert(current =~= expected(initial, plan, then));
        lemma_enter(initial, plan, next, step->Run_0, current);
    } else {
        lemma_roll_back(initial, plan, ingestion, progress);
    }
}

/// The step after `FindFile`.
proof fn lemma_step_find_file(
    initial: StoreView,
    plan: PlanView,
    ingestion: IngestionView,
    reply: Reply,
    current: StoreView,
)
    requires
        related(initial, plan, ingestion, reply, current),
        ingestion.phase is FindFile,
    ensures
        advanced(initial, plan, ingestion, reply, current),
{
    let index = ingestion.phase->FindFile_index;
    let progress = before(plan, ingestion.phase);
    let store = expected(initial, plan, progress);
    let (next, step) = ingestion.step(reply);
    let key = plan.files[index as int];
    lemma_intern_all_step(initial.files, plan.files, index as int);
    lemma_find(store.files, key);
    if find(store.files, key) is Some {
        let then = before(plan, next.phase);
        assert(current =~= expected(initial, plan, then));
        lemma_enter(initial, plan, next, step->Run_0, current);
    } else {
        lemma_enter(initial, plan, next, step->Run_0, current);
    }
}

/// The step after `InsertFile`.
proof fn lemma_step_insert_file(
    initial: StoreView,
    plan: PlanView,
    ingestion: IngestionView,
    reply: Reply,
    current: StoreView,
)
    requires
        related(initial, plan, ingestion, reply, current),
        ingestion.phase is InsertFile,
    ensures
        advanced(initial, plan, ingestion, reply, current),
{
    let index = ingestion.phase->InsertFile_index;
    let progress = before(plan, ingestion.phase);
    let store = expected(initial, plan, progress);
    let (next, step) = ingestion.step(reply);
    let key = plan.files[index as int];
    let then = before(plan, Phase::LinkFile { index });
    lemma_intern_all_step(initial.files, plan.files, index as int);
    lemma_find_push(store.files, key, key);
    lemma_file_links_stable(initial, plan, index as int, index as int, index + 1);
    lemma_expected_grows(initial, plan, then);
    assert(expected(initial, plan, then).files == store.files.push(key));
    if store.files.len() < store.limit {
        assert(current =~= expected(initial, plan, then));
        lemma_enter(initial, plan, next, step->Run_0, current);
    } else {
        lemma_roll_back(initial, plan, ingestion, progress);
    }
}

/// The row that an ingestion links a file with is one that the store takes.
proof fn lemma_file_link_taken(initial: StoreView, plan: PlanView, index: usize)
    requires
        initial.wf(),
        plan.wf(),
        index < plan.files.len(),
        expected(initial, plan, before(plan, Phase::LinkFile { index })).wf(),
    ensures
        ({
            let store = expected(initial, plan, before(plan, Phase::LinkFile { index }));
            let row = file_links(initial, plan, store.files)[index as int];
            &&& store.file_link_valid(row)
            &&& !store.source_files.contains(row)
        }),
{
    let progress = before(plan, Phase::LinkFile { index });
    let store = expected(initial, plan, progress);
    let links = file_links(initial, plan, store.files);
    let row = links[index as int];
    let key = plan.files[index as int];
    let old = initial.source_files;
    lemma_intern_all_holds(initial.files, plan.files, index as int, index + 1);
    lemma_find(store.files, key);
    assert(store.file_link_valid(row));
    assert forall|u: int| 0 <= u < store.source_files.len() implies store.source_files[u]
        != row by {
        if u < old.len() {
            assert(store.source_files[u] == old[u]);
            assert(initial.file_link_valid(old[u]));
        } else {
            let v = u - old.len();
            assert(store.source_files[u] == links[v]);
            lemma_intern_all_holds(initial.files, plan.files, v, index + 1);
            lemma_find(store.files, plan.files[v]);
        }
    }
}

/// The step after `LinkFile`.
proof fn lemma_step_link_file(
    initial: StoreView,
    plan: PlanView,
    ingestion: IngestionView,
    reply: Reply,
    current: StoreView,
)
    requires
        related(initial, plan, ingestion, reply, current),
        ingestion.phase is LinkFile,
    ensures
        advanced(initial, plan, ingestion, reply, current),
{
    let index = ingestion.phase->LinkFile_index;
    let progress = before(plan, ingestion.phase);
    let store = expected(initial, plan, progress);
    let (next, step) = ingestion.step(reply);
    let links = file_links(initial, plan, store.files);
    assert(ingestion.phase == Phase::LinkFile { index });
    lemma_file_link_taken(initial, plan, index);
    if store.source_files.len() < store.limit {
        let then = before(plan, next.phase);
        assert(links.take(index + 1) =~= links.take(index as int).push(links[index as int]));
        assert(current =~= expected(initial, plan, then));
        lemma_enter(initial, plan, next, step->Run_0, current);
    } else {
        lemma_roll_back(initial, plan, ingestion, progress);
    }
}

/// The step after `Commit`.
proof fn lemma_step_commit(
    initial: StoreView,
    plan: PlanView,
    ingestion: IngestionView,
    reply: Reply,
    current: StoreView,
)
    requires
        related(initial, plan, ingestion, reply, current),
        ingestion.phase is Commit,
    ensures
        advanced(initial, plan, ingestion, reply, current),
{
    lemma_expected_everything(initial, plan);
}

/// One step of an ingestion that is related to a store leads on as
/// `advanced` says.
pub proof fn lemma_step(
    initial: StoreView,
    plan: PlanView,
    ingestion: IngestionView,
    reply: Reply,
    current: StoreView,
)
    requires
        related(initial, plan, ingestion, reply, current),
    ensures
        advanced(initial, plan, ingestion, reply, current),
{
    match ingestion.phase {
        Phase::Created => lemma_step_created(initial, plan, ingestion, reply, current),
        Phase::Begin => lemma_step_begin(initial, plan, ingestion, reply, current),
        Phase::Source => lemma_step_source(initial, plan, ingestion, reply, current),
        Phase::Bytecode(_) => lemma_step_bytecode(initial, plan, ingestion, reply, current),
        Phase::FindPart { .. } => lemma_step_find_part(
            initial,
            plan,
            ingestion,
            reply,
            current,
        ),
        Phase::InsertPart { .. } => lemma_step_insert_part(
            initial,
            plan,
            ingestion,
            reply,
            current,
        ),
        Phase::LinkPart { .. } => lemma_step_link_part(
            initial,
            plan,
            ingestion,
            reply,
            current,
        ),
        Phase::FindFile { .. } => lemma_step_find_file(
            initial,
            plan,
            ingestion,
            reply,
            current,
        ),
        Phase::InsertFile { .. } => lemma_step_insert_file(
            initial,
            plan,
            ingestion,
            reply,
            current,
        ),
        Phase::LinkFile { .. } => lemma_step_link_file(
            initial,
            plan,
            ingestion,
            reply,
            current,
        ),
        Phase::Commit => lemma_step_commit(initial, plan, ingestion, reply, current),
        Phase::Rollback(_) => {},
        Phase::Succeeded => {},
        Phase::Failed(_) => {},
    }
}

} // verus!
