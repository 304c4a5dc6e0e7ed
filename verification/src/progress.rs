//! What the store holds while an ingestion runs, and when it is over.

use crate::content::{
    id_of, intern_all, lemma_intern_all, lemma_intern_all_grows, lemma_intern_all_holds,
};
use crate::plan::{lemma_distinct, lemma_raw_is_contents, plan_of, IngestError, PlanView};
use crate::protocol::{BytecodePartRow, FileKey, PartKey, SourceFileRow};
use crate::store::{BytecodeData, StoreView};
use crate::types::{BytecodeType, VerificationResult};
use vstd::prelude::*;

verus! {

/// The plan for a verification result holds together.
pub proof fn lemma_plan_wf(result: VerificationResult, settings_are_json: bool, abi_is_json: bool)
    requires
        plan_of(result, settings_are_json, abi_is_json) is Ok,
    ensures
        plan_of(result, settings_are_json, abi_is_json).unwrap().wf(),
{
    lemma_raw_is_contents(result.local_creation_input_parts@);
    lemma_raw_is_contents(result.local_deployed_bytecode_parts@);
    lemma_distinct(result.sources@);
}

/// The identifier that the source of an ingestion gets in a store.
pub open spec fn new_source_id(store: StoreView) -> i64 {
    (store.sources.len() + 1) as i64
}

/// The identifier that the bytecode of one kind gets in a store.
pub open spec fn new_bytecode_id(store: StoreView, bytecode_type: BytecodeType) -> i64 {
    match bytecode_type {
        BytecodeType::CreationInput => (store.bytecodes.len() + 1) as i64,
        BytecodeType::DeployedBytecode => (store.bytecodes.len() + 2) as i64,
    }
}

/// The two bytecodes of the source of an ingestion.
pub open spec fn new_bytecodes(store: StoreView) -> Seq<BytecodeData> {
    seq![
        BytecodeData {
            source_id: new_source_id(store),
            bytecode_type: BytecodeType::CreationInput,
        },
        BytecodeData {
            source_id: new_source_id(store),
            bytecode_type: BytecodeType::DeployedBytecode,
        },
    ]
}

/// The row that puts the part at `index` of a bytecode at the position
/// `index`. The part is named by the identifier that it has in `parts`.
pub open spec fn new_link(
    store: StoreView,
    plan: PlanView,
    parts: Seq<PartKey>,
    bytecode_type: BytecodeType,
    index: int,
) -> BytecodePartRow {
    BytecodePartRow {
        bytecode_id: new_bytecode_id(store, bytecode_type),
        order: index as i64,
        part_id: id_of(parts, plan.parts(bytecode_type)[index]) as i64,
    }
}

/// The rows for the parts of the bytecode of one kind, in order.
pub open spec fn new_links(
    store: StoreView,
    plan: PlanView,
    parts: Seq<PartKey>,
    bytecode_type: BytecodeType,
) -> Seq<BytecodePartRow> {
    Seq::new(
        plan.parts(bytecode_type).len(),
        |index: int| new_link(store, plan, parts, bytecode_type, index),
    )
}

/// The rows for the parts of the creation input, then those for the parts of
/// the deployed bytecode.
pub open spec fn all_links(store: StoreView, plan: PlanView, parts: Seq<PartKey>) -> Seq<
    BytecodePartRow,
> {
    new_links(store, plan, parts, BytecodeType::CreationInput) + new_links(
        store,
        plan,
        parts,
        BytecodeType::DeployedBytecode,
    )
}

/// The rows that tie the files of a plan to its source. A file is named by
/// the identifier that it has in `files`.
pub open spec fn file_links(store: StoreView, plan: PlanView, files: Seq<FileKey>) -> Seq<
    SourceFileRow,
> {
    Seq::new(
        plan.files.len(),
        |index: int|
            SourceFileRow {
                source_id: new_source_id(store),
                file_id: id_of(files, plan.files[index]) as i64,
            },
    )
}

/// The store after the ingestion of a plan.
///
/// The source and its two bytecodes are appended. Each part and each file
/// that the store did not hold is appended, in the order of the plan. Each
/// bytecode gets one row for each of its parts, at the positions 0, 1, 2 and
/// so on, and the source one row for each file.
pub open spec fn ingested(store: StoreView, plan: PlanView) -> StoreView {
    let parts = intern_all(store.parts, plan.all_parts());
    let files = intern_all(store.files, plan.files);
    StoreView {
        limit: store.limit,
        sources: store.sources.push(plan.source),
        bytecodes: store.bytecodes + new_bytecodes(store),
        parts,
        bytecode_parts: store.bytecode_parts + all_links(store, plan, parts),
        files,
        source_files: store.source_files + file_links(store, plan, files),
        mark: None,
    }
}

impl StoreView {
    /// No table holds more rows than the limit allows.
    pub open spec fn within_limit(self) -> bool {
        &&& self.sources.len() <= self.limit
        &&& self.bytecodes.len() <= self.limit
        &&& self.parts.len() <= self.limit
        &&& self.bytecode_parts.len() <= self.limit
        &&& self.files.len() <= self.limit
        &&& self.source_files.len() <= self.limit
    }
}

/// The store has room for what the plan adds, and no transaction is open.
pub open spec fn admits(store: StoreView, plan: PlanView) -> bool {
    &&& store.mark is None
    &&& ingested(store, plan).within_limit()
}

/// How the ingestion of a plan into a store ends: with nothing written
/// where the plan does not hold together, the store has no room or a
/// transaction is open.
pub open spec fn outcome(store: StoreView, plan: PlanView) -> Result<(), IngestError> {
    if !plan.wf() {
        Err(IngestError::Inconsistent)
    } else if admits(store, plan) {
        Ok(())
    } else {
        Err(IngestError::Storage)
    }
}

/// How far an ingestion has come: how many of the rows that it adds are in
/// the store.
pub struct Progress {
    pub source: bool,
    pub bytecodes: int,
    /// How many of the parts of the plan were looked for and, where the store
    /// had none, inserted.
    pub parts: int,
    pub links: int,
    /// How many of the files of the plan were looked for and, where the store
    /// had none, inserted.
    pub files: int,
    pub file_links: int,
}

/// The store in the transaction of an ingestion that has come so far.
pub open spec fn expected(store: StoreView, plan: PlanView, progress: Progress) -> StoreView {
    let parts = intern_all(store.parts, plan.all_parts().take(progress.parts as int));
    let files = intern_all(store.files, plan.files.take(progress.files as int));
    StoreView {
        limit: store.limit,
        sources: if progress.source {
            store.sources.push(plan.source)
        } else {
            store.sources
        },
        bytecodes: store.bytecodes + new_bytecodes(store).take(progress.bytecodes as int),
        parts,
        bytecode_parts: store.bytecode_parts + all_links(store, plan, parts).take(
            progress.links as int,
        ),
        files,
        source_files: store.source_files + file_links(store, plan, files).take(
            progress.file_links as int,
        ),
        mark: Some(store.lengths()),
    }
}

/// The progress of an ingestion that has added nothing.
pub open spec fn nothing() -> Progress {
    Progress { source: false, bytecodes: 0, parts: 0, links: 0, files: 0, file_links: 0 }
}

/// The progress of an ingestion that has added everything.
pub open spec fn everything(plan: PlanView) -> Progress {
    Progress {
        source: true,
        bytecodes: 2,
        parts: plan.all_parts().len() as int,
        links: plan.all_parts().len() as int,
        files: plan.files.len() as int,
        file_links: plan.files.len() as int,
    }
}

/// The progress is one that an ingestion of the plan can have.
pub open spec fn possible(plan: PlanView, progress: Progress) -> bool {
    &&& 0 <= progress.bytecodes <= 2
    &&& 0 <= progress.links <= progress.parts <= plan.all_parts().len()
    &&& 0 <= progress.file_links <= progress.files <= plan.files.len()
}

/// The number of parts that come before those of the bytecode of one kind.
pub open spec fn offset(plan: PlanView, bytecode_type: BytecodeType) -> int {
    match bytecode_type {
        BytecodeType::CreationInput => 0,
        BytecodeType::DeployedBytecode => plan.creation.len() as int,
    }
}

/// The number of bytecodes up to that of one kind.
pub open spec fn count(bytecode_type: BytecodeType) -> int {
    match bytecode_type {
        BytecodeType::CreationInput => 1,
        BytecodeType::DeployedBytecode => 2,
    }
}

/// The part at `index` of a bytecode is the part at `offset + index` of all
/// parts, and so are the rows for them.
pub proof fn lemma_all_parts(
    store: StoreView,
    plan: PlanView,
    parts: Seq<PartKey>,
    bytecode_type: BytecodeType,
    index: int,
)
    requires
        0 <= index < plan.parts(bytecode_type).len(),
    ensures
        offset(plan, bytecode_type) + index < plan.all_parts().len(),
        plan.all_parts()[offset(plan, bytecode_type) + index] == plan.parts(bytecode_type)[index],
        all_links(store, plan, parts)[offset(plan, bytecode_type) + index] == new_link(
            store,
            plan,
            parts,
            bytecode_type,
            index,
        ),
        all_links(store, plan, parts).len() == plan.all_parts().len(),
{
}

/// Whatever the progress, below the mark of the transaction the store is as
/// it was.
pub proof fn lemma_expected_truncated(store: StoreView, plan: PlanView, progress: Progress)
    requires
        store.tables_wf(),
        store.mark is None,
    ensures
        expected(store, plan, progress).reaches(store.lengths()),
        expected(store, plan, progress).truncated(store.lengths()) == store,
        expected(store, plan, progress).rollback().0 == store,
{
    let e = expected(store, plan, progress);
    lemma_intern_all(store.parts, plan.all_parts().take(progress.parts as int));
    lemma_intern_all(store.files, plan.files.take(progress.files as int));
    assert(e.truncated(store.lengths()) =~= store);
}

/// With no progress, the store is as it was, in an open transaction.
pub proof fn lemma_expected_nothing(store: StoreView, plan: PlanView)
    requires
        store.mark is None,
    ensures
        expected(store, plan, nothing()) == store.begin().0,
{
    assert(plan.all_parts().take(0) =~= Seq::empty());
    assert(plan.files.take(0) =~= Seq::empty());
    assert(expected(store, plan, nothing()) =~= store.begin().0);
}

/// With all progress made and the transaction committed, the store holds the
/// plan.
pub proof fn lemma_expected_everything(store: StoreView, plan: PlanView)
    ensures
        expected(store, plan, everything(plan)).commit().0 == ingested(store, plan),
{
    let e = expected(store, plan, everything(plan));
    assert(plan.all_parts().take(plan.all_parts().len() as int) =~= plan.all_parts());
    assert(plan.files.take(plan.files.len() as int) =~= plan.files);
    assert(new_bytecodes(store).take(2) =~= new_bytecodes(store));
    assert(all_links(store, plan, e.parts).take(plan.all_parts().len() as int) =~= all_links(
        store,
        plan,
        e.parts,
    ));
    assert(file_links(store, plan, e.files).take(plan.files.len() as int) =~= file_links(
        store,
        plan,
        e.files,
    ));
    assert(e.commit().0 =~= ingested(store, plan));
}

/// The rows for parts that were looked for do not change when more parts are
/// looked for.
pub proof fn lemma_links_stable(store: StoreView, plan: PlanView, links: int, fewer: int, more: int)
    requires
        0 <= links <= fewer <= more <= plan.all_parts().len(),
    ensures
        all_links(store, plan, intern_all(store.parts, plan.all_parts().take(more))).take(links)
            == all_links(store, plan, intern_all(store.parts, plan.all_parts().take(fewer))).take(
            links,
        ),
{
    let all = plan.all_parts();
    let a = intern_all(store.parts, all.take(fewer));
    let b = intern_all(store.parts, all.take(more));
    let la = all_links(store, plan, a);
    let lb = all_links(store, plan, b);
    assert forall|t: int| 0 <= t < links implies la[t] == lb[t] by {
        lemma_intern_all_holds(store.parts, all, t, fewer);
        lemma_intern_all_holds(store.parts, all, t, more);
        if t < plan.creation.len() {
            lemma_all_parts(store, plan, a, BytecodeType::CreationInput, t);
            lemma_all_parts(store, plan, b, BytecodeType::CreationInput, t);
        } else {
            let i = t - plan.creation.len();
            lemma_all_parts(store, plan, a, BytecodeType::DeployedBytecode, i);
            lemma_all_parts(store, plan, b, BytecodeType::DeployedBytecode, i);
        }
    }
    assert(lb.take(links) =~= la.take(links));
}

/// The rows for files that were looked for do not change when more files are
/// looked for.
pub proof fn lemma_file_links_stable(
    store: StoreView,
    plan: PlanView,
    links: int,
    fewer: int,
    more: int,
)
    requires
        0 <= links <= fewer <= more <= plan.files.len(),
    ensures
        file_links(store, plan, intern_all(store.files, plan.files.take(more))).take(links)
            == file_links(store, plan, intern_all(store.files, plan.files.take(fewer))).take(
            links,
        ),
{
    let a = intern_all(store.files, plan.files.take(fewer));
    let b = intern_all(store.files, plan.files.take(more));
    let la = file_links(store, plan, a);
    let lb = file_links(store, plan, b);
    assert forall|t: int| 0 <= t < links implies la[t] == lb[t] by {
        lemma_intern_all_holds(store.files, plan.files, t, fewer);
        lemma_intern_all_holds(store.files, plan.files, t, more);
    }
    assert(lb.take(links) =~= la.take(links));
}

/// No table of the store in a transaction holds more rows than the store will
/// hold when the ingestion is over.
pub proof fn lemma_expected_grows(store: StoreView, plan: PlanView, progress: Progress)
    requires
        possible(plan, progress),
    ensures
        expected(store, plan, progress).sources.len() <= ingested(store, plan).sources.len(),
        expected(store, plan, progress).bytecodes.len() <= ingested(store, plan).bytecodes.len(),
        expected(store, plan, progress).parts.len() <= ingested(store, plan).parts.len(),
        expected(store, plan, progress).bytecode_parts.len() <= ingested(
            store,
            plan,
        ).bytecode_parts.len(),
        expected(store, plan, progress).files.len() <= ingested(store, plan).files.len(),
        expected(store, plan, progress).source_files.len() <= ingested(
            store,
            plan,
        ).source_files.len(),
{
    let all = plan.all_parts();
    lemma_intern_all_grows(store.parts, all, progress.parts as int, all.len() as int);
    lemma_intern_all_grows(store.files, plan.files, progress.files as int, plan.files.len() as int);
    assert(all.take(all.len() as int) =~= all);
    assert(plan.files.take(plan.files.len() as int) =~= plan.files);
}

} // verus!
