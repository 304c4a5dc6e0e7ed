//! What holds of every store that ingestions have filled.

use crate::content::{
    find, id_of, intern_all, lemma_find, lemma_find_prefix, lemma_intern_all,
    lemma_intern_all_holds,
};
use crate::ingestion::{IngestionView, Phase, StepView};
use crate::plan::{contents, datas, IngestError, PlanView};
use crate::progress::{
    all_links, file_links, ingested, lemma_all_parts, new_bytecode_id, new_bytecodes, new_links,
    new_source_id, offset,
};
use crate::protocol::{CommandView, PartKey, Reply};
use crate::simulation::rank;
use crate::store::{of_bytecode, StoreView};
use crate::types::BytecodeType;
use vstd::prelude::*;

verus! {

/// A filter that no element passes leaves nothing.
proof fn lemma_filter_none<A>(s: Seq<A>, pred: spec_fn(A) -> bool)
    requires
        forall|i: int| 0 <= i < s.len() ==> !pred(#[trigger] s[i]),
    ensures
        s.filter(pred) == Seq::<A>::empty(),
    decreases s.len(),
{
    reveal(Seq::filter);
    if s.len() > 0 {
        lemma_filter_none(s.drop_last(), pred);
    }
}

/// A filter that every element passes leaves everything.
proof fn lemma_filter_all<A>(s: Seq<A>, pred: spec_fn(A) -> bool)
    requires
        forall|i: int| 0 <= i < s.len() ==> pred(#[trigger] s[i]),
    ensures
        s.filter(pred) == s,
    decreases s.len(),
{
    reveal(Seq::filter);
    if s.len() > 0 {
        lemma_filter_all(s.drop_last(), pred);
        assert(s.drop_last().push(s.last()) =~= s);
    }
}

/// After an ingestion, each of the two new bytecodes has the rows of its
/// parts, in the order of the plan, and no others.
pub proof fn lemma_links_of_new(store: StoreView, plan: PlanView, bytecode_type: BytecodeType)
    requires
        store.wf(),
        ingested(store, plan).wf(),
    ensures
        ingested(store, plan).links_of(new_bytecode_id(store, bytecode_type) as int) == new_links(
            store,
            plan,
            ingested(store, plan).parts,
            bytecode_type,
        ),
{
    let after = ingested(store, plan);
    let id = new_bytecode_id(store, bytecode_type);
    let pred = of_bytecode(id as int);
    let creation = new_links(store, plan, after.parts, BytecodeType::CreationInput);
    let deployed = new_links(store, plan, after.parts, BytecodeType::DeployedBytecode);
    assert(after.bytecodes.len() == store.bytecodes.len() + 2);
    assert forall|i: int| 0 <= i < store.bytecode_parts.len() implies !pred(
        #[trigger] store.bytecode_parts[i],
    ) by {
        assert(store.link_valid(store.bytecode_parts[i]));
    }
    lemma_filter_none(store.bytecode_parts, pred);
    match bytecode_type {
        BytecodeType::CreationInput => {
            lemma_filter_all(creation, pred);
            lemma_filter_none(deployed, pred);
        },
        BytecodeType::DeployedBytecode => {
            lemma_filter_none(creation, pred);
            lemma_filter_all(deployed, pred);
        },
    }
    Seq::filter_distributes_over_add(creation, deployed, pred);
    Seq::filter_distributes_over_add(store.bytecode_parts, all_links(store, plan, after.parts), pred);
    assert(after.links_of(id as int) =~= new_links(store, plan, after.parts, bytecode_type));
}

/// After an ingestion, each older bytecode has the rows that it had.
proof fn lemma_links_of_old(store: StoreView, plan: PlanView, bytecode_id: int)
    requires
        store.wf(),
        ingested(store, plan).wf(),
        1 <= bytecode_id <= store.bytecodes.len(),
    ensures
        ingested(store, plan).links_of(bytecode_id) == store.links_of(bytecode_id),
{
    let after = ingested(store, plan);
    let pred = of_bytecode(bytecode_id);
    let added = all_links(store, plan, after.parts);
    assert(after.bytecodes.len() == store.bytecodes.len() + 2);
    assert forall|i: int| 0 <= i < added.len() implies !pred(#[trigger] added[i]) by {
        if i < plan.creation.len() {
            lemma_all_parts(store, plan, after.parts, BytecodeType::CreationInput, i);
        } else {
            lemma_all_parts(
                store,
                plan,
                after.parts,
                BytecodeType::DeployedBytecode,
                i - plan.creation.len(),
            );
        }
    }
    lemma_filter_none(added, pred);
    Seq::filter_distributes_over_add(store.bytecode_parts, added, pred);
    assert(after.links_of(bytecode_id) =~= store.links_of(bytecode_id));
}

/// No table of a well-formed store holds more rows than an identifier can
/// count.
proof fn lemma_bounds(store: StoreView)
    requires
        store.wf(),
    ensures
        store.sources.len() <= i64::MAX,
        store.bytecodes.len() <= i64::MAX,
        store.parts.len() <= i64::MAX,
        store.bytecode_parts.len() <= i64::MAX,
{
}

/// The row for the part at a position of a bytecode names the part of the
/// store that has the kind and the bytes of that part of the plan.
pub proof fn lemma_new_links_name_parts(store: StoreView, plan: PlanView, bytecode_type: BytecodeType)
    requires
        intern_all(store.parts, plan.all_parts()).len() <= i64::MAX,
    ensures
        ({
            let parts = intern_all(store.parts, plan.all_parts());
            let links = new_links(store, plan, parts, bytecode_type);
            forall|i: int|
                0 <= i < links.len() ==> 1 <= (#[trigger] links[i]).part_id <= parts.len()
                    && parts[links[i].part_id - 1] == plan.parts(bytecode_type)[i]
        }),
{
    let parts = intern_all(store.parts, plan.all_parts());
    let links = new_links(store, plan, parts, bytecode_type);
    let keys = plan.parts(bytecode_type);
    let all = plan.all_parts();
    assert(all.take(all.len() as int) =~= all);
    assert forall|i: int| 0 <= i < links.len() implies 1 <= (#[trigger] links[i]).part_id
        <= parts.len() && parts[links[i].part_id - 1] == keys[i] by {
        lemma_all_parts(store, plan, parts, bytecode_type, i);
        lemma_intern_all_holds(
            store.parts,
            all,
            offset(plan, bytecode_type) + i,
            all.len() as int,
        );
        lemma_find(parts, keys[i]);
    }
}

/// After an ingestion, the raw bytes of each of the two new bytecodes are
/// those of the source of the plan.
proof fn lemma_new_raw(store: StoreView, plan: PlanView, bytecode_type: BytecodeType)
    requires
        store.sources.len() + 1 <= i64::MAX,
        store.bytecodes.len() + 2 <= i64::MAX,
    ensures
        ingested(store, plan).raw(new_bytecode_id(store, bytecode_type) as int)
            == plan.source.raw(bytecode_type),
{
    let after = ingested(store, plan);
    let id = new_bytecode_id(store, bytecode_type) as int;
    assert(after.bytecodes[id - 1] == new_bytecodes(store)[id - 1 - store.bytecodes.len()]);
    assert(after.sources[new_source_id(store) - 1] == plan.source);
}

/// The rows for the parts of a bytecode stand at the positions 0, 1, 2 and
/// so on.
proof fn lemma_new_positions(store: StoreView, plan: PlanView, bytecode_type: BytecodeType)
    requires
        plan.parts(bytecode_type).len() <= i64::MAX,
    ensures
        ({
            let parts = intern_all(store.parts, plan.all_parts());
            let links = new_links(store, plan, parts, bytecode_type);
            forall|i: int| 0 <= i < links.len() ==> (#[trigger] links[i]).order == i
        }),
{
}

/// Where the rows of a bytecode name, in order, parts with given keys, the
/// parts of the bytecode hold the bytes of those keys.
proof fn lemma_part_datas(store: StoreView, bytecode_id: int, keys: Seq<PartKey>)
    requires
        store.links_of(bytecode_id).len() == keys.len(),
        forall|i: int|
            0 <= i < keys.len() ==> store.parts[(#[trigger] store.links_of(
                bytecode_id,
            )[i]).part_id - 1] == keys[i],
    ensures
        store.part_datas(bytecode_id) == datas(keys),
{
    let found = store.part_datas(bytecode_id);
    let wanted = datas(keys);
    assert(found.len() == wanted.len());
    assert forall|i: int| 0 <= i < found.len() implies found[i] == wanted[i] by {
        assert(found[i] == store.part_data(store.links_of(bytecode_id)[i]));
    }
    assert(found =~= wanted);
}

/// After an ingestion, the parts of each of the two new bytecodes hold the
/// bytes of the parts of the plan.
proof fn lemma_new_part_datas(store: StoreView, plan: PlanView, bytecode_type: BytecodeType)
    requires
        intern_all(store.parts, plan.all_parts()).len() <= i64::MAX,
        ingested(store, plan).links_of(new_bytecode_id(store, bytecode_type) as int) == new_links(
            store,
            plan,
            ingested(store, plan).parts,
            bytecode_type,
        ),
    ensures
        ingested(store, plan).part_datas(new_bytecode_id(store, bytecode_type) as int) == datas(
            plan.parts(bytecode_type),
        ),
{
    lemma_new_links_name_parts(store, plan, bytecode_type);
    lemma_part_datas(
        ingested(store, plan),
        new_bytecode_id(store, bytecode_type) as int,
        plan.parts(bytecode_type),
    );
}

/// After an ingestion, the parts of each of the two new bytecodes give the
/// raw bytes of the source.
proof fn lemma_new_contents(store: StoreView, plan: PlanView, bytecode_type: BytecodeType)
    requires
        plan.wf(),
        intern_all(store.parts, plan.all_parts()).len() <= i64::MAX,
        store.sources.len() + 1 <= i64::MAX,
        store.bytecodes.len() + 2 <= i64::MAX,
        ingested(store, plan).links_of(new_bytecode_id(store, bytecode_type) as int) == new_links(
            store,
            plan,
            ingested(store, plan).parts,
            bytecode_type,
        ),
    ensures
        ingested(store, plan).contents(new_bytecode_id(store, bytecode_type) as int) == ingested(
            store,
            plan,
        ).raw(new_bytecode_id(store, bytecode_type) as int),
{
    lemma_new_part_datas(store, plan, bytecode_type);
    lemma_new_raw(store, plan, bytecode_type);
}

/// After an ingestion, each of the two new bytecodes is complete: its parts
/// stand at the positions 0, 1, 2 and so on and give the raw bytes of the
/// source.
pub proof fn lemma_new_complete(store: StoreView, plan: PlanView, bytecode_type: BytecodeType)
    requires
        store.wf(),
        plan.wf(),
        ingested(store, plan).wf(),
    ensures
        ingested(store, plan).complete(new_bytecode_id(store, bytecode_type) as int),
{
    let after = ingested(store, plan);
    lemma_bounds(after);
    assert(plan.parts(bytecode_type).len() <= after.bytecode_parts.len()) by {
        assert(after.bytecode_parts.len() == store.bytecode_parts.len() + plan.creation.len()
            + plan.deployed.len());
    }
    assert(store.sources.len() + 1 == after.sources.len());
    assert(store.bytecodes.len() + 2 == after.bytecodes.len());
    lemma_links_of_new(store, plan, bytecode_type);
    lemma_new_positions(store, plan, bytecode_type);
    lemma_new_contents(store, plan, bytecode_type);
}

/// After an ingestion, each older bytecode is as complete as it was.
proof fn lemma_old_complete(store: StoreView, plan: PlanView, bytecode_id: int)
    requires
        store.consistent(),
        ingested(store, plan).wf(),
        1 <= bytecode_id <= store.bytecodes.len(),
    ensures
        ingested(store, plan).complete(bytecode_id),
{
    broadcast use Seq::lemma_filter_contains_rev;

    let after = ingested(store, plan);
    let links = store.links_of(bytecode_id);
    lemma_links_of_old(store, plan, bytecode_id);
    lemma_intern_all(store.parts, plan.all_parts());
    assert(store.complete(bytecode_id));
    assert forall|i: int| 0 <= i < links.len() implies after.part_data(#[trigger] links[i])
        == store.part_data(links[i]) by {
        assert(links.contains(links[i]));
        assert(store.bytecode_parts.contains(links[i]));
        let j = choose|j: int|
            0 <= j < store.bytecode_parts.len() && store.bytecode_parts[j] == links[i];
        assert(store.link_valid(store.bytecode_parts[j]));
    }
    assert(after.part_datas(bytecode_id) =~= store.part_datas(bytecode_id));
    assert(after.bytecodes[bytecode_id - 1] == store.bytecodes[bytecode_id - 1]);
    let source_id = store.bytecodes[bytecode_id - 1].source_id;
    assert(after.sources[source_id - 1] == store.sources[source_id - 1]);
}

/// An ingestion keeps a store consistent: where every bytecode was complete
/// before, every bytecode is complete after, the two new ones among them.
pub proof fn lemma_ingested_consistent(store: StoreView, plan: PlanView)
    requires
        store.consistent(),
        plan.wf(),
        ingested(store, plan).wf(),
    ensures
        ingested(store, plan).consistent(),
{
    let after = ingested(store, plan);
    assert(after.bytecodes.len() == store.bytecodes.len() + 2);
    assert forall|bytecode_id: int| 1 <= bytecode_id <= after.bytecodes.len() implies #[trigger] after.complete(
        bytecode_id,
    ) by {
        if bytecode_id <= store.bytecodes.len() {
            lemma_old_complete(store, plan, bytecode_id);
        } else if bytecode_id == store.bytecodes.len() + 1 {
            lemma_new_complete(store, plan, BytecodeType::CreationInput);
        } else {
            lemma_new_complete(store, plan, BytecodeType::DeployedBytecode);
        }
    }
}

/// An empty store is consistent.
pub proof fn lemma_empty_consistent(store: StoreView)
    requires
        store.wf(),
        store.bytecodes.len() == 0,
    ensures
        store.consistent(),
{
}

/// In a consistent store the parts of every bytecode, one after the other in
/// the order of the relation, are the raw bytes that the source of the
/// bytecode holds for its kind.
pub proof fn lemma_parts_give_raw_bytes(store: StoreView, bytecode_id: int)
    requires
        store.consistent(),
        1 <= bytecode_id <= store.bytecodes.len(),
    ensures
        store.contents(bytecode_id) == store.raw(bytecode_id),
{
    assert(store.complete(bytecode_id));
}

/// In a consistent store the parts of every bytecode stand at the positions
/// 0, 1, 2 and so on up to their number, each position once.
pub proof fn lemma_positions_count_up(store: StoreView, bytecode_id: int, index: int)
    requires
        store.consistent(),
        1 <= bytecode_id <= store.bytecodes.len(),
        0 <= index < store.links_of(bytecode_id).len(),
    ensures
        store.links_of(bytecode_id)[index].order == index,
{
    assert(store.complete(bytecode_id));
}

/// A part that the store holds is not stored again: the row for a part of
/// the plan with the same kind and bytes names the identifier that the store
/// had for it, and the store holds no part twice.
pub proof fn lemma_part_reused(
    store: StoreView,
    plan: PlanView,
    bytecode_type: BytecodeType,
    index: int,
)
    requires
        store.wf(),
        0 <= index < plan.parts(bytecode_type).len(),
        find(store.parts, plan.parts(bytecode_type)[index]) is Some,
    ensures
        new_links(store, plan, ingested(store, plan).parts, bytecode_type)[index].part_id
            == id_of(store.parts, plan.parts(bytecode_type)[index]) as i64,
        ingested(store, plan).parts.no_duplicates(),
{
    lemma_intern_all(store.parts, plan.all_parts());
    lemma_find_prefix(
        store.parts,
        ingested(store, plan).parts,
        plan.parts(bytecode_type)[index],
    );
}

/// Two ingestions that have a part of the same kind and bytes name the same
/// part of the store: the later one reuses the identifier of the earlier one.
pub proof fn lemma_part_shared(
    store: StoreView,
    first: PlanView,
    first_type: BytecodeType,
    first_index: int,
    second: PlanView,
    second_type: BytecodeType,
    second_index: int,
)
    requires
        0 <= first_index < first.parts(first_type).len(),
        0 <= second_index < second.parts(second_type).len(),
        first.parts(first_type)[first_index] == second.parts(second_type)[second_index],
    ensures
        ({
            let between = ingested(store, first);
            let after = ingested(between, second);
            new_links(store, first, between.parts, first_type)[first_index].part_id == new_links(
                between,
                second,
                after.parts,
                second_type,
            )[second_index].part_id
        }),
{
    let between = ingested(store, first);
    let after = ingested(between, second);
    let key = first.parts(first_type)[first_index];
    let all = first.all_parts();
    lemma_all_parts(store, first, between.parts, first_type, first_index);
    assert(all.take(all.len() as int) =~= all);
    lemma_intern_all_holds(
        store.parts,
        all,
        offset(first, first_type) + first_index,
        all.len() as int,
    );
    lemma_intern_all(between.parts, second.all_parts());
    lemma_find_prefix(between.parts, after.parts, key);
}

/// A file that the store holds is not stored again: the row that ties a file
/// of the plan with the same name and content to the source names the
/// identifier that the store had for it, and the store holds no file twice.
pub proof fn lemma_file_reused(store: StoreView, plan: PlanView, index: int)
    requires
        store.wf(),
        0 <= index < plan.files.len(),
        find(store.files, plan.files[index]) is Some,
    ensures
        file_links(store, plan, ingested(store, plan).files)[index].file_id == id_of(
            store.files,
            plan.files[index],
        ) as i64,
        ingested(store, plan).files.no_duplicates(),
{
    lemma_intern_all(store.files, plan.files);
    lemma_find_prefix(store.files, ingested(store, plan).files, plan.files[index]);
}

/// Two ingestions that have a file of the same name and content name the
/// same file of the store.
pub proof fn lemma_file_shared(
    store: StoreView,
    first: PlanView,
    first_index: int,
    second: PlanView,
    second_index: int,
)
    requires
        0 <= first_index < first.files.len(),
        0 <= second_index < second.files.len(),
        first.files[first_index] == second.files[second_index],
    ensures
        ({
            let between = ingested(store, first);
            let after = ingested(between, second);
            file_links(store, first, between.files)[first_index].file_id == file_links(
                between,
                second,
                after.files,
            )[second_index].file_id
        }),
{
    let between = ingested(store, first);
    let after = ingested(between, second);
    let key = first.files[first_index];
    assert(first.files.take(first.files.len() as int) =~= first.files);
    lemma_intern_all_holds(store.files, first.files, first_index, first.files.len() as int);
    lemma_intern_all(between.files, second.files);
    lemma_find_prefix(between.files, after.files, key);
}

/// A source is tied to each of its files once: no row of the relation
/// between sources and files occurs twice in a well-formed store.
pub proof fn lemma_file_tied_once(store: StoreView, first: int, second: int)
    requires
        store.wf(),
        0 <= first < second < store.source_files.len(),
    ensures
        store.source_files[first] != store.source_files[second],
{
}

/// Whatever the store replies, an ingestion that is not over has fewer
/// commands to give after a step than before it: every ingestion comes to an
/// end.
pub proof fn lemma_ingestion_ends(ingestion: IngestionView, reply: Reply)
    requires
        ingestion.wf(),
        ingestion.plan.countable(),
        !(ingestion.phase is Succeeded),
        !(ingestion.phase is Failed),
    ensures
        ingestion.step(reply).0.wf(),
        0 <= rank(ingestion.plan, ingestion.step(reply).0.phase) < rank(
            ingestion.plan,
            ingestion.phase,
        ),
{
    let plan = ingestion.plan;
    let next = ingestion.step(reply).0;
    match ingestion.phase {
        Phase::Bytecode(bytecode_type) => {
            lemma_rank_at_part(ingestion.at(Phase::Source), bytecode_type, 0);
        },
        Phase::LinkPart { bytecode_type, index } => {
            lemma_rank_at_part(ingestion, bytecode_type, index + 1);
        },
        Phase::LinkFile { index } => {
            lemma_rank_at_file(ingestion, index + 1);
        },
        _ => {},
    }
}

/// From the part at `index` of a bytecode on, an ingestion gives no more
/// commands than from the part before it, or from the bytecode.
proof fn lemma_rank_at_part(ingestion: IngestionView, bytecode_type: BytecodeType, index: int)
    requires
        ingestion.plan.countable(),
        0 <= index <= ingestion.plan.parts(bytecode_type).len(),
    ensures
        ({
            let plan = ingestion.plan;
            let next = ingestion.at_part(bytecode_type, index).0;
            &&& next.wf()
            &&& 0 <= rank(plan, next.phase)
            &&& rank(plan, next.phase) < rank(plan, Phase::Bytecode(bytecode_type))
            &&& index > 0 ==> rank(plan, next.phase) < rank(
                plan,
                Phase::LinkPart { bytecode_type, index: (index - 1) as usize },
            )
        }),
{
    if index == ingestion.plan.parts(bytecode_type).len() && bytecode_type
        == BytecodeType::DeployedBytecode {
        lemma_rank_at_file(ingestion, 0);
    }
}

/// From the file at `index` on, an ingestion gives no more commands than
/// from the file before it.
proof fn lemma_rank_at_file(ingestion: IngestionView, index: int)
    requires
        ingestion.plan.countable(),
        0 <= index <= ingestion.plan.files.len(),
    ensures
        ({
            let plan = ingestion.plan;
            let next = ingestion.at_file(index).0;
            &&& next.wf()
            &&& 0 <= rank(plan, next.phase)
            &&& rank(plan, next.phase) <= 2 + 4 * plan.files.len()
            &&& index > 0 ==> rank(plan, next.phase) < rank(
                plan,
                Phase::LinkFile { index: (index - 1) as usize },
            )
        }),
{
}

/// Where the store tells of a failure while the transaction is open, the
/// ingestion has the transaction rolled back and then ends with an error,
/// whatever the store replies to that.
pub proof fn lemma_failure_rolls_back(ingestion: IngestionView, after: Reply)
    requires
        match ingestion.phase {
            Phase::Created => false,
            Phase::Begin => false,
            Phase::Commit => false,
            Phase::Rollback(_) => false,
            Phase::Succeeded => false,
            Phase::Failed(_) => false,
            _ => true,
        },
    ensures
        ingestion.step(Reply::Failed).1 == StepView::Run(CommandView::Rollback),
        ingestion.step(Reply::Failed).0.step(after).1 == StepView::Done(
            Err(IngestError::Storage),
        ),
{
}

/// An ingestion gives `Commit` only in answer to the reply that its last
/// row is in the store: never after a reply that tells of a failure, and
/// never after a reply that does not answer the command.
pub proof fn lemma_commit_follows_success(ingestion: IngestionView, reply: Reply)
    requires
        ingestion.step(reply).1 == StepView::Run(CommandView::Commit),
    ensures
        match ingestion.phase {
            Phase::Bytecode(_) => reply is Inserted,
            Phase::LinkPart { .. } => reply is Done,
            Phase::LinkFile { .. } => reply is Done || reply is Conflict,
            _ => false,
        },
{
}

} // verus!
