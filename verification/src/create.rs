//! The ingestion of a verification result into the store in memory.

use crate::ingestion::{Ingestion, IngestionView, Step};
use crate::json::json_document;
use crate::laws::lemma_ingested_consistent;
use crate::plan::{abi_is_json, planned, prepare, IngestError, Plan, PlanView};
use crate::progress::{ingested, lemma_plan_wf, outcome};
use crate::protocol::Reply;
use crate::simulation::{lemma_step, rank, related};
use crate::store::{Store, StoreView};
use crate::types::VerificationResult;
use vstd::prelude::*;

verus! {

/// How the ingestion of a verification result into a store ends: with the
/// error of the plan where there is none, else as the store and the plan
/// determine.
pub open spec fn created(store: StoreView, planned: Result<PlanView, IngestError>) -> Result<
    (),
    IngestError,
> {
    match planned {
        Ok(plan) => outcome(store, plan),
        Err(error) => Err(error),
    }
}

/// The store after the ingestion of a verification result: with the plan in
/// it where the ingestion succeeded, else as it was.
pub open spec fn stored(store: StoreView, planned: Result<PlanView, IngestError>) -> StoreView {
    match planned {
        Ok(plan) => if outcome(store, plan) is Ok {
            ingested(store, plan)
        } else {
            store
        },
        Err(_) => store,
    }
}

/// Writes what a plan holds to the store, in one transaction: all of it, or
/// nothing where the plan does not hold together, the store has no room or
/// a transaction is open.
pub fn ingest(store: &mut Store, plan: Plan) -> (result: Result<(), IngestError>)
    requires
        old(store).wf(),
    ensures
        final(store).wf(),
        result == outcome(old(store)@, plan@),
        final(store)@ == stored(old(store)@, Ok(plan@)),
        result is Err ==> final(store)@ == old(store)@,
        old(store)@.consistent() ==> final(store)@.consistent(),
{
    let ghost initial = store@;
    let ghost view = plan@;
    proof {
        assert(view.creation.len() == plan.creation.len());
        assert(view.deployed.len() == plan.deployed.len());
        assert(view.files.len() == plan.files.len());
    }
    let mut ingestion = Ingestion::new(plan);
    let mut reply = Reply::Done;
    proof {
        store.lemma_wf();
    }
    loop
        invariant
            initial == old(store)@,
            view == plan@,
            view.countable(),
            store.wf(),
            view.wf() ==> related(initial, view, ingestion@, reply, store@),
            !view.wf() ==> ingestion@ == IngestionView::start(view) && store@ == initial,
        decreases rank(view, ingestion@.phase),
    {
        proof {
            if view.wf() {
                lemma_step(initial, view, ingestion@, reply, store@);
            }
        }
        match ingestion.step(reply) {
            Step::Run(command) => {
                reply = store.execute(command);
            },
            Step::Done(result) => {
                proof {
                    store.lemma_wf();
                    if result is Ok && initial.consistent() {
                        lemma_ingested_consistent(initial, view);
                    }
                }
                return result;
            },
        }
    }
}

/// Stores what a verification produced: the source, its two bytecodes with
/// their parts in order, and its files. Parts and files that the store holds
/// are not stored again. Either all of it is written or nothing.
pub fn create_source(store: &mut Store, verification_result: VerificationResult) -> (result:
    Result<(), IngestError>)
    requires
        old(store).wf(),
    ensures
        final(store).wf(),
        result == created(old(store)@, planned(verification_result)),
        final(store)@ == stored(old(store)@, planned(verification_result)),
        result is Err ==> final(store)@ == old(store)@,
        old(store)@.consistent() ==> final(store)@.consistent(),
{
    proof {
        if planned(verification_result) is Ok {
            lemma_plan_wf(
                verification_result,
                json_document(verification_result.compiler_settings@),
                abi_is_json(verification_result),
            );
        }
    }
    match prepare(verification_result) {
        Ok(plan) => ingest(store, plan),
        Err(error) => Err(error),
    }
}

} // verus!
