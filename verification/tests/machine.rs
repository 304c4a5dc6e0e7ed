use eth_bytecode_db::ingestion::{Ingestion, Step};
use eth_bytecode_db::plan::{plan, IngestError, Plan};
use eth_bytecode_db::protocol::{Command, Reply, Source};
use eth_bytecode_db::types::{
    BytecodePart, BytecodeTy, BytecodeType, PartType, SourceType, VerificationResult,
};

fn small_plan() -> Plan {
    let result = VerificationResult {
        file_name: "a.sol".to_string(),
        contract_name: "A".to_string(),
        compiler_version: "v0.8.17".to_string(),
        evm_version: "london".to_string(),
        constructor_arguments: None,
        optimization: None,
        optimization_runs: None,
        contract_libraries: vec![],
        abi: None,
        sources: vec![("a.sol".to_string(), "contract A {}".to_string())],
        compiler_settings: "{}".to_string(),
        local_creation_input_parts: vec![
            BytecodePart { data: "0x6080".to_string(), ty: BytecodeTy::Main },
            BytecodePart { data: "a164".to_string(), ty: BytecodeTy::Meta },
        ],
        local_deployed_bytecode_parts: vec![],
    };
    plan(result, true, true).expect("a plan")
}

fn source() -> Source {
    Source {
        source_type: SourceType::Solidity,
        compiler_version: "v0.8.17".to_string(),
        compiler_settings: "{}".to_string(),
        file_name: "a.sol".to_string(),
        contract_name: "A".to_string(),
        raw_creation_input: vec![0x60, 0x80, 0xa1, 0x64],
        raw_deployed_bytecode: vec![],
        abi: None,
    }
}

/// Hands the replies to the ingestion one by one and compares the step that
/// each of them leads to.
fn run(script: Vec<(Reply, Step)>) -> Ingestion {
    let mut ingestion = Ingestion::new(small_plan());
    for (number, (reply, expected)) in script.into_iter().enumerate() {
        assert_eq!(ingestion.step(reply), expected, "step {}", number);
    }
    ingestion
}

fn find_main() -> Command {
    Command::FindPart { part_type: PartType::Main, data: vec![0x60, 0x80] }
}

fn insert_main() -> Command {
    Command::InsertPart { part_type: PartType::Main, data: vec![0x60, 0x80] }
}

fn find_meta() -> Command {
    Command::FindPart { part_type: PartType::Metadata, data: vec![0xa1, 0x64] }
}

fn find_file() -> Command {
    Command::FindFile { name: "a.sol".to_string(), content: "contract A {}".to_string() }
}

fn insert_file() -> Command {
    Command::InsertFile { name: "a.sol".to_string(), content: "contract A {}".to_string() }
}

/// The steps up to the search for the first part, for a store that gives
/// the source the identifier 7 and the creation input the identifier 40.
fn opening() -> Vec<(Reply, Step)> {
    vec![
        (Reply::Done, Step::Run(Command::Begin)),
        (Reply::Done, Step::Run(Command::InsertSource(source()))),
        (
            Reply::Inserted(7),
            Step::Run(Command::InsertBytecode {
                source_id: 7,
                bytecode_type: BytecodeType::CreationInput,
            }),
        ),
        (Reply::Inserted(40), Step::Run(find_main())),
    ]
}

#[test]
fn commands_come_in_order() {
    let mut script = opening();
    script.extend(vec![
        (Reply::Missing, Step::Run(insert_main())),
        (
            Reply::Inserted(100),
            Step::Run(Command::LinkPart { bytecode_id: 40, order: 0, part_id: 100 }),
        ),
        (Reply::Done, Step::Run(find_meta())),
        (Reply::Found(3), Step::Run(Command::LinkPart { bytecode_id: 40, order: 1, part_id: 3 })),
        (
            Reply::Done,
            Step::Run(Command::InsertBytecode {
                source_id: 7,
                bytecode_type: BytecodeType::DeployedBytecode,
            }),
        ),
        (Reply::Inserted(41), Step::Run(find_file())),
        (Reply::Missing, Step::Run(insert_file())),
        (Reply::Inserted(9), Step::Run(Command::LinkFile { source_id: 7, file_id: 9 })),
        (Reply::Done, Step::Run(Command::Commit)),
        (Reply::Done, Step::Done(Ok(()))),
    ]);
    let mut ingestion = run(script);
    assert_eq!(ingestion.outcome(), Some(Ok(())));
    assert_eq!(ingestion.step(Reply::Failed), Step::Done(Ok(())));
}

#[test]
fn no_outcome_before_the_end() {
    let mut ingestion = Ingestion::new(small_plan());
    assert_eq!(ingestion.outcome(), None);
    assert_eq!(ingestion.step(Reply::Done), Step::Run(Command::Begin));
    assert_eq!(ingestion.outcome(), None);
}

#[test]
fn the_first_reply_is_not_looked_at() {
    let mut ingestion = Ingestion::new(small_plan());
    assert_eq!(ingestion.step(Reply::Failed), Step::Run(Command::Begin));
}

#[test]
fn a_part_that_another_inserted_meanwhile_is_looked_for_again() {
    let mut script = opening();
    script.extend(vec![
        (Reply::Missing, Step::Run(insert_main())),
        (Reply::Conflict, Step::Run(find_main())),
        (Reply::Found(55), Step::Run(Command::LinkPart { bytecode_id: 40, order: 0, part_id: 55 })),
        (Reply::Done, Step::Run(find_meta())),
    ]);
    run(script);
}

#[test]
fn a_part_that_is_refused_and_not_found_ends_the_ingestion() {
    let mut script = opening();
    script.extend(vec![
        (Reply::Missing, Step::Run(insert_main())),
        (Reply::Conflict, Step::Run(find_main())),
        (Reply::Missing, Step::Run(Command::Rollback)),
        (Reply::Done, Step::Done(Err(IngestError::Storage))),
    ]);
    let ingestion = run(script);
    assert_eq!(ingestion.outcome(), Some(Err(IngestError::Storage)));
}

#[test]
fn a_file_that_another_inserted_meanwhile_is_looked_for_again() {
    let mut script = opening();
    script.extend(vec![
        (Reply::Found(1), Step::Run(Command::LinkPart { bytecode_id: 40, order: 0, part_id: 1 })),
        (Reply::Done, Step::Run(find_meta())),
        (Reply::Found(2), Step::Run(Command::LinkPart { bytecode_id: 40, order: 1, part_id: 2 })),
        (
            Reply::Done,
            Step::Run(Command::InsertBytecode {
                source_id: 7,
                bytecode_type: BytecodeType::DeployedBytecode,
            }),
        ),
        (Reply::Inserted(41), Step::Run(find_file())),
        (Reply::Missing, Step::Run(insert_file())),
        (Reply::Conflict, Step::Run(find_file())),
        (Reply::Found(12), Step::Run(Command::LinkFile { source_id: 7, file_id: 12 })),
        (Reply::Conflict, Step::Run(Command::Commit)),
        (Reply::Done, Step::Done(Ok(()))),
    ]);
    run(script);
}

#[test]
fn a_failure_is_rolled_back() {
    let mut script = opening();
    script.extend(vec![
        (Reply::Missing, Step::Run(insert_main())),
        (Reply::Failed, Step::Run(Command::Rollback)),
        (Reply::Failed, Step::Done(Err(IngestError::Storage))),
    ]);
    let mut ingestion = run(script);
    assert_eq!(ingestion.outcome(), Some(Err(IngestError::Storage)));
    assert_eq!(ingestion.step(Reply::Done), Step::Done(Err(IngestError::Storage)));
}

#[test]
fn a_taken_position_is_rolled_back() {
    let mut script = opening();
    script.extend(vec![
        (Reply::Found(1), Step::Run(Command::LinkPart { bytecode_id: 40, order: 0, part_id: 1 })),
        (Reply::Conflict, Step::Run(Command::Rollback)),
        (Reply::Done, Step::Done(Err(IngestError::Storage))),
    ]);
    run(script);
}

#[test]
fn a_reply_that_does_not_answer_is_rolled_back() {
    let script = vec![
        (Reply::Done, Step::Run(Command::Begin)),
        (Reply::Done, Step::Run(Command::InsertSource(source()))),
        (Reply::Found(7), Step::Run(Command::Rollback)),
        (Reply::Done, Step::Done(Err(IngestError::Protocol))),
    ];
    run(script);

    let mut script = opening();
    script.extend(vec![
        (Reply::Inserted(1), Step::Run(Command::Rollback)),
        (Reply::Done, Step::Done(Err(IngestError::Protocol))),
    ]);
    run(script);
}

#[test]
fn a_transaction_that_does_not_open_ends_the_ingestion() {
    let script = vec![
        (Reply::Done, Step::Run(Command::Begin)),
        (Reply::Failed, Step::Done(Err(IngestError::Storage))),
    ];
    run(script);
    let script = vec![
        (Reply::Done, Step::Run(Command::Begin)),
        (Reply::Missing, Step::Done(Err(IngestError::Protocol))),
    ];
    run(script);
}

#[test]
fn a_commit_that_fails_ends_the_ingestion() {
    let mut script = opening();
    script.extend(vec![
        (Reply::Found(1), Step::Run(Command::LinkPart { bytecode_id: 40, order: 0, part_id: 1 })),
        (Reply::Done, Step::Run(find_meta())),
        (Reply::Found(2), Step::Run(Command::LinkPart { bytecode_id: 40, order: 1, part_id: 2 })),
        (
            Reply::Done,
            Step::Run(Command::InsertBytecode {
                source_id: 7,
                bytecode_type: BytecodeType::DeployedBytecode,
            }),
        ),
        (Reply::Inserted(41), Step::Run(find_file())),
        (Reply::Found(5), Step::Run(Command::LinkFile { source_id: 7, file_id: 5 })),
        (Reply::Done, Step::Run(Command::Commit)),
        (Reply::Failed, Step::Done(Err(IngestError::Storage))),
    ]);
    run(script);
}

#[test]
fn a_plan_that_does_not_hold_together_gives_no_command() {
    let mut plan = small_plan();
    plan.source.raw_creation_input.push(0);
    let mut ingestion = Ingestion::new(plan);
    assert_eq!(ingestion.outcome(), Some(Err(IngestError::Inconsistent)));
    assert_eq!(ingestion.step(Reply::Done), Step::Done(Err(IngestError::Inconsistent)));
}
