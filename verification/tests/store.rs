use eth_bytecode_db::protocol::{BytecodePartRow, Command, Reply, Source, SourceFileRow};
use eth_bytecode_db::store::Store;
use eth_bytecode_db::types::{BytecodeType, PartType, SourceType};

fn source(name: &str) -> Source {
    Source {
        source_type: SourceType::Solidity,
        compiler_version: "v0.8.17".to_string(),
        compiler_settings: "{}".to_string(),
        file_name: name.to_string(),
        contract_name: "A".to_string(),
        raw_creation_input: vec![1],
        raw_deployed_bytecode: vec![2],
        abi: None,
    }
}

#[test]
fn identifiers_count_up_from_one() {
    let mut store = Store::new();
    assert_eq!(store.insert_source(source("a.sol")), Reply::Inserted(1));
    assert_eq!(store.insert_source(source("a.sol")), Reply::Inserted(2));
    assert_eq!(store.insert_bytecode(2, BytecodeType::DeployedBytecode), Reply::Inserted(1));
    assert_eq!(store.insert_bytecode(1, BytecodeType::DeployedBytecode), Reply::Inserted(2));
    assert_eq!(store.insert_part(PartType::Main, vec![1]), Reply::Inserted(1));
    assert_eq!(store.insert_part(PartType::Main, vec![2]), Reply::Inserted(2));
    assert_eq!(store.insert_file("a".to_string(), "b".to_string()), Reply::Inserted(1));
    assert_eq!(store.insert_file("a".to_string(), "c".to_string()), Reply::Inserted(2));
    assert_eq!(store.sources()[1].id, 2);
    assert_eq!(store.bytecodes()[0].source_id, 2);
    assert_eq!(store.parts()[1].id, 2);
    assert_eq!(store.files()[1].content, "c");
}

#[test]
fn a_part_is_found_by_kind_and_bytes() {
    let mut store = Store::new();
    assert_eq!(store.find_part(PartType::Main, &vec![1, 2]), Reply::Missing);
    assert_eq!(store.insert_part(PartType::Main, vec![1, 2]), Reply::Inserted(1));
    assert_eq!(store.insert_part(PartType::Metadata, vec![1, 2]), Reply::Inserted(2));
    assert_eq!(store.insert_part(PartType::Main, vec![1]), Reply::Inserted(3));
    assert_eq!(store.find_part(PartType::Main, &vec![1, 2]), Reply::Found(1));
    assert_eq!(store.find_part(PartType::Metadata, &vec![1, 2]), Reply::Found(2));
    assert_eq!(store.find_part(PartType::Main, &vec![1]), Reply::Found(3));
    assert_eq!(store.find_part(PartType::Metadata, &vec![1]), Reply::Missing);
    assert_eq!(store.find_part(PartType::Main, &vec![2, 1]), Reply::Missing);
    assert_eq!(store.find_part(PartType::Main, &vec![]), Reply::Missing);
}

#[test]
fn a_part_is_not_inserted_twice() {
    let mut store = Store::new();
    assert_eq!(store.insert_part(PartType::Main, vec![1, 2]), Reply::Inserted(1));
    assert_eq!(store.insert_part(PartType::Main, vec![1, 2]), Reply::Conflict);
    assert_eq!(store.parts().len(), 1);
}

#[test]
fn a_file_is_found_by_name_and_content() {
    let mut store = Store::new();
    let (a, b, c) = ("a".to_string(), "b".to_string(), "c".to_string());
    assert_eq!(store.find_file(&a, &b), Reply::Missing);
    assert_eq!(store.insert_file(a.clone(), b.clone()), Reply::Inserted(1));
    assert_eq!(store.insert_file(a.clone(), c.clone()), Reply::Inserted(2));
    assert_eq!(store.insert_file(a.clone(), b.clone()), Reply::Conflict);
    assert_eq!(store.find_file(&a, &b), Reply::Found(1));
    assert_eq!(store.find_file(&a, &c), Reply::Found(2));
    assert_eq!(store.find_file(&b, &a), Reply::Missing);
    assert_eq!(store.files().len(), 2);
}

#[test]
fn a_bytecode_needs_its_source() {
    let mut store = Store::new();
    assert_eq!(store.insert_bytecode(1, BytecodeType::CreationInput), Reply::Failed);
    assert_eq!(store.insert_bytecode(0, BytecodeType::CreationInput), Reply::Failed);
    assert_eq!(store.insert_source(source("a.sol")), Reply::Inserted(1));
    assert_eq!(store.insert_bytecode(2, BytecodeType::CreationInput), Reply::Failed);
    assert_eq!(store.insert_bytecode(-1, BytecodeType::CreationInput), Reply::Failed);
    assert_eq!(store.insert_bytecode(1, BytecodeType::CreationInput), Reply::Inserted(1));
    assert_eq!(store.bytecodes().len(), 1);
}

#[test]
fn a_position_of_a_bytecode_is_given_once() {
    let mut store = Store::new();
    store.insert_source(source("a.sol"));
    store.insert_bytecode(1, BytecodeType::CreationInput);
    store.insert_bytecode(1, BytecodeType::DeployedBytecode);
    store.insert_part(PartType::Main, vec![1]);
    store.insert_part(PartType::Main, vec![2]);
    let row = BytecodePartRow { bytecode_id: 1, order: 0, part_id: 1 };
    assert_eq!(store.link_part(row), Reply::Done);
    assert_eq!(store.link_part(row), Reply::Conflict);
    assert_eq!(
        store.link_part(BytecodePartRow { bytecode_id: 1, order: 0, part_id: 2 }),
        Reply::Conflict
    );
    assert_eq!(
        store.link_part(BytecodePartRow { bytecode_id: 2, order: 0, part_id: 1 }),
        Reply::Done
    );
    assert_eq!(
        store.link_part(BytecodePartRow { bytecode_id: 1, order: 1, part_id: 1 }),
        Reply::Done
    );
    assert_eq!(store.bytecode_parts().len(), 3);
}

#[test]
fn a_row_must_refer_to_rows_that_exist() {
    let mut store = Store::new();
    store.insert_source(source("a.sol"));
    store.insert_bytecode(1, BytecodeType::CreationInput);
    store.insert_part(PartType::Main, vec![1]);
    store.insert_file("a".to_string(), "b".to_string());
    for row in [
        BytecodePartRow { bytecode_id: 2, order: 0, part_id: 1 },
        BytecodePartRow { bytecode_id: 0, order: 0, part_id: 1 },
        BytecodePartRow { bytecode_id: 1, order: 0, part_id: 2 },
        BytecodePartRow { bytecode_id: 1, order: 0, part_id: 0 },
        BytecodePartRow { bytecode_id: 1, order: -1, part_id: 1 },
    ] {
        assert_eq!(store.link_part(row), Reply::Failed);
    }
    for row in [
        SourceFileRow { source_id: 2, file_id: 1 },
        SourceFileRow { source_id: 0, file_id: 1 },
        SourceFileRow { source_id: 1, file_id: 2 },
        SourceFileRow { source_id: 1, file_id: -3 },
    ] {
        assert_eq!(store.link_file(row), Reply::Failed);
    }
    assert!(store.bytecode_parts().is_empty());
    assert!(store.source_files().is_empty());
}

#[test]
fn a_file_is_tied_to_a_source_once() {
    let mut store = Store::new();
    store.insert_source(source("a.sol"));
    store.insert_source(source("b.sol"));
    store.insert_file("a".to_string(), "b".to_string());
    let row = SourceFileRow { source_id: 1, file_id: 1 };
    assert_eq!(store.link_file(row), Reply::Done);
    assert_eq!(store.link_file(row), Reply::Conflict);
    assert_eq!(store.link_file(SourceFileRow { source_id: 2, file_id: 1 }), Reply::Done);
    assert_eq!(store.source_files().len(), 2);
}

#[test]
fn a_rollback_drops_what_the_transaction_wrote() {
    let mut store = Store::new();
    store.insert_source(source("kept.sol"));
    store.insert_part(PartType::Main, vec![1]);
    assert_eq!(store.begin(), Reply::Done);
    assert_eq!(store.insert_source(source("dropped.sol")), Reply::Inserted(2));
    assert_eq!(store.insert_bytecode(2, BytecodeType::CreationInput), Reply::Inserted(1));
    assert_eq!(store.insert_part(PartType::Main, vec![2]), Reply::Inserted(2));
    assert_eq!(
        store.link_part(BytecodePartRow { bytecode_id: 1, order: 0, part_id: 1 }),
        Reply::Done
    );
    assert_eq!(store.insert_file("a".to_string(), "b".to_string()), Reply::Inserted(1));
    assert_eq!(store.link_file(SourceFileRow { source_id: 2, file_id: 1 }), Reply::Done);
    assert_eq!(store.rollback(), Reply::Done);
    assert_eq!(store.sources().len(), 1);
    assert_eq!(store.sources()[0].source.file_name, "kept.sol");
    assert_eq!(store.parts().len(), 1);
    assert!(store.bytecodes().is_empty());
    assert!(store.bytecode_parts().is_empty());
    assert!(store.files().is_empty());
    assert!(store.source_files().is_empty());
    assert_eq!(store.insert_part(PartType::Main, vec![2]), Reply::Inserted(2));
}

#[test]
fn a_commit_keeps_what_the_transaction_wrote() {
    let mut store = Store::new();
    assert_eq!(store.begin(), Reply::Done);
    assert_eq!(store.insert_source(source("a.sol")), Reply::Inserted(1));
    assert_eq!(store.commit(), Reply::Done);
    assert_eq!(store.rollback(), Reply::Failed);
    assert_eq!(store.sources().len(), 1);
}

#[test]
fn one_transaction_at_a_time() {
    let mut store = Store::new();
    assert_eq!(store.commit(), Reply::Failed);
    assert_eq!(store.rollback(), Reply::Failed);
    assert_eq!(store.begin(), Reply::Done);
    assert_eq!(store.begin(), Reply::Failed);
    assert_eq!(store.rollback(), Reply::Done);
    assert_eq!(store.begin(), Reply::Done);
    assert_eq!(store.commit(), Reply::Done);
    assert_eq!(store.commit(), Reply::Failed);
}

#[test]
fn a_full_table_takes_no_row() {
    let mut store = Store::with_limit(1);
    assert_eq!(store.insert_source(source("a.sol")), Reply::Inserted(1));
    assert_eq!(store.insert_source(source("b.sol")), Reply::Failed);
    assert_eq!(store.insert_bytecode(1, BytecodeType::CreationInput), Reply::Inserted(1));
    assert_eq!(store.insert_bytecode(1, BytecodeType::DeployedBytecode), Reply::Failed);
    assert_eq!(store.insert_part(PartType::Main, vec![1]), Reply::Inserted(1));
    assert_eq!(store.insert_part(PartType::Main, vec![2]), Reply::Failed);
    assert_eq!(store.insert_part(PartType::Main, vec![1]), Reply::Conflict);
    assert_eq!(store.insert_file("a".to_string(), "b".to_string()), Reply::Inserted(1));
    assert_eq!(store.insert_file("a".to_string(), "c".to_string()), Reply::Failed);
    assert_eq!(
        store.link_part(BytecodePartRow { bytecode_id: 1, order: 0, part_id: 1 }),
        Reply::Done
    );
    assert_eq!(
        store.link_part(BytecodePartRow { bytecode_id: 1, order: 1, part_id: 1 }),
        Reply::Failed
    );
    assert_eq!(store.link_file(SourceFileRow { source_id: 1, file_id: 1 }), Reply::Done);
    assert_eq!(store.link_file(SourceFileRow { source_id: 1, file_id: 1 }), Reply::Conflict);
}

#[test]
fn a_command_is_what_its_method_does() {
    let mut store = Store::new();
    assert_eq!(store.execute(Command::Begin), Reply::Done);
    assert_eq!(store.execute(Command::InsertSource(source("a.sol"))), Reply::Inserted(1));
    assert_eq!(
        store.execute(Command::InsertBytecode {
            source_id: 1,
            bytecode_type: BytecodeType::CreationInput
        }),
        Reply::Inserted(1)
    );
    let find = Command::FindPart { part_type: PartType::Main, data: vec![7] };
    assert_eq!(store.execute(find.clone()), Reply::Missing);
    assert_eq!(
        store.execute(Command::InsertPart { part_type: PartType::Main, data: vec![7] }),
        Reply::Inserted(1)
    );
    assert_eq!(store.execute(find), Reply::Found(1));
    assert_eq!(
        store.execute(Command::LinkPart { bytecode_id: 1, order: 0, part_id: 1 }),
        Reply::Done
    );
    let find = Command::FindFile { name: "a".to_string(), content: "b".to_string() };
    assert_eq!(store.execute(find.clone()), Reply::Missing);
    assert_eq!(
        store.execute(Command::InsertFile { name: "a".to_string(), content: "b".to_string() }),
        Reply::Inserted(1)
    );
    assert_eq!(store.execute(find), Reply::Found(1));
    assert_eq!(store.execute(Command::LinkFile { source_id: 1, file_id: 1 }), Reply::Done);
    assert_eq!(store.execute(Command::Commit), Reply::Done);
    assert_eq!(store.execute(Command::Rollback), Reply::Failed);
    assert_eq!(store.bytecode_parts(), &vec![BytecodePartRow { bytecode_id: 1, order: 0, part_id: 1 }]);
    assert_eq!(store.source_files(), &vec![SourceFileRow { source_id: 1, file_id: 1 }]);
}
