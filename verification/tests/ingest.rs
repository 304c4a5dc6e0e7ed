use eth_bytecode_db::create::{create_source, ingest};
use eth_bytecode_db::plan::{plan, prepare, IngestError};
use eth_bytecode_db::protocol::{BytecodePartRow, Command, Reply, SourceFileRow};
use eth_bytecode_db::store::Store;
use eth_bytecode_db::types::{
    BytecodePart, BytecodeTy, BytecodeType, PartType, SourceType, VerificationResult,
};

fn part(data: &str, ty: BytecodeTy) -> BytecodePart {
    BytecodePart { data: data.to_string(), ty }
}

fn file(name: &str, content: &str) -> (String, String) {
    (name.to_string(), content.to_string())
}

fn result_with(creation: Vec<BytecodePart>, deployed: Vec<BytecodePart>) -> VerificationResult {
    VerificationResult {
        file_name: "contracts/Token.sol".to_string(),
        contract_name: "Token".to_string(),
        compiler_version: "v0.8.17+commit.8df45f5f".to_string(),
        evm_version: "london".to_string(),
        constructor_arguments: None,
        optimization: Some(true),
        optimization_runs: Some(200),
        contract_libraries: vec![],
        abi: Some("[]".to_string()),
        sources: vec![file("contracts/Token.sol", "contract Token {}")],
        compiler_settings: "{\"optimizer\":{\"enabled\":true}}".to_string(),
        local_creation_input_parts: creation,
        local_deployed_bytecode_parts: deployed,
    }
}

/// The bytes of the parts of one bytecode, one part after the other, in the
/// order of the positions.
fn contents(store: &Store, bytecode_id: i64) -> Vec<u8> {
    let mut rows: Vec<BytecodePartRow> = store
        .bytecode_parts()
        .iter()
        .filter(|row| row.bytecode_id == bytecode_id)
        .copied()
        .collect();
    rows.sort_by_key(|row| row.order);
    let mut bytes = Vec::new();
    for row in rows {
        bytes.extend_from_slice(&store.parts()[(row.part_id - 1) as usize].data);
    }
    bytes
}

fn assert_empty(store: &Store) {
    assert!(store.sources().is_empty());
    assert!(store.bytecodes().is_empty());
    assert!(store.parts().is_empty());
    assert!(store.bytecode_parts().is_empty());
    assert!(store.files().is_empty());
    assert!(store.source_files().is_empty());
}

#[test]
fn creation_input_of_two_parts() {
    let mut store = Store::new();
    let result = result_with(
        vec![part("0x6080", BytecodeTy::Main), part("a164", BytecodeTy::Meta)],
        vec![],
    );
    assert_eq!(create_source(&mut store, result), Ok(()));

    let sources = store.sources();
    assert_eq!(sources.len(), 1);
    assert_eq!(sources[0].id, 1);
    assert_eq!(sources[0].source.source_type, SourceType::Solidity);
    assert_eq!(sources[0].source.file_name, "contracts/Token.sol");
    assert_eq!(sources[0].source.contract_name, "Token");
    assert_eq!(sources[0].source.compiler_version, "v0.8.17+commit.8df45f5f");
    assert_eq!(sources[0].source.compiler_settings, "{\"optimizer\":{\"enabled\":true}}");
    assert_eq!(sources[0].source.abi, Some("[]".to_string()));
    assert_eq!(sources[0].source.raw_creation_input, vec![0x60, 0x80, 0xa1, 0x64]);
    assert_eq!(sources[0].source.raw_deployed_bytecode, Vec::<u8>::new());

    let bytecodes = store.bytecodes();
    assert_eq!(bytecodes.len(), 2);
    assert_eq!(bytecodes[0].bytecode_type, BytecodeType::CreationInput);
    assert_eq!(bytecodes[0].source_id, sources[0].id);
    assert_eq!(bytecodes[1].bytecode_type, BytecodeType::DeployedBytecode);
    assert_eq!(bytecodes[1].source_id, sources[0].id);

    let parts = store.parts();
    assert_eq!(parts.len(), 2);
    assert_eq!((parts[0].part_type, parts[0].data.clone()), (PartType::Main, vec![0x60, 0x80]));
    assert_eq!((parts[1].part_type, parts[1].data.clone()), (PartType::Metadata, vec![0xa1, 0x64]));

    assert_eq!(
        store.bytecode_parts(),
        &vec![
            BytecodePartRow { bytecode_id: bytecodes[0].id, order: 0, part_id: parts[0].id },
            BytecodePartRow { bytecode_id: bytecodes[0].id, order: 1, part_id: parts[1].id },
        ]
    );
    assert_eq!(store.files().len(), 1);
    assert_eq!(store.files()[0].name, "contracts/Token.sol");
    assert_eq!(store.files()[0].content, "contract Token {}");
    assert_eq!(store.source_files(), &vec![SourceFileRow { source_id: 1, file_id: 1 }]);
}

#[test]
fn two_results_share_one_metadata_part() {
    let mut store = Store::new();
    let first = result_with(
        vec![part("6080", BytecodeTy::Main), part("a164", BytecodeTy::Meta)],
        vec![],
    );
    let second = result_with(
        vec![part("6090", BytecodeTy::Main), part("0xa164", BytecodeTy::Meta)],
        vec![],
    );
    assert_eq!(create_source(&mut store, first), Ok(()));
    assert_eq!(create_source(&mut store, second), Ok(()));

    let parts = store.parts();
    assert_eq!(parts.len(), 3);
    let metadata: Vec<i64> = parts
        .iter()
        .filter(|row| row.part_type == PartType::Metadata && row.data == vec![0xa1, 0x64])
        .map(|row| row.id)
        .collect();
    assert_eq!(metadata, vec![2]);

    assert_eq!(
        store.bytecode_parts(),
        &vec![
            BytecodePartRow { bytecode_id: 1, order: 0, part_id: 1 },
            BytecodePartRow { bytecode_id: 1, order: 1, part_id: 2 },
            BytecodePartRow { bytecode_id: 3, order: 0, part_id: 3 },
            BytecodePartRow { bytecode_id: 3, order: 1, part_id: 2 },
        ]
    );
}

#[test]
fn a_part_is_told_by_its_kind_too() {
    let mut store = Store::new();
    let result = result_with(
        vec![part("a164", BytecodeTy::Main), part("a164", BytecodeTy::Meta)],
        vec![part("a164", BytecodeTy::Main)],
    );
    assert_eq!(create_source(&mut store, result), Ok(()));
    assert_eq!(store.parts().len(), 2);
    assert_eq!(
        store.bytecode_parts(),
        &vec![
            BytecodePartRow { bytecode_id: 1, order: 0, part_id: 1 },
            BytecodePartRow { bytecode_id: 1, order: 1, part_id: 2 },
            BytecodePartRow { bytecode_id: 2, order: 0, part_id: 1 },
        ]
    );
}

#[test]
fn the_same_part_at_two_positions_is_stored_once() {
    let mut store = Store::new();
    let result = result_with(
        vec![
            part("6080", BytecodeTy::Main),
            part("a164", BytecodeTy::Meta),
            part("6080", BytecodeTy::Main),
        ],
        vec![],
    );
    assert_eq!(create_source(&mut store, result), Ok(()));
    assert_eq!(store.parts().len(), 2);
    let ids: Vec<i64> = store.bytecode_parts().iter().map(|row| row.part_id).collect();
    assert_eq!(ids, vec![1, 2, 1]);
    assert_eq!(
        store.sources()[0].source.raw_creation_input,
        vec![0x60, 0x80, 0xa1, 0x64, 0x60, 0x80]
    );
}

#[test]
fn parts_give_the_raw_bytes() {
    let mut store = Store::new();
    let first = result_with(
        vec![
            part("0x608060405234", BytecodeTy::Main),
            part("a2646970667358", BytecodeTy::Meta),
            part("0xFFee", BytecodeTy::Main),
        ],
        vec![part("6080", BytecodeTy::Main), part("0xa2646970667358", BytecodeTy::Meta)],
    );
    let second = result_with(
        vec![part("6080", BytecodeTy::Main)],
        vec![part("00", BytecodeTy::Main), part("a2646970667358", BytecodeTy::Meta)],
    );
    assert_eq!(create_source(&mut store, first), Ok(()));
    assert_eq!(create_source(&mut store, second), Ok(()));
    assert_eq!(store.bytecodes().len(), 4);
    for bytecode in store.bytecodes() {
        let source = &store.sources()[(bytecode.source_id - 1) as usize].source;
        let raw = match bytecode.bytecode_type {
            BytecodeType::CreationInput => &source.raw_creation_input,
            BytecodeType::DeployedBytecode => &source.raw_deployed_bytecode,
        };
        assert_eq!(&contents(&store, bytecode.id), raw);
    }
    assert_eq!(
        store.sources()[0].source.raw_creation_input,
        vec![
            0x60, 0x80, 0x60, 0x40, 0x52, 0x34, 0xa2, 0x64, 0x69, 0x70, 0x66, 0x73, 0x58, 0xff,
            0xee
        ]
    );
    assert_eq!(
        store.sources()[1].source.raw_deployed_bytecode,
        vec![0x00, 0xa2, 0x64, 0x69, 0x70, 0x66, 0x73, 0x58]
    );
}

#[test]
fn positions_count_up_from_zero() {
    let mut store = Store::new();
    let result = result_with(
        vec![
            part("01", BytecodeTy::Main),
            part("02", BytecodeTy::Meta),
            part("03", BytecodeTy::Main),
            part("04", BytecodeTy::Meta),
        ],
        vec![part("05", BytecodeTy::Main), part("01", BytecodeTy::Main)],
    );
    assert_eq!(create_source(&mut store, result), Ok(()));
    for bytecode in store.bytecodes() {
        let orders: Vec<i64> = store
            .bytecode_parts()
            .iter()
            .filter(|row| row.bytecode_id == bytecode.id)
            .map(|row| row.order)
            .collect();
        let expected: Vec<i64> = (0..orders.len() as i64).collect();
        assert_eq!(orders, expected);
    }
    let creation: Vec<i64> = store
        .bytecode_parts()
        .iter()
        .filter(|row| row.bytecode_id == 1)
        .map(|row| row.part_id)
        .collect();
    assert_eq!(creation, vec![1, 2, 3, 4]);
    let deployed: Vec<i64> = store
        .bytecode_parts()
        .iter()
        .filter(|row| row.bytecode_id == 2)
        .map(|row| row.part_id)
        .collect();
    assert_eq!(deployed, vec![5, 1]);
}

#[test]
fn a_file_is_stored_once_and_tied_once() {
    let mut store = Store::new();
    let mut first = result_with(vec![part("6080", BytecodeTy::Main)], vec![]);
    first.sources = vec![
        file("a.sol", "contract A {}"),
        file("lib.sol", "library L {}"),
        file("a.sol", "contract A {}"),
        file("a.sol", "contract A2 {}"),
    ];
    let mut second = result_with(vec![part("6081", BytecodeTy::Main)], vec![]);
    second.sources = vec![file("lib.sol", "library L {}"), file("b.sol", "contract B {}")];
    assert_eq!(create_source(&mut store, first), Ok(()));
    assert_eq!(create_source(&mut store, second), Ok(()));

    let files: Vec<(i64, String, String)> = store
        .files()
        .iter()
        .map(|row| (row.id, row.name.clone(), row.content.clone()))
        .collect();
    assert_eq!(
        files,
        vec![
            (1, "a.sol".to_string(), "contract A {}".to_string()),
            (2, "lib.sol".to_string(), "library L {}".to_string()),
            (3, "a.sol".to_string(), "contract A2 {}".to_string()),
            (4, "b.sol".to_string(), "contract B {}".to_string()),
        ]
    );
    assert_eq!(
        store.source_files(),
        &vec![
            SourceFileRow { source_id: 1, file_id: 1 },
            SourceFileRow { source_id: 1, file_id: 2 },
            SourceFileRow { source_id: 1, file_id: 3 },
            SourceFileRow { source_id: 2, file_id: 2 },
            SourceFileRow { source_id: 2, file_id: 4 },
        ]
    );
}

#[test]
fn malformed_hex_in_the_third_of_five_parts_writes_nothing() {
    let mut store = Store::new();
    let result = result_with(
        vec![
            part("6080", BytecodeTy::Main),
            part("0xa164", BytecodeTy::Meta),
            part("60zz", BytecodeTy::Main),
            part("a165", BytecodeTy::Meta),
            part("6081", BytecodeTy::Main),
        ],
        vec![part("6080", BytecodeTy::Main)],
    );
    assert_eq!(
        create_source(&mut store, result),
        Err(IngestError::MalformedHex { bytecode_type: BytecodeType::CreationInput, index: 2 })
    );
    assert_empty(&store);
}

#[test]
fn malformed_hex_leaves_an_earlier_ingestion_as_it_was() {
    let mut store = Store::new();
    let good = result_with(vec![part("6080", BytecodeTy::Main)], vec![]);
    assert_eq!(create_source(&mut store, good), Ok(()));
    let bad = result_with(
        vec![part("6080", BytecodeTy::Main)],
        vec![part("6080", BytecodeTy::Main), part("123", BytecodeTy::Meta)],
    );
    assert_eq!(
        create_source(&mut store, bad),
        Err(IngestError::MalformedHex { bytecode_type: BytecodeType::DeployedBytecode, index: 1 })
    );
    assert_eq!(store.sources().len(), 1);
    assert_eq!(store.bytecodes().len(), 2);
    assert_eq!(store.parts().len(), 1);
    assert_eq!(store.bytecode_parts().len(), 1);
    assert_eq!(store.files().len(), 1);
    assert_eq!(store.source_files().len(), 1);
}

#[test]
fn two_odd_halves_do_not_make_a_whole() {
    let mut store = Store::new();
    let result = result_with(
        vec![part("608", BytecodeTy::Main), part("0", BytecodeTy::Main)],
        vec![],
    );
    assert_eq!(
        create_source(&mut store, result),
        Err(IngestError::MalformedHex { bytecode_type: BytecodeType::CreationInput, index: 0 })
    );
    assert_empty(&store);
}

#[test]
fn compiler_settings_must_be_json() {
    let mut store = Store::new();
    let mut result = result_with(vec![part("6080", BytecodeTy::Main)], vec![]);
    result.compiler_settings = "{\"optimizer\":".to_string();
    assert_eq!(create_source(&mut store, result), Err(IngestError::InvalidCompilerSettings));
    assert_empty(&store);
}

#[test]
fn an_abi_must_be_json() {
    let mut store = Store::new();
    let mut result = result_with(vec![part("6080", BytecodeTy::Main)], vec![]);
    result.abi = Some("[{]".to_string());
    assert_eq!(create_source(&mut store, result), Err(IngestError::InvalidAbi));
    assert_empty(&store);
}

#[test]
fn a_result_needs_no_abi() {
    let mut store = Store::new();
    let mut result = result_with(vec![part("6080", BytecodeTy::Main)], vec![]);
    result.abi = None;
    assert_eq!(create_source(&mut store, result), Ok(()));
    assert_eq!(store.sources()[0].source.abi, None);
}

#[test]
fn malformed_hex_is_told_before_malformed_json() {
    let mut store = Store::new();
    let mut result = result_with(vec![], vec![part("0xq0", BytecodeTy::Main)]);
    result.compiler_settings = "no json".to_string();
    result.abi = Some("no json".to_string());
    assert_eq!(
        create_source(&mut store, result),
        Err(IngestError::MalformedHex { bytecode_type: BytecodeType::DeployedBytecode, index: 0 })
    );
}

#[test]
fn empty_part_lists_give_empty_bytecodes() {
    let mut store = Store::new();
    let mut result = result_with(vec![], vec![]);
    result.sources = vec![];
    assert_eq!(create_source(&mut store, result), Ok(()));
    assert_eq!(store.sources().len(), 1);
    assert_eq!(store.sources()[0].source.raw_creation_input, Vec::<u8>::new());
    assert_eq!(store.sources()[0].source.raw_deployed_bytecode, Vec::<u8>::new());
    assert_eq!(store.bytecodes().len(), 2);
    assert!(store.parts().is_empty());
    assert!(store.bytecode_parts().is_empty());
    assert!(store.files().is_empty());
    assert!(store.source_files().is_empty());
}

#[test]
fn an_empty_part_is_a_part() {
    let mut store = Store::new();
    let result = result_with(vec![part("0x", BytecodeTy::Main), part("", BytecodeTy::Main)], vec![]);
    assert_eq!(create_source(&mut store, result), Ok(()));
    assert_eq!(store.parts().len(), 1);
    assert_eq!(store.parts()[0].data, Vec::<u8>::new());
    assert_eq!(store.bytecode_parts().len(), 2);
    assert_eq!(store.sources()[0].source.raw_creation_input, Vec::<u8>::new());
}

#[test]
fn every_leading_prefix_is_dropped() {
    let mut store = Store::new();
    let result = result_with(
        vec![part("0x0x0x12", BytecodeTy::Main), part("0X12", BytecodeTy::Main)],
        vec![],
    );
    assert_eq!(
        create_source(&mut store, result),
        Err(IngestError::MalformedHex { bytecode_type: BytecodeType::CreationInput, index: 1 })
    );
    let result = result_with(vec![part("0x0x0x12", BytecodeTy::Main)], vec![part("AbCd", BytecodeTy::Meta)]);
    assert_eq!(create_source(&mut store, result), Ok(()));
    assert_eq!(store.parts()[0].data, vec![0x12]);
    assert_eq!(store.parts()[1].data, vec![0xab, 0xcd]);
}

#[test]
fn a_full_store_takes_nothing_of_an_ingestion() {
    let mut store = Store::with_limit(3);
    let first = result_with(vec![part("6080", BytecodeTy::Main)], vec![]);
    assert_eq!(create_source(&mut store, first), Ok(()));
    // The second source fits, its second bytecode does not.
    let second = result_with(vec![part("6081", BytecodeTy::Main)], vec![]);
    assert_eq!(create_source(&mut store, second), Err(IngestError::Storage));
    assert_eq!(store.sources().len(), 1);
    assert_eq!(store.bytecodes().len(), 2);
    assert_eq!(store.parts().len(), 1);
    assert_eq!(store.bytecode_parts().len(), 1);
    assert_eq!(store.files().len(), 1);
    assert_eq!(store.source_files().len(), 1);
    assert_eq!(store.execute(Command::Begin), Reply::Done);
}

#[test]
fn a_store_without_room_for_the_parts_is_left_as_it_was() {
    let mut store = Store::with_limit(2);
    let result = result_with(
        vec![
            part("01", BytecodeTy::Main),
            part("02", BytecodeTy::Main),
            part("03", BytecodeTy::Main),
        ],
        vec![],
    );
    assert_eq!(create_source(&mut store, result), Err(IngestError::Storage));
    assert_empty(&store);
    let result = result_with(vec![part("01", BytecodeTy::Main), part("02", BytecodeTy::Main)], vec![]);
    assert_eq!(create_source(&mut store, result), Ok(()));
    assert_eq!(store.parts().len(), 2);
}

#[test]
fn a_negative_limit_is_no_room() {
    let mut store = Store::with_limit(-5);
    let result = result_with(vec![], vec![]);
    assert_eq!(create_source(&mut store, result), Err(IngestError::Storage));
    assert_empty(&store);
}

#[test]
fn no_ingestion_into_an_open_transaction() {
    let mut store = Store::new();
    assert_eq!(store.execute(Command::Begin), Reply::Done);
    let result = result_with(vec![part("6080", BytecodeTy::Main)], vec![]);
    assert_eq!(create_source(&mut store, result), Err(IngestError::Storage));
    assert_empty(&store);
    assert_eq!(store.execute(Command::Commit), Reply::Done);
    let result = result_with(vec![part("6080", BytecodeTy::Main)], vec![]);
    assert_eq!(create_source(&mut store, result), Ok(()));
}

#[test]
fn a_plan_is_what_a_result_holds() {
    let mut result = result_with(
        vec![part("0x6080", BytecodeTy::Main), part("a164", BytecodeTy::Meta)],
        vec![part("6080", BytecodeTy::Main)],
    );
    result.sources = vec![file("a.sol", "A"), file("b.sol", "B"), file("a.sol", "A")];
    let found = plan(result.clone(), true, true).expect("a plan");
    assert_eq!(found.source.raw_creation_input, vec![0x60, 0x80, 0xa1, 0x64]);
    assert_eq!(found.source.raw_deployed_bytecode, vec![0x60, 0x80]);
    assert_eq!(found.creation.len(), 2);
    assert_eq!(found.creation[1].part_type, PartType::Metadata);
    assert_eq!(found.creation[1].data, vec![0xa1, 0x64]);
    assert_eq!(found.deployed.len(), 1);
    assert_eq!(found.files, vec![file("a.sol", "A"), file("b.sol", "B")]);
    assert_eq!(prepare(result.clone()), Ok(found));

    assert_eq!(plan(result.clone(), false, true), Err(IngestError::InvalidCompilerSettings));
    assert_eq!(plan(result.clone(), false, false), Err(IngestError::InvalidCompilerSettings));
    assert_eq!(plan(result, true, false), Err(IngestError::InvalidAbi));
}

#[test]
fn a_plan_is_ingested_whole() {
    let mut store = Store::new();
    let result = result_with(vec![part("6080", BytecodeTy::Main)], vec![part("6080", BytecodeTy::Main)]);
    let found = plan(result, true, true).expect("a plan");
    assert_eq!(ingest(&mut store, found), Ok(()));
    assert_eq!(store.parts().len(), 1);
    assert_eq!(
        store.bytecode_parts(),
        &vec![
            BytecodePartRow { bytecode_id: 1, order: 0, part_id: 1 },
            BytecodePartRow { bytecode_id: 2, order: 0, part_id: 1 },
        ]
    );
}

#[test]
fn a_plan_that_does_not_hold_together_is_refused() {
    let result = result_with(vec![part("6080", BytecodeTy::Main)], vec![part("00", BytecodeTy::Main)]);
    let sound = plan(result, true, true).expect("a plan");

    let mut store = Store::new();
    let mut wrong_raw = sound.clone();
    wrong_raw.source.raw_creation_input = vec![0x60, 0x81];
    assert_eq!(ingest(&mut store, wrong_raw), Err(IngestError::Inconsistent));
    assert_empty(&store);

    let mut wrong_deployed = sound.clone();
    wrong_deployed.source.raw_deployed_bytecode = vec![];
    assert_eq!(ingest(&mut store, wrong_deployed), Err(IngestError::Inconsistent));
    assert_empty(&store);

    let mut twice = sound.clone();
    twice.files.push(twice.files[0].clone());
    assert_eq!(ingest(&mut store, twice), Err(IngestError::Inconsistent));
    assert_empty(&store);

    assert_eq!(ingest(&mut store, sound), Ok(()));
    assert_eq!(store.sources().len(), 1);
}
