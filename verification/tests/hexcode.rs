use eth_bytecode_db::hexcode::decode_part;
use eth_bytecode_db::plan::{
    decode_parts, distinct_files, holds_together, join_parts, Fragment, Plan,
};
use eth_bytecode_db::protocol::Source;
use eth_bytecode_db::types::{BytecodePart, BytecodeTy, PartType, SourceType};

#[test]
fn hexadecimal_text_gives_bytes() {
    assert_eq!(decode_part("6080"), Some(vec![0x60, 0x80]));
    assert_eq!(decode_part("0x6080"), Some(vec![0x60, 0x80]));
    assert_eq!(decode_part("0x0x6080"), Some(vec![0x60, 0x80]));
    assert_eq!(decode_part("00ff"), Some(vec![0x00, 0xff]));
    assert_eq!(decode_part("aBcDeF"), Some(vec![0xab, 0xcd, 0xef]));
    assert_eq!(decode_part("0123456789"), Some(vec![0x01, 0x23, 0x45, 0x67, 0x89]));
    assert_eq!(decode_part(""), Some(vec![]));
    assert_eq!(decode_part("0x"), Some(vec![]));
}

#[test]
fn other_text_gives_none() {
    assert_eq!(decode_part("608"), None);
    assert_eq!(decode_part("0x608"), None);
    assert_eq!(decode_part("60 80"), None);
    assert_eq!(decode_part("60g0"), None);
    assert_eq!(decode_part("x6080"), None);
    assert_eq!(decode_part("6080 "), None);
    assert_eq!(decode_part("60800x"), None);
    assert_eq!(decode_part("0X6080"), None);
    assert_eq!(decode_part("-1"), None);
    assert_eq!(decode_part("\u{e9}\u{e9}"), None);
    assert_eq!(decode_part("6\u{e9}"), None);
}

#[test]
fn a_prefix_comes_off_only_at_the_start() {
    assert_eq!(decode_part("0x00"), Some(vec![0x00]));
    assert_eq!(decode_part("00x0"), None);
    assert_eq!(decode_part("0x0"), None);
    assert_eq!(decode_part("0x0x"), Some(vec![]));
}

#[test]
fn parts_are_decoded_in_order() {
    let parts = vec![
        BytecodePart { data: "0x01".to_string(), ty: BytecodeTy::Main },
        BytecodePart { data: "0203".to_string(), ty: BytecodeTy::Meta },
    ];
    assert_eq!(
        decode_parts(&parts),
        Ok(vec![
            Fragment { part_type: PartType::Main, data: vec![1] },
            Fragment { part_type: PartType::Metadata, data: vec![2, 3] },
        ])
    );
    assert_eq!(decode_parts(&vec![]), Ok(vec![]));
}

#[test]
fn the_first_part_that_does_not_decode_is_named() {
    let parts = vec![
        BytecodePart { data: "01".to_string(), ty: BytecodeTy::Main },
        BytecodePart { data: "2".to_string(), ty: BytecodeTy::Meta },
        BytecodePart { data: "zz".to_string(), ty: BytecodeTy::Meta },
    ];
    assert_eq!(decode_parts(&parts), Err(1));
}

#[test]
fn bytes_are_joined_in_order() {
    let fragments = vec![
        Fragment { part_type: PartType::Main, data: vec![1, 2] },
        Fragment { part_type: PartType::Metadata, data: vec![] },
        Fragment { part_type: PartType::Main, data: vec![3] },
    ];
    assert_eq!(join_parts(&fragments), vec![1, 2, 3]);
    assert_eq!(join_parts(&vec![]), Vec::<u8>::new());
}

#[test]
fn a_file_is_kept_where_it_comes_first() {
    let files = vec![
        ("b".to_string(), "1".to_string()),
        ("a".to_string(), "1".to_string()),
        ("b".to_string(), "1".to_string()),
        ("b".to_string(), "2".to_string()),
        ("a".to_string(), "1".to_string()),
    ];
    assert_eq!(
        distinct_files(&files),
        vec![
            ("b".to_string(), "1".to_string()),
            ("a".to_string(), "1".to_string()),
            ("b".to_string(), "2".to_string()),
        ]
    );
}

#[test]
fn a_reported_kind_has_its_stored_kind() {
    assert_eq!(PartType::from(BytecodeTy::Main), PartType::Main);
    assert_eq!(PartType::from(BytecodeTy::Meta), PartType::Metadata);
}

#[test]
fn a_plan_holds_together_where_raw_bytes_are_what_parts_hold() {
    let plan = Plan {
        source: Source {
            source_type: SourceType::Solidity,
            compiler_version: "v0.8.17".to_string(),
            compiler_settings: "{}".to_string(),
            file_name: "a.sol".to_string(),
            contract_name: "A".to_string(),
            raw_creation_input: vec![1, 2, 3],
            raw_deployed_bytecode: vec![],
            abi: None,
        },
        creation: vec![
            Fragment { part_type: PartType::Main, data: vec![1] },
            Fragment { part_type: PartType::Metadata, data: vec![2, 3] },
        ],
        deployed: vec![],
        files: vec![("a".to_string(), "1".to_string()), ("a".to_string(), "2".to_string())],
    };
    assert!(holds_together(&plan));
    let mut other = plan.clone();
    other.creation.swap(0, 1);
    assert!(!holds_together(&other));
    let mut other = plan.clone();
    other.deployed.push(Fragment { part_type: PartType::Main, data: vec![1] });
    assert!(!holds_together(&other));
    let mut other = plan.clone();
    other.files.push(("a".to_string(), "1".to_string()));
    assert!(!holds_together(&other));
}
