//! What an ingestion will write, worked out from a verification result before
//! any command is sent.

use crate::content::{
    distinct, find, intern_all, lemma_find, lemma_intern_all, lemma_intern_all_step, same_bytes,
};
use crate::hexcode::{
    decode_part, hex_bytes, is_hex, lemma_hex_concat, part_bytes, strip_prefix,
};
use crate::json::{json_document, parses};
use crate::protocol::{FileKey, PartKey, Source, SourceData};
use crate::types::{
    part_type_of, BytecodePart, BytecodeType, PartType, SourceType, VerificationResult,
};
use vstd::prelude::*;

verus! {

/// Why an ingestion wrote nothing.
#[derive(Clone, Copy, Debug, PartialEq, Eq, Structural)]
pub enum IngestError {
    /// The data of the part at `index` of the parts of one bytecode is not
    /// hexadecimal.
    MalformedHex { bytecode_type: BytecodeType, index: usize },
    /// The compiler settings are no JSON document.
    InvalidCompilerSettings,
    /// The ABI is no JSON document.
    InvalidAbi,
    /// The store could not carry out a command.
    Storage,
    /// The store gave a reply that does not answer the command.
    Protocol,
    /// The plan does not hold together: the raw bytes of its source are not
    /// what the parts of its bytecodes hold, or one of its files occurs
    /// twice.
    Inconsistent,
}

/// A bytecode part with its data decoded.
#[derive(Clone, Debug, PartialEq, Eq)]
pub struct Fragment {
    pub part_type: PartType,
    pub data: Vec<u8>,
}

impl Fragment {
    pub open spec fn key(self) -> PartKey {
        (self.part_type, self.data@)
    }
}

/// What one ingestion writes: a source, the parts of its two bytecodes in
/// order, and its files, each once.
#[derive(Clone, Debug, PartialEq, Eq)]
pub struct Plan {
    pub source: Source,
    pub creation: Vec<Fragment>,
    pub deployed: Vec<Fragment>,
    pub files: Vec<(String, String)>,
}

/// A `Plan` as a mathematical value.
pub struct PlanView {
    pub source: SourceData,
    pub creation: Seq<PartKey>,
    pub deployed: Seq<PartKey>,
    pub files: Seq<FileKey>,
}

impl PlanView {
    /// The parts and the files of the plan can be held in memory.
    pub open spec fn countable(self) -> bool {
        &&& self.creation.len() <= usize::MAX
        &&& self.deployed.len() <= usize::MAX
        &&& self.files.len() <= usize::MAX
    }

    /// The parts of the bytecode of one kind.
    pub open spec fn parts(self, bytecode_type: BytecodeType) -> Seq<PartKey> {
        match bytecode_type {
            BytecodeType::CreationInput => self.creation,
            BytecodeType::DeployedBytecode => self.deployed,
        }
    }

    /// The parts of the creation input, then those of the deployed bytecode.
    pub open spec fn all_parts(self) -> Seq<PartKey> {
        self.creation + self.deployed
    }

    /// The plan holds together: the raw bytes of the source are what the
    /// parts of its bytecodes hold, and no file occurs twice.
    pub open spec fn wf(self) -> bool {
        &&& self.source.raw_creation_input == contents(self.creation)
        &&& self.source.raw_deployed_bytecode == contents(self.deployed)
        &&& self.files.no_duplicates()
    }
}

/// The keys of decoded parts.
pub open spec fn fragment_keys(fragments: Seq<Fragment>) -> Seq<PartKey> {
    fragments.map_values(|fragment: Fragment| fragment.key())
}

/// The keys of pairs of a file's name and content.
pub open spec fn file_keys(files: Seq<(String, String)>) -> Seq<FileKey> {
    files.map_values(|file: (String, String)| (file.0@, file.1@))
}

impl View for Plan {
    type V = PlanView;

    open spec fn view(&self) -> PlanView {
        PlanView {
            source: self.source@,
            creation: fragment_keys(self.creation@),
            deployed: fragment_keys(self.deployed@),
            files: file_keys(self.files@),
        }
    }
}

/// For each part, whether its data fails to decode.
pub open spec fn undecodable(parts: Seq<BytecodePart>) -> Seq<bool> {
    parts.map_values(|part: BytecodePart| part_bytes(part.data@) is None)
}

/// The index of the first part whose data fails to decode.
pub open spec fn first_undecodable(parts: Seq<BytecodePart>) -> Option<int> {
    find(undecodable(parts), true)
}

/// The key under which a part is stored: its kind and its decoded data.
pub open spec fn part_key(part: BytecodePart) -> PartKey {
    (part_type_of(part.ty), part_bytes(part.data@).unwrap())
}

/// The keys under which parts are stored.
pub open spec fn part_keys(parts: Seq<BytecodePart>) -> Seq<PartKey> {
    parts.map_values(|part: BytecodePart| part_key(part))
}

/// The data of the parts, each without leading `0x`, one after the other.
pub open spec fn joined_hex(parts: Seq<BytecodePart>) -> Seq<char> {
    parts.map_values(|part: BytecodePart| strip_prefix(part.data@)).flatten()
}

/// The raw bytes of a bytecode: what the joined hexadecimal text of its parts
/// decodes to.
pub open spec fn raw_bytes(parts: Seq<BytecodePart>) -> Seq<u8> {
    hex_bytes(joined_hex(parts))
}

/// The bytes of each part.
pub open spec fn datas(keys: Seq<PartKey>) -> Seq<Seq<u8>> {
    keys.map_values(|key: PartKey| key.1)
}

/// The bytes of parts, one part after the other.
pub open spec fn contents(keys: Seq<PartKey>) -> Seq<u8> {
    datas(keys).flatten()
}

/// The text of an optional document.
pub open spec fn optional_text(text: Option<String>) -> Option<Seq<char>> {
    match text {
        Some(text) => Some(text@),
        None => None,
    }
}

/// The plan for a verification result, or why there is none, given whether
/// its compiler settings and its ABI are JSON documents.
pub open spec fn plan_of(result: VerificationResult, settings_are_json: bool, abi_is_json: bool)
    -> Result<PlanView, IngestError> {
    let creation = result.local_creation_input_parts@;
    let deployed = result.local_deployed_bytecode_parts@;
    if let Some(index) = first_undecodable(creation) {
        Err(
            IngestError::MalformedHex {
                bytecode_type: BytecodeType::CreationInput,
                index: index as usize,
            },
        )
    } else if let Some(index) = first_undecodable(deployed) {
        Err(
            IngestError::MalformedHex {
                bytecode_type: BytecodeType::DeployedBytecode,
                index: index as usize,
            },
        )
    } else if !settings_are_json {
        Err(IngestError::InvalidCompilerSettings)
    } else if !abi_is_json {
        Err(IngestError::InvalidAbi)
    } else {
        Ok(
            PlanView {
                source: SourceData {
                    source_type: SourceType::Solidity,
                    compiler_version: result.compiler_version@,
                    compiler_settings: result.compiler_settings@,
                    file_name: result.file_name@,
                    contract_name: result.contract_name@,
                    raw_creation_input: raw_bytes(creation),
                    raw_deployed_bytecode: raw_bytes(deployed),
                    abi: optional_text(result.abi),
                },
                creation: part_keys(creation),
                deployed: part_keys(deployed),
                files: distinct(file_keys(result.sources@)),
            },
        )
    }
}

/// Whether the ABI of a verification result, where it has one, is a JSON
/// document.
pub open spec fn abi_is_json(result: VerificationResult) -> bool {
    match result.abi {
        Some(text) => json_document(text@),
        None => true,
    }
}

/// The plan for a verification result, or why there is none.
pub open spec fn planned(result: VerificationResult) -> Result<PlanView, IngestError> {
    plan_of(result, json_document(result.compiler_settings@), abi_is_json(result))
}

/// A plan or an error is the one expected.
pub open spec fn agrees(found: Result<Plan, IngestError>, expected: Result<PlanView, IngestError>)
    -> bool {
    match (found, expected) {
        (Ok(plan), Ok(view)) => plan@ == view,
        (Err(error), Err(other)) => error == other,
        _ => false,
    }
}

/// The distinct files of a list are distinct.
pub proof fn lemma_distinct(files: Seq<(String, String)>)
    ensures
        distinct(file_keys(files)).no_duplicates(),
{
    lemma_intern_all(Seq::<FileKey>::empty(), file_keys(files));
}

/// Where every part decodes, so does the first of them and so do the rest.
proof fn lemma_all_decode(parts: Seq<BytecodePart>)
    requires
        first_undecodable(parts) is None,
    ensures
        forall|i: int| 0 <= i < parts.len() ==> part_bytes(#[trigger] parts[i].data@) is Some,
        parts.len() > 0 ==> first_undecodable(parts.drop_last()) is None,
{
    lemma_find(undecodable(parts), true);
    assert forall|i: int| 0 <= i < parts.len() implies part_bytes(
        #[trigger] parts[i].data@,
    ) is Some by {
        assert(undecodable(parts)[i] != true);
    }
    if parts.len() > 0 {
        assert(undecodable(parts).drop_last() =~= undecodable(parts.drop_last()));
    }
}

/// Where every part decodes, the parts' joined text decodes, and to the bytes
/// of the parts, one part after the other: the raw bytes of a bytecode are
/// what its parts hold.
pub proof fn lemma_raw_is_contents(parts: Seq<BytecodePart>)
    requires
        first_undecodable(parts) is None,
    ensures
        is_hex(joined_hex(parts)),
        raw_bytes(parts) == contents(part_keys(parts)),
    decreases parts.len(),
{
    let texts = parts.map_values(|part: BytecodePart| strip_prefix(part.data@));
    let all_datas = datas(part_keys(parts));
    if parts.len() == 0 {
        assert(joined_hex(parts) =~= Seq::<char>::empty());
        assert(contents(part_keys(parts)) =~= Seq::<u8>::empty());
        assert(raw_bytes(parts) =~= Seq::<u8>::empty());
    } else {
        let front = parts.drop_last();
        let last = parts.last();
        lemma_all_decode(parts);
        lemma_raw_is_contents(front);
        let front_texts = front.map_values(|part: BytecodePart| strip_prefix(part.data@));
        let front_datas = datas(part_keys(front));
        assert(texts =~= front_texts.push(strip_prefix(last.data@)));
        assert(all_datas =~= front_datas.push(part_key(last).1));
        front_texts.lemma_flatten_push(strip_prefix(last.data@));
        front_datas.lemma_flatten_push(part_key(last).1);
        assert(part_bytes(parts[parts.len() - 1].data@) is Some);
        lemma_hex_concat(joined_hex(front), strip_prefix(last.data@));
    }
}

/// The bytes of the first `n + 1` parts are the bytes of the first `n`, then
/// the bytes of the part at `n`.
proof fn lemma_contents_step(keys: Seq<PartKey>, n: int)
    requires
        0 <= n < keys.len(),
    ensures
        contents(keys.take(n + 1)) == contents(keys.take(n)) + keys[n].1,
{
    let front = datas(keys.take(n));
    assert(datas(keys.take(n + 1)) =~= front.push(keys[n].1));
    front.lemma_flatten_push(keys[n].1);
}

/// Decodes the data of every part, or gives the index of the first part whose
/// data is not hexadecimal.
pub fn decode_parts(parts: &Vec<BytecodePart>) -> (decoded: Result<Vec<Fragment>, usize>)
    ensures
        match decoded {
            Ok(fragments) => first_undecodable(parts@) is None && fragment_keys(fragments@)
                == part_keys(parts@),
            Err(index) => first_undecodable(parts@) == Some(index as int),
        },
{
    let mut fragments: Vec<Fragment> = Vec::new();
    let mut i: usize = 0;
    while i < parts.len()
        invariant
            i <= parts.len(),
            fragments.len() == i,
            forall|j: int| 0 <= j < i ==> !(#[trigger] undecodable(parts@)[j]),
            forall|j: int| 0 <= j < i ==> (#[trigger] fragments@[j]).key() == part_key(parts@[j]),
        decreases parts.len() - i,
    {
        let part = &parts[i];
        match decode_part(part.data.as_str()) {
            Some(data) => {
                fragments.push(Fragment { part_type: PartType::from(part.ty), data });
            },
            None => {
                proof {
                    assert(undecodable(parts@)[i as int]);
                    lemma_find(undecodable(parts@), true);
                }
                return Err(i);
            },
        }
        i += 1;
    }
    proof {
        lemma_find(undecodable(parts@), true);
        assert(fragment_keys(fragments@) =~= part_keys(parts@));
    }
    Ok(fragments)
}

/// The bytes of the parts, one part after the other.
pub fn join_parts(fragments: &Vec<Fragment>) -> (bytes: Vec<u8>)
    ensures
        bytes@ == contents(fragment_keys(fragments@)),
{
    let ghost keys = fragment_keys(fragments@);
    let mut bytes: Vec<u8> = Vec::new();
    let mut i: usize = 0;
    assert(contents(keys.take(0)) =~= Seq::<u8>::empty());
    while i < fragments.len()
        invariant
            keys == fragment_keys(fragments@),
            i <= fragments.len(),
            bytes@ == contents(keys.take(i as int)),
        decreases fragments.len() - i,
    {
        let data = &fragments[i].data;
        let ghost before = bytes@;
        let mut j: usize = 0;
        while j < data.len()
            invariant
                j <= data.len(),
                bytes@ == before + data@.take(j as int),
            decreases data.len() - j,
        {
            bytes.push(data[j]);
            j += 1;
            assert(data@.take(j as int) =~= data@.take(j - 1).push(data@[j - 1]));
        }
        proof {
            assert(data@.take(j as int) =~= data@);
            lemma_contents_step(keys, i as int);
        }
        i += 1;
    }
    assert(keys.take(i as int) =~= keys);
    bytes
}

/// Whether one of the files has this name and content.
fn holds_file(files: &Vec<(String, String)>, name: &String, content: &String) -> (found: bool)
    ensures
        found == find(file_keys(files@), (name@, content@)) is Some,
{
    let ghost key: FileKey = (name@, content@);
    let mut i: usize = 0;
    while i < files.len()
        invariant
            key == (name@, content@),
            i <= files.len(),
            forall|j: int| 0 <= j < i ==> file_keys(files@)[j] != key,
        decreases files.len() - i,
    {
        if files[i].0 == *name && files[i].1 == *content {
            proof {
                assert(file_keys(files@)[i as int] == key);
                lemma_find(file_keys(files@), key);
            }
            return true;
        }
        i += 1;
    }
    proof {
        lemma_find(file_keys(files@), key);
    }
    false
}

/// The files in the order of their first occurrence, each pair of a name and
/// a content once.
pub fn distinct_files(files: &Vec<(String, String)>) -> (kept: Vec<(String, String)>)
    ensures
        file_keys(kept@) == distinct(file_keys(files@)),
{
    let ghost keys = file_keys(files@);
    let mut kept: Vec<(String, String)> = Vec::new();
    let mut i: usize = 0;
    assert(file_keys(kept@) =~= intern_all(Seq::empty(), keys.take(0)));
    while i < files.len()
        invariant
            keys == file_keys(files@),
            i <= files.len(),
            file_keys(kept@) == intern_all(Seq::empty(), keys.take(i as int)),
        decreases files.len() - i,
    {
        let ghost before = file_keys(kept@);
        proof {
            lemma_intern_all_step(Seq::empty(), keys, i as int);
        }
        if !holds_file(&kept, &files[i].0, &files[i].1) {
            kept.push((files[i].0.clone(), files[i].1.clone()));
            assert(file_keys(kept@) =~= before.push(keys[i as int]));
        }
        i += 1;
    }
    assert(keys.take(i as int) =~= keys);
    kept
}

/// Whether no file occurs twice.
fn no_file_twice(files: &Vec<(String, String)>) -> (distinct: bool)
    ensures
        distinct == file_keys(files@).no_duplicates(),
{
    let ghost keys = file_keys(files@);
    let mut i: usize = 0;
    while i < files.len()
        invariant
            keys == file_keys(files@),
            i <= files.len(),
            forall|a: int, b: int| 0 <= a < b < i ==> keys[a] != keys[b],
        decreases files.len() - i,
    {
        let mut j: usize = 0;
        while j < i
            invariant
                keys == file_keys(files@),
                i < files.len(),
                j <= i,
                forall|a: int| 0 <= a < j ==> keys[a] != keys[i as int],
            decreases i - j,
        {
            if files[j].0 == files[i].0 && files[j].1 == files[i].1 {
                assert(keys[j as int] == keys[i as int]);
                return false;
            }
            j += 1;
        }
        i += 1;
    }
    true
}

/// Whether a plan holds together.
pub fn holds_together(plan: &Plan) -> (sound: bool)
    ensures
        sound == plan@.wf(),
{
    same_bytes(&join_parts(&plan.creation), &plan.source.raw_creation_input) && same_bytes(
        &join_parts(&plan.deployed),
        &plan.source.raw_deployed_bytecode,
    ) && no_file_twice(&plan.files)
}

/// The plan for a verification result, given whether its compiler settings
/// and its ABI are JSON documents.
pub fn plan(result: VerificationResult, settings_are_json: bool, abi_is_json: bool) -> (found:
    Result<Plan, IngestError>)
    ensures
        agrees(found, plan_of(result, settings_are_json, abi_is_json)),
{
    let creation = match decode_parts(&result.local_creation_input_parts) {
        Ok(fragments) => fragments,
        Err(index) => {
            return Err(
                IngestError::MalformedHex { bytecode_type: BytecodeType::CreationInput, index },
            );
        },
    };
    let deployed = match decode_parts(&result.local_deployed_bytecode_parts) {
        Ok(fragments) => fragments,
        Err(index) => {
            return Err(
                IngestError::MalformedHex { bytecode_type: BytecodeType::DeployedBytecode, index },
            );
        },
    };
    if !settings_are_json {
        return Err(IngestError::InvalidCompilerSettings);
    }
    if !abi_is_json {
        return Err(IngestError::InvalidAbi);
    }
    proof {
        lemma_raw_is_contents(result.local_creation_input_parts@);
        lemma_raw_is_contents(result.local_deployed_bytecode_parts@);
    }
    let raw_creation_input = join_parts(&creation);
    let raw_deployed_bytecode = join_parts(&deployed);
    let files = distinct_files(&result.sources);
    Ok(
        Plan {
            source: Source {
                source_type: SourceType::Solidity,
                compiler_version: result.compiler_version,
                compiler_settings: result.compiler_settings,
                file_name: result.file_name,
                contract_name: result.contract_name,
                raw_creation_input,
                raw_deployed_bytecode,
                abi: result.abi,
            },
            creation,
            deployed,
            files,
        },
    )
}

/// The plan for a verification result, or why there is none.
pub fn prepare(result: VerificationResult) -> (found: Result<Plan, IngestError>)
    ensures
        agrees(found, planned(result)),
{
    let settings_are_json = parses(result.compiler_settings.as_str());
    let abi_is_json = match &result.abi {
        Some(text) => parses(text.as_str()),
        None => true,
    };
    plan(result, settings_are_json, abi_is_json)
}

} // verus!
