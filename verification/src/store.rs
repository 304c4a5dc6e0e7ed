//! A store in memory that answers the commands of an ingestion.
//!
//! The store holds four tables of rows with an identifier (sources,
//! bytecodes, parts, files) and two relations (bytecode to part, source to
//! file). Rows are only appended. The row at index `i` of a table has the
//! identifier `i + 1`. The store keeps unique what a relational store would:
//! the kind and bytes of a part, the name and content of a file, the position
//! within a bytecode, the pair of a source and a file. It refuses a row that
//! refers to a row that does not exist.

use crate::content::{find, lemma_find, same_bytes};
use crate::protocol::{
    BytecodePartRow, Command, CommandView, FileKey, PartKey, Reply, Source, SourceData,
    SourceFileRow,
};
use crate::types::{BytecodeType, PartType};
use vstd::prelude::*;

verus! {

/// A row of the table of sources.
#[derive(Clone, Debug, PartialEq, Eq)]
pub struct SourceRow {
    pub id: i64,
    pub source: Source,
}

/// A row of the table of bytecodes.
#[derive(Clone, Copy, Debug, PartialEq, Eq, Structural)]
pub struct BytecodeRow {
    pub id: i64,
    pub source_id: i64,
    pub bytecode_type: BytecodeType,
}

/// A row of the table of parts.
#[derive(Clone, Debug, PartialEq, Eq)]
pub struct PartRow {
    pub id: i64,
    pub part_type: PartType,
    pub data: Vec<u8>,
}

/// A row of the table of files.
#[derive(Clone, Debug, PartialEq, Eq)]
pub struct FileRow {
    pub id: i64,
    pub name: String,
    pub content: String,
}

/// What a bytecode row holds besides its identifier.
pub struct BytecodeData {
    pub source_id: i64,
    pub bytecode_type: BytecodeType,
}

impl BytecodeRow {
    pub open spec fn data(self) -> BytecodeData {
        BytecodeData { source_id: self.source_id, bytecode_type: self.bytecode_type }
    }
}

impl PartRow {
    pub open spec fn key(self) -> PartKey {
        (self.part_type, self.data@)
    }
}

impl FileRow {
    pub open spec fn key(self) -> FileKey {
        (self.name@, self.content@)
    }
}

/// The number of rows of each table at one moment.
#[derive(Clone, Copy, Debug, PartialEq, Eq, Structural)]
pub struct Mark {
    pub sources: usize,
    pub bytecodes: usize,
    pub parts: usize,
    pub bytecode_parts: usize,
    pub files: usize,
    pub source_files: usize,
}

/// A `Mark` as a mathematical value.
pub struct MarkView {
    pub sources: nat,
    pub bytecodes: nat,
    pub parts: nat,
    pub bytecode_parts: nat,
    pub files: nat,
    pub source_files: nat,
}

impl View for Mark {
    type V = MarkView;

    open spec fn view(&self) -> MarkView {
        MarkView {
            sources: self.sources as nat,
            bytecodes: self.bytecodes as nat,
            parts: self.parts as nat,
            bytecode_parts: self.bytecode_parts as nat,
            files: self.files as nat,
            source_files: self.source_files as nat,
        }
    }
}

/// The store as a mathematical value: each table as the sequence of what its
/// rows hold, the row with identifier `i + 1` at index `i`.
#[verifier::ext_equal]
pub struct StoreView {
    /// The number of rows that a table can hold.
    pub limit: int,
    pub sources: Seq<SourceData>,
    pub bytecodes: Seq<BytecodeData>,
    pub parts: Seq<PartKey>,
    pub bytecode_parts: Seq<BytecodePartRow>,
    pub files: Seq<FileKey>,
    pub source_files: Seq<SourceFileRow>,
    /// Where the open transaction began, if one is open.
    pub mark: Option<MarkView>,
}

impl StoreView {
    /// A row of the relation between bytecodes and parts refers to rows that
    /// exist, and its position is not negative.
    pub open spec fn link_valid(self, row: BytecodePartRow) -> bool {
        &&& 1 <= row.bytecode_id <= self.bytecodes.len()
        &&& 1 <= row.part_id <= self.parts.len()
        &&& 0 <= row.order
    }

    /// A row of the relation between sources and files refers to rows that
    /// exist.
    pub open spec fn file_link_valid(self, row: SourceFileRow) -> bool {
        &&& 1 <= row.source_id <= self.sources.len()
        &&& 1 <= row.file_id <= self.files.len()
    }

    /// Some part stands at this position of this bytecode.
    pub open spec fn position_taken(self, bytecode_id: i64, order: i64) -> bool {
        exists|i: int|
            0 <= i < self.bytecode_parts.len() && (#[trigger] self.bytecode_parts[i]).bytecode_id
                == bytecode_id && self.bytecode_parts[i].order == order
    }

    /// What holds of the tables of every store.
    pub open spec fn tables_wf(self) -> bool {
        &&& 0 <= self.limit <= i64::MAX
        &&& self.sources.len() <= self.limit
        &&& self.bytecodes.len() <= self.limit
        &&& self.parts.len() <= self.limit
        &&& self.bytecode_parts.len() <= self.limit
        &&& self.files.len() <= self.limit
        &&& self.source_files.len() <= self.limit
        &&& self.parts.no_duplicates()
        &&& self.files.no_duplicates()
        &&& forall|i: int|
            0 <= i < self.bytecodes.len() ==> 1 <= (#[trigger] self.bytecodes[i]).source_id
                <= self.sources.len()
        &&& forall|i: int|
            0 <= i < self.bytecode_parts.len() ==> self.link_valid(#[trigger] self.bytecode_parts[i])
        &&& forall|i: int, j: int|
            0 <= i < j < self.bytecode_parts.len() ==> !((#[trigger] self.bytecode_parts[i]).bytecode_id
                == (#[trigger] self.bytecode_parts[j]).bytecode_id && self.bytecode_parts[i].order
                == self.bytecode_parts[j].order)
        &&& forall|i: int|
            0 <= i < self.source_files.len() ==> self.file_link_valid(
                #[trigger] self.source_files[i],
            )
        &&& self.source_files.no_duplicates()
    }

    /// No table has fewer rows than the mark counts.
    pub open spec fn reaches(self, mark: MarkView) -> bool {
        &&& mark.sources <= self.sources.len()
        &&& mark.bytecodes <= self.bytecodes.len()
        &&& mark.parts <= self.parts.len()
        &&& mark.bytecode_parts <= self.bytecode_parts.len()
        &&& mark.files <= self.files.len()
        &&& mark.source_files <= self.source_files.len()
    }

    /// The number of rows of each table.
    pub open spec fn lengths(self) -> MarkView {
        MarkView {
            sources: self.sources.len(),
            bytecodes: self.bytecodes.len(),
            parts: self.parts.len(),
            bytecode_parts: self.bytecode_parts.len(),
            files: self.files.len(),
            source_files: self.source_files.len(),
        }
    }

    /// The store with the rows that the mark counts and no open transaction.
    pub open spec fn truncated(self, mark: MarkView) -> StoreView {
        StoreView {
            limit: self.limit,
            sources: self.sources.take(mark.sources as int),
            bytecodes: self.bytecodes.take(mark.bytecodes as int),
            parts: self.parts.take(mark.parts as int),
            bytecode_parts: self.bytecode_parts.take(mark.bytecode_parts as int),
            files: self.files.take(mark.files as int),
            source_files: self.source_files.take(mark.source_files as int),
            mark: None,
        }
    }

    /// What holds of every store: of its tables, and of the tables as they
    /// were when the open transaction began.
    pub open spec fn wf(self) -> bool {
        &&& self.tables_wf()
        &&& self.mark matches Some(mark) ==> self.reaches(mark) && self.truncated(
            mark,
        ).tables_wf()
    }

    /// Opens a transaction; fails where one is open.
    pub open spec fn begin(self) -> (StoreView, Reply) {
        if self.mark is Some {
            (self, Reply::Failed)
        } else {
            (StoreView { mark: Some(self.lengths()), ..self }, Reply::Done)
        }
    }

    /// Closes the open transaction and keeps its writes; fails where none is
    /// open.
    pub open spec fn commit(self) -> (StoreView, Reply) {
        if self.mark is Some {
            (StoreView { mark: None, ..self }, Reply::Done)
        } else {
            (self, Reply::Failed)
        }
    }

    /// Closes the open transaction and drops its writes; fails where none is
    /// open.
    pub open spec fn rollback(self) -> (StoreView, Reply) {
        match self.mark {
            Some(mark) => (self.truncated(mark), Reply::Done),
            None => (self, Reply::Failed),
        }
    }

    /// Appends a source; fails where the table is full.
    pub open spec fn insert_source(self, source: SourceData) -> (StoreView, Reply) {
        if self.sources.len() < self.limit {
            (
                StoreView { sources: self.sources.push(source), ..self },
                Reply::Inserted((self.sources.len() + 1) as i64),
            )
        } else {
            (self, Reply::Failed)
        }
    }

    /// Appends a bytecode; fails where its source does not exist or the table
    /// is full.
    pub open spec fn insert_bytecode(self, source_id: i64, bytecode_type: BytecodeType) -> (
        StoreView,
        Reply,
    ) {
        if 1 <= source_id <= self.sources.len() && self.bytecodes.len() < self.limit {
            (
                StoreView {
                    bytecodes: self.bytecodes.push(BytecodeData { source_id, bytecode_type }),
                    ..self
                },
                Reply::Inserted((self.bytecodes.len() + 1) as i64),
            )
        } else {
            (self, Reply::Failed)
        }
    }

    /// The identifier of the part with this key, if there is one.
    pub open spec fn find_part(self, key: PartKey) -> Reply {
        match find(self.parts, key) {
            Some(i) => Reply::Found((i + 1) as i64),
            None => Reply::Missing,
        }
    }

    /// Appends a part; refuses one that the table holds, and fails where the
    /// table is full.
    pub open spec fn insert_part(self, key: PartKey) -> (StoreView, Reply) {
        if find(self.parts, key) is Some {
            (self, Reply::Conflict)
        } else if self.parts.len() < self.limit {
            (
                StoreView { parts: self.parts.push(key), ..self },
                Reply::Inserted((self.parts.len() + 1) as i64),
            )
        } else {
            (self, Reply::Failed)
        }
    }

    /// Appends a row that puts a part at a position of a bytecode; fails where
    /// the row is not valid, refuses a position that is taken, and fails where
    /// the relation is full.
    pub open spec fn link_part(self, row: BytecodePartRow) -> (StoreView, Reply) {
        if !self.link_valid(row) {
            (self, Reply::Failed)
        } else if self.position_taken(row.bytecode_id, row.order) {
            (self, Reply::Conflict)
        } else if self.bytecode_parts.len() < self.limit {
            (StoreView { bytecode_parts: self.bytecode_parts.push(row), ..self }, Reply::Done)
        } else {
            (self, Reply::Failed)
        }
    }

    /// The identifier of the file with this key, if there is one.
    pub open spec fn find_file(self, key: FileKey) -> Reply {
        match find(self.files, key) {
            Some(i) => Reply::Found((i + 1) as i64),
            None => Reply::Missing,
        }
    }

    /// Appends a file; refuses one that the table holds, and fails where the
    /// table is full.
    pub open spec fn insert_file(self, key: FileKey) -> (StoreView, Reply) {
        if find(self.files, key) is Some {
            (self, Reply::Conflict)
        } else if self.files.len() < self.limit {
            (
                StoreView { files: self.files.push(key), ..self },
                Reply::Inserted((self.files.len() + 1) as i64),
            )
        } else {
            (self, Reply::Failed)
        }
    }

    /// Appends a row that ties a file to a source; fails where the row is not
    /// valid, refuses a pair that is tied, and fails where the relation is
    /// full.
    pub open spec fn link_file(self, row: SourceFileRow) -> (StoreView, Reply) {
        if !self.file_link_valid(row) {
            (self, Reply::Failed)
        } else if self.source_files.contains(row) {
            (self, Reply::Conflict)
        } else if self.source_files.len() < self.limit {
            (StoreView { source_files: self.source_files.push(row), ..self }, Reply::Done)
        } else {
            (self, Reply::Failed)
        }
    }

    /// The store after a command, and its reply.
    pub open spec fn execute(self, command: CommandView) -> (StoreView, Reply) {
        match command {
            CommandView::Begin => self.begin(),
            CommandView::InsertSource(source) => self.insert_source(source),
            CommandView::InsertBytecode { source_id, bytecode_type } => self.insert_bytecode(
                source_id,
                bytecode_type,
            ),
            CommandView::FindPart { key } => (self, self.find_part(key)),
            CommandView::InsertPart { key } => self.insert_part(key),
            CommandView::LinkPart { row } => self.link_part(row),
            CommandView::FindFile { key } => (self, self.find_file(key)),
            CommandView::InsertFile { key } => self.insert_file(key),
            CommandView::LinkFile { row } => self.link_file(row),
            CommandView::Commit => self.commit(),
            CommandView::Rollback => self.rollback(),
        }
    }

    /// The rows that give the parts of one bytecode, in the order of the
    /// relation.
    pub open spec fn links_of(self, bytecode_id: int) -> Seq<BytecodePartRow> {
        self.bytecode_parts.filter(of_bytecode(bytecode_id))
    }

    /// The bytes of the part that a row of the relation refers to.
    pub open spec fn part_data(self, row: BytecodePartRow) -> Seq<u8> {
        self.parts[row.part_id - 1].1
    }

    /// The bytes of each part of one bytecode, in the order of the relation.
    pub open spec fn part_datas(self, bytecode_id: int) -> Seq<Seq<u8>> {
        self.links_of(bytecode_id).map_values(|row: BytecodePartRow| self.part_data(row))
    }

    /// The bytes of the parts of one bytecode, one part after the other.
    pub open spec fn contents(self, bytecode_id: int) -> Seq<u8> {
        self.part_datas(bytecode_id).flatten()
    }

    /// The raw bytes that the source of a bytecode holds for the bytecode's
    /// kind.
    pub open spec fn raw(self, bytecode_id: int) -> Seq<u8> {
        let bytecode = self.bytecodes[bytecode_id - 1];
        self.sources[bytecode.source_id - 1].raw(bytecode.bytecode_type)
    }

    /// The parts of a bytecode stand at the positions 0, 1, 2 and so on, in
    /// the order of the relation, and together give the raw bytes of its
    /// source.
    pub open spec fn complete(self, bytecode_id: int) -> bool {
        &&& forall|k: int|
            0 <= k < self.links_of(bytecode_id).len() ==> (#[trigger] self.links_of(
                bytecode_id,
            )[k]).order == k
        &&& self.contents(bytecode_id) == self.raw(bytecode_id)
    }

    /// Every bytecode of the store is complete.
    pub open spec fn consistent(self) -> bool {
        &&& self.wf()
        &&& forall|bytecode_id: int|
            1 <= bytecode_id <= self.bytecodes.len() ==> #[trigger] self.complete(bytecode_id)
    }
}

/// Whether a row of the relation between bytecodes and parts is one of this
/// bytecode.
pub open spec fn of_bytecode(bytecode_id: int) -> spec_fn(BytecodePartRow) -> bool {
    |row: BytecodePartRow| row.bytecode_id == bytecode_id
}

/// Appending rows to a store changes nothing below a mark that it reached.
pub proof fn lemma_truncated_stable(before: StoreView, after: StoreView, mark: MarkView)
    requires
        before.reaches(mark),
        before.limit == after.limit,
        before.sources.is_prefix_of(after.sources),
        before.bytecodes.is_prefix_of(after.bytecodes),
        before.parts.is_prefix_of(after.parts),
        before.bytecode_parts.is_prefix_of(after.bytecode_parts),
        before.files.is_prefix_of(after.files),
        before.source_files.is_prefix_of(after.source_files),
    ensures
        after.reaches(mark),
        after.truncated(mark) == before.truncated(mark),
{
    assert(after.truncated(mark) =~= before.truncated(mark));
}

/// A well-formed store is well-formed after every command: it holds no part
/// and no file twice, gives no position of a bytecode twice, ties no file to
/// a source twice, and its rows refer to rows that exist.
pub proof fn lemma_execute_wf(store: StoreView, command: CommandView)
    requires
        store.wf(),
    ensures
        store.execute(command).0.wf(),
{
    let after = store.execute(command).0;
    match command {
        CommandView::Begin => {
            if store.mark is None {
                assert(after.truncated(store.lengths()) =~= store);
            }
        },
        CommandView::Commit => {},
        CommandView::Rollback => {},
        CommandView::InsertPart { key } => {
            lemma_find(store.parts, key);
            lemma_appended_wf(store, after);
        },
        CommandView::InsertFile { key } => {
            lemma_find(store.files, key);
            lemma_appended_wf(store, after);
        },
        _ => {
            lemma_appended_wf(store, after);
        },
    }
}

/// A store that only gained rows since it was well-formed, and whose tables
/// are well-formed, is well-formed.
proof fn lemma_appended_wf(before: StoreView, after: StoreView)
    requires
        before.wf(),
        after.mark == before.mark,
        after.limit == before.limit,
        before.sources.is_prefix_of(after.sources),
        before.bytecodes.is_prefix_of(after.bytecodes),
        before.parts.is_prefix_of(after.parts),
        before.bytecode_parts.is_prefix_of(after.bytecode_parts),
        before.files.is_prefix_of(after.files),
        before.source_files.is_prefix_of(after.source_files),
    ensures
        after.tables_wf() ==> after.wf(),
{
    if let Some(mark) = after.mark {
        lemma_truncated_stable(before, after, mark);
    }
}

/// The store in memory.
pub struct Store {
    limit: i64,
    sources: Vec<SourceRow>,
    bytecodes: Vec<BytecodeRow>,
    parts: Vec<PartRow>,
    bytecode_parts: Vec<BytecodePartRow>,
    files: Vec<FileRow>,
    source_files: Vec<SourceFileRow>,
    mark: Option<Mark>,
}

impl View for Store {
    type V = StoreView;

    closed spec fn view(&self) -> StoreView {
        StoreView {
            limit: self.limit as int,
            sources: self.sources@.map_values(|row: SourceRow| row.source@),
            bytecodes: self.bytecodes@.map_values(|row: BytecodeRow| row.data()),
            parts: self.parts@.map_values(|row: PartRow| row.key()),
            bytecode_parts: self.bytecode_parts@,
            files: self.files@.map_values(|row: FileRow| row.key()),
            source_files: self.source_files@,
            mark: match self.mark {
                Some(mark) => Some(mark@),
                None => None,
            },
        }
    }
}

impl Store {
    /// What holds of every store that this module hands out.
    pub closed spec fn wf(&self) -> bool {
        &&& self@.wf()
        &&& forall|i: int| 0 <= i < self.sources@.len() ==> (#[trigger] self.sources@[i]).id == i + 1
        &&& forall|i: int|
            0 <= i < self.bytecodes@.len() ==> (#[trigger] self.bytecodes@[i]).id == i + 1
        &&& forall|i: int| 0 <= i < self.parts@.len() ==> (#[trigger] self.parts@[i]).id == i + 1
        &&& forall|i: int| 0 <= i < self.files@.len() ==> (#[trigger] self.files@[i]).id == i + 1
    }

    /// A well-formed store is well-formed as a mathematical value.
    pub proof fn lemma_wf(&self)
        requires
            self.wf(),
        ensures
            self@.wf(),
    {
    }

    /// An empty store whose tables hold as many rows as an identifier can
    /// count.
    pub fn new() -> (store: Store)
        ensures
            store.wf(),
            store@ == Store::empty(i64::MAX as int),
            store@.consistent(),
    {
        Store::with_limit(i64::MAX)
    }

    /// The empty store with a limit, as a mathematical value.
    pub open spec fn empty(limit: int) -> StoreView {
        StoreView {
            limit,
            sources: Seq::empty(),
            bytecodes: Seq::empty(),
            parts: Seq::empty(),
            bytecode_parts: Seq::empty(),
            files: Seq::empty(),
            source_files: Seq::empty(),
            mark: None,
        }
    }

    /// An empty store whose tables hold `limit` rows each, and none where
    /// `limit` is negative.
    pub fn with_limit(limit: i64) -> (store: Store)
        ensures
            store.wf(),
            store@ == Store::empty(if limit < 0 { 0 } else { limit as int }),
            store@.consistent(),
    {
        let store = Store {
            limit: if limit < 0 { 0 } else { limit },
            sources: Vec::new(),
            bytecodes: Vec::new(),
            parts: Vec::new(),
            bytecode_parts: Vec::new(),
            files: Vec::new(),
            source_files: Vec::new(),
            mark: None,
        };
        assert(store@ =~= Store::empty(if limit < 0 { 0 } else { limit as int }));
        store
    }

    /// The rows of the table of sources.
    pub fn sources(&self) -> (rows: &Vec<SourceRow>)
        requires
            self.wf(),
        ensures
            rows@.len() == self@.sources.len(),
            forall|i: int|
                0 <= i < rows@.len() ==> (#[trigger] rows@[i]).id == i + 1 && rows@[i].source@
                    == self@.sources[i],
    {
        &self.sources
    }

    /// The rows of the table of bytecodes.
    pub fn bytecodes(&self) -> (rows: &Vec<BytecodeRow>)
        requires
            self.wf(),
        ensures
            rows@.len() == self@.bytecodes.len(),
            forall|i: int|
                0 <= i < rows@.len() ==> (#[trigger] rows@[i]).id == i + 1 && rows@[i].data()
                    == self@.bytecodes[i],
    {
        &self.bytecodes
    }

    /// The rows of the table of parts.
    pub fn parts(&self) -> (rows: &Vec<PartRow>)
        requires
            self.wf(),
        ensures
            rows@.len() == self@.parts.len(),
            forall|i: int|
                0 <= i < rows@.len() ==> (#[trigger] rows@[i]).id == i + 1 && rows@[i].key()
                    == self@.parts[i],
    {
        &self.parts
    }

    /// The rows of the relation between bytecodes and parts.
    pub fn bytecode_parts(&self) -> (rows: &Vec<BytecodePartRow>)
        ensures
            rows@ == self@.bytecode_parts,
    {
        &self.bytecode_parts
    }

    /// The rows of the table of files.
    pub fn files(&self) -> (rows: &Vec<FileRow>)
        requires
            self.wf(),
        ensures
            rows@.len() == self@.files.len(),
            forall|i: int|
                0 <= i < rows@.len() ==> (#[trigger] rows@[i]).id == i + 1 && rows@[i].key()
                    == self@.files[i],
    {
        &self.files
    }

    /// The rows of the relation between sources and files.
    pub fn source_files(&self) -> (rows: &Vec<SourceFileRow>)
        ensures
            rows@ == self@.source_files,
    {
        &self.source_files
    }

    /// Opens a transaction.
    pub fn begin(&mut self) -> (reply: Reply)
        requires
            old(self).wf(),
        ensures
            final(self).wf(),
            (final(self)@, reply) == old(self)@.begin(),
    {
        if self.mark.is_some() {
            return Reply::Failed;
        }
        let mark = Mark {
            sources: self.sources.len(),
            bytecodes: self.bytecodes.len(),
            parts: self.parts.len(),
            bytecode_parts: self.bytecode_parts.len(),
            files: self.files.len(),
            source_files: self.source_files.len(),
        };
        self.mark = Some(mark);
        proof {
            assert(mark@ == old(self)@.lengths());
            assert(self@.truncated(mark@) =~= old(self)@);
            assert(self@ =~= old(self)@.begin().0);
        }
        Reply::Done
    }

    /// Closes the open transaction and keeps its writes.
    pub fn commit(&mut self) -> (reply: Reply)
        requires
            old(self).wf(),
        ensures
            final(self).wf(),
            (final(self)@, reply) == old(self)@.commit(),
    {
        if self.mark.is_none() {
            return Reply::Failed;
        }
        self.mark = None;
        assert(self@ =~= old(self)@.commit().0);
        Reply::Done
    }

    /// Closes the open transaction and drops its writes.
    pub fn rollback(&mut self) -> (reply: Reply)
        requires
            old(self).wf(),
        ensures
            final(self).wf(),
            (final(self)@, reply) == old(self)@.rollback(),
    {
        match self.mark {
            None => Reply::Failed,
            Some(mark) => {
                self.sources.truncate(mark.sources);
                self.bytecodes.truncate(mark.bytecodes);
                self.parts.truncate(mark.parts);
                self.bytecode_parts.truncate(mark.bytecode_parts);
                self.files.truncate(mark.files);
                self.source_files.truncate(mark.source_files);
                self.mark = None;
                assert(self@ =~= old(self)@.truncated(mark@));
                Reply::Done
            },
        }
    }

    /// Inserts a source row.
    pub fn insert_source(&mut self, source: Source) -> (reply: Reply)
        requires
            old(self).wf(),
        ensures
            final(self).wf(),
            (final(self)@, reply) == old(self)@.insert_source(source@),
    {
        let count = self.sources.len() as u64;
        if count >= self.limit as u64 {
            return Reply::Failed;
        }
        let id = (count + 1) as i64;
        self.sources.push(SourceRow { id, source });
        proof {
            assert(self@ =~= old(self)@.insert_source(source@).0);
            self.lemma_appended(old(self));
        }
        Reply::Inserted(id)
    }

    /// Inserts a bytecode row.
    pub fn insert_bytecode(&mut self, source_id: i64, bytecode_type: BytecodeType) -> (reply:
        Reply)
        requires
            old(self).wf(),
        ensures
            final(self).wf(),
            (final(self)@, reply) == old(self)@.insert_bytecode(source_id, bytecode_type),
    {
        let count = self.bytecodes.len() as u64;
        if source_id < 1 || source_id as u64 > self.sources.len() as u64 || count
            >= self.limit as u64 {
            return Reply::Failed;
        }
        let id = (count + 1) as i64;
        self.bytecodes.push(BytecodeRow { id, source_id, bytecode_type });
        proof {
            assert(self@ =~= old(self)@.insert_bytecode(source_id, bytecode_type).0);
            self.lemma_appended(old(self));
        }
        Reply::Inserted(id)
    }

    /// Looks for the part with this kind and these bytes.
    pub fn find_part(&self, part_type: PartType, data: &Vec<u8>) -> (reply: Reply)
        requires
            self.wf(),
        ensures
            reply == self@.find_part((part_type, data@)),
    {
        let ghost key: PartKey = (part_type, data@);
        let mut i: usize = 0;
        while i < self.parts.len()
            invariant
                self.wf(),
                key == (part_type, data@),
                i <= self.parts.len(),
                forall|j: int| 0 <= j < i ==> self@.parts[j] != key,
            decreases self.parts.len() - i,
        {
            let row = &self.parts[i];
            if row.part_type == part_type && same_bytes(&row.data, data) {
                proof {
                    assert(self@.parts[i as int] == key);
                    lemma_find(self@.parts, key);
                }
                return Reply::Found(row.id);
            }
            i += 1;
        }
        proof {
            lemma_find(self@.parts, key);
        }
        Reply::Missing
    }

    /// Inserts a part.
    pub fn insert_part(&mut self, part_type: PartType, data: Vec<u8>) -> (reply: Reply)
        requires
            old(self).wf(),
        ensures
            final(self).wf(),
            (final(self)@, reply) == old(self)@.insert_part((part_type, data@)),
    {
        let ghost key: PartKey = (part_type, data@);
        match self.find_part(part_type, &data) {
            Reply::Missing => {},
            _ => {
                return Reply::Conflict;
            },
        }
        let count = self.parts.len() as u64;
        if count >= self.limit as u64 {
            return Reply::Failed;
        }
        let id = (count + 1) as i64;
        self.parts.push(PartRow { id, part_type, data });
        proof {
            assert(self@ =~= old(self)@.insert_part(key).0);
            lemma_find(old(self)@.parts, key);
            self.lemma_appended(old(self));
        }
        Reply::Inserted(id)
    }

    /// Inserts a row that puts a part at a position of a bytecode.
    pub fn link_part(&mut self, row: BytecodePartRow) -> (reply: Reply)
        requires
            old(self).wf(),
        ensures
            final(self).wf(),
            (final(self)@, reply) == old(self)@.link_part(row),
    {
        if row.bytecode_id < 1 || row.bytecode_id as u64 > self.bytecodes.len() as u64
            || row.part_id < 1 || row.part_id as u64 > self.parts.len() as u64 || row.order < 0 {
            return Reply::Failed;
        }
        let mut i: usize = 0;
        while i < self.bytecode_parts.len()
            invariant
                *self == *old(self),
                self.wf(),
                self@.link_valid(row),
                i <= self.bytecode_parts.len(),
                forall|j: int|
                    0 <= j < i ==> !((#[trigger] self.bytecode_parts@[j]).bytecode_id
                        == row.bytecode_id && self.bytecode_parts@[j].order == row.order),
            decreases self.bytecode_parts.len() - i,
        {
            let other = &self.bytecode_parts[i];
            if other.bytecode_id == row.bytecode_id && other.order == row.order {
                assert(self@.bytecode_parts[i as int].bytecode_id == row.bytecode_id);
                return Reply::Conflict;
            }
            i += 1;
        }
        if self.bytecode_parts.len() as u64 >= self.limit as u64 {
            return Reply::Failed;
        }
        self.bytecode_parts.push(row);
        proof {
            assert(self@ =~= old(self)@.link_part(row).0);
            self.lemma_appended(old(self));
        }
        Reply::Done
    }

    /// Looks for the file with this name and content.
    pub fn find_file(&self, name: &String, content: &String) -> (reply: Reply)
        requires
            self.wf(),
        ensures
            reply == self@.find_file((name@, content@)),
    {
        let ghost key: FileKey = (name@, content@);
        let mut i: usize = 0;
        while i < self.files.len()
            invariant
                self.wf(),
                key == (name@, content@),
                i <= self.files.len(),
                forall|j: int| 0 <= j < i ==> self@.files[j] != key,
            decreases self.files.len() - i,
        {
            let row = &self.files[i];
            if row.name == *name && row.content == *content {
                proof {
                    assert(self@.files[i as int] == key);
                    lemma_find(self@.files, key);
                }
                return Reply::Found(row.id);
            }
            i += 1;
        }
        proof {
            lemma_find(self@.files, key);
        }
        Reply::Missing
    }

    /// Inserts a file.
    pub fn insert_file(&mut self, name: String, content: String) -> (reply: Reply)
        requires
            old(self).wf(),
        ensures
            final(self).wf(),
            (final(self)@, reply) == old(self)@.insert_file((name@, content@)),
    {
        let ghost key: FileKey = (name@, content@);
        match self.find_file(&name, &content) {
            Reply::Missing => {},
            _ => {
                return Reply::Conflict;
            },
        }
        let count = self.files.len() as u64;
        if count >= self.limit as u64 {
            return Reply::Failed;
        }
        let id = (count + 1) as i64;
        self.files.push(FileRow { id, name, content });
        proof {
            assert(self@ =~= old(self)@.insert_file(key).0);
            lemma_find(old(self)@.files, key);
            self.lemma_appended(old(self));
        }
        Reply::Inserted(id)
    }

    /// Inserts a row that ties a file to a source.
    pub fn link_file(&mut self, row: SourceFileRow) -> (reply: Reply)
        requires
            old(self).wf(),
        ensures
            final(self).wf(),
            (final(self)@, reply) == old(self)@.link_file(row),
    {
        if row.source_id < 1 || row.source_id as u64 > self.sources.len() as u64 || row.file_id
            < 1 || row.file_id as u64 > self.files.len() as u64 {
            return Reply::Failed;
        }
        let mut i: usize = 0;
        while i < self.source_files.len()
            invariant
                *self == *old(self),
                self.wf(),
                self@.file_link_valid(row),
                i <= self.source_files.len(),
                forall|j: int| 0 <= j < i ==> self.source_files@[j] != row,
            decreases self.source_files.len() - i,
        {
            let other = &self.source_files[i];
            if other.source_id == row.source_id && other.file_id == row.file_id {
                assert(self@.source_files[i as int] == row);
                return Reply::Conflict;
            }
            i += 1;
        }
        if self.source_files.len() as u64 >= self.limit as u64 {
            return Reply::Failed;
        }
        self.source_files.push(row);
        proof {
            assert(self@ =~= old(self)@.link_file(row).0);
            self.lemma_appended(old(self));
        }
        Reply::Done
    }

    /// Carries out one command and answers it.
    pub fn execute(&mut self, command: Command) -> (reply: Reply)
        requires
            old(self).wf(),
        ensures
            final(self).wf(),
            (final(self)@, reply) == old(self)@.execute(command@),
    {
        match command {
            Command::Begin => self.begin(),
            Command::InsertSource(source) => self.insert_source(source),
            Command::InsertBytecode { source_id, bytecode_type } => self.insert_bytecode(
                source_id,
                bytecode_type,
            ),
            Command::FindPart { part_type, data } => self.find_part(part_type, &data),
            Command::InsertPart { part_type, data } => self.insert_part(part_type, data),
            Command::LinkPart { bytecode_id, order, part_id } => self.link_part(
                BytecodePartRow { bytecode_id, order, part_id },
            ),
            Command::FindFile { name, content } => self.find_file(&name, &content),
            Command::InsertFile { name, content } => self.insert_file(name, content),
            Command::LinkFile { source_id, file_id } => self.link_file(
                SourceFileRow { source_id, file_id },
            ),
            Command::Commit => self.commit(),
            Command::Rollback => self.rollback(),
        }
    }

    /// A store that only gained rows since it was well-formed, and whose
    /// tables are well-formed, is well-formed.
    proof fn lemma_appended(&self, before: &Store)
        requires
            before.wf(),
            self@.tables_wf(),
            self@.mark == before@.mark,
            self@.limit == before@.limit,
            before@.sources.is_prefix_of(self@.sources),
            before@.bytecodes.is_prefix_of(self@.bytecodes),
            before@.parts.is_prefix_of(self@.parts),
            before@.bytecode_parts.is_prefix_of(self@.bytecode_parts),
            before@.files.is_prefix_of(self@.files),
            before@.source_files.is_prefix_of(self@.source_files),
        ensures
            self@.wf(),
    {
        if let Some(mark) = self@.mark {
            lemma_truncated_stable(before@, self@, mark);
        }
    }
}

} // verus!
