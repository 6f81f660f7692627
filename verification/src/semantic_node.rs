//! Language-agnostic foundation of the intermediate representation:
//! source positions, the positional base shared by every node, semantic
//! categories and the extensible metadata store attached to nodes.
use vstd::prelude::*;

verus! {

/// Position of a node relative to the end of the previous node.
#[derive(Debug, Clone, Copy, PartialEq, Eq, Structural)]
pub struct RelativePosition {
    /// Difference in line numbers from the previous node's end.
    pub delta_lines: i32,
    /// Difference in columns, or the start column when the node begins on a new line.
    pub delta_columns: i32,
    /// Difference in byte offsets from the previous node's end.
    pub delta_bytes: usize,
}

/// Absolute, zero-based position in a source text.
#[derive(Debug, Clone, Copy, PartialEq, Eq, Hash, PartialOrd, Ord, Structural)]
pub struct Position {
    /// Line number (0-based).
    pub row: usize,
    /// Column number (0-based).
    pub column: usize,
    /// Byte offset from the start of the source.
    pub byte: usize,
}

/// Positional and textual extent shared by every IR node.
#[derive(Debug, Clone, Copy, PartialEq, Eq, Structural)]
pub struct NodeBase {
    relative_start: RelativePosition,
    content_length: usize,
    syntactic_length: usize,
    span_lines: usize,
    span_columns: usize,
}

/// A coordinate moved by a signed delta, read back as an unsigned coordinate.
pub open spec fn offset_coord(base: usize, delta: i32) -> usize {
    ((base as i32) + delta) as usize
}

/// The offset stays inside the signed 32-bit range that the computation
/// uses (the coordinate itself is read as a signed 32-bit number, wrapping).
pub open spec fn offset_fits(base: usize, delta: i32) -> bool {
    i32::MIN <= (base as i32) + delta <= i32::MAX
}

/// Moves `base` by `delta`, as positions are computed from relative deltas.
pub fn offset(base: usize, delta: i32) -> (r: usize)
    requires
        offset_fits(base, delta),
    ensures
        r == offset_coord(base, delta),
{
    let b: i32 = #[verifier::truncate] (base as i32);
    #[verifier::truncate] ((b + delta) as usize)
}

impl NodeBase {
    /// The relative start position stored in this base.
    pub closed spec fn spec_relative_start(self) -> RelativePosition {
        self.relative_start
    }

    /// The content ("soft") length: content up to the last child.
    pub closed spec fn spec_content_length(self) -> usize {
        self.content_length
    }

    /// The syntactic ("hard") length: includes closing delimiters.
    pub closed spec fn spec_syntactic_length(self) -> usize {
        self.syntactic_length
    }

    /// Number of lines the node spans.
    pub closed spec fn spec_span_lines(self) -> usize {
        self.span_lines
    }

    /// Number of columns on the node's last line.
    pub closed spec fn spec_span_columns(self) -> usize {
        self.span_columns
    }

    /// The base with the given attributes.
    pub closed spec fn spec_new(
        relative_start: RelativePosition,
        content_length: usize,
        syntactic_length: usize,
        span_lines: usize,
        span_columns: usize,
    ) -> NodeBase {
        NodeBase { relative_start, content_length, syntactic_length, span_lines, span_columns }
    }

    /// Creates a base from all of its attributes.
    pub fn new(
        relative_start: RelativePosition,
        content_length: usize,
        syntactic_length: usize,
        span_lines: usize,
        span_columns: usize,
    ) -> (b: Self)
        ensures
            b == NodeBase::spec_new(relative_start, content_length, syntactic_length, span_lines, span_columns),
            b.spec_relative_start() == relative_start,
            b.spec_content_length() == content_length,
            b.spec_syntactic_length() == syntactic_length,
            b.spec_span_lines() == span_lines,
            b.spec_span_columns() == span_columns,
    {
        NodeBase { relative_start, content_length, syntactic_length, span_lines, span_columns }
    }

    /// Creates a base for a node without closing delimiters: both lengths are `length`.
    pub fn new_simple(
        relative_start: RelativePosition,
        length: usize,
        span_lines: usize,
        span_columns: usize,
    ) -> (b: Self)
        ensures
            b == NodeBase::spec_new(relative_start, length, length, span_lines, span_columns),
            b.spec_relative_start() == relative_start,
            b.spec_content_length() == length,
            b.spec_syntactic_length() == length,
            b.spec_span_lines() == span_lines,
            b.spec_span_columns() == span_columns,
    {
        NodeBase {
            relative_start,
            content_length: length,
            syntactic_length: length,
            span_lines,
            span_columns,
        }
    }

    /// The relative start position.
    pub fn relative_start(&self) -> (r: RelativePosition)
        ensures
            r == self.spec_relative_start(),
    {
        self.relative_start
    }

    /// The content length.
    pub fn content_length(&self) -> (r: usize)
        ensures
            r == self.spec_content_length(),
    {
        self.content_length
    }

    /// The syntactic length.
    pub fn syntactic_length(&self) -> (r: usize)
        ensures
            r == self.spec_syntactic_length(),
    {
        self.syntactic_length
    }

    /// The length of the node's text in bytes; the same as the syntactic length.
    pub fn length(&self) -> (r: usize)
        ensures
            r == self.spec_syntactic_length(),
    {
        self.syntactic_length
    }

    /// Number of lines spanned.
    pub fn span_lines(&self) -> (r: usize)
        ensures
            r == self.spec_span_lines(),
    {
        self.span_lines
    }

    /// Number of columns on the last line.
    pub fn span_columns(&self) -> (r: usize)
        ensures
            r == self.spec_span_columns(),
    {
        self.span_columns
    }

    /// Byte delta from the previous node's end.
    pub fn delta_bytes(&self) -> (r: usize)
        ensures
            r == self.spec_relative_start().delta_bytes,
    {
        self.relative_start.delta_bytes
    }

    /// Line delta from the previous node's end.
    pub fn delta_lines(&self) -> (r: i32)
        ensures
            r == self.spec_relative_start().delta_lines,
    {
        self.relative_start.delta_lines
    }

    /// Column delta from the previous node's end.
    pub fn delta_columns(&self) -> (r: i32)
        ensures
            r == self.spec_relative_start().delta_columns,
    {
        self.relative_start.delta_columns
    }
}

/// The position reached from `p` by the relative move `rel`: lines and bytes
/// are added; on the same line columns are added, on a new line the column
/// delta is the absolute column.
pub open spec fn moved(rel: RelativePosition, p: Position) -> Position {
    Position {
        row: offset_coord(p.row, rel.delta_lines),
        column: if rel.delta_lines == 0 {
            offset_coord(p.column, rel.delta_columns)
        } else {
            rel.delta_columns as usize
        },
        byte: (p.byte + rel.delta_bytes) as usize,
    }
}

/// The move neither overflows nor leaves the 32-bit range it works in.
pub open spec fn moved_fits(rel: RelativePosition, p: Position) -> bool {
    &&& offset_fits(p.row, rel.delta_lines)
    &&& (rel.delta_lines == 0 ==> offset_fits(p.column, rel.delta_columns))
    &&& p.byte + rel.delta_bytes <= usize::MAX
}

/// Moves `p` by `rel`.
pub fn move_position(rel: RelativePosition, p: Position) -> (r: Position)
    requires
        moved_fits(rel, p),
    ensures
        r == moved(rel, p),
{
    Position {
        row: offset(p.row, rel.delta_lines),
        column: if rel.delta_lines == 0 {
            offset(p.column, rel.delta_columns)
        } else {
            rel.delta_columns as usize
        },
        byte: p.byte + rel.delta_bytes,
    }
}

/// Whether `move_position(rel, p)` stays in range.
pub fn moved_fits_exec(rel: RelativePosition, p: Position) -> (b: bool)
    ensures
        b == moved_fits(rel, p),
{
    offset_fits_exec(p.row, rel.delta_lines) && (rel.delta_lines != 0 || offset_fits_exec(p.column, rel.delta_columns))
        && p.byte <= usize::MAX - rel.delta_bytes
}

/// Start of a node whose base is `base`, given where the previous node ended.
/// On a new line the column delta is the absolute start column.
pub open spec fn spec_start_position(base: NodeBase, prev_end: Position) -> Position {
    moved(base.spec_relative_start(), prev_end)
}

/// End of a span that starts at `start`.
pub open spec fn spec_end_position(
    start: Position,
    span_lines: usize,
    span_columns: usize,
    length: usize,
) -> Position {
    Position {
        row: (start.row + span_lines) as usize,
        column: if span_lines == 0 {
            (start.column + span_columns) as usize
        } else {
            span_columns
        },
        byte: (start.byte + length) as usize,
    }
}

/// The start computation neither overflows nor leaves the 32-bit range it works in.
pub open spec fn start_position_fits(base: NodeBase, prev_end: Position) -> bool {
    moved_fits(base.spec_relative_start(), prev_end)
}

/// Whether the start of a node with `base` after `prev_end` can be computed.
pub fn start_position_fits_exec(base: &NodeBase, prev_end: Position) -> (b: bool)
    ensures
        b == start_position_fits(*base, prev_end),
{
    moved_fits_exec(base.relative_start(), prev_end)
}

/// Computes the start of a node from its base and the end of the previous node.
pub fn start_position(base: &NodeBase, prev_end: Position) -> (p: Position)
    requires
        start_position_fits(*base, prev_end),
    ensures
        p == spec_start_position(*base, prev_end),
{
    move_position(base.relative_start(), prev_end)
}

/// The end computation does not overflow.
pub open spec fn end_position_fits(
    start: Position,
    span_lines: usize,
    span_columns: usize,
    length: usize,
) -> bool {
    &&& start.row + span_lines <= usize::MAX
    &&& (span_lines == 0 ==> start.column + span_columns <= usize::MAX)
    &&& start.byte + length <= usize::MAX
}

/// Computes the absolute end of a span from its start, the lines and last-line
/// columns it spans, and its length in bytes.
pub fn compute_end_position(
    start: Position,
    span_lines: usize,
    span_columns: usize,
    length: usize,
) -> (end: Position)
    requires
        end_position_fits(start, span_lines, span_columns, length),
    ensures
        end == spec_end_position(start, span_lines, span_columns, length),
{
    Position {
        row: start.row + span_lines,
        column: if span_lines == 0 {
            start.column + span_columns
        } else {
            span_columns
        },
        byte: start.byte + length,
    }
}

/// Start of a node as the node interface computes it: only a positive line
/// delta makes the column delta absolute.
pub open spec fn spec_absolute_position(base: NodeBase, prev_end: Position) -> Position {
    let rel = base.spec_relative_start();
    Position {
        row: offset_coord(prev_end.row, rel.delta_lines),
        column: if rel.delta_lines > 0 {
            rel.delta_columns as usize
        } else {
            offset_coord(prev_end.column, rel.delta_columns)
        },
        byte: (prev_end.byte + rel.delta_bytes) as usize,
    }
}

/// The node-interface start computation stays in range.
pub open spec fn absolute_position_fits(base: NodeBase, prev_end: Position) -> bool {
    let rel = base.spec_relative_start();
    &&& offset_fits(prev_end.row, rel.delta_lines)
    &&& (rel.delta_lines <= 0 ==> offset_fits(prev_end.column, rel.delta_columns))
    &&& prev_end.byte + rel.delta_bytes <= usize::MAX
}

/// Whether `offset(base, delta)` stays in range.
fn offset_fits_exec(base: usize, delta: i32) -> (b: bool)
    ensures
        b == offset_fits(base, delta),
{
    let b: i64 = (#[verifier::truncate] (base as i32)) as i64;
    let sum: i64 = b + delta as i64;
    -0x8000_0000 <= sum && sum <= 0x7fff_ffff
}

/// Whether the node-interface start of a node with `base` after `prev_end`
/// can be computed (see `absolute_position_fits`).
pub fn absolute_position_fits_exec(base: &NodeBase, prev_end: Position) -> (b: bool)
    ensures
        b == absolute_position_fits(*base, prev_end),
{
    let rel = base.relative_start();
    offset_fits_exec(prev_end.row, rel.delta_lines)
        && (rel.delta_lines > 0 || offset_fits_exec(prev_end.column, rel.delta_columns))
        && prev_end.byte <= usize::MAX - rel.delta_bytes
}

/// Whether the end of a node with `base` starting at `start` can be computed.
pub fn absolute_end_fits(base: &NodeBase, start: Position) -> (b: bool)
    ensures
        b == end_position_fits(
            start,
            base.spec_span_lines(),
            base.spec_span_columns(),
            base.spec_syntactic_length(),
        ),
{
    start.row <= usize::MAX - base.span_lines()
        && (base.span_lines() != 0 || start.column <= usize::MAX - base.span_columns())
        && start.byte <= usize::MAX - base.length()
}

/// Computes the absolute start of a node from its base and the end of the previous node.
pub fn absolute_position(base: &NodeBase, prev_end: Position) -> (p: Position)
    requires
        absolute_position_fits(*base, prev_end),
    ensures
        p == spec_absolute_position(*base, prev_end),
{
    let rel = base.relative_start();
    Position {
        row: offset(prev_end.row, rel.delta_lines),
        column: if rel.delta_lines > 0 {
            rel.delta_columns as usize
        } else {
            offset(prev_end.column, rel.delta_columns)
        },
        byte: prev_end.byte + rel.delta_bytes,
    }
}

/// Computes the absolute end of a node from its base and its absolute start.
pub fn absolute_end(base: &NodeBase, start: Position) -> (p: Position)
    requires
        end_position_fits(
            start,
            base.spec_span_lines(),
            base.spec_span_columns(),
            base.spec_syntactic_length(),
        ),
    ensures
        p == spec_end_position(
            start,
            base.spec_span_lines(),
            base.spec_span_columns(),
            base.spec_syntactic_length(),
        ),
{
    compute_end_position(start, base.span_lines(), base.span_columns(), base.length())
}

/// High-level semantic categories shared by the IRs of all languages.
#[derive(Debug, Clone, Copy, PartialEq, Eq, Hash, Structural)]
pub enum SemanticCategory {
    /// Literal values (numbers, strings, booleans, nil).
    Literal,
    /// Variable references.
    Variable,
    /// Name or variable binding.
    Binding,
    /// Function or method invocation.
    Invocation,
    /// Pattern matching.
    Match,
    /// Collections (lists, sets, maps, tuples).
    Collection,
    /// Conditional expressions.
    Conditional,
    /// Block or sequential composition.
    Block,
    /// Construct specific to one language.
    LanguageSpecific,
    /// Unknown or error node.
    Unknown,
}

/// The display name of a semantic category.
pub open spec fn category_name(c: SemanticCategory) -> Seq<char> {
    match c {
        SemanticCategory::Literal => "Literal"@,
        SemanticCategory::Variable => "Variable"@,
        SemanticCategory::Binding => "Binding"@,
        SemanticCategory::Invocation => "Invocation"@,
        SemanticCategory::Match => "Match"@,
        SemanticCategory::Collection => "Collection"@,
        SemanticCategory::Conditional => "Conditional"@,
        SemanticCategory::Block => "Block"@,
        SemanticCategory::LanguageSpecific => "LanguageSpecific"@,
        SemanticCategory::Unknown => "Unknown"@,
    }
}

impl SemanticCategory {
    /// The category's display name, such as `Literal`.
    pub fn to_string(&self) -> (s: String)
        ensures
            s@ == category_name(*self),
    {
        let name: &str = match self {
            SemanticCategory::Literal => "Literal",
            SemanticCategory::Variable => "Variable",
            SemanticCategory::Binding => "Binding",
            SemanticCategory::Invocation => "Invocation",
            SemanticCategory::Match => "Match",
            SemanticCategory::Collection => "Collection",
            SemanticCategory::Conditional => "Conditional",
            SemanticCategory::Block => "Block",
            SemanticCategory::LanguageSpecific => "LanguageSpecific",
            SemanticCategory::Unknown => "Unknown",
        };
        String::from_str(name)
    }
}

/// A value stored in node metadata.
#[derive(Debug, Clone, PartialEq)]
pub enum MetadataValue {
    Bool(bool),
    I32(i32),
    I64(i64),
    U32(u32),
    U64(u64),
    Usize(usize),
    Str(String),
}

/// The type of a metadata value, used to ask for a value of a given type.
#[derive(Debug, Clone, Copy, PartialEq, Eq, Structural)]
pub enum MetadataKind {
    Bool,
    I32,
    I64,
    U32,
    U64,
    Usize,
    Str,
}

/// The type of a metadata value.
pub open spec fn spec_kind_of(v: MetadataValue) -> MetadataKind {
    match v {
        MetadataValue::Bool(_) => MetadataKind::Bool,
        MetadataValue::I32(_) => MetadataKind::I32,
        MetadataValue::I64(_) => MetadataKind::I64,
        MetadataValue::U32(_) => MetadataKind::U32,
        MetadataValue::U64(_) => MetadataKind::U64,
        MetadataValue::Usize(_) => MetadataKind::Usize,
        MetadataValue::Str(_) => MetadataKind::Str,
    }
}

impl MetadataValue {
    /// The type of this value.
    pub fn kind(&self) -> (k: MetadataKind)
        ensures
            k == spec_kind_of(*self),
    {
        match self {
            MetadataValue::Bool(_) => MetadataKind::Bool,
            MetadataValue::I32(_) => MetadataKind::I32,
            MetadataValue::I64(_) => MetadataKind::I64,
            MetadataValue::U32(_) => MetadataKind::U32,
            MetadataValue::U64(_) => MetadataKind::U64,
            MetadataValue::Usize(_) => MetadataKind::Usize,
            MetadataValue::Str(_) => MetadataKind::Str,
        }
    }
}

/// Extensible metadata attached to nodes: a map from keys to typed values.
#[derive(Debug)]
pub struct Metadata {
    entries: Vec<(String, MetadataValue)>,
}

impl View for Metadata {
    type V = Map<Seq<char>, MetadataValue>;

    closed spec fn view(&self) -> Map<Seq<char>, MetadataValue> {
        Map::new(
            |k: Seq<char>| exists|i: int| 0 <= i < self.entries@.len() && #[trigger] self.entries@[i].0@ == k,
            |k: Seq<char>| {
                let i = choose|i: int| 0 <= i < self.entries@.len() && #[trigger] self.entries@[i].0@ == k;
                self.entries@[i].1
            },
        )
    }
}

impl Metadata {
    /// No key occurs twice among the entries; every metadata value keeps this.
    #[verifier::type_invariant]
    pub closed spec fn wf(&self) -> bool {
        forall|i: int, j: int|
            0 <= i < j < self.entries@.len() ==> #[trigger] self.entries@[i].0@ != #[trigger] self.entries@[j].0@
    }

    /// Number of entries.
    pub fn len(&self) -> (n: usize)
        ensures
            self.wf(),
            self@.dom().finite(),
            n == self@.dom().len(),
    {
        proof {
            use_type_invariant(self);
            self.lemma_len();
        }
        self.entries.len()
    }

    proof fn lemma_len(&self)
        requires
            self.wf(),
        ensures
            self@.dom().finite(),
            self@.dom().len() == self.entries@.len(),
        decreases self.entries@.len(),
    {
        let keys = self.entries@.map_values(|e: (String, MetadataValue)| e.0@);
        assert forall|k: Seq<char>| self@.dom().contains(k) <==> keys.to_set().contains(k) by {
            if self@.dom().contains(k) {
                let i = choose|i: int| 0 <= i < self.entries@.len() && #[trigger] self.entries@[i].0@ == k;
                assert(keys[i] == k);
            }
            if keys.to_set().contains(k) {
                let i = choose|i: int| 0 <= i < keys.len() && keys[i] == k;
                assert(self.entries@[i].0@ == k);
            }
        }
        assert(self@.dom() =~= keys.to_set());
        assert forall|i: int, j: int| 0 <= i < j < keys.len() implies keys[i] != keys[j] by {
            assert(self.entries@[i].0@ != self.entries@[j].0@);
        }
        keys.unique_seq_to_set();
    }

    /// Index of the entry with key `key`, if any.
    fn find(&self, key: &String) -> (r: Option<usize>)
        requires
            self.wf(),
        ensures
            match r {
                Some(i) => i < self.entries@.len() && self.entries@[i as int].0@ == key@,
                None => !self@.dom().contains(key@),
            },
    {
        let mut i: usize = 0;
        while i < self.entries.len()
            invariant
                i <= self.entries@.len(),
                forall|j: int| 0 <= j < i ==> #[trigger] self.entries@[j].0@ != key@,
            decreases self.entries@.len() - i,
        {
            if self.entries[i].0 == *key {
                return Some(i);
            }
            i += 1;
        }
        None
    }

    proof fn lemma_index(&self, i: int)
        requires
            self.wf(),
            0 <= i < self.entries@.len(),
        ensures
            self@.dom().contains(self.entries@[i].0@),
            self@[self.entries@[i].0@] == self.entries@[i].1,
    {
        let k = self.entries@[i].0@;
        assert(self@.dom().contains(k));
        let j = choose|j: int| 0 <= j < self.entries@.len() && #[trigger] self.entries@[j].0@ == k;
        if j != i {
            if j < i {
                assert(self.entries@[j].0@ != self.entries@[i].0@);
            } else {
                assert(self.entries@[i].0@ != self.entries@[j].0@);
            }
        }
    }
}

/// Creates an empty metadata map.
pub fn empty_metadata() -> (m: Metadata)
    ensures
        m.wf(),
        m@ == Map::<Seq<char>, MetadataValue>::empty(),
{
    let m = Metadata { entries: Vec::new() };
    assert(m@ =~= Map::<Seq<char>, MetadataValue>::empty());
    m
}

/// Creates metadata holding a single entry.
pub fn metadata_with(key: &str, value: MetadataValue) -> (m: Metadata)
    ensures
        m.wf(),
        m@ == Map::<Seq<char>, MetadataValue>::empty().insert(key@, value),
{
    let mut m = empty_metadata();
    insert_metadata(&mut m, key, value);
    m
}

/// The value stored under `key` in `m`, provided it has type `kind`.
pub open spec fn metadata_lookup(m: Map<Seq<char>, MetadataValue>, key: Seq<char>, kind: MetadataKind) -> Option<MetadataValue> {
    if m.dom().contains(key) && spec_kind_of(m[key]) == kind {
        Some(m[key])
    } else {
        None
    }
}

/// The value stored under `key`, provided it has type `kind`.
pub fn get_metadata<'a>(metadata: &'a Metadata, key: &str, kind: MetadataKind) -> (r: Option<&'a MetadataValue>)
    ensures
        r == (if metadata@.dom().contains(key@) && spec_kind_of(metadata@[key@]) == kind {
            Some(&metadata@[key@])
        } else {
            None
        }),
        match r {
            Some(v) => metadata_lookup(metadata@, key@, kind) == Some(*v),
            None => metadata_lookup(metadata@, key@, kind) is None,
        },
{
    proof { use_type_invariant(metadata); }
    let k = String::from_str(key);
    match metadata.find(&k) {
        Some(i) => {
            proof { metadata.lemma_index(i as int); }
            let v = &metadata.entries[i].1;
            if v.kind() == kind {
                Some(v)
            } else {
                None
            }
        },
        None => None,
    }
}

/// Stores `value` under `key`, replacing any earlier value.
pub fn insert_metadata(metadata: &mut Metadata, key: &str, value: MetadataValue)
    ensures
        final(metadata).wf(),
        final(metadata)@ == old(metadata)@.insert(key@, value),
{
    proof { use_type_invariant(&*metadata); }
    let k = String::from_str(key);
    let ghost old_m = *metadata;
    let found = metadata.find(&k);
    let mut e: Vec<(String, MetadataValue)> = Vec::new();
    std::mem::swap(&mut e, &mut metadata.entries);
    assert(e@ == old_m.entries@);
    match found {
        Some(i) => {
            e.set(i, (k, value));
            let ghost new_m = Metadata { entries: e };
            proof {
                let target = old_m@.insert(key@, value);
                assert(new_m.entries@ == old_m.entries@.update(i as int, (new_m.entries@[i as int].0, value)));
                assert forall|x: Seq<char>| new_m@.dom().contains(x) == target.dom().contains(x) by {
                    lemma_insert_at(old_m, new_m, i as int, key@, value, x);
                }
                assert forall|x: Seq<char>| new_m@.dom().contains(x) implies new_m@[x] == target[x] by {
                    lemma_insert_at(old_m, new_m, i as int, key@, value, x);
                }
                lemma_insert_at(old_m, new_m, i as int, key@, value, key@);
                assert(new_m@ =~= target);
            }
            *metadata = Metadata { entries: e };
        },
        None => {
            e.push((k, value));
            let ghost new_m = Metadata { entries: e };
            assert(new_m.entries@.subrange(0, old_m.entries@.len() as int) =~= old_m.entries@);
            proof {
                lemma_push(old_m, new_m, key@, value, key@);
            }
            assert(new_m@ =~= old_m@.insert(key@, value)) by {
                assert forall|x: Seq<char>| #![auto] final_view_agrees(old_m, new_m, key@, value, x) by {
                    lemma_push(old_m, new_m, key@, value, x);
                }
            }
            *metadata = Metadata { entries: e };
        },
    }
}

spec fn final_view_agrees(
    old_m: Metadata,
    new_m: Metadata,
    key: Seq<char>,
    value: MetadataValue,
    x: Seq<char>,
) -> bool {
    &&& new_m@.dom().contains(x) == old_m@.insert(key, value).dom().contains(x)
    &&& new_m@.dom().contains(x) ==> new_m@[x] == old_m@.insert(key, value)[x]
}

proof fn lemma_insert_at(
    old_m: Metadata,
    new_m: Metadata,
    i: int,
    key: Seq<char>,
    value: MetadataValue,
    x: Seq<char>,
)
    requires
        old_m.wf(),
        0 <= i < old_m.entries@.len(),
        old_m.entries@[i].0@ == key,
        new_m.entries@ == old_m.entries@.update(i, (new_m.entries@[i].0, value)),
        new_m.entries@[i].0@ == key,
    ensures
        new_m.wf(),
        final_view_agrees(old_m, new_m, key, value, x),
{
    assert(new_m.wf());
    if x == key {
        new_m.lemma_index(i);
    } else if old_m@.dom().contains(x) {
        let j = choose|j: int| 0 <= j < old_m.entries@.len() && #[trigger] old_m.entries@[j].0@ == x;
        old_m.lemma_index(j);
        new_m.lemma_index(j);
    } else {
        if new_m@.dom().contains(x) {
            let j = choose|j: int| 0 <= j < new_m.entries@.len() && #[trigger] new_m.entries@[j].0@ == x;
            assert(old_m.entries@[j].0@ == x);
        }
    }
}

proof fn lemma_push(
    old_m: Metadata,
    new_m: Metadata,
    key: Seq<char>,
    value: MetadataValue,
    x: Seq<char>,
)
    requires
        old_m.wf(),
        !old_m@.dom().contains(key),
        new_m.entries@.len() == old_m.entries@.len() + 1,
        new_m.entries@.subrange(0, old_m.entries@.len() as int) == old_m.entries@,
        new_m.entries@.last().0@ == key,
        new_m.entries@.last().1 == value,
    ensures
        new_m.wf(),
        final_view_agrees(old_m, new_m, key, value, x),
{
    let n = old_m.entries@.len() as int;
    assert forall|j: int| 0 <= j < n implies new_m.entries@[j] == old_m.entries@[j] by {
        assert(new_m.entries@.subrange(0, n)[j] == new_m.entries@[j]);
    }
    assert forall|j: int| 0 <= j < n implies #[trigger] old_m.entries@[j].0@ != key by {
        if old_m.entries@[j].0@ == key {
            assert(old_m@.dom().contains(key));
        }
    }
    assert(new_m.wf());
    if x == key {
        new_m.lemma_index(n);
    } else if old_m@.dom().contains(x) {
        let j = choose|j: int| 0 <= j < old_m.entries@.len() && #[trigger] old_m.entries@[j].0@ == x;
        old_m.lemma_index(j);
        new_m.lemma_index(j);
    } else {
        if new_m@.dom().contains(x) {
            let j = choose|j: int| 0 <= j < new_m.entries@.len() && #[trigger] new_m.entries@[j].0@ == x;
            if j < n {
                assert(old_m.entries@[j].0@ == x);
            }
        }
    }
}

} // verus!
