//! The streaming tag reader and the parser state machine.

use vstd::prelude::*;
use vstd::slice::slice_subrange;
use vstd::slice::slice_to_vec;

use crate::Error;
use crate::report::Collection;
use crate::report::CollectionModel;
use crate::report::Report;
use crate::report::ReportType;
use crate::report::collection_model;
use crate::report::collections_model;
use crate::report::lemma_collections_model;
use crate::report::spec_report_from_states;

verus! {

/// Mask selecting the two length bits of a short-item header byte.
pub const LEN_MASK: u8 = 0x3;

/// Mask selecting the six tag bits of a short-item header byte.
pub const TAG_MASK: u8 = 0xFC;

pub const TAG_INPUT: u8 = 0x80;
pub const TAG_OUTPUT: u8 = 0x90;
pub const TAG_COLLECTION: u8 = 0xA0;
pub const TAG_FEATURE: u8 = 0xB0;
pub const TAG_COLLECTION_END: u8 = 0xC0;

pub const TAG_USAGE_PAGE: u8 = 0x04;
pub const TAG_LOGICAL_MINIMUM: u8 = 0x14;
pub const TAG_LOGICAL_MAXIMUM: u8 = 0x24;
pub const TAG_PHYSICAL_MINIMUM: u8 = 0x34;
pub const TAG_PHYSICAL_MAXIMUM: u8 = 0x44;
pub const TAG_REPORT_SIZE: u8 = 0x74;
pub const TAG_REPORT_ID: u8 = 0x84;
pub const TAG_REPORT_COUNT: u8 = 0x94;
pub const TAG_PUSH: u8 = 0xA4;
pub const TAG_POP: u8 = 0xB4;

pub const TAG_USAGE: u8 = 0x08;
pub const TAG_USAGE_MINIMUM: u8 = 0x18;
pub const TAG_USAGE_MAXIMUM: u8 = 0x28;

/// A header byte whose six tag bits are all set announces a long item.
pub const TAG_EXTENDED: u8 = 0xFC;

/// How one item was encoded on the wire, with its tag byte. Short items pack
/// tag and payload length into one byte; long items carry explicit length and
/// tag bytes.
#[derive(Debug, Clone, Copy, PartialEq, Eq, Structural)]
pub enum Tag {
    Long(u8),
    Short(u8),
}

/// A payload of exactly 1, 2 or 4 bytes read as an unsigned little-endian
/// integer, zero-extended to 32 bits; any other length decodes to nothing.
pub open spec fn spec_decode_u32(data: Seq<u8>) -> Option<u32> {
    if data.len() == 1 {
        Some(data[0] as u32)
    } else if data.len() == 2 {
        Some((data[0] + data[1] * 0x100) as u32)
    } else if data.len() == 4 {
        Some((data[0] + data[1] * 0x100 + data[2] * 0x10000 + data[3] * 0x1000000) as u32)
    } else {
        None
    }
}

/// A payload of exactly 1, 2 or 4 bytes read as a signed little-endian
/// integer of that width, sign-extended to 32 bits; any other length decodes
/// to nothing.
pub open spec fn spec_decode_i32(data: Seq<u8>) -> Option<i32> {
    if data.len() == 1 {
        let v = data[0] as int;
        Some((if v >= 0x80 { v - 0x100 } else { v }) as i32)
    } else if data.len() == 2 {
        let v = data[0] + data[1] * 0x100;
        Some((if v >= 0x8000 { v - 0x10000 } else { v }) as i32)
    } else if data.len() == 4 {
        let v = data[0] + data[1] * 0x100 + data[2] * 0x10000 + data[3] * 0x1000000;
        Some((if v >= 0x80000000 { v - 0x100000000 } else { v }) as i32)
    } else {
        None
    }
}

/// Decode an item payload as an unsigned 32-bit value.
pub fn decode_u32(data: &Vec<u8>) -> (r: Option<u32>)
    ensures
        r == spec_decode_u32(data@),
{
    if data.len() == 1 {
        Some(data[0] as u32)
    } else if data.len() == 2 {
        Some(data[0] as u32 + data[1] as u32 * 0x100)
    } else if data.len() == 4 {
        Some(
            data[0] as u32 + data[1] as u32 * 0x100 + data[2] as u32 * 0x10000 + data[3] as u32
                * 0x1000000,
        )
    } else {
        None
    }
}

/// Decode an item payload as a signed 32-bit value.
pub fn decode_i32(data: &Vec<u8>) -> (r: Option<i32>)
    ensures
        r == spec_decode_i32(data@),
{
    if data.len() == 1 {
        let v: i32 = data[0] as i32;
        Some(if v >= 0x80 { v - 0x100 } else { v })
    } else if data.len() == 2 {
        let v: i32 = data[0] as i32 + data[1] as i32 * 0x100;
        Some(if v >= 0x8000 { v - 0x10000 } else { v })
    } else if data.len() == 4 {
        let v: i64 = data[0] as i64 + data[1] as i64 * 0x100 + data[2] as i64 * 0x10000
            + data[3] as i64 * 0x1000000;
        let w: i64 = if v >= 0x80000000 { v - 0x100000000 } else { v };
        Some(w as i32)
    } else {
        None
    }
}

/// What reading one item at position `i` of the stream yields: the item's tag
/// classification, its payload bytes, and the position of the next item; or
/// the truncation error if the stream ends inside the item.
pub open spec fn spec_take_item(b: Seq<u8>, i: int) -> Result<(Tag, Seq<u8>, int), Error>
    recommends
        0 <= i < b.len(),
{
    let byte = b[i];
    if byte & TAG_MASK == TAG_EXTENDED {
        if b.len() < i + 3 {
            Err(Error::UnexpectedEndOfReportDescriptor)
        } else {
            let n = b[i + 1] as int;
            if b.len() < i + 3 + n {
                Err(Error::UnexpectedEndOfReportDescriptor)
            } else {
                Ok((Tag::Long(b[i + 2]), b.subrange(i + 3, i + 3 + n), i + 3 + n))
            }
        }
    } else {
        let code = byte & LEN_MASK;
        let n: int = if code == 3 { 4 } else { code as int };
        if b.len() < i + 1 + n {
            Err(Error::UnexpectedEndOfReportDescriptor)
        } else {
            Ok((Tag::Short(byte & TAG_MASK), b.subrange(i + 1, i + 1 + n), i + 1 + n))
        }
    }
}

/// Reading an item never stands still: on success the cursor advances.
pub proof fn lemma_take_item_advances(b: Seq<u8>, i: int)
    requires
        0 <= i < b.len(),
    ensures
        spec_take_item(b, i) matches Ok((tag, data, j)) ==> i < j <= b.len(),
{
}

/// The only way reading an item fails is the stream ending inside it, and
/// such a truncated item ends the whole parse with the truncation error —
/// a declared payload is never shortened or defaulted.
pub proof fn lemma_truncated_item_fails(st: StateModel, b: Seq<u8>, i: int)
    requires
        0 <= i < b.len(),
        spec_take_item(b, i) is Err,
    ensures
        spec_take_item(b, i) == Err::<(Tag, Seq<u8>, int), Error>(
            Error::UnexpectedEndOfReportDescriptor,
        ),
        spec_run(st, b, i) == Err::<StateModel, Error>(Error::UnexpectedEndOfReportDescriptor),
{
}

/// Read the item that starts at position `pos`, returning its tag, its
/// payload and the position just past it.
fn take_item(data: &[u8], pos: usize) -> (r: Result<(Tag, Vec<u8>, usize), Error>)
    requires
        pos < data@.len(),
    ensures
        match r {
            Ok((tag, payload, next)) => spec_take_item(data@, pos as int) == Ok::<_, Error>(
                (tag, payload@, next as int),
            ),
            Err(e) => spec_take_item(data@, pos as int) == Err::<(Tag, Seq<u8>, int), _>(e),
        },
{
    let byte = data[pos];
    let remaining = data.len() - pos;
    if byte & TAG_MASK == TAG_EXTENDED {
        if remaining < 3 {
            return Err(Error::UnexpectedEndOfReportDescriptor);
        }
        let n = data[pos + 1] as usize;
        let tag = data[pos + 2];
        if remaining - 3 < n {
            return Err(Error::UnexpectedEndOfReportDescriptor);
        }
        let payload = slice_to_vec(slice_subrange(data, pos + 3, pos + 3 + n));
        Ok((Tag::Long(tag), payload, pos + 3 + n))
    } else {
        let code = byte & LEN_MASK;
        proof {
            assert(byte & LEN_MASK < 4) by (bit_vector);
        }
        let n: usize = if code == 3 { 4 } else { code as usize };
        if remaining - 1 < n {
            return Err(Error::UnexpectedEndOfReportDescriptor);
        }
        let payload = slice_to_vec(slice_subrange(data, pos + 1, pos + 1 + n));
        Ok((Tag::Short(byte & TAG_MASK), payload, pos + 1 + n))
    }
}

/// Parser-scoped parameters that persist across items until overwritten, or
/// saved and restored through `Push`/`Pop`. A field is genuinely unset until
/// the corresponding tag is seen; a later tag of the same kind overwrites.
#[derive(Debug, Clone, Copy, PartialEq, Eq, Structural)]
pub struct ParserGlobalState {
    pub usage_page: Option<u32>,
    pub report_size: Option<u32>,
    pub report_id: Option<u32>,
    pub report_count: Option<u32>,
    pub logical_minimum: Option<i32>,
    pub logical_maximum: Option<i32>,
    pub physical_minimum: Option<i32>,
    pub physical_maximum: Option<i32>,
}

impl ParserGlobalState {
    /// The state before any tag has been seen: every field unset.
    pub open spec fn spec_empty() -> ParserGlobalState {
        ParserGlobalState {
            usage_page: None,
            report_size: None,
            report_id: None,
            report_count: None,
            logical_minimum: None,
            logical_maximum: None,
            physical_minimum: None,
            physical_maximum: None,
        }
    }

    pub fn empty() -> (r: ParserGlobalState)
        ensures
            r == ParserGlobalState::spec_empty(),
    {
        ParserGlobalState {
            usage_page: None,
            report_size: None,
            report_id: None,
            report_count: None,
            logical_minimum: None,
            logical_maximum: None,
            physical_minimum: None,
            physical_maximum: None,
        }
    }
}

/// Collection-scoped parameters: the usage and usage range a child collection
/// inherits from its parent when opened, and which each emitted report
/// records. Deliberately *not* cleared after a main item, so consecutive
/// reports may share a usage; this diverges from the full HID specification
/// and is kept on purpose.
#[derive(Debug, Clone, Copy, PartialEq, Eq, Structural)]
pub struct ParserLocalState {
    pub usage: Option<u32>,
    pub usage_minimum: Option<u32>,
    pub usage_maximum: Option<u32>,
}

impl ParserLocalState {
    /// The local state before any tag has been seen: every field unset.
    pub open spec fn spec_empty() -> ParserLocalState {
        ParserLocalState { usage: None, usage_minimum: None, usage_maximum: None }
    }

    pub fn empty() -> (r: ParserLocalState)
        ensures
            r == ParserLocalState::spec_empty(),
    {
        ParserLocalState { usage: None, usage_minimum: None, usage_maximum: None }
    }
}

/// The collection currently being built. Completed reports and sealed child
/// collections are already in output form; the collection-type value and the
/// inherited local state are kept only while the collection is open and are
/// dropped when it is sealed.
#[derive(Debug)]
pub struct ParserCollection {
    pub c_type: Option<u32>,
    pub reports: Vec<Report>,
    pub collections: Vec<Collection>,
    pub state: ParserLocalState,
}

/// The mathematical shape of a [`ParserCollection`].
#[verifier::ext_equal]
pub struct WorkingModel {
    pub c_type: Option<u32>,
    pub reports: Seq<Report>,
    pub collections: Seq<CollectionModel>,
    pub state: ParserLocalState,
}

impl View for ParserCollection {
    type V = WorkingModel;

    open spec fn view(&self) -> WorkingModel {
        WorkingModel {
            c_type: self.c_type,
            reports: self.reports@,
            collections: collections_model(self.collections, self.collections@.len() as int),
            state: self.state,
        }
    }
}

impl WorkingModel {
    /// A freshly opened collection: the given type value, the local state
    /// inherited from the parent, and nothing inside yet.
    pub open spec fn spec_open(c_type: u32, state: ParserLocalState) -> WorkingModel {
        WorkingModel { c_type: Some(c_type), reports: Seq::empty(), collections: Seq::empty(), state }
    }

    /// The outermost scope before any tag: no type value, empty local state.
    pub open spec fn spec_empty() -> WorkingModel {
        WorkingModel {
            c_type: None,
            reports: Seq::empty(),
            collections: Seq::empty(),
            state: ParserLocalState::spec_empty(),
        }
    }

    /// Seal an open collection into output form, dropping its type value and
    /// local state.
    pub open spec fn seal(self) -> CollectionModel {
        CollectionModel { reports: self.reports, nested: self.collections }
    }
}

/// The whole state of the parser between two items: the current global state
/// with its push/pop stack, and the collection being built with the stack of
/// its open ancestors.
#[verifier::ext_equal]
pub struct StateModel {
    pub global: ParserGlobalState,
    pub stack_global: Seq<ParserGlobalState>,
    pub collection: WorkingModel,
    pub stack_collection: Seq<WorkingModel>,
}

impl StateModel {
    /// The state a parse starts from: everything unset, both stacks empty.
    pub open spec fn spec_init() -> StateModel {
        StateModel {
            global: ParserGlobalState::spec_empty(),
            stack_global: Seq::empty(),
            collection: WorkingModel::spec_empty(),
            stack_collection: Seq::empty(),
        }
    }
}

/// How one classified item transforms the parser state: the dispatch table of
/// the state machine. Long items and unrecognized short tags change nothing;
/// every other tag either overwrites one field, moves state between the
/// current records and their stacks, or emits a report.
pub open spec fn spec_step(st: StateModel, tag: Tag, data: Seq<u8>) -> Result<StateModel, Error> {
    match tag {
        Tag::Long(_) => Ok(st),
        Tag::Short(t) => {
            if t == TAG_USAGE_PAGE {
                match spec_decode_u32(data) {
                    Some(v) => Ok(
                        StateModel {
                            global: ParserGlobalState { usage_page: Some(v), ..st.global },
                            ..st
                        },
                    ),
                    None => Err(Error::BadUsagePage),
                }
            } else if t == TAG_USAGE {
                match spec_decode_u32(data) {
                    Some(v) => Ok(
                        StateModel {
                            collection: WorkingModel {
                                state: ParserLocalState { usage: Some(v), ..st.collection.state },
                                ..st.collection
                            },
                            ..st
                        },
                    ),
                    None => Err(Error::BadUsage),
                }
            } else if t == TAG_USAGE_MINIMUM {
                match spec_decode_u32(data) {
                    Some(v) => Ok(
                        StateModel {
                            collection: WorkingModel {
                                state: ParserLocalState {
                                    usage_minimum: Some(v),
                                    ..st.collection.state
                                },
                                ..st.collection
                            },
                            ..st
                        },
                    ),
                    None => Err(Error::BadUsageMinimum),
                }
            } else if t == TAG_USAGE_MAXIMUM {
                match spec_decode_u32(data) {
                    Some(v) => Ok(
                        StateModel {
                            collection: WorkingModel {
                                state: ParserLocalState {
                                    usage_maximum: Some(v),
                                    ..st.collection.state
                                },
                                ..st.collection
                            },
                            ..st
                        },
                    ),
                    None => Err(Error::BadUsageMaximum),
                }
            } else if t == TAG_COLLECTION {
                match spec_decode_u32(data) {
                    Some(v) => Ok(
                        StateModel {
                            collection: WorkingModel::spec_open(v, st.collection.state),
                            stack_collection: st.stack_collection.push(st.collection),
                            ..st
                        },
                    ),
                    None => Err(Error::BadCollection),
                }
            } else if t == TAG_COLLECTION_END {
                if st.stack_collection.len() == 0 {
                    Err(Error::UnexpectedEndCollection)
                } else {
                    let parent = st.stack_collection.last();
                    Ok(
                        StateModel {
                            collection: WorkingModel {
                                collections: parent.collections.push(st.collection.seal()),
                                ..parent
                            },
                            stack_collection: st.stack_collection.drop_last(),
                            ..st
                        },
                    )
                }
            } else if t == TAG_REPORT_SIZE {
                match spec_decode_u32(data) {
                    Some(v) => Ok(
                        StateModel {
                            global: ParserGlobalState { report_size: Some(v), ..st.global },
                            ..st
                        },
                    ),
                    None => Err(Error::BadReportSize),
                }
            } else if t == TAG_REPORT_ID {
                match spec_decode_u32(data) {
                    Some(v) => Ok(
                        StateModel {
                            global: ParserGlobalState { report_id: Some(v), ..st.global },
                            ..st
                        },
                    ),
                    None => Err(Error::BadReportId),
                }
            } else if t == TAG_REPORT_COUNT {
                match spec_decode_u32(data) {
                    Some(v) => Ok(
                        StateModel {
                            global: ParserGlobalState { report_count: Some(v), ..st.global },
                            ..st
                        },
                    ),
                    None => Err(Error::BadReportCount),
                }
            } else if t == TAG_LOGICAL_MINIMUM {
                match spec_decode_i32(data) {
                    Some(v) => Ok(
                        StateModel {
                            global: ParserGlobalState { logical_minimum: Some(v), ..st.global },
                            ..st
                        },
                    ),
                    None => Err(Error::BadLogicalMinimum),
                }
            } else if t == TAG_LOGICAL_MAXIMUM {
                match spec_decode_i32(data) {
                    Some(v) => Ok(
                        StateModel {
                            global: ParserGlobalState { logical_maximum: Some(v), ..st.global },
                            ..st
                        },
                    ),
                    None => Err(Error::BadLogicalMaximum),
                }
            } else if t == TAG_PHYSICAL_MINIMUM {
                match spec_decode_i32(data) {
                    Some(v) => Ok(
                        StateModel {
                            global: ParserGlobalState { physical_minimum: Some(v), ..st.global },
                            ..st
                        },
                    ),
                    None => Err(Error::BadPhysicalMinimum),
                }
            } else if t == TAG_PHYSICAL_MAXIMUM {
                match spec_decode_i32(data) {
                    Some(v) => Ok(
                        StateModel {
                            global: ParserGlobalState { physical_maximum: Some(v), ..st.global },
                            ..st
                        },
                    ),
                    None => Err(Error::BadPhysicalMaximum),
                }
            } else if t == TAG_INPUT {
                spec_emit(st, ReportType::Input)
            } else if t == TAG_OUTPUT {
                spec_emit(st, ReportType::Output)
            } else if t == TAG_FEATURE {
                spec_emit(st, ReportType::Feature)
            } else if t == TAG_PUSH {
                Ok(StateModel { stack_global: st.stack_global.push(st.global), ..st })
            } else if t == TAG_POP {
                if st.stack_global.len() == 0 {
                    Err(Error::PopWithoutPush)
                } else {
                    Ok(
                        StateModel {
                            global: st.stack_global.last(),
                            stack_global: st.stack_global.drop_last(),
                            ..st
                        },
                    )
                }
            } else {
                Ok(st)
            }
        },
    }
}

/// What a main item does: build a report from the current global and local
/// state and append it to the current collection, or fail on the first
/// required-but-unset field.
pub open spec fn spec_emit(st: StateModel, r_type: ReportType) -> Result<StateModel, Error> {
    match spec_report_from_states(r_type, st.global, st.collection.state) {
        Ok(report) => Ok(
            StateModel {
                collection: WorkingModel {
                    reports: st.collection.reports.push(report),
                    ..st.collection
                },
                ..st
            },
        ),
        Err(e) => Err(e),
    }
}

/// Fold the items of `b`, from position `i` on, into the state: the whole
/// state machine run. Stops at the first error.
pub open spec fn spec_run(st: StateModel, b: Seq<u8>, i: int) -> Result<StateModel, Error>
    decreases b.len() - i,
{
    if i < 0 || i >= b.len() {
        Ok(st)
    } else {
        match spec_take_item(b, i) {
            Err(e) => Err(e),
            Ok((tag, data, j)) => match spec_step(st, tag, data) {
                Err(e) => Err(e),
                Ok(st2) => spec_run(st2, b, j),
            },
        }
    }
}

/// End-of-stream validation: every collection closed and every push popped,
/// then the outermost collection sealed into output form.
pub open spec fn spec_finish(st: StateModel) -> Result<CollectionModel, Error> {
    if st.stack_collection.len() != 0 {
        Err(Error::MissingEndCollection)
    } else if st.stack_global.len() != 0 {
        Err(Error::MissingPop)
    } else {
        Ok(st.collection.seal())
    }
}

/// A whole parse starting from the given state: run the machine over all of
/// `b`, then validate and seal.
pub open spec fn spec_parse_from(st: StateModel, b: Seq<u8>) -> Result<CollectionModel, Error> {
    match spec_run(st, b, 0) {
        Err(e) => Err(e),
        Ok(st2) => spec_finish(st2),
    }
}

/// The meaning of one whole parse: run the machine from the initial state
/// over all of `b`, then validate and seal.
pub open spec fn spec_parse(b: Seq<u8>) -> Result<CollectionModel, Error> {
    spec_parse_from(StateModel::spec_init(), b)
}

/// Determinism: what a parse yields is a function of the bytes alone, so two
/// parses of equal byte sequences yield structurally equal outcomes. There is
/// no hidden nondeterminism; every sequence in the output preserves order.
pub proof fn lemma_parse_deterministic(b1: Seq<u8>, b2: Seq<u8>)
    requires
        b1 == b2,
    ensures
        spec_parse(b1) == spec_parse(b2),
{
}

/// How many items with the short tag `t` the stream holds from position `i`
/// up to its end or its first malformed item.
pub open spec fn spec_count_tag(b: Seq<u8>, i: int, t: u8) -> int
    decreases b.len() - i,
{
    if i < 0 || i >= b.len() {
        0
    } else {
        match spec_take_item(b, i) {
            Err(_) => 0,
            Ok((tag, data, j)) => (if tag == Tag::Short(t) {
                1int
            } else {
                0int
            }) + spec_count_tag(b, j, t),
        }
    }
}

/// Over any run that reaches the end of the stream without an error, the
/// depth of the open-collection stack grows by exactly the number of
/// `Collection` items minus the number of `End Collection` items, and the
/// depth of the global-state stack by the number of `Push` items minus the
/// number of `Pop` items.
pub proof fn lemma_run_stack_depths(st: StateModel, b: Seq<u8>, i: int)
    requires
        spec_run(st, b, i) matches Ok(_),
    ensures
        spec_run(st, b, i)->Ok_0.stack_collection.len() == st.stack_collection.len()
            + spec_count_tag(b, i, TAG_COLLECTION) - spec_count_tag(b, i, TAG_COLLECTION_END),
        spec_run(st, b, i)->Ok_0.stack_global.len() == st.stack_global.len() + spec_count_tag(
            b,
            i,
            TAG_PUSH,
        ) - spec_count_tag(b, i, TAG_POP),
    decreases b.len() - i,
{
    if 0 <= i < b.len() {
        let (tag, data, j) = spec_take_item(b, i)->Ok_0;
        lemma_take_item_advances(b, i);
        let st2 = spec_step(st, tag, data)->Ok_0;
        lemma_run_stack_depths(st2, b, j);
    }
}

/// Balance: a parse only succeeds when the stream holds exactly as many
/// `End Collection` items as `Collection` items, and exactly as many `Pop`
/// items as `Push` items. An unbalanced stream never yields a descriptor.
pub proof fn lemma_parse_balanced(b: Seq<u8>)
    requires
        spec_parse(b) matches Ok(_),
    ensures
        spec_count_tag(b, 0, TAG_COLLECTION) == spec_count_tag(b, 0, TAG_COLLECTION_END),
        spec_count_tag(b, 0, TAG_PUSH) == spec_count_tag(b, 0, TAG_POP),
{
    lemma_run_stack_depths(StateModel::spec_init(), b, 0);
}

/// A stream that opens more collections than it closes, and is otherwise
/// consumed without error, fails end-of-stream validation.
pub proof fn lemma_missing_end_collection(b: Seq<u8>)
    requires
        spec_run(StateModel::spec_init(), b, 0) matches Ok(_),
        spec_count_tag(b, 0, TAG_COLLECTION) > spec_count_tag(b, 0, TAG_COLLECTION_END),
    ensures
        spec_parse(b) == Err::<CollectionModel, Error>(Error::MissingEndCollection),
{
    lemma_run_stack_depths(StateModel::spec_init(), b, 0);
}

/// A stream that pushes more global state than it pops, closes every
/// collection, and is otherwise consumed without error, fails end-of-stream
/// validation.
pub proof fn lemma_missing_pop(b: Seq<u8>)
    requires
        spec_run(StateModel::spec_init(), b, 0) matches Ok(_),
        spec_count_tag(b, 0, TAG_COLLECTION) == spec_count_tag(b, 0, TAG_COLLECTION_END),
        spec_count_tag(b, 0, TAG_PUSH) > spec_count_tag(b, 0, TAG_POP),
    ensures
        spec_parse(b) == Err::<CollectionModel, Error>(Error::MissingPop),
{
    lemma_run_stack_depths(StateModel::spec_init(), b, 0);
}

/// Whether, walking the items from position `i` with `avail` unmatched
/// openers at hand, some item with the short tag `close_tag` arrives when no
/// unmatched `open_tag` is left before it — before any malformed item.
pub open spec fn spec_closes_exceed(
    b: Seq<u8>,
    i: int,
    avail: int,
    open_tag: u8,
    close_tag: u8,
) -> bool
    decreases b.len() - i,
{
    if i < 0 || i >= b.len() {
        false
    } else {
        match spec_take_item(b, i) {
            Err(_) => false,
            Ok((tag, data, j)) => if tag == Tag::Short(close_tag) {
                avail <= 0 || spec_closes_exceed(b, j, avail - 1, open_tag, close_tag)
            } else if tag == Tag::Short(open_tag) {
                spec_closes_exceed(b, j, avail + 1, open_tag, close_tag)
            } else {
                spec_closes_exceed(b, j, avail, open_tag, close_tag)
            },
        }
    }
}

/// A run that completes without error kept both disciplines at every step:
/// no `Pop` ever arrived without an unmatched `Push` before it, and no
/// `End Collection` without an open `Collection`.
pub proof fn lemma_run_keeps_discipline(st: StateModel, b: Seq<u8>, i: int)
    requires
        spec_run(st, b, i) matches Ok(_),
    ensures
        !spec_closes_exceed(b, i, st.stack_global.len() as int, TAG_PUSH, TAG_POP),
        !spec_closes_exceed(
            b,
            i,
            st.stack_collection.len() as int,
            TAG_COLLECTION,
            TAG_COLLECTION_END,
        ),
    decreases b.len() - i,
{
    if 0 <= i < b.len() {
        let (tag, data, j) = spec_take_item(b, i)->Ok_0;
        lemma_take_item_advances(b, i);
        let st2 = spec_step(st, tag, data)->Ok_0;
        lemma_run_keeps_discipline(st2, b, j);
    }
}

/// A stream in which some `Pop` precedes its `Push`, or some
/// `End Collection` precedes its `Collection`, never parses successfully.
pub proof fn lemma_unmatched_close_fails(b: Seq<u8>)
    requires
        spec_closes_exceed(b, 0, 0, TAG_PUSH, TAG_POP) || spec_closes_exceed(
            b,
            0,
            0,
            TAG_COLLECTION,
            TAG_COLLECTION_END,
        ),
    ensures
        spec_parse(b) is Err,
{
    if spec_run(StateModel::spec_init(), b, 0) matches Ok(st) {
        lemma_run_keeps_discipline(StateModel::spec_init(), b, 0);
    }
}

/// A `Pop` item reached with no pushed state fails at once: nothing after it
/// is looked at.
pub proof fn lemma_dangling_pop_fails(st: StateModel, b: Seq<u8>, i: int)
    requires
        0 <= i < b.len(),
        st.stack_global.len() == 0,
        spec_take_item(b, i) matches Ok(item) && item.0 == Tag::Short(TAG_POP),
    ensures
        spec_run(st, b, i) == Err::<StateModel, Error>(Error::PopWithoutPush),
{
}

/// An `End Collection` item reached with no open collection fails at once.
pub proof fn lemma_dangling_end_collection_fails(st: StateModel, b: Seq<u8>, i: int)
    requires
        0 <= i < b.len(),
        st.stack_collection.len() == 0,
        spec_take_item(b, i) matches Ok(item) && item.0 == Tag::Short(TAG_COLLECTION_END),
    ensures
        spec_run(st, b, i) == Err::<StateModel, Error>(Error::UnexpectedEndCollection),
{
}

/// Main items do not touch the parser state they read: after emitting a
/// report the global state, the local state and both stacks are as before,
/// and only the current collection's report list has grown. Hence two
/// consecutive main items with no tag in between yield two reports that
/// share their usage (and every other state-derived field).
pub proof fn lemma_local_state_persists(
    st: StateModel,
    d1: Seq<u8>,
    d2: Seq<u8>,
    t1: u8,
    t2: u8,
)
    requires
        t1 == TAG_INPUT || t1 == TAG_OUTPUT || t1 == TAG_FEATURE,
        t2 == TAG_INPUT || t2 == TAG_OUTPUT || t2 == TAG_FEATURE,
        spec_step(st, Tag::Short(t1), d1) matches Ok(_),
    ensures
        spec_step(st, Tag::Short(t1), d1)->Ok_0.collection.state == st.collection.state,
        spec_step(st, Tag::Short(t1), d1)->Ok_0.global == st.global,
        spec_step(spec_step(st, Tag::Short(t1), d1)->Ok_0, Tag::Short(t2), d2) matches Ok(st2)
            && st2.collection.reports.len() == st.collection.reports.len() + 2
            && st2.collection.reports[st2.collection.reports.len() - 1].usage
            == st2.collection.reports[st2.collection.reports.len() - 2].usage
            && st2.collection.reports.last().usage == st.collection.state.usage->0,
{
}

/// `collections_model` only looks at the first `n` entries.
pub proof fn lemma_collections_model_congruence(v: Vec<Collection>, w: Vec<Collection>, n: int)
    requires
        0 <= n <= v@.len(),
        n <= w@.len(),
        forall|i: int| 0 <= i < n ==> v@[i] == w@[i],
    ensures
        collections_model(v, n) == collections_model(w, n),
    decreases n,
{
    if n > 0 {
        lemma_collections_model_congruence(v, w, n - 1);
    }
}

/// Pushing a collection onto a vector appends its model to the vector's.
pub proof fn lemma_collections_model_push(v: Vec<Collection>, w: Vec<Collection>, x: Collection)
    requires
        w@ == v@.push(x),
    ensures
        collections_model(w, w@.len() as int) == collections_model(v, v@.len() as int).push(
            collection_model(x),
        ),
{
    let n = v@.len() as int;
    assert(w@[n] == x);
    lemma_collections_model_congruence(v, w, n);
}

/// The parser: the state machine that folds a descriptor's items into a
/// collection tree. One instance performs one parse and is consumed by it.
pub struct Parser {
    pub stack_global: Vec<ParserGlobalState>,
    pub global: ParserGlobalState,
    pub stack_collection: Vec<ParserCollection>,
    pub collection: ParserCollection,
}

impl View for Parser {
    type V = StateModel;

    open spec fn view(&self) -> StateModel {
        StateModel {
            global: self.global,
            stack_global: self.stack_global@,
            collection: self.collection@,
            stack_collection: Seq::new(
                self.stack_collection@.len(),
                |i: int| self.stack_collection@[i]@,
            ),
        }
    }
}

impl Default for Parser {
    /// A parser in the initial state: nothing set, both stacks empty.
    fn default() -> (r: Parser)
        ensures
            r@ == StateModel::spec_init(),
    {
        Parser {
            stack_global: Vec::new(),
            global: ParserGlobalState::empty(),
            stack_collection: Vec::new(),
            collection: ParserCollection {
                c_type: None,
                reports: Vec::new(),
                collections: Vec::new(),
                state: ParserLocalState::empty(),
            },
        }
    }
}

impl Parser {
    /// Apply one classified item to the parser state, as `spec_step` says.
    fn step(self, tag: Tag, data: Vec<u8>) -> (r: Result<Parser, Error>)
        ensures
            match r {
                Ok(p) => spec_step(self@, tag, data@) == Ok::<StateModel, Error>(p@),
                Err(e) => spec_step(self@, tag, data@) == Err::<StateModel, Error>(e),
            },
    {
        let ghost st = self@;
        let Parser { mut stack_global, mut global, mut stack_collection, mut collection } = self;
        let t = match tag {
            Tag::Long(_) => {
                return Ok(Parser { stack_global, global, stack_collection, collection });
            },
            Tag::Short(t) => t,
        };
        if t == TAG_USAGE_PAGE {
            match decode_u32(&data) {
                Some(v) => { global.usage_page = Some(v); },
                None => { return Err(Error::BadUsagePage); },
            }
        } else if t == TAG_USAGE {
            match decode_u32(&data) {
                Some(v) => { collection.state.usage = Some(v); },
                None => { return Err(Error::BadUsage); },
            }
        } else if t == TAG_USAGE_MINIMUM {
            match decode_u32(&data) {
                Some(v) => { collection.state.usage_minimum = Some(v); },
                None => { return Err(Error::BadUsageMinimum); },
            }
        } else if t == TAG_USAGE_MAXIMUM {
            match decode_u32(&data) {
                Some(v) => { collection.state.usage_maximum = Some(v); },
                None => { return Err(Error::BadUsageMaximum); },
            }
        } else if t == TAG_COLLECTION {
            match decode_u32(&data) {
                Some(v) => {
                    let opened = ParserCollection {
                        c_type: Some(v),
                        reports: Vec::new(),
                        collections: Vec::new(),
                        state: collection.state,
                    };
                    let ghost prev_stack = stack_collection@;
                    stack_collection.push(collection);
                    collection = opened;
                    proof {
                        assert(Seq::new(
                            stack_collection@.len(),
                            |i: int| stack_collection@[i]@,
                        ) =~= Seq::new(prev_stack.len(), |i: int| prev_stack[i]@).push(
                            st.collection,
                        ));
                        assert(collection@ =~= WorkingModel::spec_open(v, st.collection.state));
                    }
                },
                None => { return Err(Error::BadCollection); },
            }
        } else if t == TAG_COLLECTION_END {
            let ghost prev_stack = stack_collection@;
            match stack_collection.pop() {
                Some(parent) => {
                    let child = collection;
                    collection = parent;
                    let ghost parent_model = st.stack_collection.last();
                    let sealed = Collection { reports: child.reports, nested: child.collections };
                    proof {
                        assert(collection_model(sealed) =~= st.collection.seal());
                    }
                    let ghost before = collection.collections;
                    collection.collections.push(sealed);
                    proof {
                        lemma_collections_model_push(before, collection.collections, sealed);
                        assert(collection@ =~= WorkingModel {
                            collections: parent_model.collections.push(st.collection.seal()),
                            ..parent_model
                        });
                        assert(Seq::new(
                            stack_collection@.len(),
                            |i: int| stack_collection@[i]@,
                        ) =~= st.stack_collection.drop_last());
                    }
                },
                None => { return Err(Error::UnexpectedEndCollection); },
            }
        } else if t == TAG_REPORT_SIZE {
            match decode_u32(&data) {
                Some(v) => { global.report_size = Some(v); },
                None => { return Err(Error::BadReportSize); },
            }
        } else if t == TAG_REPORT_ID {
            match decode_u32(&data) {
                Some(v) => { global.report_id = Some(v); },
                None => { return Err(Error::BadReportId); },
            }
        } else if t == TAG_REPORT_COUNT {
            match decode_u32(&data) {
                Some(v) => { global.report_count = Some(v); },
                None => { return Err(Error::BadReportCount); },
            }
        } else if t == TAG_LOGICAL_MINIMUM {
            match decode_i32(&data) {
                Some(v) => { global.logical_minimum = Some(v); },
                None => { return Err(Error::BadLogicalMinimum); },
            }
        } else if t == TAG_LOGICAL_MAXIMUM {
            match decode_i32(&data) {
                Some(v) => { global.logical_maximum = Some(v); },
                None => { return Err(Error::BadLogicalMaximum); },
            }
        } else if t == TAG_PHYSICAL_MINIMUM {
            match decode_i32(&data) {
                Some(v) => { global.physical_minimum = Some(v); },
                None => { return Err(Error::BadPhysicalMinimum); },
            }
        } else if t == TAG_PHYSICAL_MAXIMUM {
            match decode_i32(&data) {
                Some(v) => { global.physical_maximum = Some(v); },
                None => { return Err(Error::BadPhysicalMaximum); },
            }
        } else if t == TAG_INPUT {
            match Report::try_from_parser_states(ReportType::Input, &global, &collection.state) {
                Ok(report) => { collection.reports.push(report); },
                Err(e) => { return Err(e); },
            }
        } else if t == TAG_OUTPUT {
            match Report::try_from_parser_states(ReportType::Output, &global, &collection.state) {
                Ok(report) => { collection.reports.push(report); },
                Err(e) => { return Err(e); },
            }
        } else if t == TAG_FEATURE {
            match Report::try_from_parser_states(ReportType::Feature, &global, &collection.state) {
                Ok(report) => { collection.reports.push(report); },
                Err(e) => { return Err(e); },
            }
        } else if t == TAG_PUSH {
            stack_global.push(global);
        } else if t == TAG_POP {
            match stack_global.pop() {
                Some(g) => { global = g; },
                None => { return Err(Error::PopWithoutPush); },
            }
        }
        let out = Parser { stack_global, global, stack_collection, collection };
        proof {
            assert(spec_step(st, tag, data@) matches Ok(m) && m =~= out@);
        }
        Ok(out)
    }

    /// Consume the byte stream item by item, folding each into the state.
    fn inner_parse(self, data: &[u8]) -> (r: Result<Parser, Error>)
        ensures
            match r {
                Ok(p) => spec_run(self@, data@, 0) == Ok::<StateModel, Error>(p@),
                Err(e) => spec_run(self@, data@, 0) == Err::<StateModel, Error>(e),
            },
    {
        let ghost st0 = self@;
        let mut parser = self;
        let mut pos: usize = 0;
        while pos < data.len()
            invariant
                st0 == self@,
                pos <= data@.len(),
                spec_run(st0, data@, 0) == spec_run(parser@, data@, pos as int),
            decreases data@.len() - pos,
        {
            let ghost before = parser@;
            let (tag, payload, next) = match take_item(data, pos) {
                Ok(item) => item,
                Err(e) => {
                    proof {
                        assert(spec_run(before, data@, pos as int) == Err::<StateModel, Error>(e));
                    }
                    return Err(e);
                },
            };
            proof {
                lemma_take_item_advances(data@, pos as int);
            }
            parser = match parser.step(tag, payload) {
                Ok(p) => p,
                Err(e) => {
                    proof {
                        assert(spec_run(before, data@, pos as int) == Err::<StateModel, Error>(e));
                    }
                    return Err(e);
                },
            };
            pos = next;
        }
        Ok(parser)
    }

    /// Parse one whole report descriptor. Consumes the parser: a fresh one is
    /// needed for each parse.
    pub fn parse(self, data: &[u8]) -> (r: Result<crate::Descriptor, Error>)
        ensures
            match r {
                Ok(d) => spec_parse_from(self@, data@) == Ok::<CollectionModel, Error>(d@),
                Err(e) => spec_parse_from(self@, data@) == Err::<CollectionModel, Error>(e),
            },
    {
        let parser = match self.inner_parse(data) {
            Ok(p) => p,
            Err(e) => { return Err(e); },
        };
        if parser.stack_collection.len() != 0 {
            return Err(Error::MissingEndCollection);
        }
        if parser.stack_global.len() != 0 {
            return Err(Error::MissingPop);
        }
        let collection = Collection {
            reports: parser.collection.reports,
            nested: parser.collection.collections,
        };
        proof {
            assert(collection_model(collection) =~= spec_run(
                self@,
                data@,
                0,
            )->Ok_0.collection.seal());
        }
        Ok(crate::Descriptor::new(collection))
    }
}

} // verus!
