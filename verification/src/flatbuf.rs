//! A FlatBuffers builder, seen through the history of the calls made on it.
//!
//! The builder of the `flatbuffers` crate writes a buffer back to front; the bytes it
//! finishes with, and every offset it hands out, are determined by the calls made on a
//! fresh builder. This module records those calls as a sequence of `FbOp` and names the
//! offsets and the finished bytes as functions of that sequence.
use vstd::prelude::*;

verus! {

/// One call that changed a builder.
pub enum FbOp {
    /// `create_string` with these characters.
    String(Seq<char>),
    /// `start_table`.
    StartTable,
    /// `push_slot` of a byte that differs from its default.
    SlotU8(u16, u8),
    /// `push_slot` of a boolean that differs from its default.
    SlotBool(u16, bool),
    /// `push_slot` of a `u32` that differs from its default.
    SlotU32(u16, u32),
    /// `push_slot` of an `i64` that differs from its default.
    SlotI64(u16, i64),
    /// `push_slot_always` of an offset.
    SlotOffset(u16, u32),
    /// `end_table` of the table that started at this offset.
    EndTable(u32),
    /// `create_vector` of these offsets.
    OffsetVector(Seq<u32>),
    /// `finish` with this root.
    Finish(u32),
    /// `finish_size_prefixed` with this root.
    FinishSizePrefixed(u32),
}

/// A `flatbuffers::FlatBufferBuilder` with the default allocator, held in a private
/// field; what it has been asked to write is `builder_ops`.
#[verifier::external_body]
pub struct FlatBuilder {
    fbb: flatbuffers::FlatBufferBuilder<'static>,
}

/// The calls that changed this builder since it was made, oldest first.
pub uninterp spec fn builder_ops(b: FlatBuilder) -> Seq<FbOp>;

/// The offset that `create_string` returns when its call ends this history.
pub uninterp spec fn string_offset(ops: Seq<FbOp>) -> u32;

/// The offset that `start_table` returns when its call ends this history.
pub uninterp spec fn table_start_offset(ops: Seq<FbOp>) -> u32;

/// The offset that `end_table` returns when its call ends this history.
pub uninterp spec fn table_offset(ops: Seq<FbOp>) -> u32;

/// The offset that `create_vector` returns when its call ends this history.
pub uninterp spec fn vector_offset(ops: Seq<FbOp>) -> u32;

/// The bytes that `finished_data` shows after this history.
pub uninterp spec fn finished_bytes(ops: Seq<FbOp>) -> Seq<u8>;

/// The longest string, in bytes, that the library hands to the builder.
pub const MAX_STRING_BYTES: usize = 0x7FFF_0000;

/// The number of bytes that the UTF-8 encoding of these characters takes.
pub open spec fn utf8_len(s: Seq<char>) -> nat {
    vstd::utf8::encode_utf8(s).len()
}

/// A character takes one to four bytes in UTF-8.
pub proof fn lemma_utf8_len_bound(s: Seq<char>)
    ensures
        s.len() <= utf8_len(s) <= 4 * s.len(),
    decreases s.len(),
{
    if s.len() > 0 {
        lemma_utf8_len_bound(s.drop_first());
        assert(vstd::utf8::encode_utf8(s) == vstd::utf8::encode_scalar(s[0] as u32)
            + vstd::utf8::encode_utf8(s.drop_first()));
    }
}

/// Whether a table is under construction at the end of the history.
pub open spec fn in_table(ops: Seq<FbOp>) -> bool
    decreases ops.len(),
{
    if ops.len() == 0 {
        false
    } else {
        match ops.last() {
            FbOp::StartTable => true,
            FbOp::EndTable(_) => false,
            _ => in_table(ops.drop_last()),
        }
    }
}

/// The offset that the `start_table` of the open table returned.
pub open spec fn open_table_start(ops: Seq<FbOp>) -> u32
    decreases ops.len(),
{
    if ops.len() == 0 {
        0
    } else {
        match ops.last() {
            FbOp::StartTable => table_start_offset(ops),
            _ => open_table_start(ops.drop_last()),
        }
    }
}

/// The number of fields pushed into the open table.
pub open spec fn open_table_fields(ops: Seq<FbOp>) -> nat
    decreases ops.len(),
{
    if ops.len() == 0 {
        0
    } else {
        match ops.last() {
            FbOp::StartTable => 0,
            _ => open_table_fields(ops.drop_last()) + 1,
        }
    }
}

/// Whether the history holds a `finish`.
pub open spec fn is_finished(ops: Seq<FbOp>) -> bool
    decreases ops.len(),
{
    if ops.len() == 0 {
        false
    } else {
        ops.last() is Finish || ops.last() is FinishSizePrefixed || is_finished(ops.drop_last())
    }
}

/// Whether `off` is an offset of a string, table or vector that the history made.
pub open spec fn is_handed_out(ops: Seq<FbOp>, off: u32) -> bool
    decreases ops.len(),
{
    if ops.len() == 0 {
        false
    } else {
        (match ops.last() {
            FbOp::String(_) => off == string_offset(ops),
            FbOp::EndTable(_) => off == table_offset(ops),
            FbOp::OffsetVector(_) => off == vector_offset(ops),
            _ => false,
        }) || is_handed_out(ops.drop_last(), off)
    }
}

/// Whether the history `ops2` continues the history `ops1`.
pub open spec fn extends(ops2: Seq<FbOp>, ops1: Seq<FbOp>) -> bool {
    ops1.len() <= ops2.len() && ops2.take(ops1.len() as int) == ops1
}

/// Whether a builder with this history accepts a field in a table.
pub open spec fn accepts_field(ops: Seq<FbOp>, slot: u16) -> bool {
    &&& in_table(ops)
    &&& !is_finished(ops)
    &&& open_table_fields(ops) < 16
    &&& 4 <= slot < 64
    &&& slot % 2 == 0
}

/// Whether a builder with this history accepts a new string, table or vector.
pub open spec fn accepts_object(ops: Seq<FbOp>) -> bool {
    !in_table(ops) && !is_finished(ops)
}

/// A call appended to a history can be taken off again.
pub broadcast proof fn lemma_push_drop_last(ops: Seq<FbOp>, op: FbOp)
    ensures
        #[trigger] ops.push(op).drop_last() == ops,
{
    assert(ops.push(op).drop_last() =~= ops);
}

/// Whether a table is open after one more call.
pub broadcast proof fn lemma_in_table_push(ops: Seq<FbOp>, op: FbOp)
    ensures
        #[trigger] in_table(ops.push(op)) == match op {
            FbOp::StartTable => true,
            FbOp::EndTable(_) => false,
            _ => in_table(ops),
        },
{
    assert(ops.push(op).drop_last() =~= ops);
}

/// Whether the history is finished after one more call.
pub broadcast proof fn lemma_is_finished_push(ops: Seq<FbOp>, op: FbOp)
    ensures
        #[trigger] is_finished(ops.push(op)) == (op is Finish || op is FinishSizePrefixed
            || is_finished(ops)),
{
    assert(ops.push(op).drop_last() =~= ops);
}

/// The start of the open table after one more call.
pub broadcast proof fn lemma_open_table_start_push(ops: Seq<FbOp>, op: FbOp)
    ensures
        #[trigger] open_table_start(ops.push(op)) == match op {
            FbOp::StartTable => table_start_offset(ops.push(op)),
            _ => open_table_start(ops),
        },
{
    assert(ops.push(op).drop_last() =~= ops);
}

/// The number of fields of the open table after one more call.
pub broadcast proof fn lemma_open_table_fields_push(ops: Seq<FbOp>, op: FbOp)
    ensures
        #[trigger] open_table_fields(ops.push(op)) == match op {
            FbOp::StartTable => 0,
            _ => open_table_fields(ops) + 1,
        },
{
    assert(ops.push(op).drop_last() =~= ops);
}

/// The offsets handed out after one more call.
pub broadcast proof fn lemma_is_handed_out_push(ops: Seq<FbOp>, op: FbOp, off: u32)
    ensures
        #[trigger] is_handed_out(ops.push(op), off) == ((match op {
            FbOp::String(_) => off == string_offset(ops.push(op)),
            FbOp::EndTable(_) => off == table_offset(ops.push(op)),
            FbOp::OffsetVector(_) => off == vector_offset(ops.push(op)),
            _ => false,
        }) || is_handed_out(ops, off)),
{
    assert(ops.push(op).drop_last() =~= ops);
}

/// The facts about a history that grows by one call.
pub broadcast group group_history_push {
    lemma_push_drop_last,
    lemma_in_table_push,
    lemma_is_finished_push,
    lemma_open_table_start_push,
    lemma_open_table_fields_push,
    lemma_is_handed_out_push,
}

/// An offset stays handed out as the history goes on.
pub proof fn lemma_handed_out_extends(ops1: Seq<FbOp>, ops2: Seq<FbOp>, off: u32)
    requires
        extends(ops2, ops1),
        is_handed_out(ops1, off),
    ensures
        is_handed_out(ops2, off),
    decreases ops2.len() - ops1.len(),
{
    if ops2.len() == ops1.len() {
        assert(ops2 =~= ops1);
    } else {
        let prev = ops2.drop_last();
        assert(prev.take(ops1.len() as int) =~= ops2.take(ops1.len() as int));
        lemma_handed_out_extends(ops1, prev, off);
    }
}

/// Every offset of a list stays handed out as the history goes on.
pub proof fn lemma_all_handed_out_extends(ops1: Seq<FbOp>, ops2: Seq<FbOp>, offs: Seq<u32>)
    requires
        extends(ops2, ops1),
        forall|i: int| 0 <= i < offs.len() ==> is_handed_out(ops1, #[trigger] offs[i]),
    ensures
        forall|i: int| 0 <= i < offs.len() ==> is_handed_out(ops2, #[trigger] offs[i]),
{
    assert forall|i: int| 0 <= i < offs.len() implies is_handed_out(ops2, #[trigger] offs[i]) by {
        lemma_handed_out_extends(ops1, ops2, offs[i]);
    }
}

/// Continuing a history is transitive.
pub proof fn lemma_extends_trans(ops1: Seq<FbOp>, ops2: Seq<FbOp>, ops3: Seq<FbOp>)
    requires
        extends(ops2, ops1),
        extends(ops3, ops2),
    ensures
        extends(ops3, ops1),
{
    assert(ops3.take(ops1.len() as int) =~= ops3.take(ops2.len() as int).take(ops1.len() as int));
}

impl FlatBuilder {
    /// A fresh builder with room for `capacity` bytes, with no call made on it.
    pub fn with_capacity(capacity: usize) -> (b: FlatBuilder)
        requires
            capacity <= 0x8000_0000,
        ensures
            builder_ops(b) == Seq::<FbOp>::empty(),
    {
        FlatBuilder::new(capacity)
    }

    /// Writes a string and returns its offset.
    pub fn string(&mut self, s: &str) -> (off: u32)
        requires
            accepts_object(builder_ops(*old(self))),
            utf8_len(s@) <= MAX_STRING_BYTES,
        ensures
            builder_ops(*final(self)) == builder_ops(*old(self)).push(FbOp::String(s@)),
            off == string_offset(builder_ops(*final(self))),
    {
        self.create_string(s)
    }

    /// The bytes of the finished buffer.
    pub fn finished(&self) -> (data: Vec<u8>)
        requires
            is_finished(builder_ops(*self)),
        ensures
            data@ == finished_bytes(builder_ops(*self)),
    {
        self.finished_data()
    }

    /// `FlatBufferBuilder::with_capacity`: a fresh builder, with no call made on it
    /// (it panics on a capacity above 2 GiB).
    #[verifier::external_body]
    pub(crate) fn new(capacity: usize) -> (b: FlatBuilder)
        requires
            capacity <= 0x8000_0000,
        ensures
            builder_ops(b) == Seq::<FbOp>::empty(),
    {
        FlatBuilder { fbb: flatbuffers::FlatBufferBuilder::with_capacity(capacity) }
    }

    /// `FlatBufferBuilder::create_string`: records the string and returns its offset.
    /// The builder refuses a string inside a table, after `finish`, or of more than
    /// 2 GiB.
    #[verifier::external_body]
    pub(crate) fn create_string(&mut self, s: &str) -> (off: u32)
        requires
            accepts_object(builder_ops(*old(self))),
            utf8_len(s@) <= MAX_STRING_BYTES,
        ensures
            builder_ops(*final(self)) == builder_ops(*old(self)).push(FbOp::String(s@)),
            off == string_offset(builder_ops(*final(self))),
    {
        self.fbb.create_string(s).value()
    }

    /// `FlatBufferBuilder::start_table`: opens a table and returns its start offset.
    #[verifier::external_body]
    pub(crate) fn start_table(&mut self) -> (start: u32)
        requires
            accepts_object(builder_ops(*old(self))),
        ensures
            builder_ops(*final(self)) == builder_ops(*old(self)).push(FbOp::StartTable),
            start == table_start_offset(builder_ops(*final(self))),
    {
        self.fbb.start_table().value()
    }

    /// `FlatBufferBuilder::push_slot::<u8>`: stores the byte in the slot unless it equals
    /// the default, in which case the builder is left as it was.
    #[verifier::external_body]
    pub(crate) fn push_slot_u8(&mut self, slot: u16, x: u8, default: u8)
        requires
            accepts_field(builder_ops(*old(self)), slot),
        ensures
            x != default ==> builder_ops(*final(self)) == builder_ops(*old(self)).push(
                FbOp::SlotU8(slot, x),
            ),
            x == default ==> *final(self) == *old(self),
    {
        self.fbb.push_slot::<u8>(slot, x, default)
    }

    /// `FlatBufferBuilder::push_slot::<bool>`: stores the flag in the slot unless it
    /// equals the default, in which case the builder is left as it was.
    #[verifier::external_body]
    pub(crate) fn push_slot_bool(&mut self, slot: u16, x: bool, default: bool)
        requires
            accepts_field(builder_ops(*old(self)), slot),
        ensures
            x != default ==> builder_ops(*final(self)) == builder_ops(*old(self)).push(
                FbOp::SlotBool(slot, x),
            ),
            x == default ==> *final(self) == *old(self),
    {
        self.fbb.push_slot::<bool>(slot, x, default)
    }

    /// `FlatBufferBuilder::push_slot::<u32>`: stores the number in the slot unless it
    /// equals the default, in which case the builder is left as it was.
    #[verifier::external_body]
    pub(crate) fn push_slot_u32(&mut self, slot: u16, x: u32, default: u32)
        requires
            accepts_field(builder_ops(*old(self)), slot),
        ensures
            x != default ==> builder_ops(*final(self)) == builder_ops(*old(self)).push(
                FbOp::SlotU32(slot, x),
            ),
            x == default ==> *final(self) == *old(self),
    {
        self.fbb.push_slot::<u32>(slot, x, default)
    }

    /// `FlatBufferBuilder::push_slot::<i64>`: stores the number in the slot unless it
    /// equals the default, in which case the builder is left as it was.
    #[verifier::external_body]
    pub(crate) fn push_slot_i64(&mut self, slot: u16, x: i64, default: i64)
        requires
            accepts_field(builder_ops(*old(self)), slot),
        ensures
            x != default ==> builder_ops(*final(self)) == builder_ops(*old(self)).push(
                FbOp::SlotI64(slot, x),
            ),
            x == default ==> *final(self) == *old(self),
    {
        self.fbb.push_slot::<i64>(slot, x, default)
    }

    /// `FlatBufferBuilder::push_slot_always` of an offset (a string, table or vector made
    /// earlier by this builder): stores it in the slot.
    #[verifier::external_body]
    pub(crate) fn push_slot_offset(&mut self, slot: u16, off: u32)
        requires
            accepts_field(builder_ops(*old(self)), slot),
            is_handed_out(builder_ops(*old(self)), off),
        ensures
            builder_ops(*final(self)) == builder_ops(*old(self)).push(FbOp::SlotOffset(slot, off)),
    {
        self.fbb.push_slot_always::<flatbuffers::WIPOffset<flatbuffers::UnionWIPOffset>>(
            slot,
            flatbuffers::WIPOffset::new(off),
        )
    }

    /// `FlatBufferBuilder::end_table`: closes the open table, which started at `start`,
    /// and returns the table's offset.
    #[verifier::external_body]
    pub(crate) fn end_table(&mut self, start: u32) -> (off: u32)
        requires
            in_table(builder_ops(*old(self))),
            !is_finished(builder_ops(*old(self))),
            start == open_table_start(builder_ops(*old(self))),
        ensures
            builder_ops(*final(self)) == builder_ops(*old(self)).push(FbOp::EndTable(start)),
            off == table_offset(builder_ops(*final(self))),
    {
        self.fbb.end_table(flatbuffers::WIPOffset::new(start)).value()
    }

    /// `FlatBufferBuilder::create_vector` of offsets (each made earlier by this builder):
    /// records the vector and returns its offset.
    #[verifier::external_body]
    pub(crate) fn create_offset_vector(&mut self, items: &Vec<u32>) -> (off: u32)
        requires
            accepts_object(builder_ops(*old(self))),
            items@.len() < 0x1000_0000,
            forall|i: int|
                0 <= i < items@.len() ==> is_handed_out(builder_ops(*old(self)), #[trigger] items@[i]),
        ensures
            builder_ops(*final(self)) == builder_ops(*old(self)).push(FbOp::OffsetVector(items@)),
            off == vector_offset(builder_ops(*final(self))),
    {
        let offsets: Vec<flatbuffers::WIPOffset<flatbuffers::Table<'static>>> = items.iter().map(
            |o| flatbuffers::WIPOffset::new(*o),
        ).collect();
        self.fbb.create_vector(&offsets).value()
    }

    /// `FlatBufferBuilder::finish` with the table at `root` as root, and no file
    /// identifier.
    #[verifier::external_body]
    pub(crate) fn finish(&mut self, root: u32)
        requires
            accepts_object(builder_ops(*old(self))),
            is_handed_out(builder_ops(*old(self)), root),
        ensures
            builder_ops(*final(self)) == builder_ops(*old(self)).push(FbOp::Finish(root)),
    {
        self.fbb.finish(flatbuffers::WIPOffset::<flatbuffers::UnionWIPOffset>::new(root), None)
    }

    /// `FlatBufferBuilder::finish_size_prefixed` with the table at `root` as root, and no
    /// file identifier: the finished buffer starts with its own length.
    #[verifier::external_body]
    pub(crate) fn finish_size_prefixed(&mut self, root: u32)
        requires
            accepts_object(builder_ops(*old(self))),
            is_handed_out(builder_ops(*old(self)), root),
        ensures
            builder_ops(*final(self)) == builder_ops(*old(self)).push(
                FbOp::FinishSizePrefixed(root),
            ),
    {
        self.fbb.finish_size_prefixed(
            flatbuffers::WIPOffset::<flatbuffers::UnionWIPOffset>::new(root),
            None,
        )
    }

    /// `FlatBufferBuilder::finished_data`, copied into a vector: the finished buffer.
    #[verifier::external_body]
    pub(crate) fn finished_data(&self) -> (data: Vec<u8>)
        requires
            is_finished(builder_ops(*self)),
        ensures
            data@ == finished_bytes(builder_ops(*self)),
    {
        self.fbb.finished_data().to_vec()
    }
}

} // verus!
