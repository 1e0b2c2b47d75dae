//! The writing side of the `SendGameScore` table: a player (field 4), a game result
//! (field 6) and a message (field 8), each an offset of an object written before.
use vstd::prelude::*;
use crate::flatbuf::{
    accepts_field, accepts_object, builder_ops, group_history_push, is_handed_out,
    open_table_start, table_offset, table_start_offset, FbOp, FlatBuilder,
};
use crate::serialization::slot_offset;

verus! {

broadcast use group_history_push;

/// The type that the offset of a finished `SendGameScore` table stands for.
pub struct SendGameScoreOffset;

/// The slot of the player.
pub const VT_PLAYER: u16 = 4;

/// The slot of the game result.
pub const VT_GAME_RESULT: u16 = 6;

/// The slot of the message.
pub const VT_SCORE_MESSAGE: u16 = 8;

/// The fields of a `SendGameScore` table, each an optional offset.
pub struct SendGameScoreArgs {
    pub player: Option<u32>,
    pub game_result: Option<u32>,
    pub score_message: Option<u32>,
}

impl Default for SendGameScoreArgs {
    fn default() -> (a: Self)
        ensures
            a.player is None && a.game_result is None && a.score_message is None,
    {
        SendGameScoreArgs { player: None, game_result: None, score_message: None }
    }
}

/// A builder with an open `SendGameScore` table.
pub struct SendGameScoreBuilder {
    pub fbb_: FlatBuilder,
    pub start_: u32,
}

/// Whether the builder's open table is the one it started, with at most three fields.
pub open spec fn builder_ready(b: SendGameScoreBuilder) -> bool {
    &&& crate::flatbuf::in_table(builder_ops(b.fbb_))
    &&& !crate::flatbuf::is_finished(builder_ops(b.fbb_))
    &&& crate::flatbuf::open_table_fields(builder_ops(b.fbb_)) <= 3
    &&& b.start_ == open_table_start(builder_ops(b.fbb_))
}

/// Whether the builder's open table can take one more field.
pub open spec fn builder_has_room(b: SendGameScoreBuilder) -> bool {
    builder_ready(b) && crate::flatbuf::open_table_fields(builder_ops(b.fbb_)) < 3
}

impl SendGameScoreBuilder {
    /// Opens a `SendGameScore` table.
    pub fn new(fbb: FlatBuilder) -> (b: SendGameScoreBuilder)
        requires
            accepts_object(builder_ops(fbb)),
        ensures
            builder_ops(b.fbb_) == builder_ops(fbb).push(FbOp::StartTable),
            b.start_ == table_start_offset(builder_ops(b.fbb_)),
            builder_ready(b),
    {
        let mut fbb = fbb;
        let start = fbb.start_table();
        SendGameScoreBuilder { fbb_: fbb, start_: start }
    }

    /// Stores the player.
    pub fn add_player(&mut self, player: u32)
        requires
            builder_has_room(*old(self)),
            is_handed_out(builder_ops(old(self).fbb_), player),
        ensures
            builder_ops(final(self).fbb_) == builder_ops(old(self).fbb_).push(
                FbOp::SlotOffset(VT_PLAYER, player),
            ),
            final(self).start_ == old(self).start_,
            builder_ready(*final(self)),
    {
        self.fbb_.push_slot_offset(VT_PLAYER, player);
    }

    /// Stores the game result.
    pub fn add_game_result(&mut self, game_result: u32)
        requires
            builder_has_room(*old(self)),
            is_handed_out(builder_ops(old(self).fbb_), game_result),
        ensures
            builder_ops(final(self).fbb_) == builder_ops(old(self).fbb_).push(
                FbOp::SlotOffset(VT_GAME_RESULT, game_result),
            ),
            final(self).start_ == old(self).start_,
            builder_ready(*final(self)),
    {
        self.fbb_.push_slot_offset(VT_GAME_RESULT, game_result);
    }

    /// Stores the message.
    pub fn add_score_message(&mut self, score_message: u32)
        requires
            builder_has_room(*old(self)),
            is_handed_out(builder_ops(old(self).fbb_), score_message),
        ensures
            builder_ops(final(self).fbb_) == builder_ops(old(self).fbb_).push(
                FbOp::SlotOffset(VT_SCORE_MESSAGE, score_message),
            ),
            final(self).start_ == old(self).start_,
            builder_ready(*final(self)),
    {
        self.fbb_.push_slot_offset(VT_SCORE_MESSAGE, score_message);
    }

    /// Closes the table; returns the builder and the table's offset.
    pub fn finish(self) -> (r: (FlatBuilder, u32))
        requires
            builder_ready(self),
        ensures
            builder_ops(r.0) == builder_ops(self.fbb_).push(FbOp::EndTable(self.start_)),
            r.1 == table_offset(builder_ops(r.0)),
    {
        let mut fbb = self.fbb_;
        let off = fbb.end_table(self.start_);
        (fbb, off)
    }
}

/// The history after writing a `SendGameScore` table: the message, the game result and
/// the player, as far as they are given.
pub open spec fn create_ops(ops: Seq<FbOp>, args: SendGameScoreArgs) -> Seq<FbOp> {
    let o0 = ops.push(FbOp::StartTable);
    let o1 = slot_offset(o0, VT_SCORE_MESSAGE, args.score_message);
    let o2 = slot_offset(o1, VT_GAME_RESULT, args.game_result);
    let o3 = slot_offset(o2, VT_PLAYER, args.player);
    o3.push(FbOp::EndTable(table_start_offset(o0)))
}

/// Writes a `SendGameScore` table; returns the builder and the table's offset.
pub fn create(fbb: FlatBuilder, args: &SendGameScoreArgs) -> (r: (FlatBuilder, u32))
    requires
        accepts_object(builder_ops(fbb)),
        args.player matches Some(o) ==> is_handed_out(builder_ops(fbb), o),
        args.game_result matches Some(o) ==> is_handed_out(builder_ops(fbb), o),
        args.score_message matches Some(o) ==> is_handed_out(builder_ops(fbb), o),
    ensures
        builder_ops(r.0) == create_ops(builder_ops(fbb), *args),
        r.1 == table_offset(builder_ops(r.0)),
{
    let mut builder = SendGameScoreBuilder::new(fbb);
    if let Some(x) = args.score_message {
        builder.add_score_message(x);
    }
    if let Some(x) = args.game_result {
        builder.add_game_result(x);
    }
    if let Some(x) = args.player {
        builder.add_player(x);
    }
    builder.finish()
}

/// Finishes the buffer with a `SendGameScore` table as its root.
pub fn finish_send_game_score_buffer(fbb: &mut FlatBuilder, root: u32)
    requires
        accepts_object(builder_ops(*old(fbb))),
        is_handed_out(builder_ops(*old(fbb)), root),
    ensures
        builder_ops(*final(fbb)) == builder_ops(*old(fbb)).push(FbOp::Finish(root)),
{
    fbb.finish(root);
}

/// Finishes the buffer with a `SendGameScore` table as its root, preceded by the
/// buffer's length.
pub fn finish_size_prefixed_send_game_score_buffer(fbb: &mut FlatBuilder, root: u32)
    requires
        accepts_object(builder_ops(*old(fbb))),
        is_handed_out(builder_ops(*old(fbb)), root),
    ensures
        builder_ops(*final(fbb)) == builder_ops(*old(fbb)).push(FbOp::FinishSizePrefixed(root)),
{
    fbb.finish_size_prefixed(root);
}

} // verus!
