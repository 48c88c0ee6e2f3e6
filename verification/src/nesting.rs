//! An abstract model of the builder's block operations and the law that
//! balanced use keeps the indentation depth non-negative.

use vstd::prelude::*;

verus! {

/// One structured block operation on a program builder.
#[derive(Clone, Copy, Debug, PartialEq, Eq, Structural)]
pub enum BlockOp {
    /// `if_block`: emits a header and opens a block.
    OpenIf,
    /// `for_block`: emits a header and opens a block.
    OpenFor,
    /// `while_block`: emits a header and opens a block.
    OpenWhile,
    /// `elif`: continues the innermost open block at its own level.
    ContinueElif,
    /// `else_block`: continues the innermost open block at its own level.
    ContinueElse,
    /// `end_block`: closes the innermost open block.
    Close,
}

/// How one operation moves the indentation depth: openers add a level,
/// `elif`/`else` leave it unchanged, `end_block` removes one.
pub open spec fn op_delta(op: BlockOp) -> int {
    match op {
        BlockOp::OpenIf => 1,
        BlockOp::OpenFor => 1,
        BlockOp::OpenWhile => 1,
        BlockOp::ContinueElif => 0,
        BlockOp::ContinueElse => 0,
        BlockOp::Close => -1,
    }
}

/// The indentation depth after applying `ops`, starting from depth 0.
pub open spec fn depth_after(ops: Seq<BlockOp>) -> int
    decreases ops.len(),
{
    if ops.len() == 0 {
        0
    } else {
        depth_after(ops.drop_last()) + op_delta(ops.last())
    }
}

/// The depth at which operation `i` emits its header line: `elif` and
/// `else` step back to the level of the block header they continue, every
/// other operation emits at the current depth (`end_block` emits nothing,
/// so its entry is vacuous).
pub open spec fn emit_depth(ops: Seq<BlockOp>, i: int) -> int
    recommends
        0 <= i < ops.len(),
{
    if ops[i] == BlockOp::ContinueElif || ops[i] == BlockOp::ContinueElse {
        depth_after(ops.take(i)) - 1
    } else {
        depth_after(ops.take(i))
    }
}

/// Balanced use of the block operations: every `end_block` closes a block
/// that is open at that point, and every `elif`/`else` continues a block
/// that is open at that point.
pub open spec fn balanced(ops: Seq<BlockOp>) -> bool {
    forall|i: int|
        0 <= i < ops.len() && (#[trigger] ops[i] == BlockOp::ContinueElif || ops[i]
            == BlockOp::ContinueElse || ops[i] == BlockOp::Close) ==> depth_after(ops.take(i)) >= 1
}

proof fn lemma_depth_nonneg_prefix(ops: Seq<BlockOp>, i: int)
    requires
        balanced(ops),
        0 <= i <= ops.len(),
    ensures
        depth_after(ops.take(i)) >= 0,
    decreases i,
{
    if i > 0 {
        lemma_depth_nonneg_prefix(ops, i - 1);
        assert(ops.take(i).drop_last() =~= ops.take(i - 1));
        assert(ops.take(i).last() == ops[i - 1]);
    }
}

/// Balanced sequences of block operations never drive the indentation
/// depth below zero, never emit a header line at a negative depth, and
/// emit each `elif`/`else` header exactly one level shallower than the
/// body of the block it continues.
pub proof fn lemma_balanced_depth(ops: Seq<BlockOp>)
    requires
        balanced(ops),
    ensures
        forall|i: int| 0 <= i <= ops.len() ==> depth_after(#[trigger] ops.take(i)) >= 0,
        forall|i: int| 0 <= i < ops.len() ==> #[trigger] emit_depth(ops, i) >= 0,
        forall|i: int|
            0 <= i < ops.len() && (ops[i] == BlockOp::ContinueElif || ops[i]
                == BlockOp::ContinueElse) ==> #[trigger] emit_depth(ops, i) == depth_after(
                ops.take(i),
            ) - 1,
{
    assert forall|i: int| 0 <= i <= ops.len() implies depth_after(#[trigger] ops.take(i)) >= 0 by {
        lemma_depth_nonneg_prefix(ops, i);
    }
    assert forall|i: int| 0 <= i < ops.len() implies #[trigger] emit_depth(ops, i) >= 0 by {
        lemma_depth_nonneg_prefix(ops, i);
    }
}

} // verus!
