//! Tool results, and the grouping of a turn's tool calls into batches that may run
//! together.
use vstd::prelude::*;
use crate::types::{ToolCall, ToolCallV, tool_calls_view};

verus! {

/// The outcome of one tool execution.
#[derive(Debug)]
pub struct ToolResult {
    pub content: String,
    pub is_error: bool,
}

pub struct ToolResultV {
    pub content: Seq<char>,
    pub is_error: bool,
}

impl View for ToolResult {
    type V = ToolResultV;

    open spec fn view(&self) -> ToolResultV {
        ToolResultV { content: self.content@, is_error: self.is_error }
    }
}

impl Clone for ToolResult {
    fn clone(&self) -> (r: Self)
        ensures
            r@ == self@,
    {
        ToolResult { content: self.content.clone(), is_error: self.is_error }
    }
}

impl ToolResultV {
    pub open spec fn ok(content: Seq<char>) -> ToolResultV {
        ToolResultV { content, is_error: false }
    }

    pub open spec fn err(content: Seq<char>) -> ToolResultV {
        ToolResultV { content, is_error: true }
    }
}

impl ToolResult {
    /// A successful result.
    pub fn ok(content: String) -> (r: Self)
        ensures
            r@ == ToolResultV::ok(content@),
    {
        ToolResult { content, is_error: false }
    }

    /// A failed result.
    pub fn err(content: String) -> (r: Self)
        ensures
            r@ == ToolResultV::err(content@),
    {
        ToolResult { content, is_error: true }
    }
}

// ---------------------------------------------------------------------------
// Batches
// ---------------------------------------------------------------------------

/// A run of tool calls of one concurrency-safety.
#[derive(Debug)]
pub struct ToolBatch {
    pub safe: bool,
    pub calls: Vec<ToolCall>,
}

pub struct ToolBatchV {
    pub safe: bool,
    pub calls: Seq<ToolCallV>,
}

impl View for ToolBatch {
    type V = ToolBatchV;

    open spec fn view(&self) -> ToolBatchV {
        ToolBatchV { safe: self.safe, calls: tool_calls_view(self.calls@) }
    }
}

pub open spec fn batches_view(v: Seq<ToolBatch>) -> Seq<ToolBatchV> {
    v.map_values(|b: ToolBatch| b@)
}

/// The calls of the batches, in order.
pub open spec fn flatten_batches(bs: Seq<ToolBatchV>) -> Seq<ToolCallV>
    decreases bs.len(),
{
    if bs.len() == 0 {
        Seq::empty()
    } else {
        flatten_batches(bs.drop_last()) + bs.last().calls
    }
}

/// The safety flags of the calls of the batches, in order.
pub open spec fn flatten_safety(bs: Seq<ToolBatchV>) -> Seq<bool>
    decreases bs.len(),
{
    if bs.len() == 0 {
        Seq::empty()
    } else {
        flatten_safety(bs.drop_last()) + Seq::new(bs.last().calls.len(), |i: int| bs.last().safe)
    }
}

/// The batch structure: no batch is empty; a batch that is not safe holds one call;
/// two safe batches never stand next to each other.
pub open spec fn well_batched(bs: Seq<ToolBatchV>) -> bool {
    &&& forall|i: int| 0 <= i < bs.len() ==> (#[trigger] bs[i]).calls.len() > 0
    &&& forall|i: int| 0 <= i < bs.len() && !(#[trigger] bs[i]).safe ==> bs[i].calls.len() == 1
    &&& forall|i: int| 0 < i < bs.len() && (#[trigger] bs[i]).safe ==> !bs[i - 1].safe
}

/// Splits the calls of one turn into batches: consecutive concurrency-safe calls
/// (`safe[i]` for `calls[i]`) share a batch; every other call is a batch of its own.
/// Batches run one after another, so a call that is not safe is a barrier.
pub fn partition_tool_calls(calls: &Vec<ToolCall>, safe: &Vec<bool>) -> (r: Vec<ToolBatch>)
    requires
        calls@.len() == safe@.len(),
    ensures
        flatten_batches(batches_view(r@)) == tool_calls_view(calls@),
        flatten_safety(batches_view(r@)) == safe@,
        well_batched(batches_view(r@)),
{
    let mut batches: Vec<ToolBatch> = Vec::new();
    let mut i: usize = 0;
    while i < calls.len()
        invariant
            calls@.len() == safe@.len(),
            i <= calls@.len(),
            flatten_batches(batches_view(batches@)) == tool_calls_view(calls@).take(i as int),
            flatten_safety(batches_view(batches@)) == safe@.take(i as int),
            well_batched(batches_view(batches@)),
            i > 0 <==> batches@.len() > 0,
        decreases calls@.len() - i,
    {
        let ghost before = batches_view(batches@);
        let tc = calls[i].clone();
        let s = safe[i];
        let n = batches.len();
        if n > 0 && batches[n - 1].safe && s {
            let mut last = batches.pop().unwrap();
            let ghost lb = last@;
            last.calls.push(tc);
            batches.push(last);
            proof {
                let after = batches_view(batches@);
                assert(after.drop_last() =~= before.drop_last());
                assert(after.last().calls =~= lb.calls.push(calls@[i as int]@));
                assert(flatten_batches(after) =~= flatten_batches(before) + seq![calls@[i as int]@]);
                assert(flatten_safety(before) =~= flatten_safety(before.drop_last()) + Seq::new(lb.calls.len(), |k: int| true));
                assert(flatten_safety(after) =~= flatten_safety(before) + seq![true]);
                assert(tool_calls_view(calls@).take(i + 1) =~= tool_calls_view(calls@).take(i as int) + seq![calls@[i as int]@]);
                assert(safe@.take(i + 1) =~= safe@.take(i as int) + seq![s]);
                assert forall|k: int| 0 <= k < after.len() implies (#[trigger] after[k]).calls.len() > 0 by {
                    if k < after.len() - 1 { assert(after[k] == before[k]); }
                }
                assert forall|k: int| 0 <= k < after.len() && !(#[trigger] after[k]).safe implies after[k].calls.len() == 1 by {
                    if k < after.len() - 1 { assert(after[k] == before[k]); }
                }
                assert forall|k: int| 0 < k < after.len() && (#[trigger] after[k]).safe implies !after[k - 1].safe by {
                    if k < after.len() - 1 { assert(after[k] == before[k]); assert(after[k - 1] == before[k - 1]); }
                    else { assert(after[k - 1] == before[k - 1]); assert(after[k].safe == lb.safe); }
                }
            }
        } else {
            let mut v: Vec<ToolCall> = Vec::new();
            v.push(tc);
            batches.push(ToolBatch { safe: s, calls: v });
            proof {
                let after = batches_view(batches@);
                assert(after.drop_last() =~= before);
                assert(after.last().calls =~= seq![calls@[i as int]@]);
                assert(flatten_batches(after) =~= flatten_batches(before) + seq![calls@[i as int]@]);
                assert(flatten_safety(after) =~= flatten_safety(before) + seq![s]);
                assert(tool_calls_view(calls@).take(i + 1) =~= tool_calls_view(calls@).take(i as int) + seq![calls@[i as int]@]);
                assert(safe@.take(i + 1) =~= safe@.take(i as int) + seq![s]);
                assert forall|k: int| 0 <= k < after.len() implies (#[trigger] after[k]).calls.len() > 0 by {
                    if k < after.len() - 1 { assert(after[k] == before[k]); }
                }
                assert forall|k: int| 0 <= k < after.len() && !(#[trigger] after[k]).safe implies after[k].calls.len() == 1 by {
                    if k < after.len() - 1 { assert(after[k] == before[k]); }
                }
                assert forall|k: int| 0 < k < after.len() && (#[trigger] after[k]).safe implies !after[k - 1].safe by {
                    if k < after.len() - 1 { assert(after[k] == before[k]); assert(after[k - 1] == before[k - 1]); }
                    else { assert(after[k - 1] == before[k - 1]); }
                }
            }
        }
        i = i + 1;
    }
    assert(tool_calls_view(calls@).take(calls@.len() as int) =~= tool_calls_view(calls@));
    assert(safe@.take(calls@.len() as int) =~= safe@);
    batches
}

} // verus!
