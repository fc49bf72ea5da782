//! What every operation on the terminal keeps.

use vstd::prelude::*;
use crate::block::{BlockView, FrozenView, fresh_block};
use crate::emulator::{EmuEventView, EmuOp, log_size};
use crate::model::{MAX_BLOCKS, TermModel, block_lines_ok, finished_ids, forwarded_all, frozen_from, frozen_ids, is_line, stack_end, stack_start, stacked, pinned};
use crate::osc133::{MarkerView, SemanticKind, hit_offsets_increase, scan_hits};

verus! {

/// The finished blocks of two runs are those of the one, then those of the other.
proof fn finished_ids_of_parts(a: Seq<BlockView>, b: Seq<BlockView>)
    ensures
        finished_ids(a + b) == finished_ids(a) + finished_ids(b),
    decreases b.len(),
{
    if b.len() == 0 {
        assert(a + b =~= a);
        assert(finished_ids(a) + finished_ids(b) =~= finished_ids(a));
    } else {
        finished_ids_of_parts(a, b.drop_last());
        assert((a + b).drop_last() =~= a + b.drop_last());
        assert((a + b).last() == b.last());
        let x = finished_ids(a);
        let y = finished_ids(b.drop_last());
        assert((x + y).push(b.last().id) =~= x + y.push(b.last().id));
    }
}

/// Every finished id is the id of a block.
proof fn finished_id_has_a_block(blocks: Seq<BlockView>, k: int)
    requires
        0 <= k < finished_ids(blocks).len(),
    ensures
        exists|i: int|
            0 <= i < blocks.len() && (#[trigger] blocks[i]).id == finished_ids(blocks)[k]
                && blocks[i].end_line.is_some(),
    decreases blocks.len(),
{
    if blocks.len() > 0 {
        let head = blocks.drop_last();
        if blocks.last().end_line.is_some() && k == finished_ids(head).len() {
            assert(blocks[blocks.len() - 1].id == finished_ids(blocks)[k]);
        } else {
            finished_id_has_a_block(head, k);
            let i = choose|i: int|
                0 <= i < head.len() && (#[trigger] head[i]).id == finished_ids(head)[k]
                    && head[i].end_line.is_some();
            assert(blocks[i] == head[i]);
        }
    }
}

proof fn frozen_from_drops(frozen: Seq<FrozenView>, id: int, a: Seq<int>, b: Seq<int>)
    requires
        frozen_ids(frozen) == a + b,
        forall|i: int| 0 <= i < a.len() ==> #[trigger] a[i] < id,
        forall|i: int| 0 <= i < b.len() ==> #[trigger] b[i] >= id,
    ensures
        frozen_ids(frozen_from(frozen, id)) == b,
    decreases frozen.len(),
{
    let ids = frozen_ids(frozen);
    assert(ids.len() == frozen.len());
    assert(ids.len() == a.len() + b.len());
    if frozen.len() > 0 {
        assert(ids[0] == frozen[0].id);
    }
    if a.len() == 0 {
        assert(a + b =~= b);
        if frozen.len() > 0 {
            assert(b[0] >= id);
        }
    } else {
        assert(ids[0] == a[0]);
        assert forall|i: int| 0 <= i < frozen.len() - 1 implies #[trigger] frozen_ids(frozen.skip(1))[i]
            == (a.skip(1) + b)[i] by {
            assert(frozen_ids(frozen.skip(1))[i] == ids[i + 1]);
            assert(ids[i + 1] == (a + b)[i + 1]);
        }
        assert(frozen_ids(frozen.skip(1)) =~= a.skip(1) + b);
        assert forall|i: int| 0 <= i < a.skip(1).len() implies #[trigger] a.skip(1)[i] < id by {
            assert(a.skip(1)[i] == a[i + 1]);
        }
        frozen_from_drops(frozen.skip(1), id, a.skip(1), b);
    }
}

/// Dropping the oldest `k` blocks, and the buffers of those, keeps the buffers
/// those of the finished blocks.
proof fn dropping_keeps_lockstep(m: TermModel, k: int)
    requires
        m.ids_increase(),
        frozen_ids(m.frozen) == finished_ids(m.blocks),
        0 <= k < m.blocks.len(),
    ensures
        frozen_ids(frozen_from(m.frozen, m.blocks[k].id)) == finished_ids(m.blocks.skip(k)),
{
    let head = m.blocks.take(k);
    let tail = m.blocks.skip(k);
    let id = m.blocks[k].id;
    assert(head + tail =~= m.blocks);
    finished_ids_of_parts(head, tail);
    let a = finished_ids(head);
    let b = finished_ids(tail);
    assert forall|i: int| 0 <= i < a.len() implies #[trigger] a[i] < id by {
        finished_id_has_a_block(head, i);
        let j = choose|j: int| 0 <= j < head.len() && (#[trigger] head[j]).id == a[i] && head[j].end_line.is_some();
        assert(head[j] == m.blocks[j]);
        assert(m.blocks[j].id < m.blocks[k].id);
    }
    assert forall|i: int| 0 <= i < b.len() implies #[trigger] b[i] >= id by {
        finished_id_has_a_block(tail, i);
        let j = choose|j: int| 0 <= j < tail.len() && (#[trigger] tail[j]).id == b[i] && tail[j].end_line.is_some();
        assert(tail[j] == m.blocks[k + j]);
        if j > 0 {
            assert(m.blocks[k].id < m.blocks[k + j].id);
        }
    }
    frozen_from_drops(m.frozen, id, a, b);
}

/// The count of stale blocks is within the list, and never takes the last block.
pub proof fn stale_in_range(m: TermModel, i: int)
    requires
        0 <= i,
        i < m.blocks.len() || i == 0,
    ensures
        i <= m.stale(i),
        m.stale(i) < m.blocks.len() || m.stale(i) == 0,
    decreases m.blocks.len() - i,
{
    if i + 1 < m.blocks.len() && m.blocks[i + 1].prompt_line <= m.oldest_kept() && !m.backed(i) {
        stale_in_range(m, i + 1);
    }
}

/// Dropping the oldest `k` blocks, with their buffers, keeps the terminal
/// well-formed.
proof fn dropping_keeps_wf(m: TermModel, k: int)
    requires
        m.wf(),
        0 <= k < m.blocks.len(),
    ensures
        (TermModel {
            blocks: m.blocks.skip(k),
            frozen: frozen_from(m.frozen, m.blocks[k].id),
            ..m
        }).wf(),
{
    let p = TermModel {
        blocks: m.blocks.skip(k),
        frozen: frozen_from(m.frozen, m.blocks[k].id),
        ..m
    };
    dropping_keeps_lockstep(m, k);
    assert forall|i: int| 0 <= i < p.blocks.len() implies block_lines_ok(#[trigger] p.blocks[i]) && 1
        <= p.blocks[i].id < p.next_id by {
        assert(p.blocks[i] == m.blocks[k + i]);
    }
    assert forall|i: int, j: int| 0 <= i < j < p.blocks.len() implies (#[trigger] p.blocks[i]).id < (
    #[trigger] p.blocks[j]).id by {
        assert(p.blocks[i] == m.blocks[k + i]);
        assert(p.blocks[j] == m.blocks[k + j]);
    }
}

/// Pruning keeps the terminal well-formed, keeps the newest block, and leaves no
/// more than the cap.
pub proof fn pruning_keeps_wf(m: TermModel)
    requires
        m.wf(),
    ensures
        m.pruned().wf(),
        m.pruned().blocks.len() <= MAX_BLOCKS,
        m.blocks.len() > 0 ==> m.pruned().blocks.len() > 0 && m.pruned().blocks.last()
            == m.blocks.last(),
{
    stale_in_range(m, 0);
    let k = m.stale(0);
    let rest = m.blocks.skip(k);
    let p = m.pruned();
    if m.blocks.len() == 0 {
        assert(rest =~= m.blocks);
        assert(frozen_ids(m.frozen).len() == m.frozen.len());
        assert(m.frozen =~= Seq::empty());
        assert(p == m);
    } else {
        let e = if rest.len() > MAX_BLOCKS {
            rest.len() - MAX_BLOCKS
        } else {
            0
        };
        assert(rest.skip(e) =~= m.blocks.skip(k + e));
        assert(rest.skip(0) =~= rest);
        assert(p.blocks =~= m.blocks.skip(k + e));
        assert(p.blocks[0] == m.blocks[k + e]);
        dropping_keeps_wf(m, k + e);
        assert(p == (TermModel {
            blocks: m.blocks.skip(k + e),
            frozen: frozen_from(m.frozen, m.blocks[k + e].id),
            ..m
        }));
    }
}

/// A new last block with the same id, and lines within bounds, keeps ids and
/// lines in order.
proof fn replacing_last_keeps_order(m: TermModel, b: BlockView)
    requires
        m.wf(),
        m.blocks.len() > 0,
        b.id == m.blocks.last().id,
        block_lines_ok(b),
    ensures
        m.with_last(b).ids_increase(),
        forall|i: int|
            0 <= i < m.with_last(b).blocks.len() ==> block_lines_ok(
                #[trigger] m.with_last(b).blocks[i],
            ),
        m.with_last(b).blocks.len() == m.blocks.len(),
        m.with_last(b).blocks.drop_last() == m.blocks.drop_last(),
{
    let w = m.with_last(b);
    let n = m.blocks.len() - 1;
    assert(w.blocks.drop_last() =~= m.blocks.drop_last());
    assert forall|i: int| 0 <= i < w.blocks.len() implies block_lines_ok(#[trigger] w.blocks[i]) && 1
        <= w.blocks[i].id < w.next_id by {
        assert(block_lines_ok(m.blocks[i]));
        assert(w.blocks[i].id == m.blocks[i].id);
    }
    assert forall|i: int, j: int| 0 <= i < j < w.blocks.len() implies (#[trigger] w.blocks[i]).id < (
    #[trigger] w.blocks[j]).id by {
        assert(w.blocks[i].id == m.blocks[i].id);
        assert(w.blocks[j].id == m.blocks[j].id);
    }
}

/// Changing the last block without finishing it keeps the terminal well-formed.
pub proof fn editing_last_keeps_wf(m: TermModel, b: BlockView)
    requires
        m.wf(),
        m.blocks.len() > 0,
        b.id == m.blocks.last().id,
        b.end_line.is_some() == m.blocks.last().end_line.is_some(),
        block_lines_ok(b),
    ensures
        m.with_last(b).wf(),
{
    replacing_last_keeps_order(m, b);
    assert(finished_ids(m.with_last(b).blocks) == finished_ids(m.blocks));
}

/// The newest finished id is that of the last block exactly where it is finished.
proof fn last_finished_id(m: TermModel)
    requires
        m.ids_increase(),
        m.blocks.len() > 0,
    ensures
        ({
            let ids = finished_ids(m.blocks);
            &&& m.blocks.last().end_line.is_some() ==> ids.len() > 0 && ids.last()
                == m.blocks.last().id
            &&& m.blocks.last().end_line.is_none() && ids.len() > 0 ==> ids.last()
                != m.blocks.last().id
        }),
{
    let head = m.blocks.drop_last();
    let ids = finished_ids(m.blocks);
    if m.blocks.last().end_line.is_none() && ids.len() > 0 {
        let k = ids.len() - 1;
        finished_id_has_a_block(head, k);
        let j = choose|j: int| 0 <= j < head.len() && (#[trigger] head[j]).id == ids[k] && head[j].end_line.is_some();
        assert(head[j] == m.blocks[j]);
        assert(m.blocks[j].id < m.blocks[m.blocks.len() - 1].id);
    }
}

/// Finishing the last block keeps the terminal well-formed.
pub proof fn finishing_keeps_wf(m: TermModel, exit: Option<i32>, line: int)
    requires
        m.wf(),
        m.blocks.len() > 0,
        is_line(line),
    ensures
        m.finished(exit, line).wf(),
{
    let b = m.blocks.last();
    let d = m.finished(exit, line);
    let closed = d.blocks.last();
    assert(block_lines_ok(m.blocks[m.blocks.len() - 1]));
    replacing_last_keeps_order(m, closed);
    assert(d.blocks == m.with_last(closed).blocks);
    last_finished_id(m);
    let head = finished_ids(m.blocks.drop_last());
    assert(finished_ids(d.blocks) == head.push(b.id));
    assert(frozen_ids(m.frozen).len() == m.frozen.len());
    if m.frozen.len() > 0 {
        assert(frozen_ids(m.frozen).last() == m.frozen.last().id);
    }
    if b.end_line.is_some() {
        assert(finished_ids(m.blocks) == head.push(b.id));
        assert forall|i: int| 0 <= i < head.len() implies #[trigger] frozen_ids(m.frozen.drop_last())[i]
            == head[i] by {
            assert(frozen_ids(m.frozen)[i] == head.push(b.id)[i]);
        }
        assert(frozen_ids(m.frozen.drop_last()) =~= head);
        assert(frozen_ids(d.frozen) =~= head.push(b.id));
    } else {
        assert(finished_ids(m.blocks) == head);
        assert(frozen_ids(d.frozen) =~= head.push(b.id));
    }
}

/// Opening a block keeps the terminal well-formed.
pub proof fn opening_keeps_wf(m: TermModel, line: int)
    requires
        m.wf(),
        is_line(line),
    ensures
        m.opened(line).wf(),
{
    pruning_keeps_wf(m);
    let p = m.pruned();
    let o = m.opened(line);
    if p.next_id < u32::MAX {
        let b = fresh_block(p.next_id, line, p.pending_cwd);
        assert(o.blocks.drop_last() =~= p.blocks);
        assert(o.blocks.last() == b);
        assert(finished_ids(o.blocks) == finished_ids(p.blocks));
        assert forall|i: int| 0 <= i < o.blocks.len() implies block_lines_ok(#[trigger] o.blocks[i]) && 1
            <= o.blocks[i].id < o.next_id by {
            if i < p.blocks.len() {
                assert(o.blocks[i] == p.blocks[i]);
                assert(block_lines_ok(p.blocks[i]));
            }
        }
        assert forall|i: int, j: int| 0 <= i < j < o.blocks.len() implies (#[trigger] o.blocks[i]).id < (
        #[trigger] o.blocks[j]).id by {
            assert(o.blocks[i] == p.blocks[i]);
            if j < p.blocks.len() {
                assert(o.blocks[j] == p.blocks[j]);
            }
        }
    }
}

/// Every semantic marker keeps the terminal well-formed.
pub proof fn semantic_keeps_wf(m: TermModel, kind: SemanticKind, line: int, col: int)
    requires
        m.wf(),
        is_line(line),
    ensures
        m.after_semantic(kind, line, col).wf(),
{
    if m.blocks.len() > 0 {
        assert(block_lines_ok(m.blocks[m.blocks.len() - 1]));
    }
    match kind {
        SemanticKind::PromptStart => {
            opening_keeps_wf(m, line);
        },
        SemanticKind::PromptEnd => {
            if m.blocks.len() > 0 {
                editing_last_keeps_wf(m, m.after_semantic(kind, line, col).blocks.last());
            }
        },
        SemanticKind::OutputStart => {
            if m.blocks.len() > 0 && m.blocks.last().output_line.is_none() {
                editing_last_keeps_wf(m, m.after_semantic(kind, line, col).blocks.last());
            }
        },
        SemanticKind::CommandFinished(exit) => {
            if m.blocks.len() > 0 {
                finishing_keeps_wf(m, exit, line);
            }
        },
    }
}

/// Every marker keeps the terminal well-formed.
pub proof fn marker_keeps_wf(m: TermModel, mk: MarkerView)
    requires
        m.wf(),
    ensures
        m.marked_by(mk).wf(),
        m.marked_by(mk).cols == m.cols,
        m.marked_by(mk).rows == m.rows,
        m.marked_by(mk).halted == m.halted,
{
    match mk {
        MarkerView::Semantic(kind) => {
            semantic_keeps_wf(m, kind, m.cursor_abs(), m.cursor_col());
        },
        MarkerView::Cwd(path) => {
            if m.blocks.len() > 0 && m.blocks.last().cwd.is_none() {
                assert(block_lines_ok(m.blocks[m.blocks.len() - 1]));
                editing_last_keeps_wf(m, m.marked_by(mk).blocks.last());
            }
        },
        MarkerView::Completion(_) => {},
    }
}

/// What becomes of two runs of events, one after the other, is what becomes of each.
pub proof fn forwarding_joins(a: Seq<EmuEventView>, b: Seq<EmuEventView>)
    ensures
        forwarded_all(a + b) == forwarded_all(a) + forwarded_all(b),
    decreases b.len(),
{
    if b.len() == 0 {
        assert(a + b =~= a);
        assert(forwarded_all(a) + forwarded_all(b) =~= forwarded_all(a));
    } else {
        forwarding_joins(a, b.drop_last());
        assert((a + b).drop_last() =~= a + b.drop_last());
        assert((a + b).last() == b.last());
        assert(forwarded_all(a + b) =~= forwarded_all(a) + forwarded_all(b));
    }
}

/// Taking in bytes keeps the terminal well-formed.
pub proof fn feeding_keeps_wf(m: TermModel, bytes: Seq<u8>)
    requires
        m.wf(),
    ensures
        m.fed(bytes).wf(),
        m.fed(bytes).cols == m.cols,
        m.fed(bytes).rows == m.rows,
        m.fed(bytes).halted == m.halted,
{
    if bytes.len() > 0 {
        let log = m.log.push(EmuOp::Feed(bytes));
        assert(log.drop_last() =~= m.log);
        assert(log_size(log) == log_size(m.log));
        let f = m.fed(bytes);
        assert(finished_ids(Seq::empty()) =~= Seq::<int>::empty());
        assert(frozen_ids(Seq::empty()) =~= Seq::<int>::empty());
    }
}

/// Taking in the chunk up to its `n`th marker keeps the terminal well-formed.
pub proof fn hits_keep_wf(m: TermModel, st: crate::osc133::ScanState, bytes: Seq<u8>, n: int)
    requires
        m.wf(),
        0 <= n <= scan_hits(st, bytes).len(),
    ensures
        m.after_hits(bytes, scan_hits(st, bytes), n).wf(),
        m.after_hits(bytes, scan_hits(st, bytes), n).cols == m.cols,
        m.after_hits(bytes, scan_hits(st, bytes), n).rows == m.rows,
        m.after_hits(bytes, scan_hits(st, bytes), n).halted == m.halted,
    decreases n,
{
    let hits = scan_hits(st, bytes);
    hit_offsets_increase(st, bytes);
    if n > 0 {
        hits_keep_wf(m, st, bytes, n - 1);
        let p = m.after_hits(bytes, hits, n - 1);
        let from = if n == 1 {
            0
        } else {
            hits[n - 2].0
        };
        let to = hits[n - 1].0;
        assert(1 <= hits[n - 1].0 <= bytes.len());
        if n > 1 {
            assert(hits[n - 2].0 < hits[n - 1].0);
            assert(1 <= hits[n - 2].0);
        }
        feeding_keeps_wf(p, bytes.subrange(from, to));
        marker_keeps_wf(p.fed(bytes.subrange(from, to)), hits[n - 1].1);
    }
}

/// Processing output keeps the terminal well-formed: whatever bytes arrive, ids
/// stay in order, and the frozen buffers stay those of the finished blocks.
pub proof fn processing_keeps_wf(m: TermModel, bytes: Seq<u8>)
    requires
        m.wf(),
    ensures
        m.processed(bytes).wf(),
        m.processed(bytes).cols == m.cols,
        m.processed(bytes).rows == m.rows,
        m.processed(bytes).halted == m.halted,
{
    let hits = scan_hits(m.scan, bytes);
    let start = m.begun(bytes);
    hits_keep_wf(start, m.scan, bytes, hits.len() as int);
    hit_offsets_increase(m.scan, bytes);
    let p = start.after_hits(bytes, hits, hits.len() as int);
    let from = if hits.len() == 0 {
        0
    } else {
        hits.last().0
    };
    if hits.len() > 0 {
        assert(1 <= hits[hits.len() - 1].0 <= bytes.len());
    }
    feeding_keeps_wf(p, bytes.subrange(from, bytes.len() as int));
}

/// Stacked lines are within bounds.
pub proof fn stack_in_bounds(frozen: Seq<FrozenView>, base: int, i: int)
    requires
        0 <= base <= crate::model::LINE_LIMIT + 65535,
        0 <= i < frozen.len(),
    ensures
        -crate::model::LINE_LIMIT - 1 <= stack_end(frozen, base, i) <= crate::model::LINE_LIMIT + 65535,
        -crate::model::LINE_LIMIT <= stack_start(frozen, base, i) <= crate::model::LINE_LIMIT + 65535,
    decreases frozen.len() - i,
{
    if i + 1 < frozen.len() {
        stack_in_bounds(frozen, base, i + 1);
    }
}

proof fn finished_ids_depend_on(a: Seq<BlockView>, b: Seq<BlockView>)
    requires
        a.len() == b.len(),
        forall|i: int|
            0 <= i < a.len() ==> (#[trigger] a[i]).id == b[i].id && a[i].end_line.is_some()
                == b[i].end_line.is_some(),
    ensures
        finished_ids(a) == finished_ids(b),
    decreases a.len(),
{
    if a.len() > 0 {
        assert forall|i: int| 0 <= i < a.drop_last().len() implies (#[trigger] a.drop_last()[i]).id
            == b.drop_last()[i].id && a.drop_last()[i].end_line.is_some()
            == b.drop_last()[i].end_line.is_some() by {
            assert(a.drop_last()[i] == a[i]);
            assert(b.drop_last()[i] == b[i]);
        }
        finished_ids_depend_on(a.drop_last(), b.drop_last());
        assert(a[a.len() - 1] == a.last());
        assert(b[b.len() - 1] == b.last());
    }
}

/// Re-wrapping the frozen buffers and moving the blocks to match keeps the terminal
/// well-formed.
pub proof fn reanchoring_keeps_wf(m: TermModel, cols: int)
    requires
        m.wf(),
    ensures
        m.reanchored(cols).wf(),
{
    let r = m.reanchored(cols);
    if m.blocks.len() == 0 || !m.aligned() {
        assert(finished_ids(Seq::empty()) =~= Seq::<int>::empty());
        assert(frozen_ids(Seq::empty()) =~= Seq::<int>::empty());
    } else {
        let frozen = m.reflowed_frozen(cols);
        let base = m.reflow_base();
        finished_blocks_when_aligned(m);
        assert forall|i: int| 0 <= i < r.blocks.len() implies block_lines_ok(#[trigger] r.blocks[i]) && 1
            <= r.blocks[i].id < r.next_id && r.blocks[i].id == m.blocks[i].id
            && r.blocks[i].end_line.is_some() == m.blocks[i].end_line.is_some() by {
            assert(block_lines_ok(m.blocks[i]));
            if i < frozen.len() {
                stack_in_bounds(frozen, base, i);
                assert(r.blocks[i] == stacked(m.blocks[i], frozen, base, i));
            } else {
                assert(r.blocks[i] == pinned(m.blocks[i], base));
            }
        }
        assert forall|i: int, j: int| 0 <= i < j < r.blocks.len() implies (#[trigger] r.blocks[i]).id < (
        #[trigger] r.blocks[j]).id by {
            assert(r.blocks[i].id == m.blocks[i].id);
            assert(r.blocks[j].id == m.blocks[j].id);
        }
        finished_ids_depend_on(r.blocks, m.blocks);
        assert(frozen_ids(r.frozen) =~= frozen_ids(m.frozen));
    }
}

/// Where the buffers are aligned with the blocks, every block that has one is
/// finished.
proof fn finished_blocks_when_aligned(m: TermModel)
    requires
        m.wf(),
        m.aligned(),
    ensures
        forall|i: int| 0 <= i < m.frozen.len() ==> (#[trigger] m.blocks[i]).end_line.is_some(),
{
    assert forall|i: int| 0 <= i < m.frozen.len() implies (#[trigger] m.blocks[i]).end_line.is_some() by {
        let ids = finished_ids(m.blocks);
        assert(frozen_ids(m.frozen)[i] == m.frozen[i].id);
        assert(m.frozen[i].id == m.blocks[i].id);
        finished_id_has_a_block(m.blocks, i);
        let j = choose|j: int| 0 <= j < m.blocks.len() && (#[trigger] m.blocks[j]).id == ids[i] && m.blocks[j].end_line.is_some();
        if i < j {
            assert(m.blocks[i].id < m.blocks[j].id);
        } else if j < i {
            assert(m.blocks[j].id < m.blocks[i].id);
        }
    }
}

/// A resize keeps the terminal well-formed.
pub proof fn resizing_keeps_wf(m: TermModel, cols: u16, rows: u16)
    requires
        m.wf(),
    ensures
        m.resized(cols, rows).wf(),
{
    let c = crate::emulator::at_least_one(cols) as int;
    let r = crate::emulator::at_least_one(rows) as int;
    let log = m.log.push(EmuOp::Resize { cols: c, rows: r });
    let n = TermModel { cols: c, rows: r, log, pending_cwd: None, ..m };
    reanchoring_keeps_wf(
        TermModel {
            prev_history: crate::emulator::grid_history(n.log) as int,
            prev_alt: n.alt(),
            ..n
        },
        cols as int,
    );
}

} // verus!
