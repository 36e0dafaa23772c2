use vstd::arithmetic::div_mod::{
    lemma_div_is_ordered, lemma_fundamental_div_mod, lemma_fundamental_div_mod_converse,
    lemma_mod_pos_bound,
};
use vstd::arithmetic::mul::lemma_mul_inequality;
use vstd::prelude::*;

verus! {

/// An inclusive range of block heights, queried in one log request.
#[derive(Clone, Copy, Debug, PartialEq, Eq, Structural)]
pub struct BlockBatch {
    pub from: u64,
    pub to: u64,
}

/// The upper bound of a scan: the configured end block, or else the chain head.
pub open spec fn resolve_end(max: Option<u64>, chain_head: u64) -> u64 {
    match max {
        Some(e) => e,
        None => chain_head,
    }
}

/// How many windows of `size` blocks cover `[start, end]`.
pub open spec fn window_count(start: int, end: int, size: int) -> int {
    if start > end {
        0
    } else {
        (end - start) / size + 1
    }
}

/// First block of window `i`.
pub open spec fn window_from(start: int, size: int, i: int) -> int {
    start + i * size
}

/// Last block of window `i`: a full window, cut at `end`.
pub open spec fn window_to(start: int, end: int, size: int, i: int) -> int {
    if start + (i + 1) * size - 1 < end {
        start + (i + 1) * size - 1
    } else {
        end
    }
}

/// The windows that partition `[start, end]`, in ascending order.
pub open spec fn plan_spec(start: u64, end: u64, size: u64) -> Seq<BlockBatch> {
    Seq::new(
        window_count(start as int, end as int, size as int) as nat,
        |i: int|
            BlockBatch {
                from: window_from(start as int, size as int, i) as u64,
                to: window_to(start as int, end as int, size as int, i) as u64,
            },
    )
}

/// Window `i` starts at or below `d` blocks past the start exactly when `i` is
/// at most `d / size`.
proof fn lemma_index_le_quotient(d: int, size: int, i: int)
    requires
        0 <= d,
        0 < size,
        0 <= i,
    ensures
        i <= d / size <==> i * size <= d,
        (i + 1) * size == i * size + size,
{
    let q = d / size;
    lemma_fundamental_div_mod(d, size);
    lemma_mod_pos_bound(d, size);
    assert((i + 1) * size == i * size + size) by (nonlinear_arith);
    assert((q + 1) * size == q * size + size) by (nonlinear_arith);
    assert(size * q == q * size) by (nonlinear_arith);
    if i <= q {
        lemma_mul_inequality(i, q, size);
    } else {
        lemma_mul_inequality(q + 1, i, size);
    }
}

/// Facts on window `i` of a non-empty plan.
pub(crate) proof fn lemma_window_bounds(start: int, end: int, size: int, i: int)
    requires
        0 <= start <= end,
        0 < size,
        0 <= i < window_count(start, end, size),
    ensures
        start <= window_from(start, size, i) <= window_to(start, end, size, i) <= end,
        window_to(start, end, size, i) - window_from(start, size, i) < size,
        i + 1 < window_count(start, end, size) ==> window_to(start, end, size, i) + 1
            == window_from(start, size, i + 1),
        i + 1 == window_count(start, end, size) <==> window_to(start, end, size, i) == end,
        (i + 1) * size == i * size + size,
{
    let d = end - start;
    lemma_index_le_quotient(d, size, i);
    lemma_index_le_quotient(d, size, i + 1);
    assert(i * size >= 0) by (nonlinear_arith)
        requires
            i >= 0,
            size > 0,
    ;
}

/// Some window of `w` holds block `b`.
pub open spec fn window_holding(w: Seq<BlockBatch>, b: int) -> bool {
    exists|i: int| 0 <= i < w.len() && (#[trigger] w[i]).from <= b <= w[i].to
}

/// For `start <= end` the plan partitions `[start, end]`: its windows are
/// non-empty, at most `size` blocks wide, contiguous and in ascending order, so
/// that no two overlap; every block of the range lies in one of them and no
/// other block does; and there are `ceil((end - start + 1) / size)` of them.
pub proof fn lemma_plan_partitions_range(start: u64, end: u64, size: u64)
    requires
        start <= end,
        size > 0,
    ensures
        ({
            let w = plan_spec(start, end, size);
            &&& w.len() == (end - start + 1 + size - 1) / (size as int)
            &&& w.len() > 0
            &&& w[0].from == start
            &&& w[w.len() - 1].to == end
            &&& forall|i: int|
                0 <= i < w.len() ==> start <= #[trigger] w[i].from <= w[i].to <= end && w[i].to
                    - w[i].from < size
            &&& forall|i: int| 0 <= i < w.len() - 1 ==> #[trigger] w[i + 1].from == w[i].to + 1
            &&& forall|i: int, j: int| 0 <= i < j < w.len() ==> #[trigger] w[i].to < #[trigger] w[j].from
            &&& forall|b: int| start <= b <= end <==> #[trigger] window_holding(w, b)
        }),
{
    let w = plan_spec(start, end, size);
    let (s, e, z) = (start as int, end as int, size as int);
    let d = e - s;
    let q = d / z;
    lemma_fundamental_div_mod(d, z);
    lemma_mod_pos_bound(d, z);
    assert(d + z == (q + 1) * z + d % z) by (nonlinear_arith)
        requires
            d == z * q + d % z,
    ;
    lemma_fundamental_div_mod_converse(d + z, z, q + 1, d % z);
    assert forall|i: int| 0 <= i < w.len() implies s <= #[trigger] w[i].from <= w[i].to <= e && w[i].to
        - w[i].from < z && w[i].from == window_from(s, z, i) && w[i].to == window_to(s, e, z, i) by {
        lemma_window_bounds(s, e, z, i);
    }
    lemma_window_bounds(s, e, z, 0);
    lemma_window_bounds(s, e, z, w.len() - 1);
    assert forall|i: int| 0 <= i < w.len() - 1 implies #[trigger] w[i + 1].from == w[i].to + 1 by {
        lemma_window_bounds(s, e, z, i);
    }
    assert forall|i: int, j: int| 0 <= i < j < w.len() implies #[trigger] w[i].to
        < #[trigger] w[j].from by {
        lemma_window_bounds(s, e, z, i);
        lemma_mul_inequality(i + 1, j, z);
    }
    assert forall|b: int| s <= b <= e <==> #[trigger] window_holding(w, b) by {
        if s <= b <= e {
            let k = (b - s) / z;
            lemma_index_le_quotient(b - s, z, k);
            lemma_index_le_quotient(b - s, z, k + 1);
            lemma_div_is_ordered(b - s, d, z);
            assert(k >= 0) by {
                lemma_div_is_ordered(0, b - s, z);
            }
            lemma_window_bounds(s, e, z, k);
            assert(w[k].from <= b <= w[k].to);
        }
    }
}

/// A range that starts after it ends is planned as no windows at all.
pub proof fn lemma_plan_empty_when_start_after_end(start: u64, end: u64, size: u64)
    requires
        start > end,
    ensures
        plan_spec(start, end, size).len() == 0,
{
}

/// The window that starts at `from`, cut at `end`.
pub fn window_starting_at(from: u64, end: u64, size: u64) -> (b: BlockBatch)
    requires
        from <= end,
        size > 0,
    ensures
        b.from == from,
        b.to == (if from + size - 1 < end {
            from + size - 1
        } else {
            end as int
        }),
{
    let to = if end - from < size {
        end
    } else {
        from + (size - 1)
    };
    BlockBatch { from, to }
}

/// Partitions `[genesis, end]` into windows of `batch_size` blocks, where `end`
/// is `max` if given and `chain_head` otherwise. The last window may be
/// narrower; a range with `genesis > end` has no windows.
pub fn get_batches(genesis: u64, max: Option<u64>, batch_size: u64, chain_head: u64) -> (r: Vec<
    BlockBatch,
>)
    requires
        batch_size > 0,
    ensures
        r@ == plan_spec(genesis, resolve_end(max, chain_head), batch_size),
{
    let end = match max {
        Some(e) => e,
        None => chain_head,
    };
    let ghost plan = plan_spec(genesis, end, batch_size);
    let mut res: Vec<BlockBatch> = Vec::new();
    if genesis > end {
        assert(res@ =~= plan);
        return res;
    }
    let mut from: u64 = genesis;
    let ghost mut i: int = 0;
    loop
        invariant
            genesis <= from <= end,
            batch_size > 0,
            0 <= i < plan.len(),
            plan == plan_spec(genesis, end, batch_size),
            end == resolve_end(max, chain_head),
            from == window_from(genesis as int, batch_size as int, i),
            res@ == plan.take(i),
        decreases end - from,
    {
        proof {
            lemma_window_bounds(genesis as int, end as int, batch_size as int, i);
        }
        let b = window_starting_at(from, end, batch_size);
        assert(b == plan[i]);
        res.push(b);
        assert(res@ =~= plan.take(i + 1));
        if b.to == end {
            assert(i + 1 == plan.len());
            assert(res@ =~= plan);
            return res;
        }
        from = b.to + 1;
        proof {
            i = i + 1;
        }
    }
}

} // verus!
