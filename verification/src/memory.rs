//! Estimates of the memory that a context takes.
use vstd::prelude::*;

use crate::cache::{comp_cap, ds4_default_comp_cap};
use crate::types::{
    Backend, ContextMemory, DS4_N_HEAD_DIM, DS4_N_INDEXER_HEAD_DIM, DS4_N_LAYER,
};
use crate::weights::{compress_ratio, layer_compress_ratio};

verus! {

/// Raw rows of the CPU path: all up to 256 tokens, a quarter of what is beyond.
pub open spec fn cpu_raw_cap(ctx: int) -> int {
    if ctx <= 256 {
        ctx
    } else {
        256 + (ctx - 256) / 4
    }
}

/// Prefill capacity of the Metal graph: all up to 2048 tokens, an eighth of what is
/// beyond.
pub open spec fn metal_prefill_cap(ctx: int) -> int {
    if ctx <= 2048 {
        ctx
    } else {
        2048 + (ctx - 2048) / 8
    }
}

/// Raw rows of the Metal graph: the context, with room for a prefill beyond 4096 tokens.
pub open spec fn metal_raw_cap(ctx: int, prefill_cap: int) -> int {
    if ctx <= 4096 {
        ctx
    } else {
        ctx + prefill_cap
    }
}

fn ds4_default_raw_cap(ctx: u32) -> (r: u32)
    ensures
        r == cpu_raw_cap(ctx as int),
{
    if ctx <= 256 {
        ctx
    } else {
        256 + (ctx - 256) / 4
    }
}

fn metal_graph_prefill_cap_for_prompt(ctx: i32) -> (r: u32)
    requires
        ctx >= 0,
    ensures
        r == metal_prefill_cap(ctx as int),
{
    if ctx <= 2048 {
        ctx as u32
    } else {
        2048 + ((ctx as u32 - 2048) / 8)
    }
}

fn metal_graph_raw_cap_for_context(ctx: i32, prefill_cap: u32) -> (r: u32)
    requires
        ctx >= 0,
        ctx > 4096 ==> ctx + prefill_cap <= u32::MAX,
    ensures
        r == metal_raw_cap(ctx as int, prefill_cap as int),
{
    let ctx: u32 = ctx as u32;
    if ctx <= 4096 {
        ctx
    } else {
        ctx + prefill_cap
    }
}

/// Bytes of the compressed rows of the first `n` layers, where a layer of ratio `r` has
/// `rows(r)` of them.
pub open spec fn compressed_bytes(rows: spec_fn(int) -> int, n: nat) -> int
    decreases n,
{
    if n == 0 {
        0
    } else {
        let ratio = compress_ratio(n - 1) as int;
        let attn = rows(ratio) * DS4_N_HEAD_DIM * 4;
        let index = rows(ratio) * DS4_N_INDEXER_HEAD_DIM * 4;
        compressed_bytes(rows, (n - 1) as nat) + if ratio == 0 {
            0
        } else if ratio == 4 {
            attn + index
        } else {
            attn
        }
    }
}

proof fn lemma_compressed_bound(rows: spec_fn(int) -> int, most: int, n: nat)
    requires
        n <= DS4_N_LAYER,
        0 <= rows(4) <= most,
        0 <= rows(128) <= most,
        most <= 0x4000_0000,
    ensures
        0 <= compressed_bytes(rows, n) <= n * most * 2560,
    decreases n,
{
    if n > 0 {
        lemma_compressed_bound(rows, most, (n - 1) as nat);
        assert(n * most * 2560 == (n - 1) * most * 2560 + most * 2560) by (nonlinear_arith);
    }
}

/// Bytes of `rows` rows of `width` singles.
fn row_bytes(rows: u32, width: u32) -> (r: u64)
    requires
        width <= 512,
    ensures
        r == rows * width * 4,
        r <= rows * 2048,
{
    let rows: u64 = rows as u64;
    let width: u64 = width as u64;
    assert(rows * width <= rows * 512) by (nonlinear_arith)
        requires
            width <= 512,
    ;
    rows * width * 4
}

/// Bytes of `raw_cap` raw rows in each layer.
fn raw_row_bytes(raw_cap: u32) -> (r: u64)
    ensures
        r == DS4_N_LAYER * raw_cap * DS4_N_HEAD_DIM * 4,
        r <= raw_cap * 88064,
{
    let one: u64 = row_bytes(raw_cap, DS4_N_HEAD_DIM);
    let layers: u64 = DS4_N_LAYER as u64;
    proof {
        let cap = raw_cap as int;
        assert(layers * one <= 43 * one) by (nonlinear_arith)
            requires
                layers == 43,
        ;
        assert(layers * (cap * 512 * 4) == layers * cap * 512 * 4) by (nonlinear_arith);
    }
    layers * one
}

/// The estimate for the Metal backend.
pub open spec fn metal_memory(ctx: int) -> ContextMemory {
    let prefill_cap = metal_prefill_cap(ctx);
    let raw_cap = metal_raw_cap(ctx, prefill_cap);
    let comp = comp_cap(ctx);
    let raw_bytes = DS4_N_LAYER * raw_cap * DS4_N_HEAD_DIM * 4;
    let compressed = compressed_bytes(|r: int| comp, DS4_N_LAYER as nat);
    let scratch_bytes = 2 * comp * prefill_cap * 4;
    ContextMemory {
        total_bytes: (raw_bytes + compressed + scratch_bytes) as u64,
        raw_bytes: raw_bytes as u64,
        compressed_bytes: compressed as u64,
        scratch_bytes: scratch_bytes as u64,
        prefill_cap: prefill_cap as u32,
        raw_cap: raw_cap as u32,
        comp_cap: comp as u32,
    }
}

/// The estimate for the CPU backend.
pub open spec fn cpu_memory(ctx: int) -> ContextMemory {
    let raw_cap = cpu_raw_cap(ctx);
    let comp = comp_cap(ctx);
    let raw_bytes = DS4_N_LAYER * raw_cap * DS4_N_HEAD_DIM * 4;
    let compressed = compressed_bytes(|r: int| ctx / r + 2, DS4_N_LAYER as nat);
    let scratch_bytes = (raw_cap + comp) * 4 + comp * 4 + comp;
    ContextMemory {
        total_bytes: (raw_bytes + compressed + scratch_bytes) as u64,
        raw_bytes: raw_bytes as u64,
        compressed_bytes: compressed as u64,
        scratch_bytes: scratch_bytes as u64,
        prefill_cap: 0,
        raw_cap: raw_cap as u32,
        comp_cap: comp as u32,
    }
}

fn metal_context_memory_estimate(ctx: u32) -> (r: ContextMemory)
    requires
        1 <= ctx <= i32::MAX,
    ensures
        r == metal_memory(ctx as int),
{
    let prefill_cap: u32 = metal_graph_prefill_cap_for_prompt(ctx as i32);
    let raw_cap: u32 = metal_graph_raw_cap_for_context(ctx as i32, prefill_cap);
    let comp_cap: u32 = ds4_default_comp_cap(ctx);
    let ghost rows = |r: int| comp_cap as int;
    let raw_bytes: u64 = raw_row_bytes(raw_cap);
    let mut compressed: u64 = 0;
    let mut il: u32 = 0;
    while il < DS4_N_LAYER
        invariant
            il <= DS4_N_LAYER,
            comp_cap <= 0x4000_0000,
            rows == (|r: int| comp_cap as int),
            compressed == compressed_bytes(rows, il as nat),
        decreases DS4_N_LAYER - il,
    {
        let ratio: u32 = layer_compress_ratio(il);
        proof {
            lemma_compressed_bound(rows, comp_cap as int, il as nat);
            assert(il * comp_cap * 2560 <= 43 * 0x4000_0000 * 2560) by (nonlinear_arith)
                requires
                    il <= 43,
                    comp_cap <= 0x4000_0000,
            ;
        }
        if ratio != 0 {
            compressed = compressed + row_bytes(comp_cap, DS4_N_HEAD_DIM);
            if ratio == 4 {
                compressed = compressed + row_bytes(comp_cap, DS4_N_INDEXER_HEAD_DIM);
            }
        }
        il = il + 1;
    }
    proof {
        lemma_compressed_bound(rows, comp_cap as int, DS4_N_LAYER as nat);
        assert(2 * comp_cap * prefill_cap <= 2 * 0x4000_0000 * 0x2000_0000) by (nonlinear_arith)
            requires
                comp_cap <= 0x4000_0000,
                prefill_cap <= 0x2000_0000,
        ;
        assert(metal_memory(ctx as int).compressed_bytes == compressed) by {
            assert((|r: int| crate::cache::comp_cap(ctx as int)) =~= rows);
        }
    }
    let scratch_bytes: u64 = 2 * comp_cap as u64 * prefill_cap as u64 * 4;
    ContextMemory {
        total_bytes: raw_bytes + compressed + scratch_bytes,
        raw_bytes,
        compressed_bytes: compressed,
        scratch_bytes,
        prefill_cap,
        raw_cap,
        comp_cap,
    }
}

fn cpu_context_memory_estimate(ctx: u32) -> (r: ContextMemory)
    requires
        1 <= ctx <= i32::MAX,
    ensures
        r == cpu_memory(ctx as int),
{
    let raw_cap: u32 = ds4_default_raw_cap(ctx);
    let raw_bytes: u64 = raw_row_bytes(raw_cap);
    let ghost rows = |r: int| ctx as int / r + 2;
    let mut compressed: u64 = 0;
    let mut comp_cap: u32 = 0;
    let mut il: u32 = 0;
    while il < DS4_N_LAYER
        invariant
            il <= DS4_N_LAYER,
            1 <= ctx <= i32::MAX,
            rows == (|r: int| ctx as int / r + 2),
            compressed == compressed_bytes(rows, il as nat),
            il > 2 ==> comp_cap == ctx / 4 + 2,
        decreases DS4_N_LAYER - il,
    {
        let ratio: u32 = layer_compress_ratio(il);
        proof {
            lemma_compressed_bound(rows, ctx / 4 + 2, il as nat);
            assert(il * (ctx / 4 + 2) * 2560 <= 43 * 0x4000_0000 * 2560) by (nonlinear_arith)
                requires
                    il <= 43,
                    ctx / 4 + 2 <= 0x4000_0000,
            ;
        }
        if ratio != 0 {
            let layer_cap: u32 = ctx / ratio + 2;
            if ratio == 4 {
                comp_cap = layer_cap;
            }
            compressed = compressed + row_bytes(layer_cap, DS4_N_HEAD_DIM);
            if ratio == 4 {
                compressed = compressed + row_bytes(layer_cap, DS4_N_INDEXER_HEAD_DIM);
            }
        }
        il = il + 1;
    }
    proof {
        lemma_compressed_bound(rows, ctx / 4 + 2, DS4_N_LAYER as nat);
        assert((|r: int| ctx as int / r + 2) =~= rows);
    }
    let scratch_bytes: u64 = (raw_cap + comp_cap) as u64 * 4 + comp_cap as u64 * 4 + comp_cap as u64;
    ContextMemory {
        total_bytes: raw_bytes + compressed + scratch_bytes,
        raw_bytes,
        compressed_bytes: compressed,
        scratch_bytes,
        prefill_cap: 0,
        raw_cap,
        comp_cap,
    }
}

/// The memory that a context of `ctx_size` tokens takes; a size that is not positive
/// counts as one token.
pub open spec fn context_memory(backend: Backend, ctx_size: i32) -> ContextMemory {
    let ctx = if ctx_size > 0 {
        ctx_size as int
    } else {
        1
    };
    if backend == Backend::Metal {
        metal_memory(ctx)
    } else {
        cpu_memory(ctx)
    }
}

/// The memory that a context takes.
pub fn context_memory_estimate(backend: Backend, ctx_size: i32) -> (r: ContextMemory)
    ensures
        r == context_memory(backend, ctx_size),
{
    let ctx: u32 = if ctx_size > 0 {
        ctx_size as u32
    } else {
        1
    };
    if backend == Backend::Metal {
        metal_context_memory_estimate(ctx)
    } else {
        cpu_context_memory_estimate(ctx)
    }
}

} // verus!
