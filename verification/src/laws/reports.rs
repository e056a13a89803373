//! What the reports are held to.
use vstd::prelude::*;

use crate::gguf::{MetaView, ModelView, TensorView};
use crate::laws::numbers::rounding_is_to_nearest;
use crate::memory::context_memory;
use crate::report::{
    aligned_right, backend_text, billions_text, billionths, bytes_text, head_lines,
    hundredths_text, memory_text, nearest_double, next_type, of_type, padded, shown, shown_items, spaces, sum_bytes, sum_elements, summary_lines,
    type_line, type_lines, type_text,
};
use crate::single::{nearest, two};
use crate::text::{dec, dec_int};
use crate::types::Backend;

verus! {

/// A value is shown as it is written: numbers in decimal, texts in quotes and truths by
/// their names.
pub proof fn values_are_shown_as_written(a: u64, b: i64, s: Seq<char>)
    ensures
        shown(MetaView::Uint64(a)) == dec(a as nat),
        shown(MetaView::Int64(b)) == dec_int(b as int),
        shown(MetaView::Bool(true)) == "true"@,
        shown(MetaView::Bool(false)) == "false"@,
        shown(MetaView::String(s)) == "\""@ + s + "\""@,
        forall|x: u8| #[trigger] shown(MetaView::Uint8(x)) == dec(x as nat),
        forall|x: u16| #[trigger] shown(MetaView::Uint16(x)) == dec(x as nat),
        forall|x: u32| #[trigger] shown(MetaView::Uint32(x)) == dec(x as nat),
        forall|x: i8| #[trigger] shown(MetaView::Int8(x)) == dec_int(x as int),
        forall|x: i16| #[trigger] shown(MetaView::Int16(x)) == dec_int(x as int),
        forall|x: i32| #[trigger] shown(MetaView::Int32(x)) == dec_int(x as int),
{
}

/// An array is shown in brackets, its items in their order and behind commas.
pub proof fn arrays_are_shown_in_brackets(items: Seq<MetaView>, x: MetaView)
    ensures
        shown(MetaView::Array(items)) == "["@ + shown_items(items, items.len()) + "]"@,
        shown_items(items.push(x), items.len() + 1) == if items.len() == 0 {
            shown(x)
        } else {
            shown_items(items, items.len()) + ", "@ + shown(x)
        },
{
    lemma_shown_prefix(items, x, items.len());
    assert(items.push(x)[items.len() as int] == x);
    if items.len() == 0 {
        assert(Seq::<char>::empty() + Seq::<char>::empty() + shown(x) =~= shown(x));
    }
}

proof fn lemma_shown_prefix(items: Seq<MetaView>, x: MetaView, n: nat)
    requires
        n <= items.len(),
    ensures
        shown_items(items.push(x), n) == shown_items(items, n),
    decreases n,
{
    if n > 0 {
        lemma_shown_prefix(items, x, (n - 1) as nat);
        assert(items.push(x)[n - 1] == items[n - 1]);
    }
}

/// The totals of a model add up over its tensors, and so do those of one type.
pub proof fn totals_add_up(ts: Seq<TensorView>, t: TensorView, tag: u32)
    ensures
        sum_bytes(ts.push(t), ts.len() + 1) == sum_bytes(ts, ts.len()) + t.bytes,
        sum_elements(ts.push(t), ts.len() + 1) == sum_elements(ts, ts.len()) + t.elements,
        ({
            let (c, b) = of_type(ts, tag, ts.len());
            let (d, e) = of_type(ts.push(t), tag, ts.len() + 1);
            &&& t.tensor_type == tag ==> d == c + 1 && e == b + t.bytes
            &&& t.tensor_type != tag ==> d == c && e == b
        }),
        sum_bytes(Seq::empty(), 0) == 0 && sum_elements(Seq::empty(), 0) == 0,
        of_type(Seq::empty(), tag, 0) == (0int, 0int),
{
    lemma_totals_prefix(ts, t, tag, ts.len());
    assert(ts.push(t)[ts.len() as int] == t);
}

proof fn lemma_totals_prefix(ts: Seq<TensorView>, t: TensorView, tag: u32, n: nat)
    requires
        n <= ts.len(),
    ensures
        sum_bytes(ts.push(t), n) == sum_bytes(ts, n),
        sum_elements(ts.push(t), n) == sum_elements(ts, n),
        of_type(ts.push(t), tag, n) == of_type(ts, tag, n),
    decreases n,
{
    if n > 0 {
        lemma_totals_prefix(ts, t, tag, (n - 1) as nat);
        assert(ts.push(t)[n - 1] == ts[n - 1]);
    }
}

/// The types of a model are listed in the order of their tags: next comes the smallest tag
/// that is larger than the last.
pub proof fn types_are_listed_in_order(ts: Seq<TensorView>, last: int, i: int)
    requires
        last < u32::MAX,
    ensures
        match next_type(ts, last, ts.len()) {
            Some(tag) => {
                &&& tag > last
                &&& exists|j: int| 0 <= j < ts.len() && (#[trigger] ts[j]).tensor_type == tag
                &&& 0 <= i < ts.len() && ts[i].tensor_type > last ==> ts[i].tensor_type >= tag
                &&& type_lines(ts, last) == seq![type_line(ts, tag)] + type_lines(ts, tag as int)
            },
            None => {
                &&& 0 <= i < ts.len() ==> ts[i].tensor_type <= last
                &&& type_lines(ts, last).len() == 0
            },
        },
{
    lemma_next(ts, last, ts.len(), i);
}

proof fn lemma_next(ts: Seq<TensorView>, last: int, n: nat, i: int)
    requires
        n <= ts.len(),
    ensures
        match next_type(ts, last, n) {
            Some(tag) => {
                &&& tag > last
                &&& exists|j: int| 0 <= j < n && (#[trigger] ts[j]).tensor_type == tag
                &&& 0 <= i < n && ts[i].tensor_type > last ==> ts[i].tensor_type >= tag
            },
            None => 0 <= i < n ==> ts[i].tensor_type <= last,
        },
    decreases n,
{
    if n > 0 {
        lemma_next(ts, last, (n - 1) as nat, i);
        let t = ts[n - 1].tensor_type;
    }
}

/// The line of a type names it, counts its tensors and tells their bytes.
pub proof fn type_lines_tell_counts(ts: Seq<TensorView>, tag: u32)
    ensures
        ({
            let (count, bytes) = of_type(ts, tag, ts.len());
            type_line(ts, tag) == "  "@ + padded(type_text(tag), 8) + " "@ + aligned_right(
                dec(count as nat),
                5,
            ) + " tensors, "@ + bytes_text(bytes as nat)
        }),
        type_text(8) == "q8_0"@,
        type_text(16) == "iq2_xxs"@,
        tag > 26 ==> type_text(tag) == "type_"@ + dec(tag as nat),
{
}

/// A text that is filled up keeps its characters and gets spaces, up to the width.
pub proof fn filling_adds_spaces(s: Seq<char>, width: int, i: int)
    requires
        0 <= s.len() <= width,
        0 <= i < width,
    ensures
        padded(s, width).len() == width && aligned_right(s, width).len() == width,
        padded(s, width)[i] == if i < s.len() {
            s[i]
        } else {
            ' '
        },
        aligned_right(s, width)[i] == if i < width - s.len() {
            ' '
        } else {
            s[i - (width - s.len())]
        },
{
    lemma_spaces(width - s.len());
}

proof fn lemma_spaces(n: int)
    requires
        n >= 0,
    ensures
        spaces(n).len() == n,
        forall|i: int| 0 <= i < n ==> #[trigger] spaces(n)[i] == ' ',
    decreases n,
{
    if n > 0 {
        lemma_spaces(n - 1);
    }
}

/// Hundredths are written with two digits behind the point.
pub proof fn hundredths_have_two_digits(a: nat, b: nat, c: nat)
    requires
        b < 10,
        c < 10,
    ensures
        hundredths_text(100 * a + 10 * b + c) == dec(a) + seq!['.'] + dec(b) + dec(c),
{
    let h = (100 * a + 10 * b + c) as nat;
    assert(h / 100 == a && h / 10 % 10 == b && h % 10 == c);
    assert(hundredths_text(h) =~= dec(a) + seq!['.'] + dec(b) + dec(c));
}

/// What is said of the memory of a context: its MiB, rounded to two decimals, and its
/// capacities.
pub proof fn memory_is_told(backend: Backend, ctx: i32)
    ensures
        ({
            let m = context_memory(backend, ctx);
            let mib = hundredths_text(
                nearest(nearest_double(m.total_bytes as nat) as int * 100, 1048576) as nat,
            );
            let name = if backend == Backend::Metal {
                "metal"@
            } else {
                "cpu"@
            };
            &&& backend_text(backend) == name
            &&& memory_text(backend, ctx) == "context buffers "@ + mib + " MiB (ctx="@ + dec_int(
                ctx as int,
            ) + ", backend="@ + name + ", prefill_chunk="@ + dec(m.prefill_cap as nat)
                + ", raw_kv_rows="@ + dec(m.raw_cap as nat) + ", compressed_kv_rows="@ + dec(
                m.comp_cap as nat,
            ) + ")"@
        }),
        forall|n: nat| n < 0x20_0000_0000_0000 ==> #[trigger] nearest_double(n) == n,
{
    assert forall|n: nat| n < 0x20_0000_0000_0000 implies #[trigger] nearest_double(n) == n by {
        assert(crate::report::double_step(n) == 1);
        assert(nearest(n as int, 1) == n);
    }
}

/// The number of a metadata key, zero where it is not there.
pub open spec fn keyed(m: ModelView, key: Seq<char>) -> nat {
    match m.get_u32(key) {
        Some(v) => v as nat,
        None => 0,
    }
}

/// A summary opens with the name, the architecture and the counts of the file, and closes
/// its head with the sizes; then the types follow.
pub proof fn summaries_tell_the_model(m: ModelView)
    ensures
        ({
            let h = head_lines(m);
            let n = h.len() as int;
            let name = m.get_string("general.name"@);
            let arch = m.get_string("general.architecture"@);
            &&& summary_lines(m) == h + type_lines(m.tensors, -1)
            &&& n >= 7
            &&& name is Some ==> h[0] == "model: "@ + name->0
            &&& name is None ==> h[0] == "model: "@ + "(unnamed)"@
            &&& arch is Some ==> h[1] == "arch:  "@ + arch->0
            &&& arch is None ==> h[1] == "arch:  "@ + "(unknown)"@
            &&& h[2] == "gguf:  v"@ + dec(m.version as nat) + ", "@ + dec(m.n_kv as nat)
                + " metadata keys, "@ + dec(m.n_tensors as nat) + " tensors"@
            &&& h[n - 4] == "file size: "@ + bytes_text(m.file_len as nat)
            &&& h[n - 3] == "tensor bytes described by GGUF: "@ + bytes_text(
                sum_bytes(m.tensors, m.tensors.len()) as nat,
            )
            &&& h[n - 2] == "logical parameters: "@ + billions_text(
                sum_elements(m.tensors, m.tensors.len()) as nat,
            ) + " B"@
            &&& h[n - 1] == "tensor types:"@
        }),
{
}

/// Between them a summary tells the layers, the attention, the indexer and the experts,
/// each where the file says anything of it.
pub proof fn summaries_tell_the_settings(m: ModelView)
    ensures
        ({
            let h = head_lines(m);
            let layers = keyed(m, "deepseek4.block_count"@);
            let heads = keyed(m, "deepseek4.attention.head_count"@);
            let kv = keyed(m, "deepseek4.attention.head_count_kv"@);
            let dim = keyed(m, "deepseek4.attention.key_length"@);
            let swa = keyed(m, "deepseek4.attention.sliding_window"@);
            let ih = keyed(m, "deepseek4.attention.indexer.head_count"@);
            let id = keyed(m, "deepseek4.attention.indexer.key_length"@);
            let ik = keyed(m, "deepseek4.attention.indexer.top_k"@);
            let e = keyed(m, "deepseek4.expert_count"@);
            let eu = keyed(m, "deepseek4.expert_used_count"@);
            let eg = keyed(m, "deepseek4.expert_group_count"@);
            let egu = keyed(m, "deepseek4.expert_group_used_count"@);
            &&& layers != 0 ==> h[3] == "layers: "@ + dec(layers)
            &&& layers == 0 ==> (m.get_u64("deepseek4.context_length"@) matches Some(c) ==> (c != 0
                ==> h[3] == "train context: "@ + dec(c as nat)))
            &&& heads + kv + dim + swa == 0 ==> crate::report::attention_lines(m).len() == 0
            &&& ih + id + ik == 0 ==> crate::report::indexer_lines(m).len() == 0
            &&& e + eu + eg + egu == 0 ==> crate::report::expert_lines(m).len() == 0
            &&& heads + kv + dim + swa > 0 ==> crate::report::attention_lines(m) == seq![
                "attention: heads="@ + dec(heads) + " kv_heads="@ + dec(kv) + " head_dim="@ + dec(
                    dim,
                ) + " swa="@ + dec(swa),
            ]
            &&& ih + id + ik > 0 ==> crate::report::indexer_lines(m) == seq![
                "indexer: heads="@ + dec(ih) + " head_dim="@ + dec(id) + " top_k="@ + dec(ik),
            ]
            &&& e + eu + eg + egu > 0 ==> crate::report::expert_lines(m) == seq![
                "experts: count="@ + dec(e) + " used="@ + dec(eu) + " groups="@ + dec(eg)
                    + " groups_used="@ + dec(egu),
            ]
        }),
{
}

/// Bytes are told in GiB and parameters in billions, with two decimals; both are rounded
/// from the nearest double.
pub proof fn large_numbers_are_told_in_units(n: nat)
    ensures
        bytes_text(n) == hundredths_text(
            nearest(nearest_double(n) as int * 100, 1073741824) as nat,
        ) + " GiB"@,
        exists|m: int, s: nat|
            {
                &&& billions_text(n) == hundredths_text(
                    nearest(#[trigger] (m * 100), #[trigger] two(s) as int) as nat,
                )
                &&& -1_000_000_000 <= 2 * (nearest_double(n) * two(s) - m * 1_000_000_000)
                    <= 1_000_000_000
            },
{
    let y = nearest_double(n);
    let (m, s) = billionths(y, 0);
    lemma_billionths(y, 0);
    let e = (s - 0) as nat;
    assert(e == s);
    assert(billions_text(n) == hundredths_text(nearest(m * 100, two(s) as int) as nat));
}

proof fn lemma_billionths(y: nat, s: nat)
    ensures
        ({
            let (m, t) = billionths(y, s);
            &&& t >= s
            &&& -1_000_000_000 <= 2 * (y * two((t - s) as nat) - m * 1_000_000_000) <= 1_000_000_000
        }),
    decreases 0x20_0000_0000_0000 * 1_000_000_000 - y,
{
    let (m, t) = billionths(y, s);
    if y == 0 || 2 * y >= 0x20_0000_0000_0000 * 1_000_000_000 {
        rounding_is_to_nearest(y as int, 1_000_000_000, 0);
        assert(two(0) == 1);
        assert(y * 1 == y);
    } else {
        lemma_billionths(2 * y, s + 1);
        let k = (t - (s + 1)) as nat;
        assert(two((t - s) as nat) == 2 * two(k));
        assert(y * (2 * two(k)) == (2 * y) * two(k)) by (nonlinear_arith);
    }
}

} // verus!
