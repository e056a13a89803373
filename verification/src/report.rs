//! Descriptions of a model for people: sizes, metadata values and a summary.
use vstd::prelude::*;

use byteorder::{ByteOrder, LittleEndian};

use crate::gguf::{
    meta_views, tensor_views, MetaView, MetadataValue, ModelGGUF, ModelView, TensorView,
};
use crate::memory::{context_memory, context_memory_estimate};
use crate::single::{nearest, two};
use crate::text::{append, chars_of, dec, dec_i64, dec_int, dec_u64, digit_char};
use crate::types::{Backend, TensorType};

verus! {

// ── Numbers with two decimals ────────────────────────────────────────────

/// The distance between doubles at the size of `n`.
pub open spec fn double_step(n: nat) -> nat
    decreases n,
{
    if n < 0x20_0000_0000_0000 {
        1
    } else {
        2 * double_step(n / 2)
    }
}

/// The double nearest to `n`.
pub open spec fn nearest_double(n: nat) -> nat {
    (nearest(n as int, double_step(n) as int) * double_step(n)) as nat
}

/// A number of hundredths with two decimals.
pub open spec fn hundredths_text(h: nat) -> Seq<char> {
    dec(h / 100) + seq!['.', digit_char(h / 10 % 10), digit_char(h % 10)]
}

/// A number of bytes in GiB, computed in doubles and rounded to two decimals.
pub open spec fn bytes_text(n: nat) -> Seq<char> {
    hundredths_text(nearest(nearest_double(n) as int * 100, 0x4000_0000) as nat) + " GiB"@
}

/// The name of a backend.
pub open spec fn backend_text(b: Backend) -> Seq<char> {
    match b {
        Backend::Metal => "metal"@,
        Backend::Cpu => "cpu"@,
    }
}

/// What is said of the memory of a context, with MiB computed in doubles.
pub open spec fn memory_text(backend: Backend, ctx_size: i32) -> Seq<char> {
    let m = context_memory(backend, ctx_size);
    "context buffers "@ + hundredths_text(
        nearest(nearest_double(m.total_bytes as nat) as int * 100, 0x10_0000) as nat,
    ) + " MiB (ctx="@ + dec_int(ctx_size as int) + ", backend="@ + backend_text(backend)
        + ", prefill_chunk="@ + dec(m.prefill_cap as nat) + ", raw_kv_rows="@ + dec(
        m.raw_cap as nat,
    ) + ", compressed_kv_rows="@ + dec(m.comp_cap as nat) + ")"@
}

/// The quotient of the double `x` and a billion, as a double times two to the power of
/// a shift: `m` with 53 bits, where `y` is `x` shifted by `s`.
pub open spec fn billionths(y: nat, s: nat) -> (int, nat)
    decreases 0x20_0000_0000_0000 * 1_000_000_000 - y,
{
    if y == 0 || 2 * y >= 0x20_0000_0000_0000 * 1_000_000_000 {
        (nearest(y as int, 1_000_000_000), s)
    } else {
        billionths(2 * y, s + 1)
    }
}

/// A count in billions, computed in doubles and rounded to two decimals.
pub open spec fn billions_text(n: nat) -> Seq<char> {
    let (m, s) = billionths(nearest_double(n), 0);
    hundredths_text(nearest(m * 100, two(s) as int) as nat)
}

proof fn lemma_double_step(n: nat)
    ensures
        double_step(n) >= 1,
        n <= u64::MAX ==> double_step(n) <= 2048,
        n <= u64::MAX ==> nearest_double(n) <= 0x1_0000_0000_0000_0000,
{
    reveal_with_fuel(double_step, 13);
    lemma_step_positive(n);
    if n <= u64::MAX {
        let p = double_step(n) as int;
        let x = n as int;
        let q = x / p;
        assert(q * p <= x < (q + 1) * p) by (nonlinear_arith)
            requires
                q == x / p,
                p > 0,
        ;
        if n < 0x20_0000_0000_0000 {
            assert(nearest(x, 1) == x);
        } else {
            assert(p <= 2048);
            assert(n >= p * 0x10_0000_0000_0000 && n < p * 0x20_0000_0000_0000) by {
                lemma_step_bounds(n);
            }
            assert(q < 0x20_0000_0000_0000) by (nonlinear_arith)
                requires
                    q * p <= x,
                    x < p * 0x20_0000_0000_0000,
                    p > 0,
            ;
            assert((q + 1) * p <= 0x20_0000_0000_0000 * p && q * p <= 0x20_0000_0000_0000 * p)
                by (nonlinear_arith)
                requires
                    q < 0x20_0000_0000_0000,
                    p > 0,
            ;
        }
    }
}

proof fn lemma_step_positive(n: nat)
    ensures
        double_step(n) >= 1,
    decreases n,
{
    if n >= 0x20_0000_0000_0000 {
        lemma_step_positive(n / 2);
    }
}

proof fn lemma_step_bounds(n: nat)
    requires
        n >= 0x10_0000_0000_0000,
    ensures
        double_step(n) * 0x10_0000_0000_0000 <= n < double_step(n) * 0x20_0000_0000_0000,
    decreases n,
{
    if n >= 0x20_0000_0000_0000 {
        lemma_step_bounds(n / 2);
    }
}

/// `x / p` rounded to the nearest integer, a tie to the even one.
fn round_div(x: u128, p: u128) -> (r: u128)
    requires
        0 < p <= 0x8000_0000_0000_0000_0000_0000_0000_0000,
        x < 0x8000_0000_0000_0000_0000_0000_0000_0000,
    ensures
        r == nearest(x as int, p as int),
{
    let q: u128 = x / p;
    let rest: u128 = x % p;
    assert(q <= x) by (nonlinear_arith)
        requires
            q == x / p,
            p > 0,
    ;
    if rest > p - rest || (rest == p - rest && q % 2 == 1) {
        q + 1
    } else {
        q
    }
}

/// The double nearest to `n`.
pub fn round_to_double(n: u64) -> (r: u128)
    ensures
        r == nearest_double(n as nat),
        r <= 0x1_0000_0000_0000_0000,
{
    let mut m: u64 = n;
    let mut step: u64 = 1;
    proof {
        lemma_double_step(n as nat);
    }
    while m >= 0x20_0000_0000_0000
        invariant
            step >= 1,
            step * double_step(m as nat) == double_step(n as nat),
            double_step(n as nat) <= 2048,
        decreases m,
    {
        proof {
            lemma_step_positive(m as nat / 2);
            let rest = double_step(m as nat / 2) as int;
            assert(step * (2 * rest) == (step * 2) * rest) by (nonlinear_arith);
            assert(step * 2 <= (step * 2) * rest) by (nonlinear_arith)
                requires
                    rest >= 1,
                    step >= 1,
            ;
        }
        m = m / 2;
        step = step * 2;
    }
    assert(step == double_step(n as nat)) by (nonlinear_arith)
        requires
            step * double_step(m as nat) == double_step(n as nat),
            double_step(m as nat) == 1,
    ;
    let q: u128 = round_div(n as u128, step as u128);
    assert(q * step == nearest_double(n as nat));
    q * step as u128
}

/// A number of hundredths with two decimals.
fn format_hundredths(h: u128) -> (r: String)
    requires
        h / 100 <= u64::MAX,
    ensures
        r@ == hundredths_text(h as nat),
{
    let mut s = dec_u64((h / 100) as u64);
    s.push('.');
    let tens: u8 = (h / 10 % 10) as u8;
    let ones: u8 = (h % 10) as u8;
    s.push((0x30u8 + tens) as char);
    s.push((0x30u8 + ones) as char);
    assert(s@ =~= hundredths_text(h as nat));
    s
}

/// A number of bytes in GiB with two decimals.
pub fn format_bytes(bytes: u64) -> (r: String)
    ensures
        r@ == bytes_text(bytes as nat),
{
    let x: u128 = round_to_double(bytes);
    let h: u128 = round_div(x * 100, 0x4000_0000);
    let mut s = format_hundredths(h);
    append(&mut s, " GiB");
    s
}

/// What is said of the memory of a context.
pub fn context_memory_line(backend: Backend, ctx_size: i32) -> (r: String)
    ensures
        r@ == memory_text(backend, ctx_size),
{
    let m = context_memory_estimate(backend, ctx_size);
    let x: u128 = round_to_double(m.total_bytes);
    let h: u128 = round_div(x * 100, 0x10_0000);
    let mib = format_hundredths(h);
    let ctx = dec_i64(ctx_size as i64);
    let mut s = String::from_str("context buffers ");
    append(&mut s, mib.as_str());
    append(&mut s, " MiB (ctx=");
    append(&mut s, ctx.as_str());
    append(&mut s, ", backend=");
    append(&mut s, backend.name());
    append(&mut s, ", prefill_chunk=");
    append_number(&mut s, m.prefill_cap as u64);
    append(&mut s, ", raw_kv_rows=");
    append_number(&mut s, m.raw_cap as u64);
    append(&mut s, ", compressed_kv_rows=");
    append_number(&mut s, m.comp_cap as u64);
    append(&mut s, ")");
    s
}

/// A count in billions with two decimals.
pub fn format_billions(count: u64) -> (r: String)
    ensures
        r@ == billions_text(count as nat),
{
    let x: u128 = round_to_double(count);
    let mut y: u128 = x;
    let mut power: u128 = 1;
    let ghost mut s: nat = 0;
    assert(two(0) == 1);
    while y != 0 && 2 * y < 0x20_0000_0000_0000 * 1_000_000_000
        invariant
            y <= 0x20_0000_0000_0000 * 1_000_000_000,
            y == x * power,
            power == two(s),
            power >= 1,
            billionths(y as nat, s) == billionths(x as nat, 0),
        decreases 0x20_0000_0000_0000 * 1_000_000_000 - y,
    {
        proof {
            assert(power <= y) by (nonlinear_arith)
                requires
                    y == x * power,
                    y != 0,
            ;
            assert(2 * y == x * (2 * power)) by (nonlinear_arith)
                requires
                    y == x * power,
            ;
            assert(two(s + 1) == 2 * two(s));
            s = s + 1;
        }
        y = 2 * y;
        power = 2 * power;
    }
    let m: u128 = round_div(y, 1_000_000_000);
    proof {
        assert(billionths(y as nat, s) == (m as int, s));
        if y == 0 {
            assert(x == 0 || power == 0) by (nonlinear_arith)
                requires
                    0 == x * power,
            ;
        } else {
            assert(power <= y) by (nonlinear_arith)
                requires
                    y == x * power,
                    y != 0,
            ;
        }
    }
    let h: u128 = round_div(m * 100, power);
    proof {
        lemma_hundredths_small(m as int * 100, power as int);
    }
    format_hundredths(h)
}

proof fn lemma_hundredths_small(x: int, p: int)
    requires
        0 <= x <= 0x40_0000_0000_0000 * 100,
        p > 0,
    ensures
        0 <= nearest(x, p) <= x + 1,
{
    assert(0 <= x / p <= x) by (nonlinear_arith)
        requires
            x >= 0,
            p > 0,
    ;
}

// ── Metadata values ──────────────────────────────────────────────────────

/// How the single with these bits is displayed.
pub uninterp spec fn single_text(bits: u32) -> Seq<char>;

/// How the double with these bits is displayed.
pub uninterp spec fn double_text(bits: u64) -> Seq<char>;

/// Calls `to_string` on the single that byteorder's `LittleEndian::read_f32` makes of the
/// bits. The text depends on the bits alone and is named, not stated.
#[verifier::external_body]
fn show_single(bits: u32) -> (r: String)
    ensures
        r@ == single_text(bits),
{
    LittleEndian::read_f32(&bits.to_le_bytes()).to_string()
}

/// Calls `to_string` on the double that byteorder's `LittleEndian::read_f64` makes of the
/// bits. The text depends on the bits alone and is named, not stated.
#[verifier::external_body]
fn show_double(bits: u64) -> (r: String)
    ensures
        r@ == double_text(bits),
{
    LittleEndian::read_f64(&bits.to_le_bytes()).to_string()
}

/// The text of a value: strings in quotes, arrays in brackets.
pub open spec fn shown(v: MetaView) -> Seq<char>
    decreases v, 0nat,
{
    match v {
        MetaView::Uint8(x) => dec(x as nat),
        MetaView::Int8(x) => dec_int(x as int),
        MetaView::Uint16(x) => dec(x as nat),
        MetaView::Int16(x) => dec_int(x as int),
        MetaView::Uint32(x) => dec(x as nat),
        MetaView::Int32(x) => dec_int(x as int),
        MetaView::Bool(x) => if x {
            "true"@
        } else {
            "false"@
        },
        MetaView::String(x) => "\""@ + x + "\""@,
        MetaView::Array(items) => "["@ + shown_items(items, items.len()) + "]"@,
        MetaView::Uint64(x) => dec(x as nat),
        MetaView::Int64(x) => dec_int(x as int),
        MetaView::Float32(x) => single_text(x),
        MetaView::Float64(x) => double_text(x),
    }
}

/// The texts of the first `n` items, with a comma and a space between them.
pub open spec fn shown_items(items: Seq<MetaView>, n: nat) -> Seq<char>
    decreases items, n,
{
    if n == 0 || n > items.len() {
        Seq::empty()
    } else {
        shown_items(items, (n - 1) as nat) + (if n > 1 {
            ", "@
        } else {
            Seq::empty()
        }) + shown(items[n - 1])
    }
}

fn display_items(items: &Vec<MetadataValue>) -> (r: String)
    ensures
        r@ == shown_items(meta_views(items@), items@.len()),
    decreases items,
{
    let ghost views = meta_views(items@);
    let mut s = String::new();
    let mut i: usize = 0;
    while i < items.len()
        invariant
            i <= items@.len(),
            views == meta_views(items@),
            s@ == shown_items(views, i as nat),
        decreases items@.len() - i,
    {
        if i > 0 {
            append(&mut s, ", ");
        }
        assert(views[i as int] == items@[i as int]@);
        assert(decreases_to!(items => items@[i as int]));
        let t = items[i].display();
        append(&mut s, t.as_str());
        i = i + 1;
        assert(s@ =~= shown_items(views, i as nat));
    }
    s
}

impl MetadataValue {
    /// The text of the value.
    pub fn display(&self) -> (r: String)
        ensures
            r@ == shown(self@),
        decreases self,
    {
        match self {
            MetadataValue::Uint8(v) => dec_u64(*v as u64),
            MetadataValue::Int8(v) => dec_i64(*v as i64),
            MetadataValue::Uint16(v) => dec_u64(*v as u64),
            MetadataValue::Int16(v) => dec_i64(*v as i64),
            MetadataValue::Uint32(v) => dec_u64(*v as u64),
            MetadataValue::Int32(v) => dec_i64(*v as i64),
            MetadataValue::Bool(v) => {
                if *v {
                    String::from_str("true")
                } else {
                    String::from_str("false")
                }
            },
            MetadataValue::String(v) => {
                let mut s = String::from_str("\"");
                append(&mut s, v.as_str());
                append(&mut s, "\"");
                s
            },
            MetadataValue::Array(items) => {
                proof {
                    let views = meta_views(items@);
                    assert(self@->Array_0 =~= views);
                }
                let inner = display_items(items);
                let mut s = String::from_str("[");
                append(&mut s, inner.as_str());
                append(&mut s, "]");
                s
            },
            MetadataValue::Uint64(v) => dec_u64(*v),
            MetadataValue::Int64(v) => dec_i64(*v),
            MetadataValue::Float32(v) => show_single(*v),
            MetadataValue::Float64(v) => show_double(*v),
        }
    }
}

// ── Summary ──────────────────────────────────────────────────────────────

/// Bytes of the first `n` tensors.
pub open spec fn sum_bytes(ts: Seq<TensorView>, n: nat) -> int
    decreases n,
{
    if n == 0 {
        0
    } else {
        sum_bytes(ts, (n - 1) as nat) + ts[n - 1].bytes
    }
}

/// Elements of the first `n` tensors.
pub open spec fn sum_elements(ts: Seq<TensorView>, n: nat) -> int
    decreases n,
{
    if n == 0 {
        0
    } else {
        sum_elements(ts, (n - 1) as nat) + ts[n - 1].elements
    }
}

/// How many of the first `n` tensors have the type `tag`, and their bytes.
pub open spec fn of_type(ts: Seq<TensorView>, tag: u32, n: nat) -> (int, int)
    decreases n,
{
    if n == 0 {
        (0, 0)
    } else {
        let (c, b) = of_type(ts, tag, (n - 1) as nat);
        if ts[n - 1].tensor_type == tag {
            (c + 1, b + ts[n - 1].bytes)
        } else {
            (c, b)
        }
    }
}

/// The smallest type tag above `last` among the first `n` tensors.
pub open spec fn next_type(ts: Seq<TensorView>, last: int, n: nat) -> Option<u32>
    decreases n,
{
    if n == 0 {
        None
    } else {
        let t = ts[n - 1].tensor_type;
        match next_type(ts, last, (n - 1) as nat) {
            Some(s) => if last < t < s {
                Some(t)
            } else {
                Some(s)
            },
            None => if t > last {
                Some(t)
            } else {
                None
            },
        }
    }
}

/// Spaces.
pub open spec fn spaces(n: int) -> Seq<char>
    decreases n,
{
    if n <= 0 {
        Seq::empty()
    } else {
        spaces(n - 1).push(' ')
    }
}

/// A text filled up with spaces behind it.
pub open spec fn padded(s: Seq<char>, width: int) -> Seq<char> {
    s + spaces(width - s.len())
}

/// A text filled up with spaces before it.
pub open spec fn aligned_right(s: Seq<char>, width: int) -> Seq<char> {
    spaces(width - s.len()) + s
}

/// The name of a tensor type, or its number where it has none.
pub open spec fn type_text(tag: u32) -> Seq<char> {
    match TensorType::of_tag(tag) {
        Some(t) => t.spec_name(),
        None => "type_"@ + dec(tag as nat),
    }
}

/// The line on the tensors of one type.
pub open spec fn type_line(ts: Seq<TensorView>, tag: u32) -> Seq<char> {
    let (count, bytes) = of_type(ts, tag, ts.len());
    "  "@ + padded(type_text(tag), 8) + " "@ + aligned_right(dec(count as nat), 5) + " tensors, "@
        + bytes_text(bytes as nat)
}

/// The lines on the tensor types above `last`, in the order of their tags.
pub open spec fn type_lines(ts: Seq<TensorView>, last: int) -> Seq<Seq<char>>
    decreases u32::MAX - last,
{
    match next_type(ts, last, ts.len()) {
        Some(tag) => if last < tag {
            seq![type_line(ts, tag)] + type_lines(ts, tag as int)
        } else {
            Seq::empty()
        },
        None => Seq::empty(),
    }
}

pub open spec fn text_or(v: Option<Seq<char>>, other: Seq<char>) -> Seq<char> {
    match v {
        Some(s) => s,
        None => other,
    }
}

/// A number of the metadata, zero where it is missing.
pub open spec fn number(m: ModelView, key: Seq<char>) -> u32 {
    match m.get_u32(key) {
        Some(v) => v,
        None => 0,
    }
}

pub open spec fn train_context(m: ModelView) -> u64 {
    match m.get_u64("deepseek4.context_length"@) {
        Some(v) => v,
        None => 0,
    }
}

/// One line where the condition holds, none otherwise.
pub open spec fn line_if(cond: bool, line: Seq<char>) -> Seq<Seq<char>> {
    if cond {
        seq![line]
    } else {
        Seq::empty()
    }
}

pub open spec fn attention_lines(m: ModelView) -> Seq<Seq<char>> {
    let heads = number(m, "deepseek4.attention.head_count"@);
    let kv = number(m, "deepseek4.attention.head_count_kv"@);
    let dim = number(m, "deepseek4.attention.key_length"@);
    let swa = number(m, "deepseek4.attention.sliding_window"@);
    line_if(
        heads != 0 || kv != 0 || dim != 0 || swa != 0,
        "attention: heads="@ + dec(heads as nat) + " kv_heads="@ + dec(kv as nat) + " head_dim="@
            + dec(dim as nat) + " swa="@ + dec(swa as nat),
    )
}

pub open spec fn indexer_lines(m: ModelView) -> Seq<Seq<char>> {
    let heads = number(m, "deepseek4.attention.indexer.head_count"@);
    let dim = number(m, "deepseek4.attention.indexer.key_length"@);
    let top = number(m, "deepseek4.attention.indexer.top_k"@);
    line_if(
        heads != 0 || dim != 0 || top != 0,
        "indexer: heads="@ + dec(heads as nat) + " head_dim="@ + dec(dim as nat) + " top_k="@ + dec(
            top as nat,
        ),
    )
}

pub open spec fn expert_lines(m: ModelView) -> Seq<Seq<char>> {
    let count = number(m, "deepseek4.expert_count"@);
    let used = number(m, "deepseek4.expert_used_count"@);
    let groups = number(m, "deepseek4.expert_group_count"@);
    let groups_used = number(m, "deepseek4.expert_group_used_count"@);
    line_if(
        count != 0 || used != 0 || groups != 0 || groups_used != 0,
        "experts: count="@ + dec(count as nat) + " used="@ + dec(used as nat) + " groups="@ + dec(
            groups as nat,
        ) + " groups_used="@ + dec(groups_used as nat),
    )
}

/// The lines of the summary before the tensor types.
pub open spec fn head_lines(m: ModelView) -> Seq<Seq<char>> {
    let layers = number(m, "deepseek4.block_count"@);
    seq![
        "model: "@ + text_or(m.get_string("general.name"@), "(unnamed)"@),
        "arch:  "@ + text_or(m.get_string("general.architecture"@), "(unknown)"@),
        "gguf:  v"@ + dec(m.version as nat) + ", "@ + dec(m.n_kv as nat) + " metadata keys, "@
            + dec(m.n_tensors as nat) + " tensors"@,
    ] + line_if(layers != 0, "layers: "@ + dec(layers as nat)) + line_if(
        train_context(m) != 0,
        "train context: "@ + dec(train_context(m) as nat),
    ) + attention_lines(m) + indexer_lines(m) + expert_lines(m) + seq![
        "file size: "@ + bytes_text(m.file_len as nat),
        "tensor bytes described by GGUF: "@ + bytes_text(
            sum_bytes(m.tensors, m.tensors.len()) as nat,
        ),
        "logical parameters: "@ + billions_text(
            sum_elements(m.tensors, m.tensors.len()) as nat,
        ) + " B"@,
        "tensor types:"@,
    ]
}

/// The lines of the summary of a model.
pub open spec fn summary_lines(m: ModelView) -> Seq<Seq<char>> {
    head_lines(m) + type_lines(m.tensors, -1)
}

/// Whether the sizes of the tensors add up within 64 bits.
pub open spec fn sums_fit(m: ModelView) -> bool {
    sum_bytes(m.tensors, m.tensors.len()) <= u64::MAX && sum_elements(
        m.tensors,
        m.tensors.len(),
    ) <= u64::MAX
}

pub open spec fn line_views(s: Seq<String>) -> Seq<Seq<char>> {
    Seq::new(s.len(), |i: int| s[i]@)
}

proof fn lemma_sums(ts: Seq<TensorView>, k: nat, n: nat)
    requires
        k <= n,
    ensures
        0 <= sum_bytes(ts, k) <= sum_bytes(ts, n),
        0 <= sum_elements(ts, k) <= sum_elements(ts, n),
    decreases n,
{
    if k < n {
        lemma_sums(ts, k, (n - 1) as nat);
    } else if n > 0 {
        lemma_sums(ts, (n - 1) as nat, (n - 1) as nat);
    }
}

proof fn lemma_of_type(ts: Seq<TensorView>, tag: u32, n: nat)
    ensures
        0 <= of_type(ts, tag, n).0 <= n,
        0 <= of_type(ts, tag, n).1 <= sum_bytes(ts, n),
    decreases n,
{
    if n > 0 {
        lemma_of_type(ts, tag, (n - 1) as nat);
    }
}

proof fn lemma_next_type(ts: Seq<TensorView>, last: int, n: nat)
    ensures
        next_type(ts, last, n) matches Some(t) ==> t > last,
    decreases n,
{
    if n > 0 {
        lemma_next_type(ts, last, (n - 1) as nat);
    }
}

/// Appends spaces.
fn pad(s: &mut String, n: usize)
    ensures
        final(s)@ == old(s)@ + spaces(n as int),
{
    let mut i: usize = 0;
    assert(s@ =~= old(s)@ + spaces(0));
    while i < n
        invariant
            i <= n,
            s@ == old(s)@ + spaces(i as int),
        decreases n - i,
    {
        s.push(' ');
        i = i + 1;
        assert(s@ =~= old(s)@ + spaces(i as int));
    }
}

/// Appends a number in decimal.
fn append_number(s: &mut String, n: u64)
    ensures
        final(s)@ == old(s)@ + dec(n as nat),
{
    let t = dec_u64(n);
    append(s, t.as_str());
}

impl ModelGGUF {
    /// The sums of the bytes and of the elements of all tensors, where both fit in 64
    /// bits.
    pub fn totals(&self) -> (r: Option<(u64, u64)>)
        ensures
            match r {
                Some(t) => sums_fit(self@) && t.0 == sum_bytes(
                    self@.tensors,
                    self@.tensors.len(),
                ) && t.1 == sum_elements(self@.tensors, self@.tensors.len()),
                None => !sums_fit(self@),
            },
    {
        let ghost ts = self@.tensors;
        let mut bytes: u64 = 0;
        let mut elements: u64 = 0;
        let mut i: usize = 0;
        while i < self.tensors.len()
            invariant
                i <= self.tensors@.len(),
                ts == tensor_views(self.tensors@),
                ts == self@.tensors,
                bytes == sum_bytes(ts, i as nat),
                elements == sum_elements(ts, i as nat),
            decreases self.tensors@.len() - i,
        {
            assert(ts[i as int] == self.tensors@[i as int]@);
            proof {
                lemma_sums(ts, (i + 1) as nat, ts.len());
            }
            if self.tensors[i].bytes > u64::MAX - bytes || self.tensors[i].elements > u64::MAX
                - elements {
                return None;
            }
            bytes = bytes + self.tensors[i].bytes;
            elements = elements + self.tensors[i].elements;
            i = i + 1;
        }
        Some((bytes, elements))
    }

    /// A number of the metadata, zero where it is missing.
    fn number_or_zero(&self, key: &str) -> (r: u32)
        ensures
            r == number(self@, key@),
    {
        match self.get_u32(key) {
            Some(v) => v,
            None => 0,
        }
    }

    fn attention_line(&self, lines: &mut Vec<String>)
        ensures
            line_views(final(lines)@) == line_views(old(lines)@) + attention_lines(self@),
    {
        let heads: u32 = self.number_or_zero("deepseek4.attention.head_count");
        let kv: u32 = self.number_or_zero("deepseek4.attention.head_count_kv");
        let dim: u32 = self.number_or_zero("deepseek4.attention.key_length");
        let swa: u32 = self.number_or_zero("deepseek4.attention.sliding_window");
        if heads != 0 || kv != 0 || dim != 0 || swa != 0 {
            let mut s = String::from_str("attention: heads=");
            append_number(&mut s, heads as u64);
            append(&mut s, " kv_heads=");
            append_number(&mut s, kv as u64);
            append(&mut s, " head_dim=");
            append_number(&mut s, dim as u64);
            append(&mut s, " swa=");
            append_number(&mut s, swa as u64);
            lines.push(s);
        }
        assert(line_views(lines@) =~= line_views(old(lines)@) + attention_lines(self@));
    }

    fn indexer_line(&self, lines: &mut Vec<String>)
        ensures
            line_views(final(lines)@) == line_views(old(lines)@) + indexer_lines(self@),
    {
        let heads: u32 = self.number_or_zero("deepseek4.attention.indexer.head_count");
        let dim: u32 = self.number_or_zero("deepseek4.attention.indexer.key_length");
        let top: u32 = self.number_or_zero("deepseek4.attention.indexer.top_k");
        if heads != 0 || dim != 0 || top != 0 {
            let mut s = String::from_str("indexer: heads=");
            append_number(&mut s, heads as u64);
            append(&mut s, " head_dim=");
            append_number(&mut s, dim as u64);
            append(&mut s, " top_k=");
            append_number(&mut s, top as u64);
            lines.push(s);
        }
        assert(line_views(lines@) =~= line_views(old(lines)@) + indexer_lines(self@));
    }

    fn expert_line(&self, lines: &mut Vec<String>)
        ensures
            line_views(final(lines)@) == line_views(old(lines)@) + expert_lines(self@),
    {
        let count: u32 = self.number_or_zero("deepseek4.expert_count");
        let used: u32 = self.number_or_zero("deepseek4.expert_used_count");
        let groups: u32 = self.number_or_zero("deepseek4.expert_group_count");
        let groups_used: u32 = self.number_or_zero("deepseek4.expert_group_used_count");
        if count != 0 || used != 0 || groups != 0 || groups_used != 0 {
            let mut s = String::from_str("experts: count=");
            append_number(&mut s, count as u64);
            append(&mut s, " used=");
            append_number(&mut s, used as u64);
            append(&mut s, " groups=");
            append_number(&mut s, groups as u64);
            append(&mut s, " groups_used=");
            append_number(&mut s, groups_used as u64);
            lines.push(s);
        }
        assert(line_views(lines@) =~= line_views(old(lines)@) + expert_lines(self@));
    }

    /// The lines of the summary before the tensor types.
    fn summary_head(&self, totals: (u64, u64)) -> (lines: Vec<String>)
        requires
            totals.0 == sum_bytes(self@.tensors, self@.tensors.len()),
            totals.1 == sum_elements(self@.tensors, self@.tensors.len()),
        ensures
            line_views(lines@) == head_lines(self@),
    {
        let ghost m = self@;
        let mut lines: Vec<String> = Vec::new();
        let mut s = String::from_str("model: ");
        match self.get_string("general.name") {
            Some(name) => append(&mut s, name),
            None => append(&mut s, "(unnamed)"),
        }
        lines.push(s);
        let mut s = String::from_str("arch:  ");
        match self.get_string("general.architecture") {
            Some(arch) => append(&mut s, arch),
            None => append(&mut s, "(unknown)"),
        }
        lines.push(s);
        let mut s = String::from_str("gguf:  v");
        append_number(&mut s, self.version as u64);
        append(&mut s, ", ");
        append_number(&mut s, self.n_kv);
        append(&mut s, " metadata keys, ");
        append_number(&mut s, self.n_tensors);
        append(&mut s, " tensors");
        lines.push(s);
        let ghost first = line_views(lines@);
        let layers: u32 = self.number_or_zero("deepseek4.block_count");
        if layers != 0 {
            let mut s = String::from_str("layers: ");
            append_number(&mut s, layers as u64);
            lines.push(s);
        }
        let context: u64 = match self.get_u64("deepseek4.context_length") {
            Some(v) => v,
            None => 0,
        };
        if context != 0 {
            let mut s = String::from_str("train context: ");
            append_number(&mut s, context);
            lines.push(s);
        }
        assert(line_views(lines@) =~= first + line_if(
            number(m, "deepseek4.block_count"@) != 0,
            "layers: "@ + dec(number(m, "deepseek4.block_count"@) as nat),
        ) + line_if(
            train_context(m) != 0,
            "train context: "@ + dec(train_context(m) as nat),
        ));
        self.attention_line(&mut lines);
        self.indexer_line(&mut lines);
        self.expert_line(&mut lines);
        let ghost middle = line_views(lines@);
        let mut s = String::from_str("file size: ");
        let t = format_bytes(self.file_len);
        append(&mut s, t.as_str());
        lines.push(s);
        let mut s = String::from_str("tensor bytes described by GGUF: ");
        let t = format_bytes(totals.0);
        append(&mut s, t.as_str());
        lines.push(s);
        let mut s = String::from_str("logical parameters: ");
        let t = format_billions(totals.1);
        append(&mut s, t.as_str());
        append(&mut s, " B");
        lines.push(s);
        lines.push(String::from_str("tensor types:"));
        proof {
            let last = seq![
                "file size: "@ + bytes_text(m.file_len as nat),
                "tensor bytes described by GGUF: "@ + bytes_text(totals.0 as nat),
                "logical parameters: "@ + billions_text(totals.1 as nat) + " B"@,
                "tensor types:"@,
            ];
            assert(line_views(lines@) =~= middle + last);
            assert(first =~= seq![
                "model: "@ + text_or(m.get_string("general.name"@), "(unnamed)"@),
                "arch:  "@ + text_or(m.get_string("general.architecture"@), "(unknown)"@),
                "gguf:  v"@ + dec(m.version as nat) + ", "@ + dec(m.n_kv as nat)
                    + " metadata keys, "@ + dec(m.n_tensors as nat) + " tensors"@,
            ]);
        }
        lines
    }

    /// The smallest type tag above `last`; `last` is none for the smallest of all.
    fn find_next_type(&self, last: Option<u32>) -> (r: Option<u32>)
        ensures
            r == next_type(
                self@.tensors,
                match last {
                    Some(t) => t as int,
                    None => -1,
                },
                self@.tensors.len(),
            ),
    {
        let ghost ts = self@.tensors;
        let ghost above = match last {
            Some(t) => t as int,
            None => -1,
        };
        let mut best: Option<u32> = None;
        let mut i: usize = 0;
        while i < self.tensors.len()
            invariant
                i <= self.tensors@.len(),
                ts == tensor_views(self.tensors@),
                above == match last {
                    Some(t) => t as int,
                    None => -1,
                },
                best == next_type(ts, above, i as nat),
            decreases self.tensors@.len() - i,
        {
            assert(ts[i as int] == self.tensors@[i as int]@);
            let t: u32 = self.tensors[i].tensor_type;
            let beyond = match last {
                Some(l) => t > l,
                None => true,
            };
            let better = match best {
                Some(b) => t < b,
                None => true,
            };
            if beyond && better {
                best = Some(t);
            }
            i = i + 1;
        }
        best
    }

    /// The line on the tensors of one type.
    fn format_type(&self, tag: u32) -> (r: String)
        requires
            sums_fit(self@),
        ensures
            r@ == type_line(self@.tensors, tag),
    {
        let ghost ts = self@.tensors;
        let mut count: u64 = 0;
        let mut bytes: u64 = 0;
        let mut i: usize = 0;
        while i < self.tensors.len()
            invariant
                i <= self.tensors@.len(),
                ts == tensor_views(self.tensors@),
                ts == self@.tensors,
                sums_fit(self@),
                count <= i,
                (count as int, bytes as int) == of_type(ts, tag, i as nat),
            decreases self.tensors@.len() - i,
        {
            assert(ts[i as int] == self.tensors@[i as int]@);
            proof {
                lemma_of_type(ts, tag, (i + 1) as nat);
                lemma_sums(ts, (i + 1) as nat, ts.len());
            }
            if self.tensors[i].tensor_type == tag {
                count = count + 1;
                bytes = bytes + self.tensors[i].bytes;
            }
            i = i + 1;
        }
        let name = match TensorType::from_u32(tag) {
            Some(t) => String::from_str(t.name()),
            None => {
                let mut n = String::from_str("type_");
                append_number(&mut n, tag as u64);
                n
            },
        };
        let mut s = String::from_str("  ");
        append(&mut s, name.as_str());
        let width: usize = chars_of(name.as_str()).len();
        if width < 8 {
            pad(&mut s, 8 - width);
        }
        append(&mut s, " ");
        let number = dec_u64(count);
        let digits: usize = chars_of(number.as_str()).len();
        if digits < 5 {
            pad(&mut s, 5 - digits);
        }
        append(&mut s, number.as_str());
        append(&mut s, " tensors, ");
        let size = format_bytes(bytes);
        append(&mut s, size.as_str());
        assert(s@ =~= type_line(ts, tag));
        s
    }

    /// The lines of a summary of the model.
    pub fn summary(&self) -> (lines: Vec<String>)
        requires
            sums_fit(self@),
        ensures
            line_views(lines@) == summary_lines(self@),
    {
        let ghost ts = self@.tensors;
        let totals: (u64, u64) = match self.totals() {
            Some(t) => t,
            None => (0, 0),
        };
        let mut lines = self.summary_head(totals);
        let mut last: Option<u32> = None;
        let ghost mut above: int = -1;
        loop
            invariant
                ts == self@.tensors,
                sums_fit(self@),
                above == match last {
                    Some(t) => t as int,
                    None => -1,
                },
                line_views(lines@) + type_lines(ts, above) == summary_lines(self@),
            decreases u32::MAX - above,
        {
            proof {
                lemma_next_type(ts, above, ts.len());
            }
            match self.find_next_type(last) {
                Some(tag) => {
                    let ghost before = line_views(lines@);
                    lines.push(self.format_type(tag));
                    proof {
                        assert(line_views(lines@) =~= before + seq![type_line(ts, tag)]);
                        assert(before + (seq![type_line(ts, tag)] + type_lines(ts, tag as int))
                            =~= line_views(lines@) + type_lines(ts, tag as int));
                        above = tag as int;
                    }
                    last = Some(tag);
                },
                None => {
                    assert(line_views(lines@) + Seq::<Seq<char>>::empty() =~= line_views(lines@));
                    return lines;
                },
            }
        }
    }
}

} // verus!
