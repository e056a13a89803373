//! What the reading of model files is held to.
use vstd::prelude::*;
use vstd::utf8::{encode_utf8, encode_utf8_decode_utf8, encode_utf8_valid_utf8};

use crate::bytes::{le, lemma_le_bound};
use crate::gguf::{
    aligned, alignment_of, element_count, get_dims, get_entries, get_entry, get_string, get_tensor,
    get_tensors, get_value, nbytes, parse_model, place_tensor, place_tensors, scalar,
    scalar_width, type_label_of, GgufError, KvView, MetaView, MetadataType, ModelView, TensorView,
};
use crate::types::TensorType;

verus! {

/// Numbers are stored with their least significant byte first.
pub proof fn numbers_are_little_endian(b: Seq<u8>)
    ensures
        b.len() == 1 ==> le(b) == b[0],
        b.len() == 2 ==> le(b) == b[0] + 0x100 * b[1],
        b.len() == 4 ==> le(b) == b[0] + 0x100 * b[1] + 0x1_0000 * b[2] + 0x100_0000 * b[3],
        b.len() == 8 ==> le(b) == b[0] + 0x100 * b[1] + 0x1_0000 * b[2] + 0x100_0000 * b[3]
            + 0x1_0000_0000 * b[4] + 0x100_0000_0000 * b[5] + 0x1_0000_0000_0000 * b[6]
            + 0x100_0000_0000_0000 * b[7],
{
    reveal_with_fuel(le, 9);
    assert forall|i: int, j: int| 0 <= i && 0 <= j && i + j <= b.len() implies #[trigger] b.skip(
        i,
    ).skip(j) == b.skip(i + j) by {
        assert(b.skip(i).skip(j) =~= b.skip(i + j));
    }
}

/// Each type of a metadata value has its own tag, and no other number is a tag.
pub proof fn metadata_types_have_their_tags(v: u32)
    ensures
        MetadataType::of_tag(0) == Some(MetadataType::Uint8),
        MetadataType::of_tag(1) == Some(MetadataType::Int8),
        MetadataType::of_tag(2) == Some(MetadataType::Uint16),
        MetadataType::of_tag(3) == Some(MetadataType::Int16),
        MetadataType::of_tag(4) == Some(MetadataType::Uint32),
        MetadataType::of_tag(5) == Some(MetadataType::Int32),
        MetadataType::of_tag(6) == Some(MetadataType::Float32),
        MetadataType::of_tag(7) == Some(MetadataType::Bool),
        MetadataType::of_tag(8) == Some(MetadataType::String),
        MetadataType::of_tag(9) == Some(MetadataType::Array),
        MetadataType::of_tag(10) == Some(MetadataType::Uint64),
        MetadataType::of_tag(11) == Some(MetadataType::Int64),
        MetadataType::of_tag(12) == Some(MetadataType::Float64),
        MetadataType::of_tag(v) is None <==> v > 12,
        MetadataType::of_tag(v) matches Some(t) ==> t.spec_tag() == v,
{
}

/// The tensor types that the kernels know have their tags and names, and no other number
/// is one of these tags.
pub proof fn tensor_types_have_their_tags(v: u32)
    ensures
        TensorType::of_tag(0) == Some(TensorType::F32) && type_label_of(0) == "f32"@,
        TensorType::of_tag(1) == Some(TensorType::F16) && type_label_of(1) == "f16"@,
        TensorType::of_tag(8) == Some(TensorType::Q8_0) && type_label_of(8) == "q8_0"@,
        TensorType::of_tag(10) == Some(TensorType::Q2K) && type_label_of(10) == "q2_k"@,
        TensorType::of_tag(12) == Some(TensorType::Q4K) && type_label_of(12) == "q4_k"@,
        TensorType::of_tag(16) == Some(TensorType::IQ2Xxs) && type_label_of(16) == "iq2_xxs"@,
        TensorType::of_tag(26) == Some(TensorType::I32) && type_label_of(26) == "i32"@,
        TensorType::of_tag(v) is None <==> v != 0 && v != 1 && v != 8 && v != 10 && v != 12 && v
            != 16 && v != 26,
        TensorType::of_tag(v) is None ==> type_label_of(v) == "unknown"@,
        TensorType::of_tag(v) matches Some(t) ==> t.spec_tag() == v,
{
}

/// The whole number that a metadata value is, where its type is one of the wide ones.
pub open spec fn whole_value(v: MetaView) -> Option<int> {
    match v {
        MetaView::Uint32(n) => Some(n as int),
        MetaView::Int32(n) => Some(n as int),
        MetaView::Uint64(n) => Some(n as int),
        MetaView::Int64(n) => Some(n as int),
        _ => None,
    }
}

/// A metadata value is read as a number where it is one and fits.
pub proof fn metadata_is_read_where_it_fits(v: MetaView)
    ensures
        match whole_value(v) {
            Some(n) => {
                &&& 0 <= n <= u32::MAX ==> v.as_u32() is Some && v.as_u32()->0 == n
                &&& !(0 <= n <= u32::MAX) ==> v.as_u32() is None
                &&& 0 <= n <= u64::MAX ==> v.as_u64() is Some && v.as_u64()->0 == n
                &&& n < 0 ==> v.as_u64() is None
            },
            None => v.as_u32() is None && v.as_u64() is None,
        },
        v matches MetaView::String(s) ==> v.as_string() == Some(s),
        v !is String ==> v.as_string() is None,
        v matches MetaView::Array(s) ==> v.as_array() == Some(s),
        v !is Array ==> v.as_array() is None,
        v matches MetaView::Bool(b) ==> v.as_bool() == Some(b),
        v matches MetaView::Float32(b) ==> v.as_f32() == Some(b),
{
}

/// A scalar is stored in as many bytes as its type has, without a sign as the number that
/// the bytes hold, and with one as that number less two to the number of bits where the
/// highest bit is set.
pub proof fn scalars_are_stored_in_their_width(ty: MetadataType, b: Seq<u8>)
    requires
        ty !is String && ty !is Array,
        b.len() == scalar_width(ty),
    ensures
        ({
            let n = le(b);
            let v = scalar(ty, n);
            &&& ty is Uint8 ==> b.len() == 1 && v is Uint8 && v->Uint8_0 == n
            &&& ty is Uint16 ==> b.len() == 2 && v is Uint16 && v->Uint16_0 == n
            &&& ty is Uint32 ==> b.len() == 4 && v is Uint32 && v->Uint32_0 == n
            &&& ty is Uint64 ==> b.len() == 8 && v is Uint64 && v->Uint64_0 == n
            &&& ty is Float32 ==> b.len() == 4 && v is Float32 && v->Float32_0 == n
            &&& ty is Float64 ==> b.len() == 8 && v is Float64 && v->Float64_0 == n
            &&& ty is Bool ==> b.len() == 1 && v == MetaView::Bool(n != 0)
            &&& ty is Int8 ==> b.len() == 1 && v is Int8 && v->Int8_0 == if n < 0x80 {
                n as int
            } else {
                n - 0x100
            }
            &&& ty is Int16 ==> b.len() == 2 && v is Int16 && v->Int16_0 == if n < 0x8000 {
                n as int
            } else {
                n - 0x1_0000
            }
            &&& ty is Int32 ==> b.len() == 4 && v is Int32 && v->Int32_0 == if n < 0x8000_0000 {
                n as int
            } else {
                n - 0x1_0000_0000
            }
            &&& ty is Int64 ==> b.len() == 8 && v is Int64 && v->Int64_0 == if n
                < 0x8000_0000_0000_0000 {
                n as int
            } else {
                n - 0x1_0000_0000_0000_0000
            }
        }),
{
    lemma_le_bound(b);
    let n = le(b);
    if ty is Int8 {
        let x = n as u8;
        assert(x as i8 == if x < 0x80 { x as int } else { x - 0x100 }) by (bit_vector);
    }
    if ty is Int16 {
        let x = n as u16;
        assert(x as i16 == if x < 0x8000 { x as int } else { x - 0x1_0000 }) by (bit_vector);
    }
    if ty is Int32 {
        let x = n as u32;
        assert(x as i32 == if x < 0x8000_0000 { x as int } else { x - 0x1_0000_0000 })
            by (bit_vector);
    }
    if ty is Int64 {
        let x = n as u64;
        assert(x as i64 == if x < 0x8000_0000_0000_0000 {
            x as int
        } else {
            x - 0x1_0000_0000_0000_0000
        }) by (bit_vector);
    }
}

/// Whole blocks of a tensor type take the bytes of one block each, and a part of a block
/// takes those of a whole one.
pub open spec fn takes_blocks(tag: u32, per: int, size: int, k: int, r: int) -> bool {
    nbytes(tag, k * per + r) == Some(((if r == 0 { k } else { k + 1 }) * size) as u64)
}

/// The sizes of the tensor types: so many bytes for a block of so many elements.
pub proof fn tensors_take_whole_blocks(tag: u32, k: int, r: int)
    requires
        0 <= k < 0x1_0000_0000_0000,
        0 <= r,
    ensures
        r < 1 ==> takes_blocks(0, 1, 4, k, r),
        r < 1 ==> takes_blocks(1, 1, 2, k, r),
        r < 32 ==> takes_blocks(2, 32, 18, k, r),
        r < 32 ==> takes_blocks(3, 32, 20, k, r),
        r < 32 ==> takes_blocks(6, 32, 22, k, r),
        r < 32 ==> takes_blocks(7, 32, 24, k, r),
        r < 32 ==> takes_blocks(8, 32, 34, k, r),
        r < 32 ==> takes_blocks(9, 32, 40, k, r),
        r < 256 ==> takes_blocks(10, 256, 84, k, r),
        r < 256 ==> takes_blocks(11, 256, 110, k, r),
        r < 256 ==> takes_blocks(12, 256, 144, k, r),
        r < 256 ==> takes_blocks(13, 256, 176, k, r),
        r < 256 ==> takes_blocks(14, 256, 210, k, r),
        r < 256 ==> takes_blocks(15, 256, 292, k, r),
        r < 256 ==> takes_blocks(16, 256, 66, k, r),
        r < 256 ==> takes_blocks(17, 256, 74, k, r),
        r < 256 ==> takes_blocks(18, 256, 98, k, r),
        r < 256 ==> takes_blocks(19, 256, 110, k, r),
        r < 256 ==> takes_blocks(20, 256, 50, k, r),
        r < 256 ==> takes_blocks(21, 256, 110, k, r),
        r < 256 ==> takes_blocks(22, 256, 82, k, r),
        r < 256 ==> takes_blocks(23, 256, 136, k, r),
        r < 1 ==> takes_blocks(24, 1, 1, k, r),
        r < 1 ==> takes_blocks(25, 1, 2, k, r),
        r < 1 ==> takes_blocks(26, 1, 4, k, r),
        r < 1 ==> takes_blocks(27, 1, 8, k, r),
        r < 1 ==> takes_blocks(28, 1, 8, k, r),
        r < 256 ==> takes_blocks(29, 256, 56, k, r),
        r < 1 ==> takes_blocks(30, 1, 2, k, r),
        tag == 4 || tag == 5 || tag > 30 ==> nbytes(tag, k) is None,
{
}

/// An aligned number is the least multiple of the alignment that is not smaller.
pub proof fn alignment_is_least(value: int, alignment: int, other: int)
    requires
        alignment > 0,
        value >= 0,
        other >= value,
        other % alignment == 0,
    ensures
        aligned(value, alignment) % alignment == 0,
        value <= aligned(value, alignment) <= other,
{
    let r = aligned(value, alignment);
    let rem = value % alignment;
    assert(r % alignment == 0) by (nonlinear_arith)
        requires
            alignment > 0,
            rem == value % alignment,
            r == if rem == 0 { value } else { value + alignment - rem },
    ;
    assert(0 <= rem < alignment) by (nonlinear_arith)
        requires
            alignment > 0,
            rem == value % alignment,
    ;
    assert(r <= other) by (nonlinear_arith)
        requires
            alignment > 0,
            r % alignment == 0,
            other % alignment == 0,
            r < value + alignment,
            value <= other,
    {
        let a = r / alignment;
        let b = other / alignment;
        assert(r == a * alignment);
        assert(other == b * alignment);
        assert(a * alignment < (b + 1) * alignment);
        assert(a <= b);
    }
}

/// The alignment of a file is the last one that its metadata set, under
/// `general.alignment` and not zero, and 32 without one.
pub proof fn alignment_is_the_last_set(kv: Seq<KvView>, e: KvView)
    ensures
        alignment_of(Seq::empty()) == 32,
        e.key == "general.alignment"@ ==> (e.value matches MetaView::Uint32(a) ==> (a != 0
            ==> alignment_of(kv.push(e)) == a)),
        e.key != "general.alignment"@ || e.value == MetaView::Uint32(0) ==> alignment_of(
            kv.push(e),
        ) == alignment_of(kv),
{
    assert(kv.push(e).drop_last() =~= kv);
    assert(kv.push(e).last() == e);
}

/// The elements of a tensor are counted by multiplying its dimensions; a dimension of zero
/// is passed over.
pub proof fn dimensions_multiply(dims: Seq<u64>, d: u64)
    ensures
        element_count(Seq::empty()) == 1,
        d != 0 ==> element_count(dims.push(d)) == element_count(dims) * d,
        d == 0 ==> element_count(dims.push(d)) == element_count(dims),
{
    assert(dims.push(d).drop_last() =~= dims);
}

/// A text is stored as its number of bytes, in eight bytes, and its UTF-8.
pub proof fn texts_are_stored_behind_their_length(data: Seq<u8>, pos: int, s: Seq<char>)
    requires
        0 <= pos,
        pos + 8 + encode_utf8(s).len() <= data.len(),
        le(data.subrange(pos, pos + 8)) == encode_utf8(s).len(),
        data.subrange(pos + 8, pos + 8 + encode_utf8(s).len()) == encode_utf8(s),
    ensures
        get_string(data, pos) == Ok::<(Seq<char>, int), GgufError>(
            (s, pos + 8 + encode_utf8(s).len()),
        ),
{
    encode_utf8_decode_utf8(s);
    encode_utf8_valid_utf8(s);
}

/// An entry is a key, the tag of a type in four bytes, and a value of that type.
pub proof fn entries_are_keys_and_values(data: Seq<u8>, pos: int)
    ensures
        get_entry(data, pos) matches Ok((e, end)) ==> {
            &&& get_string(data, pos) is Ok
            &&& ({
                let (key, p) = get_string(data, pos)->Ok_0;
                &&& e.key == key
                &&& p + 4 <= data.len()
                &&& MetadataType::of_tag(le(data.subrange(p, p + 4)) as u32) matches Some(ty)
                &&& get_value(data, p + 4, ty, 0) == Ok::<(MetaView, int), GgufError>(
                    (e.value, end),
                )
            })
        },
{
}

/// A text value is a text, a scalar the number in its bytes, and an array the tag of its
/// items, their number, and the items.
pub proof fn values_are_stored_by_type(data: Seq<u8>, pos: int, ty: MetadataType)
    requires
        0 <= pos,
    ensures
        ty is String ==> (get_value(data, pos, ty, 0) matches Ok((v, end)) ==> (get_string(
            data,
            pos,
        ) matches Ok((s, p)) && v == MetaView::String(s) && end == p)),
        ty !is String && ty !is Array && pos + scalar_width(ty) <= data.len() ==> get_value(
            data,
            pos,
            ty,
            0,
        ) == Ok::<(MetaView, int), GgufError>(
            (
                scalar(ty, le(data.subrange(pos, pos + scalar_width(ty)))),
                pos + scalar_width(ty),
            ),
        ),
        ty is Array ==> (get_value(data, pos, ty, 0) matches Ok((v, end)) ==> v is Array && pos + 12
            <= data.len() && v->Array_0.len() == le(data.subrange(pos + 4, pos + 12))),
{
    if ty is Array {
        match get_value(data, pos, ty, 0) {
            Ok((v, end)) => {
                let tag = le(data.subrange(pos, pos + 4));
                let item = MetadataType::of_tag(tag as u32)->0;
                let n = le(data.subrange(pos + 4, pos + 12));
                lemma_items_len(data, pos + 12, item, 1, n);
            },
            Err(_) => {},
        }
    }
}

proof fn lemma_items_len(data: Seq<u8>, pos: int, ty: MetadataType, depth: nat, n: nat)
    ensures
        crate::gguf::get_items(data, pos, ty, depth, n) matches Ok((items, p)) ==> items.len() == n,
    decreases n,
{
    if n > 0 {
        lemma_items_len(data, pos, ty, depth, (n - 1) as nat);
    }
}

/// A tensor is described by its name, the number of its dimensions, the dimensions, the
/// tag of its type and its offset, in this order; its elements and bytes follow from them.
pub proof fn tensors_are_described_in_order(data: Seq<u8>, pos: int, number: u64, i: int)
    requires
        0 <= pos,
    ensures
        get_tensor(data, pos, number) matches Ok((t, end)) ==> {
            &&& get_string(data, pos) is Ok
            &&& ({
                let (name, p) = get_string(data, pos)->Ok_0;
                let n = t.dims.len() as int;
                let q = p + 4 + 8 * n;
                &&& t.name == name
                &&& t.ndim == n && n == le(data.subrange(p, p + 4)) && 1 <= n <= 8
                &&& 0 <= i < n ==> t.dims[i] == le(
                    data.subrange(p + 4 + 8 * i, p + 12 + 8 * i),
                )
                &&& t.tensor_type == le(data.subrange(q, q + 4))
                &&& t.rel_offset == le(data.subrange(q + 4, q + 12))
                &&& end == q + 12 <= data.len()
                &&& t.elements == element_count(t.dims)
                &&& nbytes(t.tensor_type, element_count(t.dims)) matches Some(b) ==> t.bytes == b
                &&& nbytes(t.tensor_type, element_count(t.dims)) is None ==> t.bytes == 0
            })
        },
{
    match get_tensor(data, pos, number) {
        Ok((t, end)) => {
            let (name, p) = get_string(data, pos)->Ok_0;
            let n = le(data.subrange(p, p + 4));
            lemma_le_bound(data.subrange(p, p + 4));
            lemma_dims(data, p + 4, n, number, i);
            let q = p + 4 + 8 * n;
            lemma_le_bound(data.subrange(q, q + 4));
            lemma_le_bound(data.subrange(q + 4, q + 12));
        },
        Err(_) => {},
    }
}

proof fn lemma_dims(data: Seq<u8>, pos: int, n: nat, number: u64, i: int)
    requires
        0 <= pos,
    ensures
        get_dims(data, pos, n, number) matches Ok((dims, p)) ==> {
            &&& dims.len() == n
            &&& p == pos + 8 * n
            &&& n > 0 ==> p <= data.len() && element_count(dims) <= u64::MAX
            &&& element_count(dims) >= 1
            &&& 0 <= i < n ==> dims[i] == le(data.subrange(pos + 8 * i, pos + 8 + 8 * i))
        },
    decreases n,
{
    if n > 0 {
        lemma_dims(data, pos, (n - 1) as nat, number, i);
        match get_dims(data, pos, n, number) {
            Ok((dims, p)) => {
                let before = get_dims(data, pos, (n - 1) as nat, number)->Ok_0.0;
                let at = pos + 8 * (n - 1);
                lemma_le_bound(data.subrange(at, at + 8));
                let d = le(data.subrange(at, at + 8)) as u64;
                dimensions_multiply(before, d);
                assert(d != 0 ==> element_count(before) * d >= 1) by (nonlinear_arith)
                    requires
                        element_count(before) >= 1,
                ;
            },
            Err(_) => {},
        }
    }
}

/// Entries and tensors follow one another: what is read last begins where what is read
/// before ends.
pub proof fn records_follow_one_another(data: Seq<u8>, pos: int, n: nat)
    requires
        n < u64::MAX,
    ensures
        get_entries(data, pos, n + 1) matches Ok((all, end)) ==> {
            &&& get_entries(data, pos, n) matches Ok((before, p))
            &&& get_entry(data, p) matches Ok((last, q))
            &&& all == before.push(last)
            &&& end == q
        },
        get_tensors(data, pos, n + 1) matches Ok((all, end)) ==> {
            &&& get_tensors(data, pos, n) matches Ok((before, p))
            &&& get_tensor(data, p, n as u64) matches Ok((last, q))
            &&& all == before.push(last)
            &&& end == q
        },
        get_entries(data, pos, 0) == Ok::<(Seq<KvView>, int), GgufError>((Seq::empty(), pos)),
        get_tensors(data, pos, 0) == Ok::<(Seq<TensorView>, int), GgufError>((Seq::empty(), pos)),
{
}

/// A file opens with its magic, its version, the number of its tensors and that of its
/// entries; the entries follow, and then the tensors.
pub proof fn files_open_with_their_counts(data: Seq<u8>)
    ensures
        ({
            let r = parse_model(data);
            let magic = le(data.subrange(0, 4));
            let version = le(data.subrange(4, 8));
            &&& data.len() < 32 ==> r is Err && r->Err_0 is FileTooSmall
            &&& data.len() >= 32 && magic != 0x4655_4747 ==> r is Err && r->Err_0
                == GgufError::BadMagic(magic as u32)
            &&& data.len() >= 32 && magic == 0x4655_4747 && version != 3 ==> r is Err && r->Err_0
                == GgufError::BadVersion(version as u32)
            &&& r matches Ok(m) ==> {
                &&& data.len() >= 32 && magic == 0x4655_4747 && version == 3
                &&& m.version == 3
                &&& m.n_tensors == le(data.subrange(8, 16))
                &&& m.n_kv == le(data.subrange(16, 24))
                &&& m.kv.len() == m.n_kv
                &&& get_entries(data, 24, m.n_kv as nat) matches Ok((kv, p))
                &&& m.kv == kv
                &&& m.alignment == alignment_of(kv)
                &&& get_tensors(data, p, m.n_tensors as nat) is Ok
            }
        }),
{
    lemma_le_bound(data.subrange(8, 16));
    lemma_le_bound(data.subrange(16, 24));
    lemma_entries_len(data, 24, le(data.subrange(16, 24)));
}

proof fn lemma_entries_len(data: Seq<u8>, pos: int, n: nat)
    ensures
        get_entries(data, pos, n) matches Ok((kv, p)) ==> kv.len() == n,
    decreases n,
{
    if n > 0 {
        lemma_entries_len(data, pos, (n - 1) as nat);
    }
}

/// A tensor is placed at its offset behind the start of the data, and one that would end
/// behind the file is refused.
pub proof fn tensors_are_placed_behind_start(t: TensorView, i: u64, start: int, len: int)
    requires
        start >= 0,
        start + t.rel_offset <= u64::MAX,
    ensures
        start + t.rel_offset + t.bytes <= len ==> {
            &&& place_tensor(t, i, start, len) matches Ok(p)
            &&& p.abs_offset == start + t.rel_offset
            &&& p.name == t.name && p.dims == t.dims && p.tensor_type == t.tensor_type
            &&& p.rel_offset == t.rel_offset && p.elements == t.elements && p.bytes == t.bytes
        },
        start + t.rel_offset + t.bytes > len ==> place_tensor(t, i, start, len) == Err::<
            TensorView,
            GgufError,
        >(GgufError::BeyondFile { tensor: i }),
{
}

/// A tensor is found by its name and an entry by its key: the first of several.
pub proof fn lookups_find_the_first(m: ModelView, name: Seq<char>, i: int)
    ensures
        0 <= i < m.tensors.len() && m.tensors[i].name == name && (forall|j: int|
            0 <= j < i ==> (#[trigger] m.tensors[j]).name != name) ==> m.find_tensor(name) == Some(
            m.tensors[i],
        ),
        (forall|j: int| 0 <= j < m.tensors.len() ==> (#[trigger] m.tensors[j]).name != name)
            ==> m.find_tensor(name) is None,
        0 <= i < m.kv.len() && m.kv[i].key == name && (forall|j: int|
            0 <= j < i ==> (#[trigger] m.kv[j]).key != name) ==> {
            &&& m.find_kv(name) == Some(m.kv[i])
            &&& m.kv_value(name) == Some(m.kv[i].value)
            &&& m.get_u32(name) == m.kv[i].value.as_u32()
            &&& m.get_u64(name) == m.kv[i].value.as_u64()
            &&& m.get_bool(name) == m.kv[i].value.as_bool()
            &&& m.get_f32(name) == m.kv[i].value.as_f32()
            &&& m.get_string(name) == m.kv[i].value.as_string()
            &&& m.get_array(name) == m.kv[i].value.as_array()
        },
        (forall|j: int| 0 <= j < m.kv.len() ==> (#[trigger] m.kv[j]).key != name) ==> m.find_kv(
            name,
        ) is None && m.get_u32(name) is None && m.get_string(name) is None,
{
    lemma_tensor_named(m.tensors, name, 0, i);
    lemma_entry_keyed(m.kv, name, 0, i);
}

proof fn lemma_tensor_named(ts: Seq<TensorView>, name: Seq<char>, from: int, i: int)
    requires
        0 <= from,
    ensures
        from <= i < ts.len() && ts[i].name == name && (forall|j: int|
            from <= j < i ==> (#[trigger] ts[j]).name != name) ==> crate::gguf::tensor_named(
            ts,
            name,
            from,
        ) == Some(ts[i]),
        (forall|j: int| from <= j < ts.len() ==> (#[trigger] ts[j]).name != name)
            ==> crate::gguf::tensor_named(ts, name, from) is None,
    decreases ts.len() - from,
{
    if from < ts.len() {
        lemma_tensor_named(ts, name, from + 1, i);
    }
}

proof fn lemma_entry_keyed(kv: Seq<KvView>, key: Seq<char>, from: int, i: int)
    requires
        0 <= from,
    ensures
        from <= i < kv.len() && kv[i].key == key && (forall|j: int|
            from <= j < i ==> (#[trigger] kv[j]).key != key) ==> crate::gguf::entry_keyed(
            kv,
            key,
            from,
        ) == Some(kv[i]),
        (forall|j: int| from <= j < kv.len() ==> (#[trigger] kv[j]).key != key)
            ==> crate::gguf::entry_keyed(kv, key, from) is None,
    decreases kv.len() - from,
{
    if from < kv.len() {
        lemma_entry_keyed(kv, key, from + 1, i);
    }
}

/// Where the tensors cannot all be placed, the first that cannot is reported, by its number.
pub proof fn first_misplaced_tensor_is_reported(
    ts: Seq<TensorView>,
    n: nat,
    start: int,
    len: int,
    i: int,
)
    requires
        0 <= i < n <= ts.len() <= u64::MAX,
        start >= 0,
        forall|j: int|
            0 <= j < ts.len() ==> start + (#[trigger] ts[j]).rel_offset <= u64::MAX,
        start + ts[i].rel_offset + ts[i].bytes > len,
        forall|j: int|
            0 <= j < i ==> start + (#[trigger] ts[j]).rel_offset + ts[j].bytes <= len,
    ensures
        place_tensors(ts, n, start, len) is Err,
        place_tensors(ts, n, start, len)->Err_0 == (GgufError::BeyondFile { tensor: i as u64 }),
    decreases n,
{
    if i < n - 1 {
        first_misplaced_tensor_is_reported(ts, (n - 1) as nat, start, len, i);
    } else {
        lemma_placed(ts, (n - 1) as nat, start, len);
        tensors_are_placed_behind_start(ts[i], i as u64, start, len);
    }
}

proof fn lemma_placed(ts: Seq<TensorView>, n: nat, start: int, len: int)
    requires
        n <= ts.len(),
        start >= 0,
        forall|j: int|
            0 <= j < ts.len() ==> start + (#[trigger] ts[j]).rel_offset <= u64::MAX,
        forall|j: int|
            0 <= j < n ==> start + (#[trigger] ts[j]).rel_offset + ts[j].bytes <= len,
    ensures
        place_tensors(ts, n, start, len) is Ok,
        (place_tensors(ts, n, start, len)->Ok_0).len() == n,
        forall|j: int|
            0 <= j < n ==> (#[trigger] (place_tensors(ts, n, start, len)->Ok_0)[j]).abs_offset
                == start + ts[j].rel_offset && (place_tensors(ts, n, start, len)->Ok_0)[j].name
                == ts[j].name,
    decreases n,
{
    if n > 0 {
        lemma_placed(ts, (n - 1) as nat, start, len);
        tensors_are_placed_behind_start(ts[n - 1], (n - 1) as u64, start, len);
    }
}

/// Where every tensor lies within the file, all are placed, each where it is and under its
/// name.
pub proof fn tensors_within_the_file_are_placed(ts: Seq<TensorView>, start: int, len: int, i: int)
    requires
        start >= 0,
        forall|j: int|
            0 <= j < ts.len() ==> start + (#[trigger] ts[j]).rel_offset <= u64::MAX,
        forall|j: int|
            0 <= j < ts.len() ==> start + (#[trigger] ts[j]).rel_offset + ts[j].bytes <= len,
    ensures
        place_tensors(ts, ts.len(), start, len) is Ok,
        (place_tensors(ts, ts.len(), start, len)->Ok_0).len() == ts.len(),
        0 <= i < ts.len() ==> {
            let t = (place_tensors(ts, ts.len(), start, len)->Ok_0)[i];
            t.abs_offset == start + ts[i].rel_offset && t.name == ts[i].name
        },
{
    lemma_placed(ts, ts.len(), start, len);
}

} // verus!
