//! GGUF v3 model files: header, metadata and tensor directory.
//!
//! Layout, all numbers little-endian:
//!
//! ```text
//! 0x00  magic      u32 = 0x46554747 ("GGUF")
//! 0x04  version    u32 = 3
//! 0x08  n_tensors  u64
//! 0x10  n_kv       u64
//! 0x18  metadata   n_kv times: key string, type tag u32, value
//!       tensors    n_tensors times: name, ndim u32, dims u64 each, type u32, offset u64
//!       data       from the next multiple of the alignment on
//! ```
//!
//! The payload of the tensors is not copied: a descriptor holds the offset at which
//! it starts in the file.
use vstd::prelude::*;
use vstd::utf8::{decode_utf8, valid_utf8};

use crate::bytes::{le, lemma_le_bound, u16_le, u32_le, u64_le};
use crate::single::{
    single_from_f64_bits, single_from_i32, single_from_u32, single_of_double, single_of_int,
    single_of_nat,
};
use crate::text::{same_text, utf8_string};
use crate::types::TensorType;

verus! {

/// The bytes "GGUF" as a little-endian number.
pub const DS4_GGUF_MAGIC: u32 = 0x4655_4747;

/// The largest number of dimensions of a tensor.
pub const DS4_MAX_DIMS: usize = 8;

/// The alignment of the tensor data where the metadata sets none.
pub const DEFAULT_ALIGNMENT: u64 = 32;

/// Why a file is not a model that can be read.
#[derive(Debug, Clone, Copy, PartialEq, Eq, Structural)]
pub enum GgufError {
    /// The file has fewer than 32 bytes.
    FileTooSmall,
    /// The first four bytes are not the magic.
    BadMagic(u32),
    /// The version is not 3.
    BadVersion(u32),
    /// `needed` bytes were to be read at `pos`, where only `remaining` are left.
    Truncated { needed: u64, remaining: u64, pos: u64 },
    /// The string whose bytes start at `pos` is not UTF-8.
    BadString { pos: u64 },
    /// A metadata value has an unknown type tag.
    UnknownValueType(u32),
    /// The items of a metadata array have an unknown type tag.
    UnknownItemType(u32),
    /// Arrays are nested deeper than eight levels.
    NestingTooDeep,
    /// A tensor has no dimension, or more than eight.
    BadRank { tensor: u64, ndim: u32 },
    /// The element count of a tensor does not fit in 64 bits.
    ElementOverflow { tensor: u64 },
    /// The offset of a tensor does not fit in 64 bits.
    OffsetOverflow { tensor: u64 },
    /// A tensor ends past the end of the file.
    BeyondFile { tensor: u64 },
}

// ── Metadata value types ─────────────────────────────────────────────────

/// Type tags of metadata values.
#[derive(Debug, Clone, Copy, PartialEq, Eq, Structural)]
pub enum MetadataType {
    Uint8,
    Int8,
    Uint16,
    Int16,
    Uint32,
    Int32,
    Float32,
    Bool,
    String,
    Array,
    Uint64,
    Int64,
    Float64,
}

impl MetadataType {
    /// The tag of the type.
    pub open spec fn spec_tag(self) -> u32 {
        match self {
            MetadataType::Uint8 => 0,
            MetadataType::Int8 => 1,
            MetadataType::Uint16 => 2,
            MetadataType::Int16 => 3,
            MetadataType::Uint32 => 4,
            MetadataType::Int32 => 5,
            MetadataType::Float32 => 6,
            MetadataType::Bool => 7,
            MetadataType::String => 8,
            MetadataType::Array => 9,
            MetadataType::Uint64 => 10,
            MetadataType::Int64 => 11,
            MetadataType::Float64 => 12,
        }
    }

    /// The type with the tag `v`.
    pub open spec fn of_tag(v: u32) -> Option<MetadataType> {
        if v == 0 {
            Some(MetadataType::Uint8)
        } else if v == 1 {
            Some(MetadataType::Int8)
        } else if v == 2 {
            Some(MetadataType::Uint16)
        } else if v == 3 {
            Some(MetadataType::Int16)
        } else if v == 4 {
            Some(MetadataType::Uint32)
        } else if v == 5 {
            Some(MetadataType::Int32)
        } else if v == 6 {
            Some(MetadataType::Float32)
        } else if v == 7 {
            Some(MetadataType::Bool)
        } else if v == 8 {
            Some(MetadataType::String)
        } else if v == 9 {
            Some(MetadataType::Array)
        } else if v == 10 {
            Some(MetadataType::Uint64)
        } else if v == 11 {
            Some(MetadataType::Int64)
        } else if v == 12 {
            Some(MetadataType::Float64)
        } else {
            None
        }
    }

    /// The type with the tag `v`.
    pub fn from_u32(v: u32) -> (r: Option<Self>)
        ensures
            r == MetadataType::of_tag(v),
            r matches Some(t) ==> t.spec_tag() == v,
            r is None ==> v > 12,
    {
        match v {
            0 => Some(MetadataType::Uint8),
            1 => Some(MetadataType::Int8),
            2 => Some(MetadataType::Uint16),
            3 => Some(MetadataType::Int16),
            4 => Some(MetadataType::Uint32),
            5 => Some(MetadataType::Int32),
            6 => Some(MetadataType::Float32),
            7 => Some(MetadataType::Bool),
            8 => Some(MetadataType::String),
            9 => Some(MetadataType::Array),
            10 => Some(MetadataType::Uint64),
            11 => Some(MetadataType::Int64),
            12 => Some(MetadataType::Float64),
            _ => None,
        }
    }

    /// The size in bytes of a scalar of the type; none for strings and arrays, whose
    /// length varies.
    pub fn scalar_size(&self) -> (r: Option<u64>)
        ensures
            r == match *self {
                MetadataType::Uint8 | MetadataType::Int8 | MetadataType::Bool => Some(1u64),
                MetadataType::Uint16 | MetadataType::Int16 => Some(2u64),
                MetadataType::Uint32 | MetadataType::Int32 | MetadataType::Float32 => Some(4u64),
                MetadataType::Uint64 | MetadataType::Int64 | MetadataType::Float64 => Some(8u64),
                MetadataType::String | MetadataType::Array => None,
            },
    {
        match self {
            MetadataType::Uint8 | MetadataType::Int8 | MetadataType::Bool => Some(1),
            MetadataType::Uint16 | MetadataType::Int16 => Some(2),
            MetadataType::Uint32 | MetadataType::Int32 | MetadataType::Float32 => Some(4),
            MetadataType::Uint64 | MetadataType::Int64 | MetadataType::Float64 => Some(8),
            MetadataType::String | MetadataType::Array => None,
        }
    }
}

/// The tag of a type leads back to the type.
pub proof fn metadata_tag_roundtrip(t: MetadataType)
    ensures
        MetadataType::of_tag(t.spec_tag()) == Some(t),
{
}

// ── Metadata values ──────────────────────────────────────────────────────

/// A metadata value. Floating-point values are kept as their bit patterns.
#[derive(Debug)]
pub enum MetadataValue {
    Uint8(u8),
    Int8(i8),
    Uint16(u16),
    Int16(i16),
    Uint32(u32),
    Int32(i32),
    Float32(u32),
    Bool(bool),
    String(String),
    Array(Vec<MetadataValue>),
    Uint64(u64),
    Int64(i64),
    Float64(u64),
}

/// The mathematical form of a metadata value.
pub enum MetaView {
    Uint8(u8),
    Int8(i8),
    Uint16(u16),
    Int16(i16),
    Uint32(u32),
    Int32(i32),
    Float32(u32),
    Bool(bool),
    String(Seq<char>),
    Array(Seq<MetaView>),
    Uint64(u64),
    Int64(i64),
    Float64(u64),
}

impl View for MetadataValue {
    type V = MetaView;

    open spec fn view(&self) -> MetaView {
        meta_view(*self)
    }
}

/// The view of a metadata value.
pub open spec fn meta_view(v: MetadataValue) -> MetaView
    decreases v,
{
    match v {
        MetadataValue::Uint8(x) => MetaView::Uint8(x),
        MetadataValue::Int8(x) => MetaView::Int8(x),
        MetadataValue::Uint16(x) => MetaView::Uint16(x),
        MetadataValue::Int16(x) => MetaView::Int16(x),
        MetadataValue::Uint32(x) => MetaView::Uint32(x),
        MetadataValue::Int32(x) => MetaView::Int32(x),
        MetadataValue::Float32(x) => MetaView::Float32(x),
        MetadataValue::Bool(x) => MetaView::Bool(x),
        MetadataValue::String(x) => MetaView::String(x@),
        MetadataValue::Array(x) => MetaView::Array(
            Seq::new(
                x@.len(),
                |i: int|
                    if 0 <= i < x@.len() {
                        meta_view(x@[i])
                    } else {
                        MetaView::Bool(false)
                    },
            ),
        ),
        MetadataValue::Uint64(x) => MetaView::Uint64(x),
        MetadataValue::Int64(x) => MetaView::Int64(x),
        MetadataValue::Float64(x) => MetaView::Float64(x),
    }
}

/// The views of a sequence of metadata values.
pub open spec fn meta_views(s: Seq<MetadataValue>) -> Seq<MetaView> {
    Seq::new(s.len(), |i: int| meta_view(s[i]))
}

impl MetaView {
    pub open spec fn as_u32(self) -> Option<u32> {
        match self {
            MetaView::Uint32(v) => Some(v),
            MetaView::Uint64(v) => if v <= u32::MAX {
                Some(v as u32)
            } else {
                None
            },
            MetaView::Int32(v) => if v >= 0 {
                Some(v as u32)
            } else {
                None
            },
            MetaView::Int64(v) => if 0 <= v <= u32::MAX {
                Some(v as u32)
            } else {
                None
            },
            _ => None,
        }
    }

    pub open spec fn as_u64(self) -> Option<u64> {
        match self {
            MetaView::Uint64(v) => Some(v),
            MetaView::Uint32(v) => Some(v as u64),
            MetaView::Int64(v) => if v >= 0 {
                Some(v as u64)
            } else {
                None
            },
            MetaView::Int32(v) => if v >= 0 {
                Some(v as u64)
            } else {
                None
            },
            _ => None,
        }
    }

    /// The bit pattern of the value as a single, a number in another format rounded
    /// to the nearest one.
    pub open spec fn as_f32(self) -> Option<u32> {
        match self {
            MetaView::Float32(v) => Some(v),
            MetaView::Float64(v) => Some(single_of_double(v) as u32),
            MetaView::Uint32(v) => Some(single_of_nat(v as nat) as u32),
            MetaView::Int32(v) => Some(single_of_int(v as int) as u32),
            _ => None,
        }
    }

    pub open spec fn as_bool(self) -> Option<bool> {
        match self {
            MetaView::Bool(v) => Some(v),
            MetaView::Uint8(v) => Some(v != 0),
            MetaView::Int8(v) => Some(v != 0),
            _ => None,
        }
    }

    pub open spec fn as_string(self) -> Option<Seq<char>> {
        match self {
            MetaView::String(v) => Some(v),
            _ => None,
        }
    }

    pub open spec fn as_array(self) -> Option<Seq<MetaView>> {
        match self {
            MetaView::Array(v) => Some(v),
            _ => None,
        }
    }
}

impl MetadataValue {
    /// The type of the value.
    pub fn value_type(&self) -> (r: MetadataType)
        ensures
            r == match self@ {
                MetaView::Uint8(_) => MetadataType::Uint8,
                MetaView::Int8(_) => MetadataType::Int8,
                MetaView::Uint16(_) => MetadataType::Uint16,
                MetaView::Int16(_) => MetadataType::Int16,
                MetaView::Uint32(_) => MetadataType::Uint32,
                MetaView::Int32(_) => MetadataType::Int32,
                MetaView::Float32(_) => MetadataType::Float32,
                MetaView::Bool(_) => MetadataType::Bool,
                MetaView::String(_) => MetadataType::String,
                MetaView::Array(_) => MetadataType::Array,
                MetaView::Uint64(_) => MetadataType::Uint64,
                MetaView::Int64(_) => MetadataType::Int64,
                MetaView::Float64(_) => MetadataType::Float64,
            },
    {
        match self {
            MetadataValue::Uint8(_) => MetadataType::Uint8,
            MetadataValue::Int8(_) => MetadataType::Int8,
            MetadataValue::Uint16(_) => MetadataType::Uint16,
            MetadataValue::Int16(_) => MetadataType::Int16,
            MetadataValue::Uint32(_) => MetadataType::Uint32,
            MetadataValue::Int32(_) => MetadataType::Int32,
            MetadataValue::Float32(_) => MetadataType::Float32,
            MetadataValue::Bool(_) => MetadataType::Bool,
            MetadataValue::String(_) => MetadataType::String,
            MetadataValue::Array(_) => MetadataType::Array,
            MetadataValue::Uint64(_) => MetadataType::Uint64,
            MetadataValue::Int64(_) => MetadataType::Int64,
            MetadataValue::Float64(_) => MetadataType::Float64,
        }
    }

    pub fn as_u32(&self) -> (r: Option<u32>)
        ensures
            r == self@.as_u32(),
    {
        match self {
            MetadataValue::Uint32(v) => Some(*v),
            MetadataValue::Uint64(v) => if *v <= 0xffff_ffff {
                Some(*v as u32)
            } else {
                None
            },
            MetadataValue::Int32(v) => if *v >= 0 {
                Some(*v as u32)
            } else {
                None
            },
            MetadataValue::Int64(v) => if *v >= 0 && *v <= 0xffff_ffff {
                Some(*v as u32)
            } else {
                None
            },
            _ => None,
        }
    }

    /// The bit pattern of the value as a single.
    pub fn as_f32(&self) -> (r: Option<u32>)
        ensures
            r == self@.as_f32(),
    {
        match self {
            MetadataValue::Float32(v) => Some(*v),
            MetadataValue::Float64(v) => Some(single_from_f64_bits(*v)),
            MetadataValue::Uint32(v) => Some(single_from_u32(*v)),
            MetadataValue::Int32(v) => Some(single_from_i32(*v)),
            _ => None,
        }
    }

    pub fn as_bool(&self) -> (r: Option<bool>)
        ensures
            r == self@.as_bool(),
    {
        match self {
            MetadataValue::Bool(v) => Some(*v),
            MetadataValue::Uint8(v) => Some(*v != 0),
            MetadataValue::Int8(v) => Some(*v != 0),
            _ => None,
        }
    }

    pub fn as_string(&self) -> (r: Option<&str>)
        ensures
            match r {
                Some(s) => self@.as_string() == Some(s@),
                None => self@.as_string() is None,
            },
    {
        match self {
            MetadataValue::String(v) => Some(v.as_str()),
            _ => None,
        }
    }

    pub fn as_u64(&self) -> (r: Option<u64>)
        ensures
            r == self@.as_u64(),
    {
        match self {
            MetadataValue::Uint64(v) => Some(*v),
            MetadataValue::Uint32(v) => Some(*v as u64),
            MetadataValue::Int64(v) => if *v >= 0 {
                Some(*v as u64)
            } else {
                None
            },
            MetadataValue::Int32(v) => if *v >= 0 {
                Some(*v as u64)
            } else {
                None
            },
            _ => None,
        }
    }

    pub fn as_array(&self) -> (r: Option<&[MetadataValue]>)
        ensures
            match r {
                Some(s) => self@.as_array() == Some(meta_views(s@)),
                None => self@.as_array() is None,
            },
    {
        match self {
            MetadataValue::Array(v) => {
                let s = v.as_slice();
                assert(self@.as_array()->0 =~= meta_views(s@));
                Some(s)
            },
            _ => None,
        }
    }
}

// ── Entries ──────────────────────────────────────────────────────────────

/// One metadata entry.
#[derive(Debug)]
pub struct KvEntry {
    pub key: String,
    pub value: MetadataValue,
}

/// The mathematical form of a metadata entry.
pub struct KvView {
    pub key: Seq<char>,
    pub value: MetaView,
}

impl View for KvEntry {
    type V = KvView;

    open spec fn view(&self) -> KvView {
        KvView { key: self.key@, value: self.value@ }
    }
}

/// The descriptor of a tensor.
#[derive(Debug, Clone)]
pub struct TensorInfo {
    pub name: String,
    pub ndim: u32,
    pub dims: Vec<u64>,
    pub tensor_type: u32,
    pub abs_offset: u64,
    pub rel_offset: u64,
    pub elements: u64,
    pub bytes: u64,
}

/// The mathematical form of a tensor descriptor.
#[verifier::ext_equal]
pub struct TensorView {
    pub name: Seq<char>,
    pub ndim: u32,
    pub dims: Seq<u64>,
    pub tensor_type: u32,
    pub abs_offset: u64,
    pub rel_offset: u64,
    pub elements: u64,
    pub bytes: u64,
}

impl View for TensorInfo {
    type V = TensorView;

    open spec fn view(&self) -> TensorView {
        TensorView {
            name: self.name@,
            ndim: self.ndim,
            dims: self.dims@,
            tensor_type: self.tensor_type,
            abs_offset: self.abs_offset,
            rel_offset: self.rel_offset,
            elements: self.elements,
            bytes: self.bytes,
        }
    }
}

/// The name under which the tensor type with tag `tag` is shown.
pub open spec fn type_label_of(tag: u32) -> Seq<char> {
    match TensorType::of_tag(tag) {
        Some(t) => t.spec_name(),
        None => "unknown"@,
    }
}

impl TensorInfo {
    /// The tensor type, where it is one that the inference kernels support.
    pub fn resolved_type(&self) -> (r: Option<TensorType>)
        ensures
            r == TensorType::of_tag(self.tensor_type),
    {
        TensorType::from_u32(self.tensor_type)
    }

    /// The name of the tensor type, or `unknown`.
    pub fn type_label(&self) -> (r: &'static str)
        ensures
            r@ == type_label_of(self.tensor_type),
    {
        match TensorType::from_u32(self.tensor_type) {
            Some(t) => t.name(),
            None => "unknown",
        }
    }

    /// The bytes of the tensor in the file with the contents `file`.
    pub fn data<'a>(&self, file: &'a [u8]) -> (r: &'a [u8])
        requires
            self.abs_offset + self.bytes <= file@.len(),
        ensures
            r@ == file@.subrange(self.abs_offset as int, self.abs_offset + self.bytes),
    {
        let n: usize = file.len();
        assert(self.abs_offset + self.bytes <= n);
        let start: usize = self.abs_offset as usize;
        let end: usize = start + self.bytes as usize;
        vstd::slice::slice_subrange(file, start, end)
    }

    /// A copy of the descriptor.
    pub fn copy(&self) -> (r: TensorInfo)
        ensures
            r@ == self@,
    {
        let mut dims: Vec<u64> = Vec::new();
        let mut i: usize = 0;
        while i < self.dims.len()
            invariant
                i <= self.dims@.len(),
                dims@ == self.dims@.take(i as int),
            decreases self.dims@.len() - i,
        {
            dims.push(self.dims[i]);
            i = i + 1;
            assert(self.dims@.take(i as int) =~= self.dims@.take(i - 1).push(self.dims@[i - 1]));
        }
        assert(dims@ =~= self.dims@);
        TensorInfo {
            name: self.name.clone(),
            ndim: self.ndim,
            dims,
            tensor_type: self.tensor_type,
            abs_offset: self.abs_offset,
            rel_offset: self.rel_offset,
            elements: self.elements,
            bytes: self.bytes,
        }
    }
}

// ── Sizes ────────────────────────────────────────────────────────────────

/// Elements and bytes of one block of the GGUF tensor type with tag `tag`.
pub open spec fn block_shape(tag: u32) -> Option<(int, int)> {
    if tag == 0 {
        Some((1, 4))  // F32
    } else if tag == 1 {
        Some((1, 2))  // F16
    } else if tag == 2 {
        Some((32, 18))  // Q4_0
    } else if tag == 3 {
        Some((32, 20))  // Q4_1
    } else if tag == 6 {
        Some((32, 22))  // Q5_0
    } else if tag == 7 {
        Some((32, 24))  // Q5_1
    } else if tag == 8 {
        Some((32, 34))  // Q8_0
    } else if tag == 9 {
        Some((32, 40))  // Q8_1
    } else if tag == 10 {
        Some((256, 84))  // Q2_K
    } else if tag == 11 {
        Some((256, 110))  // Q3_K
    } else if tag == 12 {
        Some((256, 144))  // Q4_K
    } else if tag == 13 {
        Some((256, 176))  // Q5_K
    } else if tag == 14 {
        Some((256, 210))  // Q6_K
    } else if tag == 15 {
        Some((256, 292))  // Q8_K
    } else if tag == 16 {
        Some((256, 66))  // IQ2_XXS
    } else if tag == 17 {
        Some((256, 74))  // IQ2_XS
    } else if tag == 18 {
        Some((256, 98))  // IQ3_XXS
    } else if tag == 19 {
        Some((256, 110))  // IQ1_S
    } else if tag == 20 {
        Some((256, 50))  // IQ4_NL
    } else if tag == 21 {
        Some((256, 110))  // IQ3_S
    } else if tag == 22 {
        Some((256, 82))  // IQ2_S
    } else if tag == 23 {
        Some((256, 136))  // IQ4_XS
    } else if tag == 24 {
        Some((1, 1))  // I8
    } else if tag == 25 {
        Some((1, 2))  // I16
    } else if tag == 26 {
        Some((1, 4))  // I32
    } else if tag == 27 {
        Some((1, 8))  // I64
    } else if tag == 28 {
        Some((1, 8))  // F64
    } else if tag == 29 {
        Some((256, 56))  // IQ1_M
    } else if tag == 30 {
        Some((1, 2))  // BF16
    } else {
        None
    }
}

/// Elements per block of a tensor type.
fn type_block_elems(tag: u32) -> (r: Option<u64>)
    ensures
        match r {
            Some(n) => (block_shape(tag) matches Some((elems, _)) && elems == n) && 1 <= n <= 256,
            None => block_shape(tag) is None,
        },
{
    match tag {
        0 | 1 | 24 | 25 | 26 | 27 | 28 | 30 => Some(1),
        2 | 3 | 6 | 7 | 8 | 9 => Some(32),
        10 | 11 | 12 | 13 | 14 | 15 | 16 | 17 | 18 | 19 | 20 | 21 | 22 | 23 | 29 => Some(256),
        _ => None,
    }
}

/// Bytes per block of a tensor type.
fn type_block_bytes(tag: u32) -> (r: Option<u64>)
    ensures
        match r {
            Some(n) => (block_shape(tag) matches Some((_, size)) && size == n) && 1 <= n <= 292,
            None => block_shape(tag) is None,
        },
{
    match tag {
        0 => Some(4),
        1 => Some(2),
        2 => Some(18),
        3 => Some(20),
        6 => Some(22),
        7 => Some(24),
        8 => Some(34),
        9 => Some(40),
        10 => Some(84),
        11 => Some(110),
        12 => Some(144),
        13 => Some(176),
        14 => Some(210),
        15 => Some(292),
        16 => Some(66),
        17 => Some(74),
        18 => Some(98),
        19 => Some(110),
        20 => Some(50),
        21 => Some(110),
        22 => Some(82),
        23 => Some(136),
        24 => Some(1),
        25 => Some(2),
        26 => Some(4),
        27 => Some(8),
        28 => Some(8),
        29 => Some(56),
        30 => Some(2),
        _ => None,
    }
}

/// The bytes that `elements` elements of a tensor type take: whole blocks. `None`
/// for an unknown type, and where the count does not fit in 64 bits.
pub open spec fn nbytes(tag: u32, elements: int) -> Option<u64> {
    match block_shape(tag) {
        Some((per_block, size)) => {
            let total = (elements + per_block - 1) / per_block * size;
            if total <= u64::MAX {
                Some(total as u64)
            } else {
                None
            }
        },
        None => None,
    }
}

/// The bytes of a tensor with `elements` elements of the type with tag `type_tag`.
pub fn tensor_nbytes(type_tag: u32, elements: u64) -> (r: Option<u64>)
    ensures
        r == nbytes(type_tag, elements as int),
{
    let per_block: u64 = match type_block_elems(type_tag) {
        Some(n) => n,
        None => {
            return None;
        },
    };
    let size: u64 = match type_block_bytes(type_tag) {
        Some(n) => n,
        None => {
            return None;
        },
    };
    let full: u64 = elements / per_block;
    let blocks: u64 = if elements % per_block == 0 {
        full
    } else {
        assert(full < u64::MAX) by (nonlinear_arith)
            requires
                full == elements / per_block,
                elements % per_block != 0,
                per_block > 0,
        ;
        full + 1
    };
    proof {
        let e = elements as int;
        let p = per_block as int;
        assert(blocks == (e + p - 1) / p) by (nonlinear_arith)
            requires
                p > 0,
                e >= 0,
                blocks == if e % p == 0 {
                    e / p
                } else {
                    e / p + 1
                },
        ;
    }
    blocks.checked_mul(size)
}

/// The smallest multiple of `alignment` that is not below `value`.
pub open spec fn aligned(value: int, alignment: int) -> int {
    if value % alignment == 0 {
        value
    } else {
        value + alignment - value % alignment
    }
}

/// Rounds `value` up to the next multiple of `alignment`.
pub fn align_up(value: u64, alignment: u64) -> (r: u64)
    requires
        alignment > 0,
        aligned(value as int, alignment as int) <= u64::MAX,
    ensures
        r == aligned(value as int, alignment as int),
        r % alignment == 0,
        value <= r < value + alignment,
{
    let rem: u64 = value % alignment;
    if rem == 0 {
        value
    } else {
        let r: u64 = value + (alignment - rem);
        assert(r % alignment == 0) by (nonlinear_arith)
            requires
                rem == value % alignment,
                r == value + alignment - rem,
                alignment > 0,
        ;
        r
    }
}

// ── What a file says ─────────────────────────────────────────────────────

/// The unsigned number of `n` bytes at `pos`, with the position behind it.
pub open spec fn get_uint(data: Seq<u8>, pos: int, n: int) -> Result<(nat, int), GgufError> {
    if n > data.len() - pos {
        Err(
            GgufError::Truncated {
                needed: n as u64,
                remaining: (data.len() - pos) as u64,
                pos: pos as u64,
            },
        )
    } else {
        Ok((le(data.subrange(pos, pos + n)), pos + n))
    }
}

/// The string at `pos`: a length of eight bytes, and that many bytes of UTF-8.
pub open spec fn get_string(data: Seq<u8>, pos: int) -> Result<(Seq<char>, int), GgufError> {
    match get_uint(data, pos, 8) {
        Err(e) => Err(e),
        Ok((len, p)) => if len > data.len() - p {
            Err(
                GgufError::Truncated {
                    needed: len as u64,
                    remaining: (data.len() - p) as u64,
                    pos: p as u64,
                },
            )
        } else {
            let bytes = data.subrange(p, p + len);
            if valid_utf8(bytes) {
                Ok((decode_utf8(bytes), p + len))
            } else {
                Err(GgufError::BadString { pos: p as u64 })
            }
        },
    }
}

/// The scalar of type `ty` whose bytes hold the number `n`.
pub open spec fn scalar(ty: MetadataType, n: nat) -> MetaView {
    match ty {
        MetadataType::Uint8 => MetaView::Uint8(n as u8),
        MetadataType::Int8 => MetaView::Int8(n as u8 as i8),
        MetadataType::Uint16 => MetaView::Uint16(n as u16),
        MetadataType::Int16 => MetaView::Int16(n as u16 as i16),
        MetadataType::Uint32 => MetaView::Uint32(n as u32),
        MetadataType::Int32 => MetaView::Int32(n as u32 as i32),
        MetadataType::Float32 => MetaView::Float32(n as u32),
        MetadataType::Uint64 => MetaView::Uint64(n as u64),
        MetadataType::Int64 => MetaView::Int64(n as u64 as i64),
        MetadataType::Float64 => MetaView::Float64(n as u64),
        _ => MetaView::Bool(n != 0),
    }
}

/// The size of a scalar type in bytes.
pub open spec fn scalar_width(ty: MetadataType) -> int {
    match ty {
        MetadataType::Uint8 | MetadataType::Int8 | MetadataType::Bool => 1,
        MetadataType::Uint16 | MetadataType::Int16 => 2,
        MetadataType::Uint32 | MetadataType::Int32 | MetadataType::Float32 => 4,
        _ => 8,
    }
}

/// The value of type `ty` at `pos`, `depth` arrays deep.
pub open spec fn get_value(data: Seq<u8>, pos: int, ty: MetadataType, depth: nat) -> Result<
    (MetaView, int),
    GgufError,
>
    decreases 20 - depth, 0nat,
{
    if depth > 8 {
        Err(GgufError::NestingTooDeep)
    } else {
        match ty {
            MetadataType::String => match get_string(data, pos) {
                Err(e) => Err(e),
                Ok((s, p)) => Ok((MetaView::String(s), p)),
            },
            MetadataType::Array => match get_uint(data, pos, 4) {
                Err(e) => Err(e),
                Ok((tag, p)) => match get_uint(data, p, 8) {
                    Err(e) => Err(e),
                    Ok((len, q)) => match MetadataType::of_tag(tag as u32) {
                        None => Err(GgufError::UnknownItemType(tag as u32)),
                        Some(item) => match get_items(data, q, item, depth + 1, len) {
                            Err(e) => Err(e),
                            Ok((items, r)) => Ok((MetaView::Array(items), r)),
                        },
                    },
                },
            },
            _ => match get_uint(data, pos, scalar_width(ty)) {
                Err(e) => Err(e),
                Ok((n, p)) => Ok((scalar(ty, n), p)),
            },
        }
    }
}

/// The `n` values of type `ty` from `pos` on, each `depth` arrays deep.
pub open spec fn get_items(data: Seq<u8>, pos: int, ty: MetadataType, depth: nat, n: nat) -> Result<
    (Seq<MetaView>, int),
    GgufError,
>
    decreases 20 - depth, n + 1,
{
    if depth > 9 {
        Err(GgufError::NestingTooDeep)
    } else if n == 0 {
        Ok((Seq::empty(), pos))
    } else {
        match get_items(data, pos, ty, depth, (n - 1) as nat) {
            Err(e) => Err(e),
            Ok((items, p)) => match get_value(data, p, ty, depth) {
                Err(e) => Err(e),
                Ok((v, q)) => Ok((items.push(v), q)),
            },
        }
    }
}

/// The metadata entry at `pos`.
pub open spec fn get_entry(data: Seq<u8>, pos: int) -> Result<(KvView, int), GgufError> {
    match get_string(data, pos) {
        Err(e) => Err(e),
        Ok((key, p)) => match get_uint(data, p, 4) {
            Err(e) => Err(e),
            Ok((tag, q)) => match MetadataType::of_tag(tag as u32) {
                None => Err(GgufError::UnknownValueType(tag as u32)),
                Some(ty) => match get_value(data, q, ty, 0) {
                    Err(e) => Err(e),
                    Ok((value, r)) => Ok((KvView { key, value }, r)),
                },
            },
        },
    }
}

/// The first `n` metadata entries from `pos` on.
pub open spec fn get_entries(data: Seq<u8>, pos: int, n: nat) -> Result<
    (Seq<KvView>, int),
    GgufError,
>
    decreases n,
{
    if n == 0 {
        Ok((Seq::empty(), pos))
    } else {
        match get_entries(data, pos, (n - 1) as nat) {
            Err(e) => Err(e),
            Ok((entries, p)) => match get_entry(data, p) {
                Err(e) => Err(e),
                Ok((entry, q)) => Ok((entries.push(entry), q)),
            },
        }
    }
}

/// The alignment that an entry sets.
pub open spec fn alignment_set_by(entry: KvView) -> Option<u64> {
    if entry.key == "general.alignment"@ {
        match entry.value.as_u32() {
            Some(a) => if a != 0 {
                Some(a as u64)
            } else {
                None
            },
            None => None,
        }
    } else {
        None
    }
}

/// The alignment of a file with these entries: the last one set, or the default.
pub open spec fn alignment_of(entries: Seq<KvView>) -> u64
    decreases entries.len(),
{
    if entries.len() == 0 {
        DEFAULT_ALIGNMENT
    } else {
        match alignment_set_by(entries.last()) {
            Some(a) => a,
            None => alignment_of(entries.drop_last()),
        }
    }
}

/// The number of elements of a tensor: the product of the dimensions but for zeros.
pub open spec fn element_count(dims: Seq<u64>) -> int
    decreases dims.len(),
{
    if dims.len() == 0 {
        1
    } else if dims.last() == 0 {
        element_count(dims.drop_last())
    } else {
        element_count(dims.drop_last()) * dims.last() as int
    }
}

/// The `n` dimensions of tensor number `tensor` from `pos` on.
pub open spec fn get_dims(data: Seq<u8>, pos: int, n: nat, tensor: u64) -> Result<
    (Seq<u64>, int),
    GgufError,
>
    decreases n,
{
    if n == 0 {
        Ok((Seq::empty(), pos))
    } else {
        match get_dims(data, pos, (n - 1) as nat, tensor) {
            Err(e) => Err(e),
            Ok((dims, p)) => match get_uint(data, p, 8) {
                Err(e) => Err(e),
                Ok((d, q)) => if element_count(dims.push(d as u64)) > u64::MAX {
                    Err(GgufError::ElementOverflow { tensor })
                } else {
                    Ok((dims.push(d as u64), q))
                },
            },
        }
    }
}

/// The descriptor of tensor number `tensor` at `pos`, with no absolute offset yet.
pub open spec fn get_tensor(data: Seq<u8>, pos: int, tensor: u64) -> Result<
    (TensorView, int),
    GgufError,
> {
    match get_string(data, pos) {
        Err(e) => Err(e),
        Ok((name, p)) => match get_uint(data, p, 4) {
            Err(e) => Err(e),
            Ok((ndim, q)) => if ndim == 0 || ndim > DS4_MAX_DIMS {
                Err(GgufError::BadRank { tensor, ndim: ndim as u32 })
            } else {
                match get_dims(data, q, ndim, tensor) {
                    Err(e) => Err(e),
                    Ok((dims, r)) => match get_uint(data, r, 4) {
                        Err(e) => Err(e),
                        Ok((tag, s)) => match get_uint(data, s, 8) {
                            Err(e) => Err(e),
                            Ok((offset, t)) => Ok(
                                (
                                    TensorView {
                                        name,
                                        ndim: ndim as u32,
                                        dims,
                                        tensor_type: tag as u32,
                                        abs_offset: 0,
                                        rel_offset: offset as u64,
                                        elements: element_count(dims) as u64,
                                        bytes: match nbytes(tag as u32, element_count(dims)) {
                                            Some(b) => b,
                                            None => 0,
                                        },
                                    },
                                    t,
                                ),
                            ),
                        },
                    },
                }
            },
        },
    }
}

/// The first `n` tensor descriptors from `pos` on, with no absolute offsets yet.
pub open spec fn get_tensors(data: Seq<u8>, pos: int, n: nat) -> Result<
    (Seq<TensorView>, int),
    GgufError,
>
    decreases n,
{
    if n == 0 {
        Ok((Seq::empty(), pos))
    } else {
        match get_tensors(data, pos, (n - 1) as nat) {
            Err(e) => Err(e),
            Ok((tensors, p)) => match get_tensor(data, p, (n - 1) as u64) {
                Err(e) => Err(e),
                Ok((t, q)) => Ok((tensors.push(t), q)),
            },
        }
    }
}

/// The descriptor `t` of tensor number `i` in a file of `file_len` bytes whose tensor
/// data starts at `start`.
pub open spec fn place_tensor(t: TensorView, i: u64, start: int, file_len: int) -> Result<
    TensorView,
    GgufError,
> {
    if start + t.rel_offset > u64::MAX {
        Err(GgufError::OffsetOverflow { tensor: i })
    } else if start + t.rel_offset + t.bytes > file_len {
        Err(GgufError::BeyondFile { tensor: i })
    } else {
        Ok(TensorView { abs_offset: (start + t.rel_offset) as u64, ..t })
    }
}

/// The first `n` of the descriptors `ts`, placed in the file.
pub open spec fn place_tensors(ts: Seq<TensorView>, n: nat, start: int, file_len: int) -> Result<
    Seq<TensorView>,
    GgufError,
>
    decreases n,
{
    if n == 0 {
        Ok(Seq::empty())
    } else {
        match place_tensors(ts, (n - 1) as nat, start, file_len) {
            Err(e) => Err(e),
            Ok(done) => match place_tensor(ts[n - 1], (n - 1) as u64, start, file_len) {
                Err(e) => Err(e),
                Ok(t) => Ok(done.push(t)),
            },
        }
    }
}

/// The mathematical form of a model file.
#[verifier::ext_equal]
pub struct ModelView {
    pub version: u32,
    pub n_kv: u64,
    pub n_tensors: u64,
    pub alignment: u64,
    pub tensor_data_pos: u64,
    pub kv: Seq<KvView>,
    pub tensors: Seq<TensorView>,
    pub file_len: u64,
}

/// What the file with the contents `data` describes, or why it cannot be read.
pub open spec fn parse_model(data: Seq<u8>) -> Result<ModelView, GgufError> {
    if data.len() < 32 {
        Err(GgufError::FileTooSmall)
    } else {
        let magic = le(data.subrange(0, 4));
        let version = le(data.subrange(4, 8));
        let n_tensors = le(data.subrange(8, 16));
        let n_kv = le(data.subrange(16, 24));
        if magic != DS4_GGUF_MAGIC {
            Err(GgufError::BadMagic(magic as u32))
        } else if version != 3 {
            Err(GgufError::BadVersion(version as u32))
        } else {
            match get_entries(data, 24, n_kv) {
                Err(e) => Err(e),
                Ok((kv, p)) => match get_tensors(data, p, n_tensors) {
                    Err(e) => Err(e),
                    Ok((heads, q)) => {
                        let start = aligned(q, alignment_of(kv) as int);
                        match place_tensors(heads, n_tensors, start, data.len() as int) {
                            Err(e) => Err(e),
                            Ok(tensors) => Ok(
                                ModelView {
                                    version: 3,
                                    n_kv: n_kv as u64,
                                    n_tensors: n_tensors as u64,
                                    alignment: alignment_of(kv),
                                    tensor_data_pos: start as u64,
                                    kv,
                                    tensors,
                                    file_len: data.len() as u64,
                                },
                            ),
                        }
                    },
                },
            }
        }
    }
}

// ── Reading ──────────────────────────────────────────────────────────────

/// A position in the bytes of a file.
struct Cursor<'a> {
    data: &'a [u8],
    pos: usize,
}

impl<'a> Cursor<'a> {
    spec fn wf(&self) -> bool {
        self.pos <= self.data@.len() <= 0x7fff_ffff_ffff_ffff && self.data@.len() <= usize::MAX
    }

    /// Bytes behind the position.
    fn remaining(&self) -> (r: usize)
        requires
            self.wf(),
        ensures
            r == self.data@.len() - self.pos,
    {
        self.data.len() - self.pos
    }

    /// Checks that `n` bytes are left.
    fn need(&self, n: u64) -> (r: Result<(), GgufError>)
        requires
            self.wf(),
        ensures
            match r {
                Ok(_) => n <= self.data@.len() - self.pos,
                Err(e) => n > self.data@.len() - self.pos && e == (GgufError::Truncated {
                    needed: n,
                    remaining: (self.data@.len() - self.pos) as u64,
                    pos: self.pos as u64,
                }),
            },
    {
        let left: u64 = self.remaining() as u64;
        if n > left {
            Err(GgufError::Truncated { needed: n, remaining: left, pos: self.pos as u64 })
        } else {
            Ok(())
        }
    }

    fn read_u8(&mut self) -> (r: Result<u8, GgufError>)
        requires
            old(self).wf(),
        ensures
            final(self).wf(),
            final(self).data@ == old(self).data@,
            match r {
                Ok(v) => get_uint(old(self).data@, old(self).pos as int, 1) == Ok::<
                    (nat, int),
                    GgufError,
                >((v as nat, final(self).pos as int)),
                Err(e) => get_uint(old(self).data@, old(self).pos as int, 1) == Err::<
                    (nat, int),
                    GgufError,
                >(e),
            },
    {
        match self.need(1) {
            Err(e) => Err(e),
            Ok(_) => {
                let v: u8 = self.data[self.pos];
                proof {
                    reveal_with_fuel(le, 2);
                }
                self.pos = self.pos + 1;
                Ok(v)
            },
        }
    }

    fn read_u16(&mut self) -> (r: Result<u16, GgufError>)
        requires
            old(self).wf(),
        ensures
            final(self).wf(),
            final(self).data@ == old(self).data@,
            match r {
                Ok(v) => get_uint(old(self).data@, old(self).pos as int, 2) == Ok::<
                    (nat, int),
                    GgufError,
                >((v as nat, final(self).pos as int)),
                Err(e) => get_uint(old(self).data@, old(self).pos as int, 2) == Err::<
                    (nat, int),
                    GgufError,
                >(e),
            },
    {
        match self.need(2) {
            Err(e) => Err(e),
            Ok(_) => {
                let v: u16 = u16_le(self.data, self.pos);
                self.pos = self.pos + 2;
                Ok(v)
            },
        }
    }

    fn read_u32(&mut self) -> (r: Result<u32, GgufError>)
        requires
            old(self).wf(),
        ensures
            final(self).wf(),
            final(self).data@ == old(self).data@,
            match r {
                Ok(v) => get_uint(old(self).data@, old(self).pos as int, 4) == Ok::<
                    (nat, int),
                    GgufError,
                >((v as nat, final(self).pos as int)),
                Err(e) => get_uint(old(self).data@, old(self).pos as int, 4) == Err::<
                    (nat, int),
                    GgufError,
                >(e),
            },
    {
        match self.need(4) {
            Err(e) => Err(e),
            Ok(_) => {
                let v: u32 = u32_le(self.data, self.pos);
                self.pos = self.pos + 4;
                Ok(v)
            },
        }
    }

    fn read_u64(&mut self) -> (r: Result<u64, GgufError>)
        requires
            old(self).wf(),
        ensures
            final(self).wf(),
            final(self).data@ == old(self).data@,
            match r {
                Ok(v) => get_uint(old(self).data@, old(self).pos as int, 8) == Ok::<
                    (nat, int),
                    GgufError,
                >((v as nat, final(self).pos as int)),
                Err(e) => get_uint(old(self).data@, old(self).pos as int, 8) == Err::<
                    (nat, int),
                    GgufError,
                >(e),
            },
    {
        match self.need(8) {
            Err(e) => Err(e),
            Ok(_) => {
                let v: u64 = u64_le(self.data, self.pos);
                self.pos = self.pos + 8;
                Ok(v)
            },
        }
    }

    fn read_string(&mut self) -> (r: Result<String, GgufError>)
        requires
            old(self).wf(),
        ensures
            final(self).wf(),
            final(self).data@ == old(self).data@,
            match r {
                Ok(s) => get_string(old(self).data@, old(self).pos as int) == Ok::<
                    (Seq<char>, int),
                    GgufError,
                >((s@, final(self).pos as int)),
                Err(e) => get_string(old(self).data@, old(self).pos as int) == Err::<
                    (Seq<char>, int),
                    GgufError,
                >(e),
            },
    {
        let len: u64 = match self.read_u64() {
            Err(e) => {
                return Err(e);
            },
            Ok(n) => n,
        };
        match self.need(len) {
            Err(e) => {
                return Err(e);
            },
            Ok(_) => {},
        }
        let n: usize = len as usize;
        let part = vstd::slice::slice_subrange(self.data, self.pos, self.pos + n);
        match utf8_string(vstd::slice::slice_to_vec(part)) {
            Some(s) => {
                self.pos = self.pos + n;
                Ok(s)
            },
            None => Err(GgufError::BadString { pos: self.pos as u64 }),
        }
    }
}

/// An error among the first `k` items is the error of any longer run of them.
proof fn lemma_items_error(
    data: Seq<u8>,
    pos: int,
    ty: MetadataType,
    depth: nat,
    k: nat,
    n: nat,
    e: GgufError,
)
    requires
        k <= n,
        get_items(data, pos, ty, depth, k) == Err::<(Seq<MetaView>, int), GgufError>(e),
    ensures
        get_items(data, pos, ty, depth, n) == Err::<(Seq<MetaView>, int), GgufError>(e),
    decreases n,
{
    if k < n {
        lemma_items_error(data, pos, ty, depth, k, (n - 1) as nat, e);
    }
}

proof fn lemma_entries_error(data: Seq<u8>, pos: int, k: nat, n: nat, e: GgufError)
    requires
        k <= n,
        get_entries(data, pos, k) == Err::<(Seq<KvView>, int), GgufError>(e),
    ensures
        get_entries(data, pos, n) == Err::<(Seq<KvView>, int), GgufError>(e),
    decreases n,
{
    if k < n {
        lemma_entries_error(data, pos, k, (n - 1) as nat, e);
    }
}

proof fn lemma_dims_error(data: Seq<u8>, pos: int, k: nat, n: nat, tensor: u64, e: GgufError)
    requires
        k <= n,
        get_dims(data, pos, k, tensor) == Err::<(Seq<u64>, int), GgufError>(e),
    ensures
        get_dims(data, pos, n, tensor) == Err::<(Seq<u64>, int), GgufError>(e),
    decreases n,
{
    if k < n {
        lemma_dims_error(data, pos, k, (n - 1) as nat, tensor, e);
    }
}

proof fn lemma_tensors_error(data: Seq<u8>, pos: int, k: nat, n: nat, e: GgufError)
    requires
        k <= n,
        get_tensors(data, pos, k) == Err::<(Seq<TensorView>, int), GgufError>(e),
    ensures
        get_tensors(data, pos, n) == Err::<(Seq<TensorView>, int), GgufError>(e),
    decreases n,
{
    if k < n {
        lemma_tensors_error(data, pos, k, (n - 1) as nat, e);
    }
}

proof fn lemma_place_error(
    ts: Seq<TensorView>,
    k: nat,
    n: nat,
    start: int,
    file_len: int,
    e: GgufError,
)
    requires
        k <= n,
        place_tensors(ts, k, start, file_len) == Err::<Seq<TensorView>, GgufError>(e),
    ensures
        place_tensors(ts, n, start, file_len) == Err::<Seq<TensorView>, GgufError>(e),
    decreases n,
{
    if k < n {
        lemma_place_error(ts, k, (n - 1) as nat, start, file_len, e);
    }
}

/// Reads a value of type `ty` that stands `depth` arrays deep.
fn read_metadata_value(c: &mut Cursor, ty: MetadataType, depth: u32) -> (r: Result<
    MetadataValue,
    GgufError,
>)
    requires
        old(c).wf(),
        depth <= 9,
    ensures
        final(c).wf(),
        final(c).data@ == old(c).data@,
        match r {
            Ok(v) => get_value(old(c).data@, old(c).pos as int, ty, depth as nat) == Ok::<
                (MetaView, int),
                GgufError,
            >((v@, final(c).pos as int)),
            Err(e) => get_value(old(c).data@, old(c).pos as int, ty, depth as nat) == Err::<
                (MetaView, int),
                GgufError,
            >(e),
        },
    decreases 10 - depth, 1nat,
{
    if depth > 8 {
        return Err(GgufError::NestingTooDeep);
    }
    match ty {
        MetadataType::Uint8 => match c.read_u8() {
            Ok(v) => Ok(MetadataValue::Uint8(v)),
            Err(e) => Err(e),
        },
        MetadataType::Int8 => match c.read_u8() {
            Ok(v) => Ok(MetadataValue::Int8(v as i8)),
            Err(e) => Err(e),
        },
        MetadataType::Uint16 => match c.read_u16() {
            Ok(v) => Ok(MetadataValue::Uint16(v)),
            Err(e) => Err(e),
        },
        MetadataType::Int16 => match c.read_u16() {
            Ok(v) => Ok(MetadataValue::Int16(v as i16)),
            Err(e) => Err(e),
        },
        MetadataType::Uint32 => match c.read_u32() {
            Ok(v) => Ok(MetadataValue::Uint32(v)),
            Err(e) => Err(e),
        },
        MetadataType::Int32 => match c.read_u32() {
            Ok(v) => Ok(MetadataValue::Int32(v as i32)),
            Err(e) => Err(e),
        },
        MetadataType::Float32 => match c.read_u32() {
            Ok(v) => Ok(MetadataValue::Float32(v)),
            Err(e) => Err(e),
        },
        MetadataType::Bool => match c.read_u8() {
            Ok(v) => Ok(MetadataValue::Bool(v != 0)),
            Err(e) => Err(e),
        },
        MetadataType::String => match c.read_string() {
            Ok(v) => Ok(MetadataValue::String(v)),
            Err(e) => Err(e),
        },
        MetadataType::Array => read_array(c, depth),
        MetadataType::Uint64 => match c.read_u64() {
            Ok(v) => Ok(MetadataValue::Uint64(v)),
            Err(e) => Err(e),
        },
        MetadataType::Int64 => match c.read_u64() {
            Ok(v) => Ok(MetadataValue::Int64(v as i64)),
            Err(e) => Err(e),
        },
        MetadataType::Float64 => match c.read_u64() {
            Ok(v) => Ok(MetadataValue::Float64(v)),
            Err(e) => Err(e),
        },
    }
}

/// Reads an array that stands `depth` arrays deep.
fn read_array(c: &mut Cursor, depth: u32) -> (r: Result<MetadataValue, GgufError>)
    requires
        old(c).wf(),
        depth <= 8,
    ensures
        final(c).wf(),
        final(c).data@ == old(c).data@,
        match r {
            Ok(v) => get_value(
                old(c).data@,
                old(c).pos as int,
                MetadataType::Array,
                depth as nat,
            ) == Ok::<(MetaView, int), GgufError>((v@, final(c).pos as int)),
            Err(e) => get_value(
                old(c).data@,
                old(c).pos as int,
                MetadataType::Array,
                depth as nat,
            ) == Err::<(MetaView, int), GgufError>(e),
        },
    decreases 10 - depth, 0nat,
{
    let tag: u32 = match c.read_u32() {
        Ok(v) => v,
        Err(e) => {
            return Err(e);
        },
    };
    let len: u64 = match c.read_u64() {
        Ok(v) => v,
        Err(e) => {
            return Err(e);
        },
    };
    let item: MetadataType = match MetadataType::from_u32(tag) {
        Some(t) => t,
        None => {
            return Err(GgufError::UnknownItemType(tag));
        },
    };
    let ghost data = c.data@;
    let ghost start = c.pos as int;
    let ghost deep = (depth + 1) as nat;
    let mut items: Vec<MetadataValue> = Vec::new();
    let mut i: u64 = 0;
    assert(meta_views(items@) =~= Seq::<MetaView>::empty());
    while i < len
        invariant
            c.wf(),
            c.data@ == data,
            data == old(c).data@,
            depth <= 8,
            deep == depth + 1,
            i <= len,
            get_items(data, start, item, deep, i as nat) == Ok::<(Seq<MetaView>, int), GgufError>(
                (meta_views(items@), c.pos as int),
            ),
            get_value(old(c).data@, old(c).pos as int, MetadataType::Array, depth as nat) == (
            match get_items(data, start, item, deep, len as nat) {
                Err(e) => Err(e),
                Ok((items, r)) => Ok((MetaView::Array(items), r)),
            }),
        decreases len - i,
    {
        let ghost before = items@;
        match read_metadata_value(c, item, depth + 1) {
            Ok(v) => {
                items.push(v);
                assert(meta_views(items@) =~= meta_views(before).push(v@));
            },
            Err(e) => {
                proof {
                    lemma_items_error(data, start, item, deep, (i + 1) as nat, len as nat, e);
                }
                return Err(e);
            },
        }
        i = i + 1;
    }
    let r = MetadataValue::Array(items);
    assert(r@->Array_0 =~= meta_views(items@));
    Ok(r)
}

/// The views of the entries.
pub open spec fn kv_views(s: Seq<KvEntry>) -> Seq<KvView> {
    Seq::new(s.len(), |i: int| s[i]@)
}

/// The views of the descriptors.
pub open spec fn tensor_views(s: Seq<TensorInfo>) -> Seq<TensorView> {
    Seq::new(s.len(), |i: int| s[i]@)
}

fn read_entry(c: &mut Cursor) -> (r: Result<KvEntry, GgufError>)
    requires
        old(c).wf(),
    ensures
        final(c).wf(),
        final(c).data@ == old(c).data@,
        match r {
            Ok(v) => get_entry(old(c).data@, old(c).pos as int) == Ok::<(KvView, int), GgufError>(
                (v@, final(c).pos as int),
            ),
            Err(e) => get_entry(old(c).data@, old(c).pos as int) == Err::<(KvView, int), GgufError>(
                e,
            ),
        },
{
    let key: String = match c.read_string() {
        Ok(v) => v,
        Err(e) => {
            return Err(e);
        },
    };
    let tag: u32 = match c.read_u32() {
        Ok(v) => v,
        Err(e) => {
            return Err(e);
        },
    };
    let ty: MetadataType = match MetadataType::from_u32(tag) {
        Some(t) => t,
        None => {
            return Err(GgufError::UnknownValueType(tag));
        },
    };
    match read_metadata_value(c, ty, 0) {
        Ok(value) => Ok(KvEntry { key, value }),
        Err(e) => Err(e),
    }
}

/// Reads the metadata entries, and the alignment that they set.
fn parse_metadata(c: &mut Cursor, n_kv: u64) -> (r: Result<(Vec<KvEntry>, u64), GgufError>)
    requires
        old(c).wf(),
    ensures
        final(c).wf(),
        final(c).data@ == old(c).data@,
        match r {
            Ok((kv, alignment)) => get_entries(old(c).data@, old(c).pos as int, n_kv as nat)
                == Ok::<(Seq<KvView>, int), GgufError>((kv_views(kv@), final(c).pos as int))
                && alignment == alignment_of(kv_views(kv@)) && 1 <= alignment <= u32::MAX,
            Err(e) => get_entries(old(c).data@, old(c).pos as int, n_kv as nat) == Err::<
                (Seq<KvView>, int),
                GgufError,
            >(e),
        },
{
    let mut kv: Vec<KvEntry> = Vec::new();
    let mut alignment: u64 = DEFAULT_ALIGNMENT;
    let ghost data = c.data@;
    let ghost start = c.pos as int;
    let mut i: u64 = 0;
    assert(kv_views(kv@) =~= Seq::<KvView>::empty());
    while i < n_kv
        invariant
            c.wf(),
            c.data@ == data,
            i <= n_kv,
            get_entries(data, start, i as nat) == Ok::<(Seq<KvView>, int), GgufError>(
                (kv_views(kv@), c.pos as int),
            ),
            alignment == alignment_of(kv_views(kv@)),
            1 <= alignment <= u32::MAX,
            data == old(c).data@,
            start == old(c).pos,
        decreases n_kv - i,
    {
        let ghost before = kv@;
        match read_entry(c) {
            Ok(entry) => {
                if same_text(entry.key.as_str(), "general.alignment") {
                    match entry.value.as_u32() {
                        Some(a) => {
                            if a != 0 {
                                alignment = a as u64;
                            }
                        },
                        None => {},
                    }
                }
                kv.push(entry);
                assert(kv_views(kv@) =~= kv_views(before).push(entry@));
                assert(kv_views(kv@).drop_last() =~= kv_views(before));
            },
            Err(e) => {
                proof {
                    lemma_entries_error(data, start, (i + 1) as nat, n_kv as nat, e);
                }
                return Err(e);
            },
        }
        i = i + 1;
    }
    Ok((kv, alignment))
}

/// Reads the dimensions of tensor number `tensor`, and their element count.
fn read_dims(c: &mut Cursor, ndim: u32, tensor: u64) -> (r: Result<(Vec<u64>, u64), GgufError>)
    requires
        old(c).wf(),
    ensures
        final(c).wf(),
        final(c).data@ == old(c).data@,
        match r {
            Ok((dims, elements)) => get_dims(
                old(c).data@,
                old(c).pos as int,
                ndim as nat,
                tensor,
            ) == Ok::<(Seq<u64>, int), GgufError>((dims@, final(c).pos as int)) && elements
                == element_count(dims@),
            Err(e) => get_dims(old(c).data@, old(c).pos as int, ndim as nat, tensor) == Err::<
                (Seq<u64>, int),
                GgufError,
            >(e),
        },
{
    let mut dims: Vec<u64> = Vec::new();
    let mut elements: u64 = 1;
    let ghost data = c.data@;
    let ghost start = c.pos as int;
    let mut i: u32 = 0;
    while i < ndim
        invariant
            c.wf(),
            c.data@ == data,
            i <= ndim,
            get_dims(data, start, i as nat, tensor) == Ok::<(Seq<u64>, int), GgufError>(
                (dims@, c.pos as int),
            ),
            elements == element_count(dims@),
            data == old(c).data@,
            start == old(c).pos,
        decreases ndim - i,
    {
        let ghost before = dims@;
        match c.read_u64() {
            Ok(d) => {
                assert(before.push(d).drop_last() =~= before);
                if d != 0 {
                    match elements.checked_mul(d) {
                        Some(n) => {
                            elements = n;
                        },
                        None => {
                            proof {
                                lemma_dims_error(
                                    data,
                                    start,
                                    (i + 1) as nat,
                                    ndim as nat,
                                    tensor,
                                    GgufError::ElementOverflow { tensor },
                                );
                            }
                            return Err(GgufError::ElementOverflow { tensor });
                        },
                    }
                }
                dims.push(d);
            },
            Err(e) => {
                proof {
                    lemma_dims_error(data, start, (i + 1) as nat, ndim as nat, tensor, e);
                }
                return Err(e);
            },
        }
        i = i + 1;
    }
    Ok((dims, elements))
}

fn read_tensor(c: &mut Cursor, tensor: u64) -> (r: Result<TensorInfo, GgufError>)
    requires
        old(c).wf(),
    ensures
        final(c).wf(),
        final(c).data@ == old(c).data@,
        match r {
            Ok(t) => get_tensor(old(c).data@, old(c).pos as int, tensor) == Ok::<
                (TensorView, int),
                GgufError,
            >((t@, final(c).pos as int)),
            Err(e) => get_tensor(old(c).data@, old(c).pos as int, tensor) == Err::<
                (TensorView, int),
                GgufError,
            >(e),
        },
{
    let name: String = match c.read_string() {
        Ok(v) => v,
        Err(e) => {
            return Err(e);
        },
    };
    let ndim: u32 = match c.read_u32() {
        Ok(v) => v,
        Err(e) => {
            return Err(e);
        },
    };
    if ndim == 0 || ndim as usize > DS4_MAX_DIMS {
        return Err(GgufError::BadRank { tensor, ndim });
    }
    let (dims, elements) = match read_dims(c, ndim, tensor) {
        Ok(v) => v,
        Err(e) => {
            return Err(e);
        },
    };
    let tensor_type: u32 = match c.read_u32() {
        Ok(v) => v,
        Err(e) => {
            return Err(e);
        },
    };
    let rel_offset: u64 = match c.read_u64() {
        Ok(v) => v,
        Err(e) => {
            return Err(e);
        },
    };
    let bytes: u64 = match tensor_nbytes(tensor_type, elements) {
        Some(b) => b,
        None => 0,
    };
    Ok(TensorInfo { name, ndim, dims, tensor_type, abs_offset: 0, rel_offset, elements, bytes })
}

fn read_tensors(c: &mut Cursor, n: u64) -> (r: Result<Vec<TensorInfo>, GgufError>)
    requires
        old(c).wf(),
    ensures
        final(c).wf(),
        final(c).data@ == old(c).data@,
        match r {
            Ok(ts) => get_tensors(old(c).data@, old(c).pos as int, n as nat) == Ok::<
                (Seq<TensorView>, int),
                GgufError,
            >((tensor_views(ts@), final(c).pos as int)) && ts@.len() == n,
            Err(e) => get_tensors(old(c).data@, old(c).pos as int, n as nat) == Err::<
                (Seq<TensorView>, int),
                GgufError,
            >(e),
        },
{
    let mut ts: Vec<TensorInfo> = Vec::new();
    let ghost data = c.data@;
    let ghost start = c.pos as int;
    let mut i: u64 = 0;
    assert(tensor_views(ts@) =~= Seq::<TensorView>::empty());
    while i < n
        invariant
            c.wf(),
            c.data@ == data,
            i <= n,
            ts@.len() == i,
            get_tensors(data, start, i as nat) == Ok::<(Seq<TensorView>, int), GgufError>(
                (tensor_views(ts@), c.pos as int),
            ),
            data == old(c).data@,
            start == old(c).pos,
        decreases n - i,
    {
        let ghost before = ts@;
        match read_tensor(c, i) {
            Ok(t) => {
                ts.push(t);
                assert(tensor_views(ts@) =~= tensor_views(before).push(t@));
            },
            Err(e) => {
                proof {
                    lemma_tensors_error(data, start, (i + 1) as nat, n as nat, e);
                }
                return Err(e);
            },
        }
        i = i + 1;
    }
    Ok(ts)
}

/// Gives every descriptor its absolute offset.
fn place(ts: Vec<TensorInfo>, start: u64, file_len: u64) -> (r: Result<Vec<TensorInfo>, GgufError>)
    requires
        ts@.len() <= u64::MAX,
    ensures
        match r {
            Ok(done) => place_tensors(
                tensor_views(ts@),
                ts@.len(),
                start as int,
                file_len as int,
            ) == Ok::<Seq<TensorView>, GgufError>(tensor_views(done@)),
            Err(e) => place_tensors(tensor_views(ts@), ts@.len(), start as int, file_len as int)
                == Err::<Seq<TensorView>, GgufError>(e),
        },
{
    let ghost views = tensor_views(ts@);
    let mut done: Vec<TensorInfo> = Vec::new();
    let mut i: usize = 0;
    assert(tensor_views(done@) =~= Seq::<TensorView>::empty());
    while i < ts.len()
        invariant
            i <= ts@.len() <= u64::MAX,
            views == tensor_views(ts@),
            done@.len() == i,
            place_tensors(views, i as nat, start as int, file_len as int) == Ok::<
                Seq<TensorView>,
                GgufError,
            >(tensor_views(done@)),
        decreases ts@.len() - i,
    {
        let ghost before = done@;
        let mut t = ts[i].copy();
        assert(views[i as int] == ts@[i as int]@);
        match start.checked_add(t.rel_offset) {
            Some(offset) => {
                t.abs_offset = offset;
            },
            None => {
                proof {
                    lemma_place_error(
                        views,
                        (i + 1) as nat,
                        ts@.len(),
                        start as int,
                        file_len as int,
                        GgufError::OffsetOverflow { tensor: i as u64 },
                    );
                }
                return Err(GgufError::OffsetOverflow { tensor: i as u64 });
            },
        }
        if t.abs_offset > file_len || t.bytes > file_len - t.abs_offset {
            proof {
                lemma_place_error(
                    views,
                    (i + 1) as nat,
                    ts@.len(),
                    start as int,
                    file_len as int,
                    GgufError::BeyondFile { tensor: i as u64 },
                );
            }
            return Err(GgufError::BeyondFile { tensor: i as u64 });
        }
        done.push(t);
        assert(tensor_views(done@) =~= tensor_views(before).push(t@));
        i = i + 1;
    }
    Ok(done)
}

/// A parsed model file. The payload stays in the file: whoever maps it passes its
/// bytes to `tensor_data`.
#[derive(Debug)]
pub struct ModelGGUF {
    /// Format version, always 3.
    pub version: u32,
    /// Number of metadata entries.
    pub n_kv: u64,
    /// Number of tensors.
    pub n_tensors: u64,
    /// Alignment of the tensor data.
    pub alignment: u64,
    /// Offset at which the tensor data begins.
    pub tensor_data_pos: u64,
    /// Metadata entries.
    pub kv: Vec<KvEntry>,
    /// Tensor descriptors.
    pub tensors: Vec<TensorInfo>,
    /// Length of the file.
    pub file_len: u64,
}

impl View for ModelGGUF {
    type V = ModelView;

    open spec fn view(&self) -> ModelView {
        ModelView {
            version: self.version,
            n_kv: self.n_kv,
            n_tensors: self.n_tensors,
            alignment: self.alignment,
            tensor_data_pos: self.tensor_data_pos,
            kv: kv_views(self.kv@),
            tensors: tensor_views(self.tensors@),
            file_len: self.file_len,
        }
    }
}

impl ModelGGUF {
    /// Parses the header, the metadata and the tensor directory of a model file with
    /// the contents `data`.
    pub fn open(data: &[u8]) -> (r: Result<Self, GgufError>)
        requires
            data@.len() <= 0x7fff_ffff_ffff_ffff,
        ensures
            match r {
                Ok(m) => parse_model(data@) == Ok::<ModelView, GgufError>(m@),
                Err(e) => parse_model(data@) == Err::<ModelView, GgufError>(e),
            },
    {
        let file_len: u64 = data.len() as u64;
        if file_len < 32 {
            return Err(GgufError::FileTooSmall);
        }
        let magic: u32 = u32_le(data, 0);
        if magic != DS4_GGUF_MAGIC {
            return Err(GgufError::BadMagic(magic));
        }
        let version: u32 = u32_le(data, 4);
        let n_tensors: u64 = u64_le(data, 8);
        let n_kv: u64 = u64_le(data, 16);
        if version != 3 {
            return Err(GgufError::BadVersion(version));
        }
        let mut c = Cursor { data, pos: 24 };
        let (kv, alignment) = match parse_metadata(&mut c, n_kv) {
            Ok(v) => v,
            Err(e) => {
                return Err(e);
            },
        };
        let heads = match read_tensors(&mut c, n_tensors) {
            Ok(v) => v,
            Err(e) => {
                return Err(e);
            },
        };
        let tensor_data_pos: u64 = align_up(c.pos as u64, alignment);
        let tensors = match place(heads, tensor_data_pos, file_len) {
            Ok(v) => v,
            Err(e) => {
                return Err(e);
            },
        };
        Ok(
            ModelGGUF {
                version,
                n_kv,
                n_tensors,
                alignment,
                tensor_data_pos,
                kv,
                tensors,
                file_len,
            },
        )
    }
}

// ── Lookup ───────────────────────────────────────────────────────────────

/// The first descriptor called `name` among `ts[i..]`.
pub open spec fn tensor_named(ts: Seq<TensorView>, name: Seq<char>, i: int) -> Option<TensorView>
    decreases ts.len() - i,
{
    if i < 0 || i >= ts.len() {
        None
    } else if ts[i].name == name {
        Some(ts[i])
    } else {
        tensor_named(ts, name, i + 1)
    }
}

/// The first entry with the key `key` among `kv[i..]`.
pub open spec fn entry_keyed(kv: Seq<KvView>, key: Seq<char>, i: int) -> Option<KvView>
    decreases kv.len() - i,
{
    if i < 0 || i >= kv.len() {
        None
    } else if kv[i].key == key {
        Some(kv[i])
    } else {
        entry_keyed(kv, key, i + 1)
    }
}

impl ModelView {
    pub open spec fn find_tensor(self, name: Seq<char>) -> Option<TensorView> {
        tensor_named(self.tensors, name, 0)
    }

    pub open spec fn find_kv(self, key: Seq<char>) -> Option<KvView> {
        entry_keyed(self.kv, key, 0)
    }

    pub open spec fn kv_value(self, key: Seq<char>) -> Option<MetaView> {
        match self.find_kv(key) {
            Some(e) => Some(e.value),
            None => None,
        }
    }

    pub open spec fn get_string(self, key: Seq<char>) -> Option<Seq<char>> {
        match self.kv_value(key) {
            Some(v) => v.as_string(),
            None => None,
        }
    }

    pub open spec fn get_u32(self, key: Seq<char>) -> Option<u32> {
        match self.kv_value(key) {
            Some(v) => v.as_u32(),
            None => None,
        }
    }

    pub open spec fn get_u64(self, key: Seq<char>) -> Option<u64> {
        match self.kv_value(key) {
            Some(v) => v.as_u64(),
            None => None,
        }
    }

    pub open spec fn get_bool(self, key: Seq<char>) -> Option<bool> {
        match self.kv_value(key) {
            Some(v) => v.as_bool(),
            None => None,
        }
    }

    pub open spec fn get_f32(self, key: Seq<char>) -> Option<u32> {
        match self.kv_value(key) {
            Some(v) => v.as_f32(),
            None => None,
        }
    }

    pub open spec fn get_array(self, key: Seq<char>) -> Option<Seq<MetaView>> {
        match self.kv_value(key) {
            Some(v) => v.as_array(),
            None => None,
        }
    }
}

impl ModelGGUF {
    /// The first tensor called `name`.
    pub fn find_tensor(&self, name: &str) -> (r: Option<&TensorInfo>)
        ensures
            match r {
                Some(t) => self@.find_tensor(name@) == Some(t@),
                None => self@.find_tensor(name@) is None,
            },
    {
        let ghost ts = self@.tensors;
        let mut i: usize = 0;
        while i < self.tensors.len()
            invariant
                i <= self.tensors@.len(),
                ts == tensor_views(self.tensors@),
                tensor_named(ts, name@, 0) == tensor_named(ts, name@, i as int),
            decreases self.tensors@.len() - i,
        {
            assert(ts[i as int] == self.tensors@[i as int]@);
            if same_text(self.tensors[i].name.as_str(), name) {
                return Some(&self.tensors[i]);
            }
            i = i + 1;
        }
        None
    }

    /// The first metadata entry with the key `key`.
    pub fn find_kv(&self, key: &str) -> (r: Option<&KvEntry>)
        ensures
            match r {
                Some(e) => self@.find_kv(key@) == Some(e@),
                None => self@.find_kv(key@) is None,
            },
    {
        let ghost kv = self@.kv;
        let mut i: usize = 0;
        while i < self.kv.len()
            invariant
                i <= self.kv@.len(),
                kv == kv_views(self.kv@),
                entry_keyed(kv, key@, 0) == entry_keyed(kv, key@, i as int),
            decreases self.kv@.len() - i,
        {
            assert(kv[i as int] == self.kv@[i as int]@);
            if same_text(self.kv[i].key.as_str(), key) {
                return Some(&self.kv[i]);
            }
            i = i + 1;
        }
        None
    }

    /// The metadata value under `key`.
    pub fn kv_value(&self, key: &str) -> (r: Option<&MetadataValue>)
        ensures
            match r {
                Some(v) => self@.kv_value(key@) == Some(v@),
                None => self@.kv_value(key@) is None,
            },
    {
        match self.find_kv(key) {
            Some(e) => Some(&e.value),
            None => None,
        }
    }

    pub fn get_string(&self, key: &str) -> (r: Option<&str>)
        ensures
            match r {
                Some(s) => self@.get_string(key@) == Some(s@),
                None => self@.get_string(key@) is None,
            },
    {
        match self.kv_value(key) {
            Some(v) => v.as_string(),
            None => None,
        }
    }

    pub fn get_u32(&self, key: &str) -> (r: Option<u32>)
        ensures
            r == self@.get_u32(key@),
    {
        match self.kv_value(key) {
            Some(v) => v.as_u32(),
            None => None,
        }
    }

    pub fn get_u64(&self, key: &str) -> (r: Option<u64>)
        ensures
            r == self@.get_u64(key@),
    {
        match self.kv_value(key) {
            Some(v) => v.as_u64(),
            None => None,
        }
    }

    pub fn get_bool(&self, key: &str) -> (r: Option<bool>)
        ensures
            r == self@.get_bool(key@),
    {
        match self.kv_value(key) {
            Some(v) => v.as_bool(),
            None => None,
        }
    }

    /// The bit pattern of a floating-point metadata value as a single.
    pub fn get_f32(&self, key: &str) -> (r: Option<u32>)
        ensures
            r == self@.get_f32(key@),
    {
        match self.kv_value(key) {
            Some(v) => v.as_f32(),
            None => None,
        }
    }

    pub fn get_array(&self, key: &str) -> (r: Option<&[MetadataValue]>)
        ensures
            match r {
                Some(s) => self@.get_array(key@) == Some(meta_views(s@)),
                None => self@.get_array(key@) is None,
            },
    {
        match self.kv_value(key) {
            Some(v) => v.as_array(),
            None => None,
        }
    }

    /// The payload of `tensor` in the file with the contents `file`.
    pub fn tensor_data<'a>(&self, tensor: &TensorInfo, file: &'a [u8]) -> (r: &'a [u8])
        requires
            tensor.abs_offset + tensor.bytes <= file@.len(),
        ensures
            r@ == file@.subrange(tensor.abs_offset as int, tensor.abs_offset + tensor.bytes),
    {
        tensor.data(file)
    }

    /// The length of the file.
    pub fn file_size(&self) -> (r: u64)
        ensures
            r == self@.file_len,
    {
        self.file_len
    }
}

// ── Laws ─────────────────────────────────────────────────────────────────

proof fn lemma_placed(ts: Seq<TensorView>, n: nat, start: int, file_len: int)
    requires
        n <= ts.len(),
    ensures
        place_tensors(ts, n, start, file_len) matches Ok(done) ==> done.len() == n && forall|i: int|
            0 <= i < n ==> place_tensor(ts[i], i as u64, start, file_len) == Ok::<
                TensorView,
                GgufError,
            >(#[trigger] done[i]),
    decreases n,
{
    if n > 0 {
        lemma_placed(ts, (n - 1) as nat, start, file_len);
    }
}

proof fn lemma_tensor_count(data: Seq<u8>, pos: int, n: nat)
    ensures
        get_tensors(data, pos, n) matches Ok((ts, _)) ==> ts.len() == n,
    decreases n,
{
    if n > 0 {
        lemma_tensor_count(data, pos, (n - 1) as nat);
    }
}

proof fn lemma_alignment_positive(kv: Seq<KvView>)
    ensures
        1 <= alignment_of(kv) <= u32::MAX,
    decreases kv.len(),
{
    if kv.len() > 0 {
        lemma_alignment_positive(kv.drop_last());
    }
}

/// In a file that was read, the payload of every tensor lies inside the file, starts at
/// its relative offset behind the data start, and the data start is aligned.
pub proof fn tensors_lie_in_file(data: Seq<u8>, m: ModelView)
    requires
        data.len() <= 0x7fff_ffff_ffff_ffff,
        parse_model(data) == Ok::<ModelView, GgufError>(m),
    ensures
        m.file_len == data.len(),
        m.tensor_data_pos as int % m.alignment as int == 0,
        m.tensors.len() == m.n_tensors,
        forall|i: int|
            0 <= i < m.tensors.len() ==> {
                let t = #[trigger] m.tensors[i];
                &&& t.abs_offset == m.tensor_data_pos + t.rel_offset
                &&& t.abs_offset + t.bytes <= data.len()
            },
{
    let n_tensors = le(data.subrange(8, 16));
    let n_kv = le(data.subrange(16, 24));
    lemma_le_bound(data.subrange(8, 16));
    lemma_le_bound(data.subrange(16, 24));
    let kv = get_entries(data, 24, n_kv)->Ok_0.0;
    let p = get_entries(data, 24, n_kv)->Ok_0.1;
    let heads = get_tensors(data, p, n_tensors)->Ok_0.0;
    let q = get_tensors(data, p, n_tensors)->Ok_0.1;
    lemma_alignment_positive(kv);
    lemma_entries_bound(data, 24, n_kv);
    lemma_tensors_bound(data, p, n_tensors);
    let a = alignment_of(kv) as int;
    let start = aligned(q, a);
    lemma_tensor_count(data, p, n_tensors);
    lemma_placed(heads, n_tensors, start, data.len() as int);
    assert(start % a == 0 && q <= start < q + a) by (nonlinear_arith)
        requires
            start == if q % a == 0 {
                q
            } else {
                q + a - q % a
            },
            a > 0,
    ;
}

proof fn lemma_value_bound(data: Seq<u8>, pos: int, ty: MetadataType, depth: nat)
    requires
        0 <= pos <= data.len(),
    ensures
        get_value(data, pos, ty, depth) matches Ok((_, p)) ==> pos <= p <= data.len(),
    decreases 20 - depth, 0nat,
{
    if depth <= 8 && ty == MetadataType::Array {
        match get_uint(data, pos, 4) {
            Ok((tag, p)) => match get_uint(data, p, 8) {
                Ok((len, q)) => match MetadataType::of_tag(tag as u32) {
                    Some(item) => lemma_items_bound(data, q, item, depth + 1, len),
                    None => {},
                },
                Err(_) => {},
            },
            Err(_) => {},
        }
    }
}

proof fn lemma_items_bound(data: Seq<u8>, pos: int, ty: MetadataType, depth: nat, n: nat)
    requires
        0 <= pos <= data.len(),
    ensures
        get_items(data, pos, ty, depth, n) matches Ok((_, p)) ==> pos <= p <= data.len(),
    decreases 20 - depth, n + 1,
{
    if depth <= 9 && n > 0 {
        lemma_items_bound(data, pos, ty, depth, (n - 1) as nat);
        match get_items(data, pos, ty, depth, (n - 1) as nat) {
            Ok((_, p)) => lemma_value_bound(data, p, ty, depth),
            Err(_) => {},
        }
    }
}

proof fn lemma_entries_bound(data: Seq<u8>, pos: int, n: nat)
    requires
        0 <= pos <= data.len(),
    ensures
        get_entries(data, pos, n) matches Ok((_, p)) ==> pos <= p <= data.len(),
    decreases n,
{
    if n > 0 {
        lemma_entries_bound(data, pos, (n - 1) as nat);
        match get_entries(data, pos, (n - 1) as nat) {
            Ok((_, p)) => match get_string(data, p) {
                Ok((_, q)) => match get_uint(data, q, 4) {
                    Ok((tag, r)) => match MetadataType::of_tag(tag as u32) {
                        Some(ty) => lemma_value_bound(data, r, ty, 0),
                        None => {},
                    },
                    Err(_) => {},
                },
                Err(_) => {},
            },
            Err(_) => {},
        }
    }
}

proof fn lemma_dims_bound(data: Seq<u8>, pos: int, n: nat, tensor: u64)
    requires
        0 <= pos <= data.len(),
    ensures
        get_dims(data, pos, n, tensor) matches Ok((_, p)) ==> pos <= p <= data.len(),
    decreases n,
{
    if n > 0 {
        lemma_dims_bound(data, pos, (n - 1) as nat, tensor);
    }
}

proof fn lemma_tensors_bound(data: Seq<u8>, pos: int, n: nat)
    requires
        0 <= pos <= data.len(),
    ensures
        get_tensors(data, pos, n) matches Ok((_, p)) ==> pos <= p <= data.len(),
    decreases n,
{
    if n > 0 {
        lemma_tensors_bound(data, pos, (n - 1) as nat);
        match get_tensors(data, pos, (n - 1) as nat) {
            Ok((_, p)) => match get_string(data, p) {
                Ok((_, q)) => match get_uint(data, q, 4) {
                    Ok((ndim, r)) => lemma_dims_bound(data, r, ndim, (n - 1) as u64),
                    Err(_) => {},
                },
                Err(_) => {},
            },
            Err(_) => {},
        }
    }
}

} // verus!
