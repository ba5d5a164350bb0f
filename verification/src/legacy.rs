//! The older on-disk statistics representation: untyped scalar bounds and
//! the records that carry them, together with the retyping rules that lift
//! an untyped bound into a typed one under a column's declared type.

use vstd::prelude::*;

use crate::scalar::DataType;
use crate::scalar::IndexScalar;
use crate::scalar::TypeKind;

verus! {

/// An untyped scalar bound as the older format recorded it.
#[derive(Clone, PartialEq, Eq, Debug)]
pub enum LegacyScalar {
    Null,
    Boolean(bool),
    Int(i64),
    UInt(u64),
    String(Vec<u8>),
}

/// Column statistics in the older format: untyped bounds, no
/// distinct-value count.
#[derive(Clone, PartialEq, Eq, Debug)]
pub struct ColumnStatisticsV0 {
    pub min: LegacyScalar,
    pub max: LegacyScalar,
    pub null_count: u64,
    pub in_memory_size: u64,
}

/// Cluster statistics in the older format: untyped bound tuples, no
/// per-page detail.
#[derive(Clone, PartialEq, Eq, Debug)]
pub struct ClusterStatisticsV0 {
    pub cluster_key_id: u32,
    pub min: Vec<LegacyScalar>,
    pub max: Vec<LegacyScalar>,
    pub level: i32,
}

/// Table statistics in the older format. Column identifiers are stable
/// small integers; the record keeps one entry per column, keys strictly
/// increasing.
#[derive(Clone, PartialEq, Eq, Debug)]
pub struct StatisticsV0 {
    pub row_count: u64,
    pub block_count: u64,
    pub perfect_block_count: u64,
    pub uncompressed_byte_size: u64,
    pub compressed_byte_size: u64,
    pub index_size: u64,
    pub col_stats: Vec<(u32, ColumnStatisticsV0)>,
}

/// Whether an untyped recorded bound can be retyped under a column class:
/// integers fit the numeric classes when they are in range, byte strings
/// fit the string class, and nothing else fits.
pub open spec fn fits(v: LegacyScalar, kind: TypeKind) -> bool {
    match kind {
        TypeKind::Number => match v {
            LegacyScalar::Int(_) => true,
            LegacyScalar::UInt(u) => u <= 0x7fff_ffff_ffff_ffff,
            _ => false,
        },
        TypeKind::Date => match v {
            LegacyScalar::Int(i) => -0x8000_0000 <= i <= 0x7fff_ffff,
            LegacyScalar::UInt(u) => u <= 0x7fff_ffff,
            _ => false,
        },
        TypeKind::Timestamp => match v {
            LegacyScalar::Int(_) => true,
            LegacyScalar::UInt(u) => u <= 0x7fff_ffff_ffff_ffff,
            _ => false,
        },
        TypeKind::String => v is String,
        TypeKind::Decimal => match v {
            LegacyScalar::Int(_) => true,
            LegacyScalar::UInt(u) => u <= 0x7fff_ffff_ffff_ffff,
            _ => false,
        },
        _ => false,
    }
}

/// The typed bound an untyped recorded bound stands for under a column
/// class. Decimals retyped from the older format carry scale zero, as that
/// format recorded plain integers.
pub open spec fn retyped(v: LegacyScalar, kind: TypeKind) -> IndexScalar
    recommends
        fits(v, kind),
{
    match kind {
        TypeKind::Number => match v {
            LegacyScalar::Int(i) => IndexScalar::Number(i),
            LegacyScalar::UInt(u) => IndexScalar::Number(u as i64),
            _ => IndexScalar::Number(0),
        },
        TypeKind::Date => match v {
            LegacyScalar::Int(i) => IndexScalar::Date(i as i32),
            LegacyScalar::UInt(u) => IndexScalar::Date(u as i32),
            _ => IndexScalar::Date(0),
        },
        TypeKind::Timestamp => match v {
            LegacyScalar::Int(i) => IndexScalar::Timestamp(i),
            LegacyScalar::UInt(u) => IndexScalar::Timestamp(u as i64),
            _ => IndexScalar::Timestamp(0),
        },
        TypeKind::String => match v {
            LegacyScalar::String(b) => IndexScalar::String(b),
            _ => IndexScalar::Number(0),
        },
        TypeKind::Decimal => match v {
            LegacyScalar::Int(i) => IndexScalar::Decimal { value: i, scale: 0 },
            LegacyScalar::UInt(u) => IndexScalar::Decimal { value: u as i64, scale: 0 },
            _ => IndexScalar::Number(0),
        },
        _ => IndexScalar::Number(0),
    }
}

/// Executable test for [`fits`], against the class of `data_type` with
/// nullability stripped.
pub fn value_fits(v: &LegacyScalar, data_type: &DataType) -> (r: bool)
    ensures
        r == fits(*v, data_type.kind),
{
    match data_type.kind {
        TypeKind::Number | TypeKind::Timestamp | TypeKind::Decimal => match v {
            LegacyScalar::Int(_) => true,
            LegacyScalar::UInt(u) => *u <= 0x7fff_ffff_ffff_ffff,
            _ => false,
        },
        TypeKind::Date => match v {
            LegacyScalar::Int(i) => -0x8000_0000 <= *i && *i <= 0x7fff_ffff,
            LegacyScalar::UInt(u) => *u <= 0x7fff_ffff,
            _ => false,
        },
        TypeKind::String => match v {
            LegacyScalar::String(_) => true,
            _ => false,
        },
        _ => false,
    }
}

/// Retypes an untyped recorded bound into the typed index encoding its
/// column's declared type calls for.
pub fn from_scalar(v: &LegacyScalar, data_type: &DataType) -> (r: IndexScalar)
    requires
        fits(*v, data_type.kind),
    ensures
        crate::scalar::index_eq(r, retyped(*v, data_type.kind)),
{
    match data_type.kind {
        TypeKind::Number => match v {
            LegacyScalar::Int(i) => IndexScalar::Number(*i),
            LegacyScalar::UInt(u) => IndexScalar::Number(*u as i64),
            _ => IndexScalar::Number(0),
        },
        TypeKind::Date => match v {
            LegacyScalar::Int(i) => IndexScalar::Date(*i as i32),
            LegacyScalar::UInt(u) => IndexScalar::Date(*u as i32),
            _ => IndexScalar::Date(0),
        },
        TypeKind::Timestamp => match v {
            LegacyScalar::Int(i) => IndexScalar::Timestamp(*i),
            LegacyScalar::UInt(u) => IndexScalar::Timestamp(*u as i64),
            _ => IndexScalar::Timestamp(0),
        },
        TypeKind::String => match v {
            LegacyScalar::String(b) => IndexScalar::String(clone_bytes(b)),
            _ => IndexScalar::Number(0),
        },
        TypeKind::Decimal => match v {
            LegacyScalar::Int(i) => IndexScalar::Decimal { value: *i, scale: 0 },
            LegacyScalar::UInt(u) => IndexScalar::Decimal { value: *u as i64, scale: 0 },
            _ => IndexScalar::Number(0),
        },
        _ => IndexScalar::Number(0),
    }
}

/// Copies a byte string; the copy reads back the same bytes.
pub fn clone_bytes(b: &Vec<u8>) -> (r: Vec<u8>)
    ensures
        r@ == b@,
{
    let mut out: Vec<u8> = Vec::new();
    let mut i: usize = 0;
    while i < b.len()
        invariant
            0 <= i <= b.len(),
            out@ =~= b@.take(i as int),
        decreases b.len() - i,
    {
        out.push(b[i]);
        i += 1;
    }
    proof {
        assert(out@ =~= b@);
    }
    out
}

} // verus!
