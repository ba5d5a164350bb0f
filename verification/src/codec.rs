//! The persisted encoding of a table statistics aggregate: a versionless,
//! self-delimiting byte layout — little-endian words, length-prefixed
//! strings and lists, one tag byte per scalar class — with decoding proved
//! to invert encoding on every well-formed record.

use vstd::prelude::*;

use crate::scalar::IndexScalar;
use crate::scalar::IndexScalarV;
use crate::stats::view_bounds;
use crate::stats::view_col_stats;
use crate::stats::ClusterStatistics;
use crate::stats::ClusterStatisticsV;
use crate::stats::ColumnStatistics;
use crate::stats::ColumnStatisticsV;
use crate::stats::Statistics;
use crate::stats::StatisticsV;

verus! {

/// The eight little-endian bytes of a word.
pub open spec fn enc_u64(v: u64) -> Seq<u8> {
    seq![
        (v & 0xff) as u8,
        ((v >> 8) & 0xff) as u8,
        ((v >> 16) & 0xff) as u8,
        ((v >> 24) & 0xff) as u8,
        ((v >> 32) & 0xff) as u8,
        ((v >> 40) & 0xff) as u8,
        ((v >> 48) & 0xff) as u8,
        ((v >> 56) & 0xff) as u8,
    ]
}

/// The word eight little-endian bytes spell.
pub open spec fn u64_from(
    b0: u8,
    b1: u8,
    b2: u8,
    b3: u8,
    b4: u8,
    b5: u8,
    b6: u8,
    b7: u8,
) -> u64 {
    (b0 as u64) | ((b1 as u64) << 8) | ((b2 as u64) << 16) | ((b3 as u64) << 24) | ((b4 as u64)
        << 32) | ((b5 as u64) << 40) | ((b6 as u64) << 48) | ((b7 as u64) << 56)
}

/// Reads a word; the rest is the suffix after its eight bytes.
pub open spec fn parse_u64(s: Seq<u8>) -> Option<(u64, Seq<u8>)> {
    if s.len() >= 8 {
        Some((u64_from(s[0], s[1], s[2], s[3], s[4], s[5], s[6], s[7]), s.skip(8)))
    } else {
        None
    }
}

/// Reading the eight bytes of a word gives the word back.
pub proof fn lemma_parse_enc_u64(v: u64, rest: Seq<u8>)
    ensures
        parse_u64(enc_u64(v) + rest) == Some((v, rest)),
{
    let s = enc_u64(v) + rest;
    assert(u64_from(
        (v & 0xff) as u8,
        ((v >> 8) & 0xff) as u8,
        ((v >> 16) & 0xff) as u8,
        ((v >> 24) & 0xff) as u8,
        ((v >> 32) & 0xff) as u8,
        ((v >> 40) & 0xff) as u8,
        ((v >> 48) & 0xff) as u8,
        ((v >> 56) & 0xff) as u8,
    ) == v) by (bit_vector);
    assert(s[0] == (v & 0xff) as u8);
    assert(s[1] == ((v >> 8) & 0xff) as u8);
    assert(s[2] == ((v >> 16) & 0xff) as u8);
    assert(s[3] == ((v >> 24) & 0xff) as u8);
    assert(s[4] == ((v >> 32) & 0xff) as u8);
    assert(s[5] == ((v >> 40) & 0xff) as u8);
    assert(s[6] == ((v >> 48) & 0xff) as u8);
    assert(s[7] == ((v >> 56) & 0xff) as u8);
    assert(s.skip(8) =~= rest);
}

/// A signed word rides in its two's-complement image.
pub open spec fn enc_i64(v: i64) -> Seq<u8> {
    enc_u64(v as u64)
}

pub open spec fn parse_i64(s: Seq<u8>) -> Option<(i64, Seq<u8>)> {
    match parse_u64(s) {
        Some(p) => Some((p.0 as i64, p.1)),
        None => None,
    }
}

pub proof fn lemma_parse_enc_i64(v: i64, rest: Seq<u8>)
    ensures
        parse_i64(enc_i64(v) + rest) == Some((v, rest)),
{
    lemma_parse_enc_u64(v as u64, rest);
    assert((v as u64) as i64 == v) by (bit_vector);
}

/// A half word rides in a full word; larger images do not decode.
pub open spec fn enc_u32(v: u32) -> Seq<u8> {
    enc_u64(v as u64)
}

pub open spec fn parse_u32(s: Seq<u8>) -> Option<(u32, Seq<u8>)> {
    match parse_u64(s) {
        Some(p) => if p.0 <= u32::MAX as u64 {
            Some((p.0 as u32, p.1))
        } else {
            None
        },
        None => None,
    }
}

pub proof fn lemma_parse_enc_u32(v: u32, rest: Seq<u8>)
    ensures
        parse_u32(enc_u32(v) + rest) == Some((v, rest)),
{
    lemma_parse_enc_u64(v as u64, rest);
}

/// A signed half word rides in a full word through its unsigned image.
pub open spec fn enc_i32(v: i32) -> Seq<u8> {
    enc_u64((v as u32) as u64)
}

pub open spec fn parse_i32(s: Seq<u8>) -> Option<(i32, Seq<u8>)> {
    match parse_u32(s) {
        Some(p) => Some((p.0 as i32, p.1)),
        None => None,
    }
}

pub proof fn lemma_parse_enc_i32(v: i32, rest: Seq<u8>)
    ensures
        parse_i32(enc_i32(v) + rest) == Some((v, rest)),
{
    lemma_parse_enc_u64((v as u32) as u64, rest);
    assert(((v as u32) as u64) <= u32::MAX as u64) by (bit_vector);
    assert((((v as u32) as u64) as u32) as i32 == v) by (bit_vector);
}

/// A byte string rides behind its length word.
pub open spec fn enc_bytes(b: Seq<u8>) -> Seq<u8>
    recommends
        b.len() <= u64::MAX,
{
    enc_u64(b.len() as u64) + b
}

pub open spec fn parse_bytes(s: Seq<u8>) -> Option<(Seq<u8>, Seq<u8>)> {
    match parse_u64(s) {
        Some(p) => if p.1.len() >= p.0 {
            Some((p.1.take(p.0 as int), p.1.skip(p.0 as int)))
        } else {
            None
        },
        None => None,
    }
}

pub proof fn lemma_parse_enc_bytes(b: Seq<u8>, rest: Seq<u8>)
    requires
        b.len() <= u64::MAX,
    ensures
        parse_bytes(enc_bytes(b) + rest) == Some((b, rest)),
{
    assert(enc_bytes(b) + rest =~= enc_u64(b.len() as u64) + (b + rest));
    lemma_parse_enc_u64(b.len() as u64, b + rest);
    assert((b + rest).take(b.len() as int) =~= b);
    assert((b + rest).skip(b.len() as int) =~= rest);
}

/// A scalar's well-formedness for persistence: its byte string fits the
/// length word.
pub open spec fn scalar_v_wf(v: IndexScalarV) -> bool {
    match v {
        IndexScalarV::String(b) => b.len() <= u64::MAX,
        _ => true,
    }
}

/// An index scalar rides behind one class tag byte.
pub open spec fn enc_scalar(v: IndexScalarV) -> Seq<u8>
    recommends
        scalar_v_wf(v),
{
    match v {
        IndexScalarV::Number(x) => seq![0u8] + enc_i64(x),
        IndexScalarV::Date(x) => seq![1u8] + enc_i32(x),
        IndexScalarV::Timestamp(x) => seq![2u8] + enc_i64(x),
        IndexScalarV::String(b) => seq![3u8] + enc_bytes(b),
        IndexScalarV::Decimal { value, scale } => seq![4u8] + enc_i64(value) + enc_u32(scale),
    }
}

pub open spec fn parse_scalar(s: Seq<u8>) -> Option<(IndexScalarV, Seq<u8>)> {
    if s.len() < 1 {
        None
    } else {
        let t = s[0];
        let body = s.skip(1);
        if t == 0 {
            match parse_i64(body) {
                Some(p) => Some((IndexScalarV::Number(p.0), p.1)),
                None => None,
            }
        } else if t == 1 {
            match parse_i32(body) {
                Some(p) => Some((IndexScalarV::Date(p.0), p.1)),
                None => None,
            }
        } else if t == 2 {
            match parse_i64(body) {
                Some(p) => Some((IndexScalarV::Timestamp(p.0), p.1)),
                None => None,
            }
        } else if t == 3 {
            match parse_bytes(body) {
                Some(p) => Some((IndexScalarV::String(p.0), p.1)),
                None => None,
            }
        } else if t == 4 {
            match parse_i64(body) {
                Some(p) => match parse_u32(p.1) {
                    Some(q) => Some((IndexScalarV::Decimal { value: p.0, scale: q.0 }, q.1)),
                    None => None,
                },
                None => None,
            }
        } else {
            None
        }
    }
}

pub proof fn lemma_parse_enc_scalar(v: IndexScalarV, rest: Seq<u8>)
    requires
        scalar_v_wf(v),
    ensures
        parse_scalar(enc_scalar(v) + rest) == Some((v, rest)),
{
    match v {
        IndexScalarV::Number(x) => {
            assert(enc_scalar(v) + rest =~= seq![0u8] + (enc_i64(x) + rest));
            assert((enc_scalar(v) + rest).skip(1) =~= enc_i64(x) + rest);
            lemma_parse_enc_i64(x, rest);
        },
        IndexScalarV::Date(x) => {
            assert((enc_scalar(v) + rest).skip(1) =~= enc_i32(x) + rest);
            lemma_parse_enc_i32(x, rest);
        },
        IndexScalarV::Timestamp(x) => {
            assert((enc_scalar(v) + rest).skip(1) =~= enc_i64(x) + rest);
            lemma_parse_enc_i64(x, rest);
        },
        IndexScalarV::String(b) => {
            assert((enc_scalar(v) + rest).skip(1) =~= enc_bytes(b) + rest);
            lemma_parse_enc_bytes(b, rest);
        },
        IndexScalarV::Decimal { value, scale } => {
            assert((enc_scalar(v) + rest).skip(1) =~= enc_i64(value) + (enc_u32(scale) + rest));
            lemma_parse_enc_i64(value, enc_u32(scale) + rest);
            lemma_parse_enc_u32(scale, rest);
        },
    }
}

/// An absent word rides as a zero byte, a present one behind a one byte.
pub open spec fn enc_opt_u64(v: Option<u64>) -> Seq<u8> {
    match v {
        None => seq![0u8],
        Some(x) => seq![1u8] + enc_u64(x),
    }
}

pub open spec fn parse_opt_u64(s: Seq<u8>) -> Option<(Option<u64>, Seq<u8>)> {
    if s.len() < 1 {
        None
    } else if s[0] == 0 {
        Some((None, s.skip(1)))
    } else if s[0] == 1 {
        match parse_u64(s.skip(1)) {
            Some(p) => Some((Some(p.0), p.1)),
            None => None,
        }
    } else {
        None
    }
}

pub proof fn lemma_parse_enc_opt_u64(v: Option<u64>, rest: Seq<u8>)
    ensures
        parse_opt_u64(enc_opt_u64(v) + rest) == Some((v, rest)),
{
    match v {
        None => {
            assert((enc_opt_u64(v) + rest).skip(1) =~= rest);
        },
        Some(x) => {
            assert((enc_opt_u64(v) + rest).skip(1) =~= enc_u64(x) + rest);
            lemma_parse_enc_u64(x, rest);
        },
    }
}

/// A scalar tuple's items, front first.
pub open spec fn enc_bound_items(s: Seq<IndexScalarV>) -> Seq<u8>
    decreases s.len(),
{
    if s.len() == 0 {
        Seq::empty()
    } else {
        enc_scalar(s[0]) + enc_bound_items(s.skip(1))
    }
}

/// A scalar tuple rides behind its length word.
pub open spec fn enc_bounds(s: Seq<IndexScalarV>) -> Seq<u8>
    recommends
        s.len() <= u64::MAX,
{
    enc_u64(s.len() as u64) + enc_bound_items(s)
}

pub open spec fn bounds_v_wf(s: Seq<IndexScalarV>) -> bool {
    s.len() <= u64::MAX && forall|i: int| 0 <= i < s.len() ==> scalar_v_wf(#[trigger] s[i])
}

pub open spec fn parse_bound_items(s: Seq<u8>, n: nat) -> Option<(Seq<IndexScalarV>, Seq<u8>)>
    decreases n,
{
    if n == 0 {
        Some((Seq::empty(), s))
    } else {
        match parse_scalar(s) {
            Some(p) => match parse_bound_items(p.1, (n - 1) as nat) {
                Some(q) => Some((seq![p.0] + q.0, q.1)),
                None => None,
            },
            None => None,
        }
    }
}

pub open spec fn parse_bounds(s: Seq<u8>) -> Option<(Seq<IndexScalarV>, Seq<u8>)> {
    match parse_u64(s) {
        Some(p) => parse_bound_items(p.1, p.0 as nat),
        None => None,
    }
}

pub proof fn lemma_parse_enc_bound_items(s: Seq<IndexScalarV>, rest: Seq<u8>)
    requires
        forall|i: int| 0 <= i < s.len() ==> scalar_v_wf(#[trigger] s[i]),
    ensures
        parse_bound_items(enc_bound_items(s) + rest, s.len() as nat) == Some((s, rest)),
    decreases s.len(),
{
    if s.len() == 0 {
        assert(enc_bound_items(s) + rest =~= rest);
        assert(parse_bound_items(rest, 0) == Some((Seq::<IndexScalarV>::empty(), rest)));
        assert(Seq::<IndexScalarV>::empty() =~= s);
    } else {
        assert(enc_bound_items(s) + rest =~= enc_scalar(s[0]) + (enc_bound_items(s.skip(1))
            + rest));
        lemma_parse_enc_scalar(s[0], enc_bound_items(s.skip(1)) + rest);
        lemma_parse_enc_bound_items(s.skip(1), rest);
        assert(seq![s[0]] + s.skip(1) =~= s);
    }
}

pub proof fn lemma_parse_enc_bounds(s: Seq<IndexScalarV>, rest: Seq<u8>)
    requires
        bounds_v_wf(s),
    ensures
        parse_bounds(enc_bounds(s) + rest) == Some((s, rest)),
{
    assert(enc_bounds(s) + rest =~= enc_u64(s.len() as u64) + (enc_bound_items(s) + rest));
    lemma_parse_enc_u64(s.len() as u64, enc_bound_items(s) + rest);
    lemma_parse_enc_bound_items(s, rest);
}

/// An absent scalar tuple rides as a zero byte, a present one behind a
/// one byte.
pub open spec fn enc_opt_bounds(v: Option<Seq<IndexScalarV>>) -> Seq<u8> {
    match v {
        None => seq![0u8],
        Some(s) => seq![1u8] + enc_bounds(s),
    }
}

pub open spec fn parse_opt_bounds(s: Seq<u8>) -> Option<
    (Option<Seq<IndexScalarV>>, Seq<u8>),
> {
    if s.len() < 1 {
        None
    } else if s[0] == 0 {
        Some((None, s.skip(1)))
    } else if s[0] == 1 {
        match parse_bounds(s.skip(1)) {
            Some(p) => Some((Some(p.0), p.1)),
            None => None,
        }
    } else {
        None
    }
}

pub proof fn lemma_parse_enc_opt_bounds(v: Option<Seq<IndexScalarV>>, rest: Seq<u8>)
    requires
        v matches Some(s) ==> bounds_v_wf(s),
    ensures
        parse_opt_bounds(enc_opt_bounds(v) + rest) == Some((v, rest)),
{
    match v {
        None => {
            assert((enc_opt_bounds(v) + rest).skip(1) =~= rest);
        },
        Some(s) => {
            assert((enc_opt_bounds(v) + rest).skip(1) =~= enc_bounds(s) + rest);
            lemma_parse_enc_bounds(s, rest);
        },
    }
}

/// A column record: both bounds, both counts, the optional distinct count.
pub open spec fn colstat_v_wf(c: ColumnStatisticsV) -> bool {
    scalar_v_wf(c.min) && scalar_v_wf(c.max)
}

pub open spec fn enc_colstat(c: ColumnStatisticsV) -> Seq<u8>
    recommends
        colstat_v_wf(c),
{
    enc_scalar(c.min) + enc_scalar(c.max) + enc_u64(c.null_count) + enc_u64(c.in_memory_size)
        + enc_opt_u64(c.distinct_of_values)
}

pub open spec fn parse_colstat(s: Seq<u8>) -> Option<(ColumnStatisticsV, Seq<u8>)> {
    match parse_scalar(s) {
        Some(a) => match parse_scalar(a.1) {
            Some(b) => match parse_u64(b.1) {
                Some(c) => match parse_u64(c.1) {
                    Some(d) => match parse_opt_u64(d.1) {
                        Some(e) => Some(
                            (
                                ColumnStatisticsV {
                                    min: a.0,
                                    max: b.0,
                                    null_count: c.0,
                                    in_memory_size: d.0,
                                    distinct_of_values: e.0,
                                },
                                e.1,
                            ),
                        ),
                        None => None,
                    },
                    None => None,
                },
                None => None,
            },
            None => None,
        },
        None => None,
    }
}

pub proof fn lemma_parse_enc_colstat(c: ColumnStatisticsV, rest: Seq<u8>)
    requires
        colstat_v_wf(c),
    ensures
        parse_colstat(enc_colstat(c) + rest) == Some((c, rest)),
{
    let r4 = enc_opt_u64(c.distinct_of_values) + rest;
    let r3 = enc_u64(c.in_memory_size) + r4;
    let r2 = enc_u64(c.null_count) + r3;
    let r1 = enc_scalar(c.max) + r2;
    assert(enc_colstat(c) + rest =~= enc_scalar(c.min) + r1);
    assert(r1 =~= enc_scalar(c.max) + r2);
    lemma_parse_enc_scalar(c.min, r1);
    lemma_parse_enc_scalar(c.max, r2);
    lemma_parse_enc_u64(c.null_count, r3);
    lemma_parse_enc_u64(c.in_memory_size, r4);
    lemma_parse_enc_opt_u64(c.distinct_of_values, rest);
}

/// A cluster record: key, both bound tuples, level, optional page bounds.
pub open spec fn cluster_v_wf(c: ClusterStatisticsV) -> bool {
    bounds_v_wf(c.min) && bounds_v_wf(c.max) && (c.pages matches Some(p) ==> bounds_v_wf(p))
}

pub open spec fn enc_cluster(c: ClusterStatisticsV) -> Seq<u8>
    recommends
        cluster_v_wf(c),
{
    enc_u32(c.cluster_key_id) + enc_bounds(c.min) + enc_bounds(c.max) + enc_i32(c.level)
        + enc_opt_bounds(c.pages)
}

pub open spec fn parse_cluster(s: Seq<u8>) -> Option<(ClusterStatisticsV, Seq<u8>)> {
    match parse_u32(s) {
        Some(a) => match parse_bounds(a.1) {
            Some(b) => match parse_bounds(b.1) {
                Some(c) => match parse_i32(c.1) {
                    Some(d) => match parse_opt_bounds(d.1) {
                        Some(e) => Some(
                            (
                                ClusterStatisticsV {
                                    cluster_key_id: a.0,
                                    min: b.0,
                                    max: c.0,
                                    level: d.0,
                                    pages: e.0,
                                },
                                e.1,
                            ),
                        ),
                        None => None,
                    },
                    None => None,
                },
                None => None,
            },
            None => None,
        },
        None => None,
    }
}

pub proof fn lemma_parse_enc_cluster(c: ClusterStatisticsV, rest: Seq<u8>)
    requires
        cluster_v_wf(c),
    ensures
        parse_cluster(enc_cluster(c) + rest) == Some((c, rest)),
{
    let r4 = enc_opt_bounds(c.pages) + rest;
    let r3 = enc_i32(c.level) + r4;
    let r2 = enc_bounds(c.max) + r3;
    let r1 = enc_bounds(c.min) + r2;
    assert(enc_cluster(c) + rest =~= enc_u32(c.cluster_key_id) + r1);
    lemma_parse_enc_u32(c.cluster_key_id, r1);
    lemma_parse_enc_bounds(c.min, r2);
    lemma_parse_enc_bounds(c.max, r3);
    lemma_parse_enc_i32(c.level, r4);
    lemma_parse_enc_opt_bounds(c.pages, rest);
}

/// An absent cluster record rides as a zero byte.
pub open spec fn enc_opt_cluster(v: Option<ClusterStatisticsV>) -> Seq<u8> {
    match v {
        None => seq![0u8],
        Some(c) => seq![1u8] + enc_cluster(c),
    }
}

pub open spec fn parse_opt_cluster(s: Seq<u8>) -> Option<
    (Option<ClusterStatisticsV>, Seq<u8>),
> {
    if s.len() < 1 {
        None
    } else if s[0] == 0 {
        Some((None, s.skip(1)))
    } else if s[0] == 1 {
        match parse_cluster(s.skip(1)) {
            Some(p) => Some((Some(p.0), p.1)),
            None => None,
        }
    } else {
        None
    }
}

pub proof fn lemma_parse_enc_opt_cluster(v: Option<ClusterStatisticsV>, rest: Seq<u8>)
    requires
        v matches Some(c) ==> cluster_v_wf(c),
    ensures
        parse_opt_cluster(enc_opt_cluster(v) + rest) == Some((v, rest)),
{
    match v {
        None => {
            assert((enc_opt_cluster(v) + rest).skip(1) =~= rest);
        },
        Some(c) => {
            assert((enc_opt_cluster(v) + rest).skip(1) =~= enc_cluster(c) + rest);
            lemma_parse_enc_cluster(c, rest);
        },
    }
}

/// The per-column mapping's entries, front first: key word, then record.
pub open spec fn enc_col_items(s: Seq<(u32, ColumnStatisticsV)>) -> Seq<u8>
    decreases s.len(),
{
    if s.len() == 0 {
        Seq::empty()
    } else {
        enc_u32(s[0].0) + enc_colstat(s[0].1) + enc_col_items(s.skip(1))
    }
}

pub open spec fn col_items_v_wf(s: Seq<(u32, ColumnStatisticsV)>) -> bool {
    s.len() <= u64::MAX && forall|i: int| 0 <= i < s.len() ==> colstat_v_wf((#[trigger] s[i]).1)
}

pub open spec fn parse_col_items(s: Seq<u8>, n: nat) -> Option<
    (Seq<(u32, ColumnStatisticsV)>, Seq<u8>),
>
    decreases n,
{
    if n == 0 {
        Some((Seq::empty(), s))
    } else {
        match parse_u32(s) {
            Some(k) => match parse_colstat(k.1) {
                Some(c) => match parse_col_items(c.1, (n - 1) as nat) {
                    Some(q) => Some((seq![(k.0, c.0)] + q.0, q.1)),
                    None => None,
                },
                None => None,
            },
            None => None,
        }
    }
}

#[verifier::spinoff_prover]
#[verifier::rlimit(100)]
pub proof fn lemma_parse_enc_col_items(s: Seq<(u32, ColumnStatisticsV)>, rest: Seq<u8>)
    requires
        forall|i: int| 0 <= i < s.len() ==> colstat_v_wf((#[trigger] s[i]).1),
    ensures
        parse_col_items(enc_col_items(s) + rest, s.len() as nat) == Some((s, rest)),
    decreases s.len(),
{
    if s.len() == 0 {
        assert(enc_col_items(s) + rest =~= rest);
        assert(Seq::<(u32, ColumnStatisticsV)>::empty() =~= s);
    } else {
        let tail = enc_colstat(s[0].1) + (enc_col_items(s.skip(1)) + rest);
        assert(enc_col_items(s) + rest =~= enc_u32(s[0].0) + tail);
        lemma_parse_enc_u32(s[0].0, tail);
        lemma_parse_enc_colstat(s[0].1, enc_col_items(s.skip(1)) + rest);
        lemma_parse_enc_col_items(s.skip(1), rest);
        assert(seq![(s[0].0, s[0].1)] + s.skip(1) =~= s);
        assert((s[0].0, s[0].1) == s[0]);
    }
}

/// A table statistics aggregate's well-formedness for persistence.
pub open spec fn statistics_v_wf(v: StatisticsV) -> bool {
    col_items_v_wf(v.col_stats) && (v.cluster_stats matches Some(c) ==> cluster_v_wf(c))
}

/// The persisted image of a table statistics aggregate: the six count and
/// size words, the per-column mapping behind its length word, and the
/// optional cluster record.
pub open spec fn enc_statistics(v: StatisticsV) -> Seq<u8>
    recommends
        statistics_v_wf(v),
{
    enc_u64(v.row_count) + enc_u64(v.block_count) + enc_u64(v.perfect_block_count) + enc_u64(
        v.uncompressed_byte_size,
    ) + enc_u64(v.compressed_byte_size) + enc_u64(v.index_size) + enc_u64(v.col_stats.len() as u64)
        + enc_col_items(v.col_stats) + enc_opt_cluster(v.cluster_stats)
}

pub open spec fn parse_statistics(s: Seq<u8>) -> Option<(StatisticsV, Seq<u8>)> {
    match parse_u64(s) {
        Some(a) => match parse_u64(a.1) {
            Some(b) => match parse_u64(b.1) {
                Some(c) => match parse_u64(c.1) {
                    Some(d) => match parse_u64(d.1) {
                        Some(e) => match parse_u64(e.1) {
                            Some(f) => match parse_u64(f.1) {
                                Some(n) => match parse_col_items(n.1, n.0 as nat) {
                                    Some(cs) => match parse_opt_cluster(cs.1) {
                                        Some(cl) => Some(
                                            (
                                                StatisticsV {
                                                    row_count: a.0,
                                                    block_count: b.0,
                                                    perfect_block_count: c.0,
                                                    uncompressed_byte_size: d.0,
                                                    compressed_byte_size: e.0,
                                                    index_size: f.0,
                                                    col_stats: cs.0,
                                                    cluster_stats: cl.0,
                                                },
                                                cl.1,
                                            ),
                                        ),
                                        None => None,
                                    },
                                    None => None,
                                },
                                None => None,
                            },
                            None => None,
                        },
                        None => None,
                    },
                    None => None,
                },
                None => None,
            },
            None => None,
        },
        None => None,
    }
}

/// Decoding consumes the whole image.
pub open spec fn decode_statistics_spec(s: Seq<u8>) -> Option<StatisticsV> {
    match parse_statistics(s) {
        Some(p) => if p.1.len() == 0 {
            Some(p.0)
        } else {
            None
        },
        None => None,
    }
}

/// Serializing a table statistics aggregate and deserializing the image
/// yields the original aggregate: counts, sizes, the per-column mapping
/// and the optional cluster record all round-trip exactly.
#[verifier::rlimit(100)]
pub proof fn lemma_statistics_round_trip(v: StatisticsV)
    requires
        statistics_v_wf(v),
    ensures
        decode_statistics_spec(enc_statistics(v)) == Some(v),
{
    let r8 = enc_opt_cluster(v.cluster_stats);
    let r7 = enc_col_items(v.col_stats) + r8;
    let r6 = enc_u64(v.col_stats.len() as u64) + r7;
    let r5 = enc_u64(v.index_size) + r6;
    let r4 = enc_u64(v.compressed_byte_size) + r5;
    let r3 = enc_u64(v.uncompressed_byte_size) + r4;
    let r2 = enc_u64(v.perfect_block_count) + r3;
    let r1 = enc_u64(v.block_count) + r2;
    assert(enc_statistics(v) =~= enc_u64(v.row_count) + r1);
    lemma_parse_enc_u64(v.row_count, r1);
    lemma_parse_enc_u64(v.block_count, r2);
    lemma_parse_enc_u64(v.perfect_block_count, r3);
    lemma_parse_enc_u64(v.uncompressed_byte_size, r4);
    lemma_parse_enc_u64(v.compressed_byte_size, r5);
    lemma_parse_enc_u64(v.index_size, r6);
    lemma_parse_enc_u64(v.col_stats.len() as u64, r7);
    lemma_parse_enc_col_items(v.col_stats, r8);
    assert(r8 =~= enc_opt_cluster(v.cluster_stats) + Seq::<u8>::empty());
    lemma_parse_enc_opt_cluster(v.cluster_stats, Seq::empty());
}

/// Appends a word's eight bytes.
fn push_u64(out: &mut Vec<u8>, v: u64)
    ensures
        final(out)@ == old(out)@ + enc_u64(v),
{
    proof {
        assert((v & 0xff) < 256 && ((v >> 8) & 0xff) < 256 && ((v >> 16) & 0xff) < 256 && ((v
            >> 24) & 0xff) < 256 && ((v >> 32) & 0xff) < 256 && ((v >> 40) & 0xff) < 256 && ((v
            >> 48) & 0xff) < 256 && ((v >> 56) & 0xff) < 256) by (bit_vector);
    }
    out.push((v & 0xff) as u8);
    out.push(((v >> 8) & 0xff) as u8);
    out.push(((v >> 16) & 0xff) as u8);
    out.push(((v >> 24) & 0xff) as u8);
    out.push(((v >> 32) & 0xff) as u8);
    out.push(((v >> 40) & 0xff) as u8);
    out.push(((v >> 48) & 0xff) as u8);
    out.push(((v >> 56) & 0xff) as u8);
    proof {
        assert(out@ =~= old(out)@ + enc_u64(v));
    }
}

/// Appends a signed word.
fn push_i64(out: &mut Vec<u8>, v: i64)
    ensures
        final(out)@ == old(out)@ + enc_i64(v),
{
    push_u64(out, v as u64);
}

/// Appends a half word.
fn push_u32(out: &mut Vec<u8>, v: u32)
    ensures
        final(out)@ == old(out)@ + enc_u32(v),
{
    push_u64(out, v as u64);
}

/// Appends a signed half word.
fn push_i32(out: &mut Vec<u8>, v: i32)
    ensures
        final(out)@ == old(out)@ + enc_i32(v),
{
    push_u64(out, (v as u32) as u64);
}

/// Appends a length-prefixed byte string.
fn push_bytes(out: &mut Vec<u8>, b: &Vec<u8>)
    ensures
        final(out)@ == old(out)@ + enc_bytes(b@),
{
    push_u64(out, b.len() as u64);
    let ghost mid = out@;
    let mut i: usize = 0;
    while i < b.len()
        invariant
            0 <= i <= b@.len(),
            out@ == mid + b@.take(i as int),
        decreases b@.len() - i,
    {
        proof {
            assert(mid + b@.take(i + 1) =~= (mid + b@.take(i as int)).push(b@[i as int]));
        }
        out.push(b[i]);
        i += 1;
    }
    proof {
        assert(b@.take(b@.len() as int) =~= b@);
        assert(out@ =~= old(out)@ + enc_bytes(b@));
    }
}

/// Appends an optional word.
fn push_opt_u64(out: &mut Vec<u8>, v: &Option<u64>)
    ensures
        final(out)@ == old(out)@ + enc_opt_u64(*v),
{
    match v {
        None => {
            out.push(0u8);
            proof {
                assert(out@ =~= old(out)@ + enc_opt_u64(*v));
            }
        },
        Some(x) => {
            out.push(1u8);
            push_u64(out, *x);
            proof {
                assert(out@ =~= old(out)@ + enc_opt_u64(*v));
            }
        },
    }
}

/// Appends a tagged index scalar.
fn push_scalar(out: &mut Vec<u8>, v: &IndexScalar)
    ensures
        final(out)@ == old(out)@ + enc_scalar(v@),
{
    match v {
        IndexScalar::Number(x) => {
            out.push(0u8);
            push_i64(out, *x);
        },
        IndexScalar::Date(x) => {
            out.push(1u8);
            push_i32(out, *x);
        },
        IndexScalar::Timestamp(x) => {
            out.push(2u8);
            push_i64(out, *x);
        },
        IndexScalar::String(b) => {
            out.push(3u8);
            push_bytes(out, b);
        },
        IndexScalar::Decimal { value, scale } => {
            out.push(4u8);
            push_i64(out, *value);
            push_u32(out, *scale);
        },
    }
    proof {
        assert(out@ =~= old(out)@ + enc_scalar(v@));
    }
}

/// Appending one scalar to a tuple appends its image.
proof fn lemma_enc_bound_items_snoc(s: Seq<IndexScalarV>, x: IndexScalarV)
    ensures
        enc_bound_items(s.push(x)) == enc_bound_items(s) + enc_scalar(x),
    decreases s.len(),
{
    assert(enc_bound_items(Seq::<IndexScalarV>::empty()) == Seq::<u8>::empty());
    if s.len() == 0 {
        assert(s.push(x)[0] == x);
        assert(s.push(x).skip(1) =~= Seq::<IndexScalarV>::empty());
        assert(enc_bound_items(s.push(x)) == enc_scalar(x) + enc_bound_items(
            Seq::<IndexScalarV>::empty(),
        ));
        assert(enc_bound_items(s.push(x)) =~= enc_bound_items(s) + enc_scalar(x));
    } else {
        assert(s.push(x)[0] == s[0]);
        assert(s.push(x).skip(1) =~= s.skip(1).push(x));
        lemma_enc_bound_items_snoc(s.skip(1), x);
        assert(enc_bound_items(s.push(x)) == enc_scalar(s[0]) + enc_bound_items(
            s.skip(1).push(x),
        ));
        assert(enc_bound_items(s.push(x)) =~= enc_bound_items(s) + enc_scalar(x));
    }
}

/// Appends a length-prefixed scalar tuple.
fn push_bounds(out: &mut Vec<u8>, s: &Vec<IndexScalar>)
    ensures
        final(out)@ == old(out)@ + enc_bounds(view_bounds(s@)),
{
    push_u64(out, s.len() as u64);
    let ghost mid = out@;
    let mut i: usize = 0;
    proof {
        assert(view_bounds(s@.take(0)) =~= Seq::<IndexScalarV>::empty());
        assert(out@ =~= mid + enc_bound_items(view_bounds(s@.take(0))));
    }
    while i < s.len()
        invariant
            0 <= i <= s@.len(),
            out@ == mid + enc_bound_items(view_bounds(s@.take(i as int))),
        decreases s@.len() - i,
    {
        proof {
            assert(view_bounds(s@.take(i + 1)) =~= view_bounds(s@.take(i as int)).push(
                s@[i as int]@,
            ));
            lemma_enc_bound_items_snoc(view_bounds(s@.take(i as int)), s@[i as int]@);
        }
        push_scalar(out, &s[i]);
        proof {
            assert(out@ =~= mid + enc_bound_items(view_bounds(s@.take(i + 1))));
        }
        i += 1;
    }
    proof {
        assert(s@.take(s@.len() as int) =~= s@);
        assert(view_bounds(s@).len() == s@.len());
        assert(out@ =~= old(out)@ + enc_bounds(view_bounds(s@)));
    }
}

/// Appends an optional scalar tuple.
fn push_opt_bounds(out: &mut Vec<u8>, v: &Option<Vec<IndexScalar>>)
    ensures
        v matches Some(s) ==> final(out)@ == old(out)@ + enc_opt_bounds(Some(view_bounds(s@))),
        v is None ==> final(out)@ == old(out)@ + enc_opt_bounds(None),
{
    match v {
        None => {
            out.push(0u8);
            proof {
                assert(out@ =~= old(out)@ + enc_opt_bounds(None));
            }
        },
        Some(s) => {
            out.push(1u8);
            push_bounds(out, s);
            proof {
                assert(out@ =~= old(out)@ + enc_opt_bounds(Some(view_bounds(s@))));
            }
        },
    }
}

/// Appends a column record.
fn push_colstat(out: &mut Vec<u8>, c: &ColumnStatistics)
    ensures
        final(out)@ == old(out)@ + enc_colstat(c@),
{
    push_scalar(out, &c.min);
    push_scalar(out, &c.max);
    push_u64(out, c.null_count);
    push_u64(out, c.in_memory_size);
    push_opt_u64(out, &c.distinct_of_values);
    proof {
        assert(out@ =~= old(out)@ + enc_colstat(c@));
    }
}

/// Appends a cluster record.
fn push_cluster(out: &mut Vec<u8>, c: &ClusterStatistics)
    ensures
        final(out)@ == old(out)@ + enc_cluster(c@),
{
    push_u32(out, c.cluster_key_id);
    push_bounds(out, &c.min);
    push_bounds(out, &c.max);
    push_i32(out, c.level);
    push_opt_bounds(out, &c.pages);
    proof {
        assert(out@ =~= old(out)@ + enc_cluster(c@));
    }
}

/// Appending one column entry appends its image.
proof fn lemma_enc_col_items_snoc(s: Seq<(u32, ColumnStatisticsV)>, x: (u32, ColumnStatisticsV))
    ensures
        enc_col_items(s.push(x)) == enc_col_items(s) + enc_u32(x.0) + enc_colstat(x.1),
    decreases s.len(),
{
    assert(enc_col_items(Seq::<(u32, ColumnStatisticsV)>::empty()) == Seq::<u8>::empty());
    if s.len() == 0 {
        assert(s.push(x)[0] == x);
        assert(s.push(x).skip(1) =~= Seq::<(u32, ColumnStatisticsV)>::empty());
        assert(enc_col_items(s.push(x)) == enc_u32(x.0) + enc_colstat(x.1) + enc_col_items(
            Seq::<(u32, ColumnStatisticsV)>::empty(),
        ));
        assert(enc_col_items(s.push(x)) =~= enc_col_items(s) + enc_u32(x.0) + enc_colstat(x.1));
    } else {
        assert(s.push(x)[0] == s[0]);
        assert(s.push(x).skip(1) =~= s.skip(1).push(x));
        lemma_enc_col_items_snoc(s.skip(1), x);
        assert(enc_col_items(s.push(x)) == enc_u32(s[0].0) + enc_colstat(s[0].1) + enc_col_items(
            s.skip(1).push(x),
        ));
        assert(enc_col_items(s.push(x)) =~= enc_col_items(s) + enc_u32(x.0) + enc_colstat(x.1));
    }
}

/// Serializes a table statistics aggregate into its persisted image.
pub fn encode_statistics(v: &Statistics) -> (r: Vec<u8>)
    ensures
        r@ == enc_statistics(v@),
{
    let mut out: Vec<u8> = Vec::new();
    push_u64(&mut out, v.row_count);
    push_u64(&mut out, v.block_count);
    push_u64(&mut out, v.perfect_block_count);
    push_u64(&mut out, v.uncompressed_byte_size);
    push_u64(&mut out, v.compressed_byte_size);
    push_u64(&mut out, v.index_size);
    push_u64(&mut out, v.col_stats.len() as u64);
    let ghost mid = out@;
    let mut i: usize = 0;
    proof {
        assert(view_col_stats(v.col_stats@.take(0)) =~= Seq::<(u32, ColumnStatisticsV)>::empty());
        assert(out@ =~= mid + enc_col_items(view_col_stats(v.col_stats@.take(0))));
    }
    while i < v.col_stats.len()
        invariant
            0 <= i <= v.col_stats@.len(),
            out@ == mid + enc_col_items(view_col_stats(v.col_stats@.take(i as int))),
        decreases v.col_stats@.len() - i,
    {
        proof {
            assert(view_col_stats(v.col_stats@.take(i + 1)) =~= view_col_stats(
                v.col_stats@.take(i as int),
            ).push((v.col_stats@[i as int].0, v.col_stats@[i as int].1@)));
            lemma_enc_col_items_snoc(
                view_col_stats(v.col_stats@.take(i as int)),
                (v.col_stats@[i as int].0, v.col_stats@[i as int].1@),
            );
        }
        push_u32(&mut out, v.col_stats[i].0);
        push_colstat(&mut out, &v.col_stats[i].1);
        proof {
            assert(out@ =~= mid + enc_col_items(view_col_stats(v.col_stats@.take(i + 1))));
        }
        i += 1;
    }
    proof {
        assert(v.col_stats@.take(v.col_stats@.len() as int) =~= v.col_stats@);
        assert(view_col_stats(v.col_stats@).len() == v.col_stats@.len());
    }
    match &v.cluster_stats {
        None => {
            out.push(0u8);
        },
        Some(c) => {
            out.push(1u8);
            push_cluster(&mut out, c);
        },
    }
    proof {
        assert(out@ =~= enc_statistics(v@));
    }
    out
}

/// Reads a word at a cursor.
fn read_u64(b: &Vec<u8>, pos: usize) -> (r: Option<(u64, usize)>)
    requires
        pos <= b@.len(),
    ensures
        parse_u64(b@.skip(pos as int)) matches Some(p) ==> (r matches Some(q) && q.0 == p.0 && pos
            <= q.1 <= b@.len() && b@.skip(q.1 as int) == p.1),
        parse_u64(b@.skip(pos as int)) is None ==> r is None,
{
    if b.len() - pos >= 8 {
        let v = (b[pos] as u64) | ((b[pos + 1] as u64) << 8) | ((b[pos + 2] as u64) << 16) | ((b[pos
            + 3] as u64) << 24) | ((b[pos + 4] as u64) << 32) | ((b[pos + 5] as u64) << 40) | ((b[pos
            + 6] as u64) << 48) | ((b[pos + 7] as u64) << 56);
        proof {
            let s = b@.skip(pos as int);
            assert(s[0] == b@[pos as int]);
            assert(s[1] == b@[pos + 1]);
            assert(s[2] == b@[pos + 2]);
            assert(s[3] == b@[pos + 3]);
            assert(s[4] == b@[pos + 4]);
            assert(s[5] == b@[pos + 5]);
            assert(s[6] == b@[pos + 6]);
            assert(s[7] == b@[pos + 7]);
            assert(s.skip(8) =~= b@.skip(pos + 8));
        }
        Some((v, pos + 8))
    } else {
        None
    }
}

/// Reads a signed word at a cursor.
fn read_i64(b: &Vec<u8>, pos: usize) -> (r: Option<(i64, usize)>)
    requires
        pos <= b@.len(),
    ensures
        parse_i64(b@.skip(pos as int)) matches Some(p) ==> (r matches Some(q) && q.0 == p.0 && pos
            <= q.1 <= b@.len() && b@.skip(q.1 as int) == p.1),
        parse_i64(b@.skip(pos as int)) is None ==> r is None,
{
    match read_u64(b, pos) {
        Some((v, p)) => Some((v as i64, p)),
        None => None,
    }
}

/// Reads a half word at a cursor.
fn read_u32(b: &Vec<u8>, pos: usize) -> (r: Option<(u32, usize)>)
    requires
        pos <= b@.len(),
    ensures
        parse_u32(b@.skip(pos as int)) matches Some(p) ==> (r matches Some(q) && q.0 == p.0 && pos
            <= q.1 <= b@.len() && b@.skip(q.1 as int) == p.1),
        parse_u32(b@.skip(pos as int)) is None ==> r is None,
{
    match read_u64(b, pos) {
        Some((v, p)) => {
            if v <= u32::MAX as u64 {
                Some((v as u32, p))
            } else {
                None
            }
        },
        None => None,
    }
}

/// Reads a signed half word at a cursor.
fn read_i32(b: &Vec<u8>, pos: usize) -> (r: Option<(i32, usize)>)
    requires
        pos <= b@.len(),
    ensures
        parse_i32(b@.skip(pos as int)) matches Some(p) ==> (r matches Some(q) && q.0 == p.0 && pos
            <= q.1 <= b@.len() && b@.skip(q.1 as int) == p.1),
        parse_i32(b@.skip(pos as int)) is None ==> r is None,
{
    match read_u32(b, pos) {
        Some((v, p)) => Some((v as i32, p)),
        None => None,
    }
}

/// Reads a length-prefixed byte string at a cursor.
fn read_bytes(b: &Vec<u8>, pos: usize) -> (r: Option<(Vec<u8>, usize)>)
    requires
        pos <= b@.len(),
    ensures
        parse_bytes(b@.skip(pos as int)) matches Some(p) ==> (r matches Some(q) && q.0@ == p.0
            && pos <= q.1 <= b@.len() && b@.skip(q.1 as int) == p.1),
        parse_bytes(b@.skip(pos as int)) is None ==> r is None,
{
    match read_u64(b, pos) {
        None => None,
        Some((n, p)) => {
            let remaining: usize = b.len() - p;
            if n > remaining as u64 {
                return None;
            }
            let len: usize = n as usize;
            let mut out: Vec<u8> = Vec::new();
            let mut i: usize = 0;
            while i < len
                invariant
                    p + len <= b@.len(),
                    b@.len() <= usize::MAX,
                    0 <= i <= len,
                    out@ =~= b@.subrange(p as int, p + i),
                decreases len - i,
            {
                out.push(b[p + i]);
                i += 1;
            }
            proof {
                let rest = b@.skip(p as int);
                assert(out@ =~= rest.take(n as int));
                assert(rest.skip(n as int) =~= b@.skip(p + len));
            }
            Some((out, p + len))
        },
    }
}

/// Reads a tagged index scalar at a cursor.
fn read_scalar(b: &Vec<u8>, pos: usize) -> (r: Option<(IndexScalar, usize)>)
    requires
        pos <= b@.len(),
    ensures
        parse_scalar(b@.skip(pos as int)) matches Some(p) ==> (r matches Some(q) && q.0@ == p.0
            && pos <= q.1 <= b@.len() && b@.skip(q.1 as int) == p.1),
        parse_scalar(b@.skip(pos as int)) is None ==> r is None,
{
    if pos == b.len() {
        return None;
    }
    let t = b[pos];
    proof {
        assert(b@.skip(pos as int)[0] == b@[pos as int]);
        assert(b@.skip(pos as int).skip(1) =~= b@.skip(pos + 1));
    }
    if t == 0 {
        match read_i64(b, pos + 1) {
            Some((v, p)) => Some((IndexScalar::Number(v), p)),
            None => None,
        }
    } else if t == 1 {
        match read_i32(b, pos + 1) {
            Some((v, p)) => Some((IndexScalar::Date(v), p)),
            None => None,
        }
    } else if t == 2 {
        match read_i64(b, pos + 1) {
            Some((v, p)) => Some((IndexScalar::Timestamp(v), p)),
            None => None,
        }
    } else if t == 3 {
        match read_bytes(b, pos + 1) {
            Some((v, p)) => Some((IndexScalar::String(v), p)),
            None => None,
        }
    } else if t == 4 {
        match read_i64(b, pos + 1) {
            Some((v, p)) => match read_u32(b, p) {
                Some((sc, p2)) => Some((IndexScalar::Decimal { value: v, scale: sc }, p2)),
                None => None,
            },
            None => None,
        }
    } else {
        None
    }
}

/// Reads an optional word at a cursor.
fn read_opt_u64(b: &Vec<u8>, pos: usize) -> (r: Option<(Option<u64>, usize)>)
    requires
        pos <= b@.len(),
    ensures
        parse_opt_u64(b@.skip(pos as int)) matches Some(p) ==> (r matches Some(q) && q.0 == p.0
            && pos <= q.1 <= b@.len() && b@.skip(q.1 as int) == p.1),
        parse_opt_u64(b@.skip(pos as int)) is None ==> r is None,
{
    if pos == b.len() {
        return None;
    }
    let t = b[pos];
    proof {
        assert(b@.skip(pos as int)[0] == b@[pos as int]);
        assert(b@.skip(pos as int).skip(1) =~= b@.skip(pos + 1));
    }
    if t == 0 {
        Some((None, pos + 1))
    } else if t == 1 {
        match read_u64(b, pos + 1) {
            Some((v, p)) => Some((Some(v), p)),
            None => None,
        }
    } else {
        None
    }
}

/// One parsed scalar strictly shrinks the input.
proof fn lemma_parse_scalar_consumes(s: Seq<u8>)
    ensures
        parse_scalar(s) matches Some(p) ==> p.1.len() < s.len(),
{
}

/// A tuple of n scalars needs at least n bytes.
proof fn lemma_parse_bound_items_needs(s: Seq<u8>, n: nat)
    ensures
        parse_bound_items(s, n) matches Some(p) ==> n <= s.len(),
    decreases n,
{
    if n > 0 {
        match parse_scalar(s) {
            Some(p) => {
                lemma_parse_scalar_consumes(s);
                lemma_parse_bound_items_needs(p.1, (n - 1) as nat);
            },
            None => {},
        }
    }
}

/// Reads a length-prefixed scalar tuple at a cursor.
fn read_bounds(b: &Vec<u8>, pos: usize) -> (r: Option<(Vec<IndexScalar>, usize)>)
    requires
        pos <= b@.len(),
    ensures
        parse_bounds(b@.skip(pos as int)) matches Some(p) ==> (r matches Some(q) && view_bounds(
            q.0@,
        ) == p.0 && pos <= q.1 <= b@.len() && b@.skip(q.1 as int) == p.1),
        parse_bounds(b@.skip(pos as int)) is None ==> r is None,
{
    let ghost s0 = b@.skip(pos as int);
    match read_u64(b, pos) {
        None => None,
        Some((n, p0)) => {
            let ghost items0 = b@.skip(p0 as int);
            let remaining: usize = b.len() - p0;
            if n > remaining as u64 {
                proof {
                    lemma_parse_bound_items_needs(items0, n as nat);
                }
                return None;
            }
            let count: usize = n as usize;
            let mut out: Vec<IndexScalar> = Vec::new();
            let mut cur: usize = p0;
            let mut i: usize = 0;
            proof {
                assert(view_bounds(out@) =~= Seq::<IndexScalarV>::empty());
                match parse_bound_items(items0, count as nat) {
                    Some(p) => {
                        assert(Seq::<IndexScalarV>::empty() + p.0 =~= p.0);
                    },
                    None => {},
                }
            }
            while i < count
                invariant
                    pos <= cur <= b@.len(),
                    0 <= i <= count,
                    out@.len() == i,
                    parse_bounds(b@.skip(pos as int)) == parse_bound_items(items0, count as nat),
                    match parse_bound_items(b@.skip(cur as int), (count - i) as nat) {
                        Some(p) => parse_bound_items(items0, count as nat) == Some(
                            (view_bounds(out@) + p.0, p.1),
                        ),
                        None => parse_bound_items(items0, count as nat) is None,
                    },
                decreases count - i,
            {
                match read_scalar(b, cur) {
                    None => {
                        return None;
                    },
                    Some((v, p2)) => {
                        proof {
                            match parse_scalar(b@.skip(cur as int)) {
                                Some(ps) => {
                                    match parse_bound_items(b@.skip(p2 as int), (count - i
                                        - 1) as nat) {
                                        Some(q) => {
                                            assert(view_bounds(out@.push(v)) =~= view_bounds(out@)
                                                + seq![v@]);
                                            assert(view_bounds(out@) + (seq![v@] + q.0)
                                                =~= view_bounds(out@.push(v)) + q.0);
                                        },
                                        None => {},
                                    }
                                },
                                None => {},
                            }
                        }
                        out.push(v);
                        cur = p2;
                        i += 1;
                    },
                }
            }
            proof {
                assert(parse_bound_items(b@.skip(cur as int), 0) == Some(
                    (Seq::<IndexScalarV>::empty(), b@.skip(cur as int)),
                ));
                assert(view_bounds(out@) + Seq::<IndexScalarV>::empty() =~= view_bounds(out@));
            }
            Some((out, cur))
        },
    }
}


/// Reads an optional scalar tuple at a cursor.
fn read_opt_bounds(b: &Vec<u8>, pos: usize) -> (r: Option<(Option<Vec<IndexScalar>>, usize)>)
    requires
        pos <= b@.len(),
    ensures
        parse_opt_bounds(b@.skip(pos as int)) matches Some(p) ==> (r matches Some(q) && (match q.0 {
            Some(vs) => p.0 == Some(view_bounds(vs@)),
            None => p.0 is None,
        }) && pos <= q.1 <= b@.len() && b@.skip(q.1 as int) == p.1),
        parse_opt_bounds(b@.skip(pos as int)) is None ==> r is None,
{
    if pos == b.len() {
        return None;
    }
    let t = b[pos];
    proof {
        assert(b@.skip(pos as int)[0] == b@[pos as int]);
        assert(b@.skip(pos as int).skip(1) =~= b@.skip(pos + 1));
    }
    if t == 0 {
        Some((None, pos + 1))
    } else if t == 1 {
        match read_bounds(b, pos + 1) {
            Some((vs, p)) => Some((Some(vs), p)),
            None => None,
        }
    } else {
        None
    }
}

/// Reads a column record at a cursor.
fn read_colstat(b: &Vec<u8>, pos: usize) -> (r: Option<(ColumnStatistics, usize)>)
    requires
        pos <= b@.len(),
    ensures
        parse_colstat(b@.skip(pos as int)) matches Some(p) ==> (r matches Some(q) && q.0@ == p.0
            && pos <= q.1 <= b@.len() && b@.skip(q.1 as int) == p.1),
        parse_colstat(b@.skip(pos as int)) is None ==> r is None,
{
    match read_scalar(b, pos) {
        None => None,
        Some((min, p1)) => match read_scalar(b, p1) {
            None => None,
            Some((max, p2)) => match read_u64(b, p2) {
                None => None,
                Some((null_count, p3)) => match read_u64(b, p3) {
                    None => None,
                    Some((in_memory_size, p4)) => match read_opt_u64(b, p4) {
                        None => None,
                        Some((distinct_of_values, p5)) => Some(
                            (
                                ColumnStatistics {
                                    min,
                                    max,
                                    null_count,
                                    in_memory_size,
                                    distinct_of_values,
                                },
                                p5,
                            ),
                        ),
                    },
                },
            },
        },
    }
}

/// Reads a cluster record at a cursor.
fn read_cluster(b: &Vec<u8>, pos: usize) -> (r: Option<(ClusterStatistics, usize)>)
    requires
        pos <= b@.len(),
    ensures
        parse_cluster(b@.skip(pos as int)) matches Some(p) ==> (r matches Some(q) && q.0@ == p.0
            && pos <= q.1 <= b@.len() && b@.skip(q.1 as int) == p.1),
        parse_cluster(b@.skip(pos as int)) is None ==> r is None,
{
    match read_u32(b, pos) {
        None => None,
        Some((cluster_key_id, p1)) => match read_bounds(b, p1) {
            None => None,
            Some((min, p2)) => match read_bounds(b, p2) {
                None => None,
                Some((max, p3)) => match read_i32(b, p3) {
                    None => None,
                    Some((level, p4)) => match read_opt_bounds(b, p4) {
                        None => None,
                        Some((pages, p5)) => Some(
                            (
                                ClusterStatistics { cluster_key_id, min, max, level, pages },
                                p5,
                            ),
                        ),
                    },
                },
            },
        },
    }
}

/// One parsed column entry strictly shrinks the input.
proof fn lemma_parse_col_entry_consumes(s: Seq<u8>)
    ensures
        parse_u32(s) matches Some(k) ==> k.1.len() < s.len(),
{
}

/// A mapping of n entries needs at least n bytes.
proof fn lemma_parse_col_items_needs(s: Seq<u8>, n: nat)
    ensures
        parse_col_items(s, n) matches Some(p) ==> n <= s.len(),
    decreases n,
{
    if n > 0 {
        match parse_u32(s) {
            Some(k) => {
                lemma_parse_col_entry_consumes(s);
                match parse_colstat(k.1) {
                    Some(c) => {
                        lemma_parse_col_items_needs(c.1, (n - 1) as nat);
                        lemma_parse_colstat_consumes(k.1);
                    },
                    None => {},
                }
            },
            None => {},
        }
    }
}

/// A parsed column record never grows the input.
proof fn lemma_parse_colstat_consumes(s: Seq<u8>)
    ensures
        parse_colstat(s) matches Some(p) ==> p.1.len() <= s.len(),
{
    match parse_scalar(s) {
        Some(a) => {
            lemma_parse_scalar_consumes(s);
            match parse_scalar(a.1) {
                Some(b2) => {
                    lemma_parse_scalar_consumes(a.1);
                },
                None => {},
            }
        },
        None => {},
    }
}

/// Deserializes a table statistics aggregate from its persisted image;
/// an image that does not parse, or leaves trailing bytes, is rejected.
#[verifier::rlimit(100)]
pub fn decode_statistics(b: &Vec<u8>) -> (r: Option<Statistics>)
    ensures
        decode_statistics_spec(b@) matches Some(v) ==> (r matches Some(s) && s@ == v),
        decode_statistics_spec(b@) is None ==> r is None,
{
    proof {
        assert(b@.skip(0) =~= b@);
    }
    match read_u64(b, 0) {
        None => None,
        Some((row_count, p1)) => match read_u64(b, p1) {
            None => None,
            Some((block_count, p2)) => match read_u64(b, p2) {
                None => None,
                Some((perfect_block_count, p3)) => match read_u64(b, p3) {
                    None => None,
                    Some((uncompressed_byte_size, p4)) => match read_u64(b, p4) {
                        None => None,
                        Some((compressed_byte_size, p5)) => match read_u64(b, p5) {
                            None => None,
                            Some((index_size, p6)) => match read_col_entries(b, p6) {
                                None => None,
                                Some((col_stats, p7)) => match read_opt_cluster(b, p7) {
                                    None => None,
                                    Some((cluster_stats, p8)) => {
                                        if p8 == b.len() {
                                            Some(
                                                Statistics {
                                                    row_count,
                                                    block_count,
                                                    perfect_block_count,
                                                    uncompressed_byte_size,
                                                    compressed_byte_size,
                                                    index_size,
                                                    col_stats,
                                                    cluster_stats,
                                                },
                                            )
                                        } else {
                                            None
                                        }
                                    },
                                },
                            },
                        },
                    },
                },
            },
        },
    }
}

/// Reads an optional cluster record at a cursor.
fn read_opt_cluster(b: &Vec<u8>, pos: usize) -> (r: Option<(Option<ClusterStatistics>, usize)>)
    requires
        pos <= b@.len(),
    ensures
        parse_opt_cluster(b@.skip(pos as int)) matches Some(p) ==> (r matches Some(q) && (match q.0 {
            Some(c) => p.0 == Some(c@),
            None => p.0 is None,
        }) && pos <= q.1 <= b@.len() && b@.skip(q.1 as int) == p.1),
        parse_opt_cluster(b@.skip(pos as int)) is None ==> r is None,
{
    if pos == b.len() {
        return None;
    }
    let t = b[pos];
    proof {
        assert(b@.skip(pos as int)[0] == b@[pos as int]);
        assert(b@.skip(pos as int).skip(1) =~= b@.skip(pos + 1));
    }
    if t == 0 {
        Some((None, pos + 1))
    } else if t == 1 {
        match read_cluster(b, pos + 1) {
            Some((c, p)) => Some((Some(c), p)),
            None => None,
        }
    } else {
        None
    }
}

/// Reads the length-prefixed per-column mapping at a cursor: the length
/// word, then that many key-and-record entries.
#[verifier::spinoff_prover]
#[verifier::rlimit(100)]
fn read_col_entries(b: &Vec<u8>, pos: usize) -> (r: Option<(Vec<(u32, ColumnStatistics)>, usize)>)
    requires
        pos <= b@.len(),
    ensures
        (match parse_u64(b@.skip(pos as int)) {
            Some(p) => parse_col_items(p.1, p.0 as nat),
            None => None,
        }) matches Some(p) ==> (r matches Some(q) && view_col_stats(q.0@) == p.0 && pos <= q.1
            <= b@.len() && b@.skip(q.1 as int) == p.1),
        (match parse_u64(b@.skip(pos as int)) {
            Some(p) => parse_col_items(p.1, p.0 as nat),
            None => None,
        }) is None ==> r is None,
{
    let ghost s0 = b@.skip(pos as int);
    match read_u64(b, pos) {
        None => None,
        Some((n, p0)) => {
            let ghost items0 = b@.skip(p0 as int);
            let remaining: usize = b.len() - p0;
            if n > remaining as u64 {
                proof {
                    lemma_parse_col_items_needs(items0, n as nat);
                }
                return None;
            }
            let count: usize = n as usize;
            let mut out: Vec<(u32, ColumnStatistics)> = Vec::new();
            let mut cur: usize = p0;
            let mut i: usize = 0;
            proof {
                assert(view_col_stats(out@) =~= Seq::<(u32, ColumnStatisticsV)>::empty());
                match parse_col_items(items0, count as nat) {
                    Some(p) => {
                        assert(Seq::<(u32, ColumnStatisticsV)>::empty() + p.0 =~= p.0);
                    },
                    None => {},
                }
            }
            while i < count
                invariant
                    pos <= cur <= b@.len(),
                    0 <= i <= count,
                    out@.len() == i,
                    (match parse_u64(b@.skip(pos as int)) {
                        Some(p) => parse_col_items(p.1, p.0 as nat),
                        None => None,
                    }) == parse_col_items(items0, count as nat),
                    match parse_col_items(b@.skip(cur as int), (count - i) as nat) {
                        Some(p) => parse_col_items(items0, count as nat) == Some(
                            (view_col_stats(out@) + p.0, p.1),
                        ),
                        None => parse_col_items(items0, count as nat) is None,
                    },
                decreases count - i,
            {
                match read_u32(b, cur) {
                    None => {
                        return None;
                    },
                    Some((key, pk)) => match read_colstat(b, pk) {
                        None => {
                            return None;
                        },
                        Some((cs, p2)) => {
                            proof {
                                match parse_u32(b@.skip(cur as int)) {
                                    Some(ku) => match parse_colstat(b@.skip(pk as int)) {
                                        Some(cv) => match parse_col_items(
                                            b@.skip(p2 as int),
                                            (count - i - 1) as nat,
                                        ) {
                                            Some(q) => {
                                                assert(view_col_stats(out@.push((key, cs)))
                                                    =~= view_col_stats(out@) + seq![(key, cs@)]);
                                                assert(view_col_stats(out@) + (seq![(key, cs@)]
                                                    + q.0) =~= view_col_stats(out@.push((key, cs)))
                                                    + q.0);
                                            },
                                            None => {},
                                        },
                                        None => {},
                                    },
                                    None => {},
                                }
                            }
                            out.push((key, cs));
                            cur = p2;
                            i += 1;
                        },
                    },
                }
            }
            proof {
                assert(parse_col_items(b@.skip(cur as int), 0) == Some(
                    (Seq::<(u32, ColumnStatisticsV)>::empty(), b@.skip(cur as int)),
                ));
                assert(view_col_stats(out@) + Seq::<(u32, ColumnStatisticsV)>::empty()
                    =~= view_col_stats(out@));
            }
            Some((out, cur))
        },
    }
}

} // verus!
