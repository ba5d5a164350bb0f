//! Typed scalar values, their index-friendly encodings, and the column type
//! declarations that decide which values can serve as statistics bounds.

use vstd::prelude::*;

verus! {

/// The class of a column's declared type, with nullability stripped.
#[derive(Clone, Copy, PartialEq, Eq, Structural, Debug)]
pub enum TypeKind {
    Number,
    Float,
    Date,
    Timestamp,
    String,
    Decimal,
    Boolean,
    Variant,
    Array,
}

/// A column's declared type: a class plus a nullability flag.
#[derive(Clone, Copy, PartialEq, Eq, Structural, Debug)]
pub struct DataType {
    pub nullable: bool,
    pub kind: TypeKind,
}

impl DataType {
    /// Whether values of this type can serve as index-friendly statistics
    /// bounds: numeric, date, timestamp, string and decimal classes can,
    /// independent of nullability.
    pub open spec fn is_bound_comparable(self) -> bool {
        self.kind == TypeKind::Number || self.kind == TypeKind::Date
            || self.kind == TypeKind::Timestamp || self.kind == TypeKind::String
            || self.kind == TypeKind::Decimal
    }

    /// The same type with nullability stripped.
    pub fn remove_nullable(&self) -> (r: DataType)
        ensures
            r.kind == self.kind,
            !r.nullable,
    {
        DataType { nullable: false, kind: self.kind }
    }

    /// Executable test for [`Self::is_bound_comparable`].
    pub fn supports_bounds(&self) -> (r: bool)
        ensures
            r == self.is_bound_comparable(),
    {
        match self.kind {
            TypeKind::Number => true,
            TypeKind::Date => true,
            TypeKind::Timestamp => true,
            TypeKind::String => true,
            TypeKind::Decimal => true,
            _ => false,
        }
    }
}

/// A fully typed scalar value.
#[derive(Clone, PartialEq, Eq, Debug)]
pub enum Scalar {
    Null,
    Boolean(bool),
    Number(i64),
    Date(i32),
    Timestamp(i64),
    String(Vec<u8>),
    Decimal { value: i64, scale: u32 },
}

/// The index-friendly scalar encoding used inside persisted statistics:
/// exactly the bound-comparable classes, one compact variant per class.
#[derive(Clone, PartialEq, Eq, Debug)]
pub enum IndexScalar {
    Number(i64),
    Date(i32),
    Timestamp(i64),
    String(Vec<u8>),
    Decimal { value: i64, scale: u32 },
}

impl Scalar {
    /// Whether this value belongs to a bound-comparable class and can be
    /// stored as an [`IndexScalar`].
    pub open spec fn is_indexable(self) -> bool {
        match self {
            Scalar::Null => false,
            Scalar::Boolean(_) => false,
            _ => true,
        }
    }

    /// The index encoding of an indexable scalar.
    pub open spec fn to_index_spec(self) -> IndexScalar
        recommends
            self.is_indexable(),
    {
        match self {
            Scalar::Number(v) => IndexScalar::Number(v),
            Scalar::Date(v) => IndexScalar::Date(v),
            Scalar::Timestamp(v) => IndexScalar::Timestamp(v),
            Scalar::String(b) => IndexScalar::String(b),
            Scalar::Decimal { value, scale } => IndexScalar::Decimal { value, scale },
            _ => IndexScalar::Number(0),
        }
    }

    /// Converts into the index encoding; `None` for values outside the
    /// bound-comparable classes.
    pub fn into_index(self) -> (r: Option<IndexScalar>)
        ensures
            r is Some <==> self.is_indexable(),
            self.is_indexable() ==> r == Some(self.to_index_spec()),
    {
        match self {
            Scalar::Number(v) => Some(IndexScalar::Number(v)),
            Scalar::Date(v) => Some(IndexScalar::Date(v)),
            Scalar::Timestamp(v) => Some(IndexScalar::Timestamp(v)),
            Scalar::String(b) => Some(IndexScalar::String(b)),
            Scalar::Decimal { value, scale } => Some(IndexScalar::Decimal { value, scale }),
            Scalar::Null => None,
            Scalar::Boolean(_) => None,
        }
    }
}

impl IndexScalar {
    /// The fully typed scalar an index encoding stands for.
    pub open spec fn to_scalar_spec(self) -> Scalar {
        match self {
            IndexScalar::Number(v) => Scalar::Number(v),
            IndexScalar::Date(v) => Scalar::Date(v),
            IndexScalar::Timestamp(v) => Scalar::Timestamp(v),
            IndexScalar::String(b) => Scalar::String(b),
            IndexScalar::Decimal { value, scale } => Scalar::Decimal { value, scale },
        }
    }

    /// Converts back into the fully typed scalar.
    pub fn into_scalar(self) -> (r: Scalar)
        ensures
            r == self.to_scalar_spec(),
            r.is_indexable(),
            r.to_index_spec() == self,
    {
        match self {
            IndexScalar::Number(v) => Scalar::Number(v),
            IndexScalar::Date(v) => Scalar::Date(v),
            IndexScalar::Timestamp(v) => Scalar::Timestamp(v),
            IndexScalar::String(b) => Scalar::String(b),
            IndexScalar::Decimal { value, scale } => Scalar::Decimal { value, scale },
        }
    }
}

/// Structural equality of two index scalars: same class, equal payloads
/// (byte strings compared element-wise).
pub open spec fn index_eq(a: IndexScalar, b: IndexScalar) -> bool {
    match (a, b) {
        (IndexScalar::Number(x), IndexScalar::Number(y)) => x == y,
        (IndexScalar::Date(x), IndexScalar::Date(y)) => x == y,
        (IndexScalar::Timestamp(x), IndexScalar::Timestamp(y)) => x == y,
        (IndexScalar::String(x), IndexScalar::String(y)) => x@ == y@,
        (
            IndexScalar::Decimal { value: v1, scale: s1 },
            IndexScalar::Decimal { value: v2, scale: s2 },
        ) => v1 == v2 && s1 == s2,
        _ => false,
    }
}

/// Whether two index scalars belong to the same bound class and are thus
/// order-comparable (decimals additionally need one scale).
pub open spec fn same_class(a: IndexScalar, b: IndexScalar) -> bool {
    match (a, b) {
        (IndexScalar::Number(_), IndexScalar::Number(_)) => true,
        (IndexScalar::Date(_), IndexScalar::Date(_)) => true,
        (IndexScalar::Timestamp(_), IndexScalar::Timestamp(_)) => true,
        (IndexScalar::String(_), IndexScalar::String(_)) => true,
        (
            IndexScalar::Decimal { value: _, scale: s1 },
            IndexScalar::Decimal { value: _, scale: s2 },
        ) => s1 == s2,
        _ => false,
    }
}

/// Lexicographic order on byte strings, a prefix ordering before its
/// extensions.
pub open spec fn bytes_le_spec(a: Seq<u8>, b: Seq<u8>) -> bool
    decreases a.len(),
{
    if a.len() == 0 {
        true
    } else if b.len() == 0 {
        false
    } else if a[0] < b[0] {
        true
    } else if a[0] > b[0] {
        false
    } else {
        bytes_le_spec(a.skip(1), b.skip(1))
    }
}

/// The order used to aggregate statistics bounds, defined within one bound
/// class: numeric, date, timestamp and decimal by value, strings
/// lexicographically.
pub open spec fn index_le_spec(a: IndexScalar, b: IndexScalar) -> bool
    recommends
        same_class(a, b),
{
    match (a, b) {
        (IndexScalar::Number(x), IndexScalar::Number(y)) => x <= y,
        (IndexScalar::Date(x), IndexScalar::Date(y)) => x <= y,
        (IndexScalar::Timestamp(x), IndexScalar::Timestamp(y)) => x <= y,
        (IndexScalar::String(x), IndexScalar::String(y)) => bytes_le_spec(x@, y@),
        (
            IndexScalar::Decimal { value: v1, scale: _ },
            IndexScalar::Decimal { value: v2, scale: _ },
        ) => v1 <= v2,
        _ => true,
    }
}

/// Element-wise equality of two byte strings.
pub fn bytes_eq(a: &Vec<u8>, b: &Vec<u8>) -> (r: bool)
    ensures
        r == (a@ == b@),
{
    if a.len() != b.len() {
        assert(a@ != b@);
        return false;
    }
    let n: usize = a.len();
    let mut i: usize = 0;
    while i < n
        invariant
            n == a.len() == b.len(),
            0 <= i <= n,
            forall|j: int| 0 <= j < i ==> a@[j] == b@[j],
        decreases n - i,
    {
        if a[i] != b[i] {
            return false;
        }
        i += 1;
    }
    proof {
        assert(a@ =~= b@);
    }
    true
}

/// Lexicographic comparison of two byte strings.
pub fn bytes_le(a: &Vec<u8>, b: &Vec<u8>) -> (r: bool)
    ensures
        r == bytes_le_spec(a@, b@),
{
    let mut i: usize = 0;
    proof {
        assert(a@.skip(0) =~= a@);
        assert(b@.skip(0) =~= b@);
    }
    loop
        invariant
            0 <= i <= a.len(),
            i <= b.len(),
            bytes_le_spec(a@, b@) == bytes_le_spec(a@.skip(i as int), b@.skip(i as int)),
        decreases a.len() - i,
    {
        if i == a.len() {
            assert(a@.skip(i as int).len() == 0);
            return true;
        }
        if i == b.len() {
            assert(b@.skip(i as int).len() == 0);
            assert(a@.skip(i as int).len() > 0);
            return false;
        }
        let x = a[i];
        let y = b[i];
        assert(a@.skip(i as int)[0] == a@[i as int]);
        assert(b@.skip(i as int)[0] == b@[i as int]);
        if x < y {
            return true;
        }
        if x > y {
            return false;
        }
        proof {
            assert(a@.skip(i as int).skip(1) =~= a@.skip(i + 1));
            assert(b@.skip(i as int).skip(1) =~= b@.skip(i + 1));
        }
        i += 1;
    }
}

impl IndexScalar {
    /// Executable test for [`index_eq`].
    pub fn equal_to(&self, other: &IndexScalar) -> (r: bool)
        ensures
            r == index_eq(*self, *other),
    {
        match (self, other) {
            (IndexScalar::Number(x), IndexScalar::Number(y)) => x == y,
            (IndexScalar::Date(x), IndexScalar::Date(y)) => x == y,
            (IndexScalar::Timestamp(x), IndexScalar::Timestamp(y)) => x == y,
            (IndexScalar::String(x), IndexScalar::String(y)) => bytes_eq(x, y),
            (
                IndexScalar::Decimal { value: v1, scale: s1 },
                IndexScalar::Decimal { value: v2, scale: s2 },
            ) => v1 == v2 && s1 == s2,
            _ => false,
        }
    }

    /// Executable test for [`same_class`].
    pub fn comparable_with(&self, other: &IndexScalar) -> (r: bool)
        ensures
            r == same_class(*self, *other),
    {
        match (self, other) {
            (IndexScalar::Number(_), IndexScalar::Number(_)) => true,
            (IndexScalar::Date(_), IndexScalar::Date(_)) => true,
            (IndexScalar::Timestamp(_), IndexScalar::Timestamp(_)) => true,
            (IndexScalar::String(_), IndexScalar::String(_)) => true,
            (
                IndexScalar::Decimal { value: _, scale: s1 },
                IndexScalar::Decimal { value: _, scale: s2 },
            ) => s1 == s2,
            _ => false,
        }
    }

    /// Executable comparison for [`index_le_spec`].
    pub fn le(&self, other: &IndexScalar) -> (r: bool)
        requires
            same_class(*self, *other),
        ensures
            r == index_le_spec(*self, *other),
    {
        match (self, other) {
            (IndexScalar::Number(x), IndexScalar::Number(y)) => x <= y,
            (IndexScalar::Date(x), IndexScalar::Date(y)) => x <= y,
            (IndexScalar::Timestamp(x), IndexScalar::Timestamp(y)) => x <= y,
            (IndexScalar::String(x), IndexScalar::String(y)) => bytes_le(x, y),
            (
                IndexScalar::Decimal { value: v1, scale: _ },
                IndexScalar::Decimal { value: v2, scale: _ },
            ) => v1 <= v2,
            _ => true,
        }
    }
}

/// Whether two typed scalars are order-comparable: both indexable and of
/// one bound class.
pub open spec fn comparable_scalars(a: Scalar, b: Scalar) -> bool {
    a.is_indexable() && b.is_indexable() && same_class(a.to_index_spec(), b.to_index_spec())
}

/// Compares two typed scalars; `None` when they are not order-comparable.
pub fn scalar_le(a: &Scalar, b: &Scalar) -> (r: Option<bool>)
    ensures
        r is Some <==> comparable_scalars(*a, *b),
        r matches Some(v) ==> v == index_le_spec(a.to_index_spec(), b.to_index_spec()),
{
    match (a, b) {
        (Scalar::Number(x), Scalar::Number(y)) => Some(x <= y),
        (Scalar::Date(x), Scalar::Date(y)) => Some(x <= y),
        (Scalar::Timestamp(x), Scalar::Timestamp(y)) => Some(x <= y),
        (Scalar::String(x), Scalar::String(y)) => Some(bytes_le(x, y)),
        (
            Scalar::Decimal { value: v1, scale: s1 },
            Scalar::Decimal { value: v2, scale: s2 },
        ) => if s1 == s2 {
            Some(v1 <= v2)
        } else {
            None
        },
        _ => None,
    }
}

/// The mathematical value of an index scalar.
pub enum IndexScalarV {
    Number(i64),
    Date(i32),
    Timestamp(i64),
    String(Seq<u8>),
    Decimal { value: i64, scale: u32 },
}

impl View for IndexScalar {
    type V = IndexScalarV;

    open spec fn view(&self) -> IndexScalarV {
        match self {
            IndexScalar::Number(v) => IndexScalarV::Number(*v),
            IndexScalar::Date(v) => IndexScalarV::Date(*v),
            IndexScalar::Timestamp(v) => IndexScalarV::Timestamp(*v),
            IndexScalar::String(b) => IndexScalarV::String(b@),
            IndexScalar::Decimal { value, scale } => IndexScalarV::Decimal {
                value: *value,
                scale: *scale,
            },
        }
    }
}

/// Whether a type is of a numeric class — an integer or floating column —
/// the inputs arithmetic scalar functions accept.
pub open spec fn is_numeric_kind(kind: TypeKind) -> bool {
    kind == TypeKind::Number || kind == TypeKind::Float
}

/// The type rule of the exponential scalar function: defined whenever the
/// first argument is of a numeric class — floats included, its own result
/// among them — yielding a floating-point column and ignoring any further
/// arguments; a fault when the first argument is missing or not numeric.
pub fn exp_return_type(args: &Vec<DataType>) -> (r: Result<DataType, crate::PlanError>)
    ensures
        r is Ok <==> (args@.len() >= 1 && is_numeric_kind(args@[0].kind)),
        r matches Ok(t) ==> t.kind == TypeKind::Float && !t.nullable,
        r matches Err(e) ==> e == crate::PlanError::Unsupported,
{
    if args.len() >= 1 {
        match args[0].kind {
            TypeKind::Number => Ok(DataType { nullable: false, kind: TypeKind::Float }),
            TypeKind::Float => Ok(DataType { nullable: false, kind: TypeKind::Float }),
            _ => Err(crate::PlanError::Unsupported),
        }
    } else {
        Err(crate::PlanError::Unsupported)
    }
}

} // verus!
