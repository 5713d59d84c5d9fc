//! The closed registry of value kinds.
//!
//! Every field of a record holds a value of exactly one of these kinds.
//! Each kind has a fixed byte size, a fixed alignment, and a classification:
//! *trivial* kinds are flat bit patterns that can be copied byte for byte,
//! while *managed* kinds own host-side resources and are stored in the record
//! bytes as a handle into a side pool (see `pool`).

use vstd::prelude::*;

verus! {

/// Tag for one of the supported dynamic value shapes. The set is closed:
/// every consumer matches it exhaustively.
#[derive(Clone, Copy, Debug, PartialEq, Eq, Structural)]
pub enum ValueKind {
    Nil,
    Bool,
    Int,
    Float,
    GString,
    Vector2,
    Vector2i,
    Rect2,
    Rect2i,
    Vector3,
    Vector3i,
    Transform2D,
    Vector4,
    Vector4i,
    Plane,
    Quaternion,
    Aabb,
    Basis,
    Transform3D,
    Projection,
    Color,
    StringName,
    NodePath,
    Rid,
    Object,
    Callable,
    Signal,
    Dictionary,
    VariantArray,
    PackedByteArray,
    PackedInt32Array,
    PackedInt64Array,
    PackedFloat32Array,
    PackedFloat64Array,
    PackedStringArray,
    PackedVector2Array,
    PackedVector3Array,
    PackedColorArray,
}

/// A composite kind is a trivial geometric or math aggregate stored as a
/// fixed number of 32-bit words (each word the bit pattern of one component).
pub open spec fn is_composite(k: ValueKind) -> bool {
    composite_words(k) > 0
}

/// Number of 32-bit component words of a composite kind; 0 for all others.
pub open spec fn composite_words(k: ValueKind) -> nat {
    match k {
        ValueKind::Vector2 => 2,
        ValueKind::Vector2i => 2,
        ValueKind::Rect2 => 4,
        ValueKind::Rect2i => 4,
        ValueKind::Vector3 => 3,
        ValueKind::Vector3i => 3,
        ValueKind::Transform2D => 6,
        ValueKind::Vector4 => 4,
        ValueKind::Vector4i => 4,
        ValueKind::Plane => 4,
        ValueKind::Quaternion => 4,
        ValueKind::Aabb => 6,
        ValueKind::Basis => 9,
        ValueKind::Transform3D => 12,
        ValueKind::Projection => 16,
        ValueKind::Color => 4,
        _ => 0,
    }
}

/// A managed kind owns host-side resources (string storage, array storage,
/// callables, object references). Writing over a managed field must first
/// release the previous value; the record bytes hold only a pool handle.
pub open spec fn is_managed(k: ValueKind) -> bool {
    match k {
        ValueKind::GString => true,
        ValueKind::StringName => true,
        ValueKind::NodePath => true,
        ValueKind::Object => true,
        ValueKind::Callable => true,
        ValueKind::Signal => true,
        ValueKind::Dictionary => true,
        ValueKind::VariantArray => true,
        ValueKind::PackedByteArray => true,
        ValueKind::PackedInt32Array => true,
        ValueKind::PackedInt64Array => true,
        ValueKind::PackedFloat32Array => true,
        ValueKind::PackedFloat64Array => true,
        ValueKind::PackedStringArray => true,
        ValueKind::PackedVector2Array => true,
        ValueKind::PackedVector3Array => true,
        ValueKind::PackedColorArray => true,
        _ => false,
    }
}

/// Managed kinds whose model is an opaque content string of bytes; every
/// managed kind but `Object`, whose model is an optional instance identifier.
pub open spec fn is_content_kind(k: ValueKind) -> bool {
    is_managed(k) && k != ValueKind::Object
}

/// Byte size of one value of kind `k` inside a record's byte region.
pub open spec fn size_of_kind(k: ValueKind) -> nat {
    match k {
        ValueKind::Nil => 0,
        ValueKind::Bool => 1,
        ValueKind::Int => 4,
        ValueKind::Float => 4,
        ValueKind::Rid => 8,
        _ => if is_managed(k) {
            8
        } else {
            4 * composite_words(k)
        },
    }
}

/// Required alignment of the start of a value of kind `k`.
pub open spec fn align_of_kind(k: ValueKind) -> nat {
    match k {
        ValueKind::Nil => 1,
        ValueKind::Bool => 1,
        ValueKind::Int => 4,
        ValueKind::Float => 4,
        ValueKind::Rid => 8,
        _ => if is_managed(k) {
            8
        } else {
            4
        },
    }
}

/// Every kind's size and alignment are small and its alignment is positive.
pub proof fn lemma_kind_bounds(k: ValueKind)
    ensures
        size_of_kind(k) <= 64,
        1 <= align_of_kind(k) <= 8,
{
}

pub fn kind_size(k: ValueKind) -> (n: usize)
    ensures
        n == size_of_kind(k),
{
    match k {
        ValueKind::Nil => 0,
        ValueKind::Bool => 1,
        ValueKind::Int => 4,
        ValueKind::Float => 4,
        ValueKind::Rid => 8,
        _ => if kind_is_managed(k) {
            8
        } else {
            4 * kind_word_count(k)
        },
    }
}

pub fn kind_align(k: ValueKind) -> (n: usize)
    ensures
        n == align_of_kind(k),
{
    match k {
        ValueKind::Nil => 1,
        ValueKind::Bool => 1,
        ValueKind::Int => 4,
        ValueKind::Float => 4,
        ValueKind::Rid => 8,
        _ => if kind_is_managed(k) {
            8
        } else {
            4
        },
    }
}

pub fn kind_is_managed(k: ValueKind) -> (b: bool)
    ensures
        b == is_managed(k),
{
    match k {
        ValueKind::GString => true,
        ValueKind::StringName => true,
        ValueKind::NodePath => true,
        ValueKind::Object => true,
        ValueKind::Callable => true,
        ValueKind::Signal => true,
        ValueKind::Dictionary => true,
        ValueKind::VariantArray => true,
        ValueKind::PackedByteArray => true,
        ValueKind::PackedInt32Array => true,
        ValueKind::PackedInt64Array => true,
        ValueKind::PackedFloat32Array => true,
        ValueKind::PackedFloat64Array => true,
        ValueKind::PackedStringArray => true,
        ValueKind::PackedVector2Array => true,
        ValueKind::PackedVector3Array => true,
        ValueKind::PackedColorArray => true,
        _ => false,
    }
}

pub fn kind_word_count(k: ValueKind) -> (n: usize)
    ensures
        n == composite_words(k),
{
    match k {
        ValueKind::Vector2 => 2,
        ValueKind::Vector2i => 2,
        ValueKind::Rect2 => 4,
        ValueKind::Rect2i => 4,
        ValueKind::Vector3 => 3,
        ValueKind::Vector3i => 3,
        ValueKind::Transform2D => 6,
        ValueKind::Vector4 => 4,
        ValueKind::Vector4i => 4,
        ValueKind::Plane => 4,
        ValueKind::Quaternion => 4,
        ValueKind::Aabb => 6,
        ValueKind::Basis => 9,
        ValueKind::Transform3D => 12,
        ValueKind::Projection => 16,
        ValueKind::Color => 4,
        _ => 0,
    }
}

} // verus!
