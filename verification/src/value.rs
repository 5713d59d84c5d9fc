//! The generic tagged value exchanged with the front-end.
//!
//! Trivial kinds carry their bit patterns directly (floating-point components
//! as the 32-bit patterns of their bits); composite kinds carry one 32-bit
//! word per component. Managed kinds carry their content as plain bytes — the
//! model of whatever host resource the concrete kind owns — and object
//! references carry an optional instance identifier, `None` standing for a
//! null reference.

use vstd::prelude::*;

use crate::kinds::ValueKind;
use crate::kinds::composite_words;
use crate::kinds::is_composite;
use crate::kinds::is_content_kind;
use crate::kinds::kind_is_managed;
use crate::kinds::kind_word_count;

verus! {

/// A dynamically typed value, tagged with its concrete kind.
#[derive(Debug, PartialEq)]
pub enum Value {
    /// The empty value; also the permitted "no value" write to object fields.
    Nil,
    Bool(bool),
    Int(i32),
    /// Bit pattern of a 32-bit floating-point number.
    Float(u32),
    /// Opaque resource identifier.
    Rid(u64),
    /// A trivial aggregate of `composite_words(kind)` component words.
    Composite(ValueKind, Vec<u32>),
    /// An object reference; `None` is the null reference.
    ObjectRef(Option<u64>),
    /// A managed value of a content kind, modelled by its content bytes.
    Managed(ValueKind, Vec<u8>),
}

/// Mathematical model of a `Value`.
pub enum ValueModel {
    Nil,
    Bool(bool),
    Int(i32),
    Float(u32),
    Rid(u64),
    Composite(ValueKind, Seq<u32>),
    ObjectRef(Option<u64>),
    Managed(ValueKind, Seq<u8>),
}

impl View for Value {
    type V = ValueModel;

    open spec fn view(&self) -> ValueModel {
        match self {
            Value::Nil => ValueModel::Nil,
            Value::Bool(b) => ValueModel::Bool(*b),
            Value::Int(i) => ValueModel::Int(*i),
            Value::Float(w) => ValueModel::Float(*w),
            Value::Rid(r) => ValueModel::Rid(*r),
            Value::Composite(k, ws) => ValueModel::Composite(*k, ws@),
            Value::ObjectRef(o) => ValueModel::ObjectRef(*o),
            Value::Managed(k, bs) => ValueModel::Managed(*k, bs@),
        }
    }
}

/// The runtime kind a value is tagged with.
pub open spec fn kind_of(v: ValueModel) -> ValueKind {
    match v {
        ValueModel::Nil => ValueKind::Nil,
        ValueModel::Bool(_) => ValueKind::Bool,
        ValueModel::Int(_) => ValueKind::Int,
        ValueModel::Float(_) => ValueKind::Float,
        ValueModel::Rid(_) => ValueKind::Rid,
        ValueModel::Composite(k, _) => k,
        ValueModel::ObjectRef(_) => ValueKind::Object,
        ValueModel::Managed(k, _) => k,
    }
}

/// A value is well formed when its payload shape agrees with its tag.
pub open spec fn valid_value(v: ValueModel) -> bool {
    match v {
        ValueModel::Composite(k, ws) => is_composite(k) && ws.len() == composite_words(k),
        ValueModel::Managed(k, _) => is_content_kind(k),
        _ => true,
    }
}

/// Whether a value may be written into a field declared with kind `k`:
/// the kinds must agree, except that an object field accepts the explicit
/// null value.
pub open spec fn kind_matches(k: ValueKind, v: ValueModel) -> bool {
    kind_of(v) == k || (k == ValueKind::Object && v == ValueModel::Nil)
}

/// Bit pattern of the 32-bit floating-point value one, the unit component
/// of the identity transforms.
pub const ONE_BITS: u32 = 0x3F800000;

/// Whether component `i` of the default value of composite kind `k` is the
/// unit component: the transform-like kinds default to the identity
/// transform (ones on the diagonal, and the quaternion's scalar part), all
/// other composite kinds to zeroed components.
pub open spec fn is_identity_component(k: ValueKind, i: int) -> bool {
    match k {
        ValueKind::Transform2D => i == 0 || i == 3,
        ValueKind::Basis => i == 0 || i == 4 || i == 8,
        ValueKind::Transform3D => i == 0 || i == 4 || i == 8,
        ValueKind::Projection => i == 0 || i == 5 || i == 10 || i == 15,
        ValueKind::Quaternion => i == 3,
        _ => false,
    }
}

/// The component words of the default value of composite kind `k`.
pub open spec fn default_words(k: ValueKind) -> Seq<u32> {
    Seq::new(
        composite_words(k),
        |i: int|
            if is_identity_component(k, i) {
                ONE_BITS
            } else {
                0u32
            },
    )
}

/// The canonical default value of kind `k`: `false`, zero, zero vectors and
/// rectangles, the identity for the transform-like kinds, empty content,
/// the null object reference.
pub open spec fn default_model(k: ValueKind) -> ValueModel {
    if is_composite(k) {
        ValueModel::Composite(k, default_words(k))
    } else if k == ValueKind::Object {
        ValueModel::ObjectRef(None)
    } else if is_content_kind(k) {
        ValueModel::Managed(k, Seq::empty())
    } else {
        match k {
            ValueKind::Nil => ValueModel::Nil,
            ValueKind::Bool => ValueModel::Bool(false),
            ValueKind::Int => ValueModel::Int(0),
            ValueKind::Float => ValueModel::Float(0),
            _ => ValueModel::Rid(0),
        }
    }
}

/// The default value is always well formed and tagged with its own kind.
pub proof fn lemma_default_valid(k: ValueKind)
    ensures
        valid_value(default_model(k)),
        kind_of(default_model(k)) == k,
{
}

impl Value {
    /// The runtime kind tag of this value.
    pub fn kind(&self) -> (k: ValueKind)
        ensures
            k == kind_of(self@),
    {
        match self {
            Value::Nil => ValueKind::Nil,
            Value::Bool(_) => ValueKind::Bool,
            Value::Int(_) => ValueKind::Int,
            Value::Float(_) => ValueKind::Float,
            Value::Rid(_) => ValueKind::Rid,
            Value::Composite(k, _) => *k,
            Value::ObjectRef(_) => ValueKind::Object,
            Value::Managed(k, _) => *k,
        }
    }

    /// An independent copy with the same model.
    pub fn duplicate(&self) -> (r: Value)
        ensures
            r@ == self@,
    {
        match self {
            Value::Nil => Value::Nil,
            Value::Bool(b) => Value::Bool(*b),
            Value::Int(i) => Value::Int(*i),
            Value::Float(w) => Value::Float(*w),
            Value::Rid(r) => Value::Rid(*r),
            Value::Composite(k, ws) => {
                let copy = clone_words(ws);
                Value::Composite(*k, copy)
            },
            Value::ObjectRef(o) => Value::ObjectRef(*o),
            Value::Managed(k, bs) => {
                let copy = clone_bytes(bs);
                Value::Managed(*k, copy)
            },
        }
    }

    /// The canonical default value of kind `k`.
    pub fn default_of_kind(k: ValueKind) -> (r: Value)
        ensures
            r@ == default_model(k),
    {
        if kind_is_managed(k) {
            if let ValueKind::Object = k {
                Value::ObjectRef(None)
            } else {
                Value::Managed(k, Vec::new())
            }
        } else {
            let words = kind_word_count(k);
            if words > 0 {
                Value::Composite(k, default_component_words(k))
            } else {
                match k {
                    ValueKind::Nil => Value::Nil,
                    ValueKind::Bool => Value::Bool(false),
                    ValueKind::Int => Value::Int(0),
                    ValueKind::Float => Value::Float(0),
                    _ => Value::Rid(0),
                }
            }
        }
    }
}

fn clone_words(ws: &Vec<u32>) -> (r: Vec<u32>)
    ensures
        r@ == ws@,
{
    let mut out: Vec<u32> = Vec::new();
    let mut i: usize = 0;
    while i < ws.len()
        invariant
            i <= ws.len(),
            out@ == ws@.take(i as int),
        decreases ws.len() - i,
    {
        out.push(ws[i]);
        i = i + 1;
        proof {
            assert(out@ =~= ws@.take(i as int));
        }
    }
    proof {
        assert(out@ =~= ws@);
    }
    out
}

fn clone_bytes(bs: &Vec<u8>) -> (r: Vec<u8>)
    ensures
        r@ == bs@,
{
    let mut out: Vec<u8> = Vec::new();
    let mut i: usize = 0;
    while i < bs.len()
        invariant
            i <= bs.len(),
            out@ == bs@.take(i as int),
        decreases bs.len() - i,
    {
        out.push(bs[i]);
        i = i + 1;
        proof {
            assert(out@ =~= bs@.take(i as int));
        }
    }
    proof {
        assert(out@ =~= bs@);
    }
    out
}

/// Whether component `i` of composite kind `k`'s default is the unit
/// component.
fn exec_is_identity_component(k: ValueKind, i: usize) -> (b: bool)
    ensures
        b == is_identity_component(k, i as int),
{
    match k {
        ValueKind::Transform2D => i == 0 || i == 3,
        ValueKind::Basis => i == 0 || i == 4 || i == 8,
        ValueKind::Transform3D => i == 0 || i == 4 || i == 8,
        ValueKind::Projection => i == 0 || i == 5 || i == 10 || i == 15,
        ValueKind::Quaternion => i == 3,
        _ => false,
    }
}

/// The component words of composite kind `k`'s default value.
fn default_component_words(k: ValueKind) -> (r: Vec<u32>)
    ensures
        r@ == default_words(k),
{
    let n = kind_word_count(k);
    let mut out: Vec<u32> = Vec::new();
    let mut i: usize = 0;
    while i < n
        invariant
            n == composite_words(k),
            i <= n,
            out@ == default_words(k).take(i as int),
        decreases n - i,
    {
        let w: u32 = if exec_is_identity_component(k, i) {
            ONE_BITS
        } else {
            0
        };
        out.push(w);
        i = i + 1;
        proof {
            assert(out@ =~= default_words(k).take(i as int));
        }
    }
    proof {
        assert(out@ =~= default_words(k));
    }
    out
}

} // verus!
