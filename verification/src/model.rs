//! The mathematical model of one record instance.
//!
//! A record is a byte region laid out by its descriptor together with the
//! managed pool its handles point into. `record_wf` is the invariant every
//! operation preserves: each trivial field holds canonical bytes of its
//! kind, each managed field holds a live handle of a matching value, and no
//! two managed fields share a handle (so releasing one cannot disturb
//! another).

use vstd::prelude::*;
use vstd::bytes::lemma_auto_spec_u64_to_from_le_bytes;
use vstd::bytes::spec_u64_from_le_bytes;
use vstd::bytes::spec_u64_to_le_bytes;

use crate::codec::dec_trivial;
use crate::codec::enc_value;
use crate::codec::lemma_splice_bytes;
use crate::codec::lemma_trivial_round_trip;
use crate::codec::splice_bytes;
use crate::kinds::ValueKind;
use crate::kinds::is_managed;
use crate::kinds::size_of_kind;
use crate::layout::FieldDescriptor;
use crate::layout::RecordTypeDescriptor;
use crate::layout::desc_wf;
use crate::layout::lemma_desc_ranges;
use crate::layout::spec_lookup;
use crate::pool::slot_value;
use crate::value::Value;
use crate::value::ValueModel;
use crate::value::default_model;
use crate::value::kind_matches;
use crate::value::kind_of;
use crate::value::valid_value;

verus! {

/// How a field access can fail; surfaced to the front-end, never fatal.
#[derive(Clone, Copy, Debug, PartialEq, Eq, Structural)]
pub enum AccessError {
    /// The record type has no field of the given name.
    NoSuchField,
    /// The value's runtime kind does not match the field's declared kind
    /// (and is not the permitted null write to an object field).
    TypeMismatch,
    /// Whole-record copy between accessors of different record types.
    TypeIdentityMismatch,
}

/// The bytes of field `f` inside the record region.
pub open spec fn field_bytes(buf: Seq<u8>, f: FieldDescriptor) -> Seq<u8> {
    buf.subrange(f.offset as int, f.offset + size_of_kind(f.kind))
}

/// The pool handle a managed field's bytes hold.
pub open spec fn field_handle(buf: Seq<u8>, f: FieldDescriptor) -> int {
    spec_u64_from_le_bytes(field_bytes(buf, f)) as int
}

/// Well-formedness of one field: its range lies in the region; a trivial
/// field holds canonical bytes of its kind, a managed field holds a live
/// handle to a well-formed value the field's kind accepts.
pub open spec fn field_wf(buf: Seq<u8>, pool: Seq<Option<ValueModel>>, f: FieldDescriptor) -> bool {
    &&& f.offset + size_of_kind(f.kind) <= buf.len()
    &&& if is_managed(f.kind) {
        let h = field_handle(buf, f);
        &&& 0 <= h < pool.len()
        &&& pool[h] is Some
        &&& kind_matches(f.kind, slot_value(pool[h]))
        &&& valid_value(slot_value(pool[h]))
    } else {
        &&& enc_value(dec_trivial(f.kind, field_bytes(buf, f))) == field_bytes(buf, f)
        &&& valid_value(dec_trivial(f.kind, field_bytes(buf, f)))
        &&& kind_of(dec_trivial(f.kind, field_bytes(buf, f))) == f.kind
    }
}

/// The value field `f` currently holds.
pub open spec fn field_value(buf: Seq<u8>, pool: Seq<Option<ValueModel>>, f: FieldDescriptor) -> ValueModel {
    if is_managed(f.kind) {
        slot_value(pool[field_handle(buf, f)])
    } else {
        dec_trivial(f.kind, field_bytes(buf, f))
    }
}

/// The record invariant: the region has the descriptor's size, every field
/// is well formed, and managed fields hold pairwise distinct handles.
pub open spec fn record_wf(
    d: &RecordTypeDescriptor,
    buf: Seq<u8>,
    pool: Seq<Option<ValueModel>>,
) -> bool {
    &&& desc_wf(d)
    &&& buf.len() == d.total_size
    &&& forall|i: int|
        0 <= i < d.fields@.len() ==> #[trigger] field_wf(buf, pool, d.fields@[i])
    &&& forall|i: int, j: int|
        #![trigger d.fields@[i], d.fields@[j]]
        0 <= i < j < d.fields@.len() && is_managed(d.fields@[i].kind) && is_managed(
            d.fields@[j].kind,
        ) ==> field_handle(buf, d.fields@[i]) != field_handle(buf, d.fields@[j])
}

/// What a field read returns: the field's current value, or `NoSuchField`.
pub open spec fn spec_get(
    d: &RecordTypeDescriptor,
    buf: Seq<u8>,
    pool: Seq<Option<ValueModel>>,
    name: Seq<char>,
) -> Result<ValueModel, AccessError> {
    match spec_lookup(d, name) {
        Some(i) => Ok(field_value(buf, pool, d.fields@[i])),
        None => Err(AccessError::NoSuchField),
    }
}

/// Whether a field write succeeds, and how it fails: the lookup and the
/// kind check decide, independently of the record's current bytes.
pub open spec fn set_outcome(d: &RecordTypeDescriptor, name: Seq<char>, v: ValueModel) -> Result<
    (),
    AccessError,
> {
    match spec_lookup(d, name) {
        Some(i) => if kind_matches(d.fields@[i].kind, v) {
            Ok(())
        } else {
            Err(AccessError::TypeMismatch)
        },
        None => Err(AccessError::NoSuchField),
    }
}

/// The record bytes after writing `v` into field `f`: a managed field takes
/// the handle of the slot about to be filled (the pool's slot count), a
/// trivial field takes the value's canonical encoding.
pub open spec fn written_bytes(
    buf: Seq<u8>,
    pool: Seq<Option<ValueModel>>,
    f: FieldDescriptor,
    v: ValueModel,
) -> Seq<u8> {
    if is_managed(f.kind) {
        splice_bytes(buf, f.offset as int, spec_u64_to_le_bytes(pool.len() as u64))
    } else {
        splice_bytes(buf, f.offset as int, enc_value(v))
    }
}

/// The pool after a `set` of field `f`: the field's old slot is destroyed
/// first, then a fresh slot is filled with the new value. Trivial fields
/// leave the pool alone.
pub open spec fn set_pool(
    buf: Seq<u8>,
    pool: Seq<Option<ValueModel>>,
    f: FieldDescriptor,
    v: ValueModel,
) -> Seq<Option<ValueModel>> {
    if is_managed(f.kind) {
        pool.update(field_handle(buf, f), None).push(Some(v))
    } else {
        pool
    }
}

/// The pool after initializing field `f` in a fresh record: no old value
/// exists, so nothing is destroyed.
pub open spec fn init_pool(
    pool: Seq<Option<ValueModel>>,
    f: FieldDescriptor,
    v: ValueModel,
) -> Seq<Option<ValueModel>> {
    if is_managed(f.kind) {
        pool.push(Some(v))
    } else {
        pool
    }
}

/// The value initialization stores: the given value, or the kind's
/// canonical default when none (or the explicit empty value) was given.
pub open spec fn init_stored(k: ValueKind, v: Option<ValueModel>) -> ValueModel {
    match v {
        Some(m) => if m == ValueModel::Nil && k != ValueKind::Nil {
            default_model(k)
        } else {
            m
        },
        None => default_model(k),
    }
}

/// The model of an optional value handed to initialization.
pub open spec fn opt_model(v: Option<Value>) -> Option<ValueModel> {
    match v {
        Some(x) => Some(x@),
        None => None,
    }
}

/// Whether initialization of a field succeeds: the field must exist and a
/// given non-empty value must have exactly the field's kind.
pub open spec fn init_outcome(
    d: &RecordTypeDescriptor,
    name: Seq<char>,
    v: Option<ValueModel>,
) -> Result<(), AccessError> {
    match spec_lookup(d, name) {
        Some(i) => match v {
            Some(m) => if m == ValueModel::Nil || kind_of(m) == d.fields@[i].kind {
                Ok(())
            } else {
                Err(AccessError::TypeMismatch)
            },
            None => Ok(()),
        },
        None => Err(AccessError::NoSuchField),
    }
}

/// Writing `stored` into field `i` over any base pool whose length is the
/// handle written makes that field well formed and holding `stored`.
pub proof fn lemma_field_write_self(
    d: &RecordTypeDescriptor,
    buf: Seq<u8>,
    poolx: Seq<Option<ValueModel>>,
    i: int,
    stored: ValueModel,
)
    requires
        desc_wf(d),
        buf.len() == d.total_size,
        0 <= i < d.fields@.len(),
        valid_value(stored),
        kind_matches(d.fields@[i].kind, stored),
        poolx.len() <= u64::MAX,
    ensures
        ({
            let f = d.fields@[i];
            let nb = written_bytes(buf, poolx, f, stored);
            let np = if is_managed(f.kind) {
                poolx.push(Some(stored))
            } else {
                poolx
            };
            &&& nb.len() == buf.len()
            &&& field_wf(nb, np, f)
            &&& field_value(nb, np, f) == stored
            &&& is_managed(f.kind) ==> field_handle(nb, f) == poolx.len()
        }),
{
    let f = d.fields@[i];
    lemma_desc_ranges(d);
    if is_managed(f.kind) {
        let hb = spec_u64_to_le_bytes(poolx.len() as u64);
        lemma_auto_spec_u64_to_from_le_bytes();
        assert(hb.len() == 8);
        let nb = splice_bytes(buf, f.offset as int, hb);
        lemma_splice_bytes(buf, f.offset as int, hb);
        assert(field_bytes(nb, f) =~= hb);
        assert(spec_u64_from_le_bytes(hb) == poolx.len() as u64);
    } else {
        assert(kind_of(stored) == f.kind);
        lemma_trivial_round_trip(stored);
        let nb = splice_bytes(buf, f.offset as int, enc_value(stored));
        lemma_splice_bytes(buf, f.offset as int, enc_value(stored));
        assert(field_bytes(nb, f) =~= enc_value(stored));
    }
}

/// Writing field `i` leaves every other field's bytes alone, and a pool
/// step that only destroys that field's own slot (or none) and then grows
/// leaves every other field's well-formedness, handle, and value alone.
pub proof fn lemma_field_write_other(
    d: &RecordTypeDescriptor,
    buf: Seq<u8>,
    pool: Seq<Option<ValueModel>>,
    i: int,
    j: int,
    stored: ValueModel,
    releases: bool,
)
    requires
        desc_wf(d),
        buf.len() == d.total_size,
        0 <= i < d.fields@.len(),
        0 <= j < d.fields@.len(),
        i != j,
        field_wf(buf, pool, d.fields@[j]),
        pool.len() <= u64::MAX,
        valid_value(stored),
        kind_matches(d.fields@[i].kind, stored),
        releases ==> is_managed(d.fields@[i].kind) && 0 <= field_handle(buf, d.fields@[i])
            < pool.len(),
        releases && is_managed(d.fields@[j].kind) ==> field_handle(buf, d.fields@[i])
            != field_handle(buf, d.fields@[j]),
    ensures
        ({
            let fi = d.fields@[i];
            let fj = d.fields@[j];
            let nb = written_bytes(buf, pool, fi, stored);
            let base = if releases {
                pool.update(field_handle(buf, fi), None)
            } else {
                pool
            };
            let np = if is_managed(fi.kind) {
                base.push(Some(stored))
            } else {
                base
            };
            &&& field_bytes(nb, fj) == field_bytes(buf, fj)
            &&& field_wf(nb, np, fj)
            &&& field_value(nb, np, fj) == field_value(buf, pool, fj)
            &&& is_managed(fj.kind) ==> field_handle(nb, fj) == field_handle(buf, fj)
        }),
{
    let fi = d.fields@[i];
    let fj = d.fields@[j];
    lemma_desc_ranges(d);
    lemma_auto_spec_u64_to_from_le_bytes();
    let wb = if is_managed(fi.kind) {
        spec_u64_to_le_bytes(pool.len() as u64)
    } else {
        enc_value(stored)
    };
    let nb = written_bytes(buf, pool, fi, stored);
    if is_managed(fi.kind) {
        assert(wb.len() == 8);
    } else {
        assert(kind_of(stored) == fi.kind);
        lemma_trivial_round_trip(stored);
    }
    assert(wb.len() == size_of_kind(fi.kind));
    lemma_splice_bytes(buf, fi.offset as int, wb);
    // The two fields' ranges are disjoint, in either declaration order.
    if i < j {
        assert(fi.offset + size_of_kind(fi.kind) <= fj.offset);
    } else {
        assert(fj.offset + size_of_kind(fj.kind) <= fi.offset);
    }
    assert(field_bytes(nb, fj) =~= field_bytes(buf, fj));
}

/// What a whole-record copy does: on type identity the destination region
/// becomes the source region, else it reports the mismatch untouched.
pub open spec fn copy_outcome(
    dst: &RecordTypeDescriptor,
    src: &RecordTypeDescriptor,
) -> Result<(), AccessError> {
    if dst.external_type_id == src.external_type_id {
        Ok(())
    } else {
        Err(AccessError::TypeIdentityMismatch)
    }
}

} // verus!
