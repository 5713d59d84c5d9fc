//! Record-level laws: what the layout algorithm and the accessor
//! operations guarantee together, stated over the same spec functions the
//! operations' contracts use.

use vstd::prelude::*;

use crate::kinds::ValueKind;
use crate::kinds::align_of_kind;
use crate::kinds::is_managed;
use crate::kinds::size_of_kind;
use crate::layout::RecordTypeDescriptor;
use crate::layout::desc_wf;
use crate::layout::field_offsets;
use crate::layout::layout_end_from;
use crate::layout::lemma_layout_sound;
use crate::layout::lemma_lookup_props;
use crate::layout::lemma_max_align_pos;
use crate::layout::lemma_round_up_props;
use crate::layout::max_align;
use crate::layout::spec_lookup;
use crate::layout::total_size_spec;
use crate::model::field_handle;
use crate::model::field_value;
use crate::model::field_wf;
use crate::model::init_pool;
use crate::model::lemma_field_write_other;
use crate::model::lemma_field_write_self;
use crate::model::record_wf;
use crate::model::set_outcome;
use crate::model::set_pool;
use crate::model::spec_get;
use crate::model::written_bytes;
use crate::value::ValueModel;
use crate::value::default_model;
use crate::value::kind_matches;
use crate::value::lemma_default_valid;
use crate::value::valid_value;

verus! {

/// The offset algorithm is sound for every ordered kind list: one offset
/// per field, offsets non-decreasing, each a multiple of its field's
/// alignment, no two field ranges overlapping, and the total size at least
/// the end of the last field.
pub proof fn lemma_offset_algorithm(kinds: Seq<ValueKind>)
    ensures
        field_offsets(kinds).len() == kinds.len(),
        forall|i: int, j: int|
            0 <= i < j < kinds.len() ==> #[trigger] field_offsets(kinds)[i]
                <= #[trigger] field_offsets(kinds)[j],
        forall|i: int|
            0 <= i < kinds.len() ==> (#[trigger] field_offsets(kinds)[i]) % align_of_kind(
                kinds[i],
            ) == 0,
        forall|i: int, j: int|
            0 <= i < j < kinds.len() ==> #[trigger] field_offsets(kinds)[i] + size_of_kind(
                kinds[i],
            ) <= #[trigger] field_offsets(kinds)[j],
        forall|i: int|
            0 <= i < kinds.len() ==> #[trigger] field_offsets(kinds)[i] + size_of_kind(kinds[i])
                <= total_size_spec(kinds),
{
    lemma_layout_sound(kinds, 0);
    lemma_max_align_pos(kinds);
    lemma_round_up_props(layout_end_from(kinds, 0), max_align(kinds));
}

/// A record type with no fields occupies no bytes, and every lookup on it
/// fails, so reads and writes report `NoSuchField`.
pub proof fn lemma_zero_field_type(d: &RecordTypeDescriptor, name: Seq<char>)
    requires
        desc_wf(d),
        d.fields@.len() == 0,
    ensures
        d.total_size == 0,
        spec_lookup(d, name) is None,
{
    lemma_lookup_props(d.fields@, name, 0);
}

/// A successful write preserves the record invariant, stores exactly the
/// written value in the target field, and leaves every other field's value
/// unchanged.
pub proof fn lemma_set_preserves_record(
    d: &RecordTypeDescriptor,
    buf: Seq<u8>,
    pool: Seq<Option<ValueModel>>,
    name: Seq<char>,
    v: ValueModel,
)
    requires
        record_wf(d, buf, pool),
        valid_value(v),
        pool.len() < u64::MAX,
        set_outcome(d, name, v) is Ok,
    ensures
        match spec_lookup(d, name) {
            Some(i) => ({
                let f = d.fields@[i];
                let nb = written_bytes(buf, pool, f, v);
                let np = set_pool(buf, pool, f, v);
                &&& record_wf(d, nb, np)
                &&& field_value(nb, np, f) == v
                &&& forall|j: int|
                    0 <= j < d.fields@.len() && j != i ==> field_value(
                        nb,
                        np,
                        #[trigger] d.fields@[j],
                    ) == field_value(buf, pool, d.fields@[j])
            }),
            None => false,
        },
{
    lemma_lookup_props(d.fields@, name, 0);
    match spec_lookup(d, name) {
        Some(i) => {
            let f = d.fields@[i];
            let nb = written_bytes(buf, pool, f, v);
            let np = set_pool(buf, pool, f, v);
            assert(field_wf(buf, pool, f));
            assert(kind_matches(f.kind, v));
            if is_managed(f.kind) {
                let poolx = pool.update(field_handle(buf, f), None);
                assert(poolx.len() == pool.len());
                lemma_field_write_self(d, buf, poolx, i, v);
                assert(written_bytes(buf, poolx, f, v) == nb);
            } else {
                lemma_field_write_self(d, buf, pool, i, v);
            }
            assert forall|j: int| 0 <= j < d.fields@.len() && j != i implies field_wf(
                nb,
                np,
                #[trigger] d.fields@[j],
            ) && field_value(nb, np, d.fields@[j]) == field_value(buf, pool, d.fields@[j]) && (
            is_managed(d.fields@[j].kind) ==> field_handle(nb, d.fields@[j]) == field_handle(
                buf,
                d.fields@[j],
            )) by {
                assert(field_wf(buf, pool, d.fields@[j]));
                if is_managed(f.kind) && is_managed(d.fields@[j].kind) {
                    if i < j {
                        assert(field_handle(buf, d.fields@[i]) != field_handle(
                            buf,
                            d.fields@[j],
                        ));
                    } else {
                        assert(field_handle(buf, d.fields@[j]) != field_handle(
                            buf,
                            d.fields@[i],
                        ));
                    }
                }
                lemma_field_write_other(d, buf, pool, i, j, v, is_managed(f.kind));
            }
            // handles stay pairwise distinct: untouched pairs keep their
            // old handles, and a fresh slot's handle exceeds them all
            assert forall|j1: int, j2: int|
                #![trigger d.fields@[j1], d.fields@[j2]]
                0 <= j1 < j2 < d.fields@.len() && is_managed(d.fields@[j1].kind) && is_managed(
                    d.fields@[j2].kind,
                ) implies field_handle(nb, d.fields@[j1]) != field_handle(nb, d.fields@[j2]) by {
                if j1 != i && j2 != i {
                    assert(field_handle(buf, d.fields@[j1]) != field_handle(buf, d.fields@[j2]));
                } else if j1 == i {
                    assert(field_wf(buf, pool, d.fields@[j2]));
                    assert(field_handle(nb, d.fields@[i]) == pool.len());
                } else {
                    assert(field_wf(buf, pool, d.fields@[j1]));
                    assert(field_handle(nb, d.fields@[i]) == pool.len());
                }
            }
        },
        None => {},
    }
}

/// Round trip: after a successful `set` of value `v` into a field, a `get`
/// of the same field returns exactly `v`, structurally for trivial kinds
/// and by content for managed kinds.
pub proof fn lemma_set_then_get(
    d: &RecordTypeDescriptor,
    buf: Seq<u8>,
    pool: Seq<Option<ValueModel>>,
    name: Seq<char>,
    v: ValueModel,
)
    requires
        record_wf(d, buf, pool),
        valid_value(v),
        pool.len() < u64::MAX,
        set_outcome(d, name, v) is Ok,
    ensures
        match spec_lookup(d, name) {
            Some(i) => spec_get(
                d,
                written_bytes(buf, pool, d.fields@[i], v),
                set_pool(buf, pool, d.fields@[i], v),
                name,
            ) == Ok::<ValueModel, crate::model::AccessError>(v),
            None => false,
        },
{
    lemma_set_preserves_record(d, buf, pool, name, v);
}

/// Default initialization: initializing a field with no value (or the
/// explicit empty value) and then reading it yields the canonical default
/// of the field's kind.
pub proof fn lemma_initialize_default_then_get(
    d: &RecordTypeDescriptor,
    buf: Seq<u8>,
    pool: Seq<Option<ValueModel>>,
    name: Seq<char>,
)
    requires
        desc_wf(d),
        buf.len() == d.total_size,
        pool.len() < u64::MAX,
        spec_lookup(d, name) is Some,
    ensures
        match spec_lookup(d, name) {
            Some(i) => ({
                let f = d.fields@[i];
                let stored = default_model(f.kind);
                spec_get(
                    d,
                    written_bytes(buf, pool, f, stored),
                    init_pool(pool, f, stored),
                    name,
                ) == Ok::<ValueModel, crate::model::AccessError>(stored)
            }),
            None => false,
        },
{
    lemma_lookup_props(d.fields@, name, 0);
    match spec_lookup(d, name) {
        Some(i) => {
            let f = d.fields@[i];
            lemma_default_valid(f.kind);
            lemma_field_write_self(d, buf, pool, i, default_model(f.kind));
        },
        None => {},
    }
}

} // verus!
