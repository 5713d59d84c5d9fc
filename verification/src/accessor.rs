//! The per-instance record accessor.
//!
//! An accessor binds one shared record type descriptor to one stored
//! instance. It never owns the record bytes: the store does, and may move
//! them between calls, so every operation takes the freshly resolved byte
//! region (and the managed pool) as an argument — acquiring the current
//! region is a mandatory step of each call, never a cached optimization.

use std::rc::Rc;

use vstd::prelude::*;

use crate::codec::enc_value;
use crate::codec::lemma_trivial_round_trip;
use crate::codec::read_u32_at;
use crate::codec::read_u64_at;
use crate::codec::read_words;
use crate::codec::splice_bytes;
use crate::codec::write_u32_at;
use crate::codec::write_u64_at;
use crate::codec::write_words;
use crate::kinds::ValueKind;
use crate::kinds::is_managed;
use crate::kinds::kind_is_managed;
use crate::kinds::kind_word_count;
use crate::kinds::size_of_kind;
use crate::layout::RecordTypeDescriptor;
use crate::layout::desc_wf;
use crate::layout::lemma_desc_ranges;
use crate::layout::lemma_lookup_props;
use crate::layout::spec_lookup;
use crate::model::AccessError;
use crate::model::copy_outcome;
use crate::model::field_handle;
use crate::model::field_value;
use crate::model::field_wf;
use crate::model::init_outcome;
use crate::model::init_pool;
use crate::model::init_stored;
use crate::model::lemma_field_write_other;
use crate::model::lemma_field_write_self;
use crate::model::opt_model;
use crate::model::record_wf;
use crate::model::set_outcome;
use crate::model::set_pool;
use crate::model::spec_get;
use crate::model::written_bytes;
use crate::pool::ManagedPool;
use crate::value::Value;
use crate::value::ValueModel;
use crate::value::default_model;
use crate::value::kind_of;
use crate::value::lemma_default_valid;
use crate::value::valid_value;

verus! {

/// How an accessor reaches its record bytes.
pub enum DataSource {
    /// Ask the store for the instance's current region on every call.
    Resolve { entity_id: u64 },
    /// Zero-size record types: the region is always empty.
    AlwaysEmpty,
}

/// One entity-instance's typed view onto its record bytes.
pub struct RecordAccessor {
    /// The shared, immutable layout of this record type.
    pub definition: Rc<RecordTypeDescriptor>,
    /// Where the current byte region comes from.
    pub source: DataSource,
    /// Set by the store once the owning entity has legitimately dropped
    /// this record; until then, deletion requests are vetoed.
    pub freed_by_store: bool,
}

impl RecordAccessor {
    /// The descriptor this accessor is bound to.
    pub open spec fn defn(&self) -> RecordTypeDescriptor {
        *self.definition
    }

    /// An accessor that resolves its region through the store.
    pub fn new_resolved(definition: Rc<RecordTypeDescriptor>, entity_id: u64) -> (a:
        RecordAccessor)
        ensures
            a.defn() == *definition,
            a.source == (DataSource::Resolve { entity_id }),
            !a.freed_by_store,
    {
        RecordAccessor { definition, source: DataSource::Resolve { entity_id }, freed_by_store: false }
    }

    /// An accessor for a zero-field record type, whose region is empty.
    pub fn new_empty(definition: Rc<RecordTypeDescriptor>) -> (a: RecordAccessor)
        requires
            (*definition).fields@.len() == 0,
        ensures
            a.defn() == *definition,
            a.source == DataSource::AlwaysEmpty,
            !a.freed_by_store,
    {
        RecordAccessor { definition, source: DataSource::AlwaysEmpty, freed_by_store: false }
    }

    /// Name of this accessor's record type.
    pub fn get_component_type_name(&self) -> (n: &String)
        ensures
            n@ == self.defn().name@,
    {
        &self.definition.name
    }

    /// The store-issued identifier of this accessor's record type.
    pub fn external_type_id(&self) -> (id: u64)
        ensures
            id == self.defn().external_type_id,
    {
        self.definition.external_type_id
    }

    /// Read one field: the copy of its current value, or `NoSuchField`.
    ///
    /// `buf` must be the region resolved from the store for this call.
    pub fn get(&self, property: &String, buf: &Vec<u8>, pool: &ManagedPool) -> (r: Result<
        Value,
        AccessError,
    >)
        requires
            record_wf(&self.defn(), buf@, pool@),
        ensures
            ({
                let res = spec_get(&self.defn(), buf@, pool@, property@);
                match r {
                    Ok(v) => res == Ok::<ValueModel, AccessError>(v@) && valid_value(v@),
                    Err(e) => res == Err::<ValueModel, AccessError>(e),
                }
            }),
    {
        let d = &*self.definition;
        proof {
            lemma_lookup_props(d.fields@, property@, 0);
        }
        match d.lookup(property) {
            None => Err(AccessError::NoSuchField),
            Some(i) => {
                let ghost f = d.fields@[i as int];
                proof {
                    assert(field_wf(buf@, pool@, f));
                }
                let f_kind = d.fields[i].kind;
                let off = d.fields[i].offset;
                if kind_is_managed(f_kind) {
                    let h = read_u64_at(buf, off);
                    Ok(pool.fetch(h))
                } else {
                    match f_kind {
                        ValueKind::Nil => Ok(Value::Nil),
                        ValueKind::Bool => Ok(Value::Bool(buf[off] != 0)),
                        ValueKind::Int => {
                            let w = read_u32_at(buf, off);
                            Ok(Value::Int(w as i32))
                        },
                        ValueKind::Float => Ok(Value::Float(read_u32_at(buf, off))),
                        ValueKind::Rid => Ok(Value::Rid(read_u64_at(buf, off))),
                        _ => {
                            let wc = kind_word_count(f_kind);
                            let ws = read_words(buf, off, wc);
                            Ok(Value::Composite(f_kind, ws))
                        },
                    }
                }
            },
        }
    }

    /// Write one field: type-checked against the field's declared kind,
    /// with the explicit null value admitted for object fields. On any
    /// failure the region and the pool are left untouched. A managed
    /// field's previous value is destroyed before the new one is stored.
    ///
    /// `buf` must be the region resolved from the store for this call.
    pub fn set(
        &self,
        property: &String,
        value: Value,
        buf: &mut Vec<u8>,
        pool: &mut ManagedPool,
    ) -> (r: Result<(), AccessError>)
        requires
            record_wf(&self.defn(), old(buf)@, old(pool)@),
            valid_value(value@),
            old(pool)@.len() < u64::MAX,
        ensures
            r == set_outcome(&self.defn(), property@, value@),
            r is Err ==> final(buf)@ == old(buf)@ && final(pool)@ == old(pool)@,
            match spec_lookup(&self.defn(), property@) {
                Some(i) => r is Ok ==> final(buf)@ == written_bytes(
                    old(buf)@,
                    old(pool)@,
                    self.defn().fields@[i],
                    value@,
                ) && final(pool)@ == set_pool(
                    old(buf)@,
                    old(pool)@,
                    self.defn().fields@[i],
                    value@,
                ),
                None => true,
            },
    {
        let d = &*self.definition;
        proof {
            lemma_lookup_props(d.fields@, property@, 0);
        }
        match d.lookup(property) {
            None => Err(AccessError::NoSuchField),
            Some(i) => {
                let ghost f = d.fields@[i as int];
                proof {
                    assert(field_wf(old(buf)@, old(pool)@, f));
                }
                let f_kind = d.fields[i].kind;
                let off = d.fields[i].offset;
                let vk = value.kind();
                let is_null_object = if let ValueKind::Object = f_kind {
                    if let ValueKind::Nil = vk {
                        true
                    } else {
                        false
                    }
                } else {
                    false
                };
                proof {
                    if vk == ValueKind::Nil {
                        assert(value@ == ValueModel::Nil);
                    }
                }
                if !(vk == f_kind || is_null_object) {
                    return Err(AccessError::TypeMismatch);
                }
                if kind_is_managed(f_kind) {
                    let old_h = read_u64_at(buf, off);
                    pool.release(old_h);
                    let h = pool.acquire(value);
                    write_u64_at(buf, off, h);
                    Ok(())
                } else {
                    write_trivial(buf, off, value);
                    Ok(())
                }
            },
        }
    }

    /// Initialize one field of a freshly allocated record region: no old
    /// content exists, so nothing is destroyed first. A missing or explicit
    /// empty value stores the kind's canonical default.
    ///
    /// `buf` must be the region resolved from the store for this call.
    pub fn initialize(
        &self,
        property: &String,
        value: Option<Value>,
        buf: &mut Vec<u8>,
        pool: &mut ManagedPool,
    ) -> (r: Result<(), AccessError>)
        requires
            desc_wf(&self.defn()),
            old(buf)@.len() == self.defn().total_size,
            old(pool)@.len() < u64::MAX,
            match value {
                Some(v) => valid_value(v@),
                None => true,
            },
        ensures
            r == init_outcome(&self.defn(), property@, opt_model(value)),
            r is Err ==> final(buf)@ == old(buf)@ && final(pool)@ == old(pool)@,
            match spec_lookup(&self.defn(), property@) {
                Some(i) => r is Ok ==> ({
                    let stored = init_stored(self.defn().fields@[i].kind, opt_model(value));
                    &&& final(buf)@ == written_bytes(
                        old(buf)@,
                        old(pool)@,
                        self.defn().fields@[i],
                        stored,
                    )
                    &&& final(pool)@ == init_pool(old(pool)@, self.defn().fields@[i], stored)
                }),
                None => true,
            },
    {
        let d = &*self.definition;
        proof {
            lemma_lookup_props(d.fields@, property@, 0);
            lemma_desc_ranges(d);
        }
        match d.lookup(property) {
            None => Err(AccessError::NoSuchField),
            Some(i) => {
                let f_kind = d.fields[i].kind;
                let off = d.fields[i].offset;
                let stored: Value = match value {
                    Some(v) => {
                        let vk = v.kind();
                        proof {
                            if vk == ValueKind::Nil {
                                assert(v@ == ValueModel::Nil);
                            }
                        }
                        if let ValueKind::Nil = vk {
                            if let ValueKind::Nil = f_kind {
                                v
                            } else {
                                Value::default_of_kind(f_kind)
                            }
                        } else {
                            if !(vk == f_kind) {
                                return Err(AccessError::TypeMismatch);
                            }
                            v
                        }
                    },
                    None => Value::default_of_kind(f_kind),
                };
                proof {
                    lemma_default_valid(f_kind);
                    assert(stored@ == init_stored(f_kind, opt_model(value)));
                }
                if kind_is_managed(f_kind) {
                    let h = pool.acquire(stored);
                    write_u64_at(buf, off, h);
                    Ok(())
                } else {
                    write_trivial(buf, off, stored);
                    Ok(())
                }
            },
        }
    }

    /// Copy a whole record, byte for byte, from another accessor of the
    /// same record type; accessors of different types report
    /// `TypeIdentityMismatch` and leave the destination untouched.
    ///
    /// The flat copy applies to managed fields too: afterwards both
    /// records hold the same pool handles, so the copies alias the same
    /// managed values rather than owning independent ones.
    pub fn copy_from(
        &self,
        source: &RecordAccessor,
        dst_buf: &mut Vec<u8>,
        src_buf: &Vec<u8>,
    ) -> (r: Result<(), AccessError>)
        requires
            old(dst_buf)@.len() == self.defn().total_size,
            src_buf@.len() == source.defn().total_size,
            // the store issues one identifier per registered type
            self.defn().external_type_id == source.defn().external_type_id
                ==> self.defn().total_size == source.defn().total_size,
        ensures
            r == copy_outcome(&self.defn(), &source.defn()),
            r is Ok ==> final(dst_buf)@ == src_buf@,
            r is Err ==> final(dst_buf)@ == old(dst_buf)@,
    {
        if self.definition.external_type_id != source.definition.external_type_id {
            return Err(AccessError::TypeIdentityMismatch);
        }
        let n = src_buf.len();
        let mut i: usize = 0;
        while i < n
            invariant
                n == src_buf@.len(),
                dst_buf@.len() == n,
                i <= n,
                forall|j: int| 0 <= j < i ==> dst_buf@[j] == src_buf@[j],
            decreases n - i,
        {
            dst_buf[i] = src_buf[i];
            i = i + 1;
        }
        proof {
            assert(dst_buf@ =~= src_buf@);
        }
        Ok(())
    }

    /// A deletion request from the front-end. It may proceed only when the
    /// store has authorized it; otherwise it is vetoed and the accessor is
    /// left exactly as it was, still usable.
    pub fn request_free(&mut self) -> (proceed: bool)
        ensures
            proceed == old(self).freed_by_store,
            *final(self) == *old(self),
    {
        self.freed_by_store
    }

    /// The store's authorization: the owning entity has dropped this
    /// record, so a later deletion request may proceed.
    pub fn authorize_free(&mut self)
        ensures
            final(self).freed_by_store,
            final(self).definition == old(self).definition,
            final(self).source == old(self).source,
    {
        self.freed_by_store = true;
    }

    /// Direct `free` calls from the front-end are ignored entirely;
    /// deletion must go through the notification protocol.
    pub fn free(&self) {
    }

    /// Lifecycle notification from the front-end; only a pre-deletion
    /// notice does anything, and it follows the deletion-request rule.
    pub fn on_notification(&mut self, what: Notification) -> (proceed: bool)
        ensures
            *final(self) == *old(self),
            proceed == (what == Notification::Predelete && old(self).freed_by_store),
    {
        match what {
            Notification::Predelete => self.request_free(),
            Notification::Unrelated => false,
        }
    }
}

/// Allocate and default-initialize one record region: every field is
/// constructed with its kind's canonical default, managed fields each in a
/// fresh pool slot, and the result satisfies the record invariant.
pub fn new_record(d: &RecordTypeDescriptor, pool: &mut ManagedPool) -> (buf: Vec<u8>)
    requires
        desc_wf(d),
        old(pool)@.len() + d.fields@.len() < u64::MAX,
    ensures
        record_wf(d, buf@, final(pool)@),
        buf@.len() == d.total_size,
        old(pool)@.len() <= final(pool)@.len() <= old(pool)@.len() + d.fields@.len(),
        forall|i: int|
            0 <= i < d.fields@.len() ==> field_value(buf@, final(pool)@, #[trigger] d.fields@[i])
                == default_model(d.fields@[i].kind),
        forall|h: int| 0 <= h < old(pool)@.len() ==> final(pool)@[h] == old(pool)@[h],
{
    let ghost base_len = pool@.len();
    let total = d.total_size;
    let mut buf: Vec<u8> = Vec::new();
    let mut z: usize = 0;
    while z < total
        invariant
            z <= total,
            buf@.len() == z,
        decreases total - z,
    {
        buf.push(0);
        z = z + 1;
    }
    let n = d.fields.len();
    let mut i: usize = 0;
    while i < n
        invariant
            desc_wf(d),
            n == d.fields@.len(),
            base_len + n < u64::MAX,
            i <= n,
            buf@.len() == d.total_size,
            base_len <= pool@.len() <= base_len + i,
            forall|h: int| 0 <= h < base_len ==> pool@[h] == old(pool)@[h],
            base_len == old(pool)@.len(),
            forall|j: int| 0 <= j < i ==> field_wf(buf@, pool@, #[trigger] d.fields@[j]),
            forall|j: int|
                0 <= j < i ==> field_value(buf@, pool@, #[trigger] d.fields@[j]) == default_model(
                    d.fields@[j].kind,
                ),
            forall|j: int|
                0 <= j < i && is_managed(d.fields@[j].kind) ==> base_len <= field_handle(
                    buf@,
                    #[trigger] d.fields@[j],
                ) < pool@.len(),
            forall|j1: int, j2: int|
                #![trigger d.fields@[j1], d.fields@[j2]]
                0 <= j1 < j2 < i && is_managed(d.fields@[j1].kind) && is_managed(
                    d.fields@[j2].kind,
                ) ==> field_handle(buf@, d.fields@[j1]) != field_handle(buf@, d.fields@[j2]),
        decreases n - i,
    {
        let ghost prev_buf = buf@;
        let ghost prev_pool = pool@;
        let f_kind = d.fields[i].kind;
        let off = d.fields[i].offset;
        proof {
            lemma_desc_ranges(d);
            lemma_default_valid(f_kind);
        }
        let stored = Value::default_of_kind(f_kind);
        if kind_is_managed(f_kind) {
            let h = pool.acquire(stored);
            write_u64_at(&mut buf, off, h);
        } else {
            write_trivial(&mut buf, off, stored);
        }
        proof {
            let fi = d.fields@[i as int];
            let dm = default_model(fi.kind);
            lemma_field_write_self(d, prev_buf, prev_pool, i as int, dm);
            assert forall|j: int| 0 <= j < i implies field_wf(buf@, pool@, #[trigger] d.fields@[j])
                && field_value(buf@, pool@, d.fields@[j]) == field_value(
                prev_buf,
                prev_pool,
                d.fields@[j],
            ) && (is_managed(d.fields@[j].kind) ==> field_handle(buf@, d.fields@[j])
                == field_handle(prev_buf, d.fields@[j])) by {
                lemma_field_write_other(d, prev_buf, prev_pool, i as int, j, dm, false);
            }
            if is_managed(fi.kind) {
                assert(field_handle(buf@, fi) == prev_pool.len());
            }
        }
        i = i + 1;
    }
    buf
}

/// Write the canonical encoding of a trivial value at `off`.
fn write_trivial(buf: &mut Vec<u8>, off: usize, value: Value)
    requires
        !is_managed(kind_of(value@)),
        kind_of(value@) != ValueKind::Object,
        valid_value(value@),
        off + size_of_kind(kind_of(value@)) <= old(buf)@.len(),
    ensures
        final(buf)@ == splice_bytes(old(buf)@, off as int, enc_value(value@)),
{
    proof {
        lemma_trivial_round_trip(value@);
    }
    match value {
        Value::Nil => {
            proof {
                assert(buf@ =~= splice_bytes(old(buf)@, off as int, enc_value(value@)));
            }
        },
        Value::Bool(b) => {
            let byte: u8 = if b {
                1
            } else {
                0
            };
            let _l = buf.len();
            buf[off] = byte;
            proof {
                assert(buf@ =~= splice_bytes(old(buf)@, off as int, enc_value(value@)));
            }
        },
        Value::Int(iv) => {
            write_u32_at(buf, off, iv as u32);
        },
        Value::Float(w) => {
            write_u32_at(buf, off, w);
        },
        Value::Rid(r) => {
            write_u64_at(buf, off, r);
        },
        Value::Composite(_, ws) => {
            write_words(buf, off, &ws);
        },
        Value::ObjectRef(_) => {
            proof {
                assert(false);
            }
        },
        Value::Managed(_, _) => {
            proof {
                assert(false);
            }
        },
    }
}

/// Object lifecycle notices the front-end forwards to the accessor.
#[derive(Clone, Copy, Debug, PartialEq, Eq, Structural)]
pub enum Notification {
    /// The front-end is about to delete the accessor object.
    Predelete,
    /// Any other notification; ignored.
    Unrelated,
}

} // verus!
