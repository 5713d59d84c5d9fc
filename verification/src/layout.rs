//! Record type descriptors and the field layout algorithm.
//!
//! A descriptor is built once, at type registration time, from an ordered
//! list of (name, kind) field entries: walking the entries in order, the
//! running offset is rounded up to each field's alignment, the rounded
//! offset becomes the field's offset, and the running offset then advances
//! by the field's size. The record's total size is the final running offset
//! rounded up to the largest alignment seen; a record with no fields has
//! total size zero. The descriptor is immutable after construction and is
//! shared read-only by every accessor of its type.

use vstd::prelude::*;
use vstd::arithmetic::div_mod::lemma_fundamental_div_mod;
use vstd::arithmetic::div_mod::lemma_mod_division_less_than_divisor;
use vstd::arithmetic::div_mod::lemma_mod_multiples_basic;

use crate::kinds::ValueKind;
use crate::kinds::align_of_kind;
use crate::kinds::kind_align;
use crate::kinds::kind_size;
use crate::kinds::lemma_kind_bounds;
use crate::kinds::size_of_kind;

verus! {

/// One requested field of a record type: a name and a kind.
pub struct FieldEntry {
    pub name: String,
    pub kind: ValueKind,
}

/// One laid-out field: its name, kind, and byte offset inside the record.
pub struct FieldDescriptor {
    pub name: String,
    pub kind: ValueKind,
    pub offset: usize,
}

/// Compiled layout of one record type. Immutable after `build`.
pub struct RecordTypeDescriptor {
    /// Name of the record type, shown to the front-end.
    pub name: String,
    pub fields: Vec<FieldDescriptor>,
    pub total_size: usize,
    pub total_alignment: usize,
    /// Opaque type identifier issued by the external store; used to check
    /// type identity between two accessors.
    pub external_type_id: u64,
}

/// `x` rounded up to the next multiple of `a`.
pub open spec fn round_up_spec(x: nat, a: nat) -> nat
    recommends
        a >= 1,
{
    (((x + a - 1) / (a as int)) * (a as int)) as nat
}

/// Rounding up lands on a multiple of `a`, at or after `x`, within `a - 1`.
pub proof fn lemma_round_up_props(x: nat, a: nat)
    requires
        a >= 1,
    ensures
        round_up_spec(x, a) % a == 0,
        x <= round_up_spec(x, a) < x + a,
{
    let t = (x + a - 1) as int;
    let ai = a as int;
    let q = t / ai;
    lemma_fundamental_div_mod(t, ai);
    lemma_mod_division_less_than_divisor(t, ai);
    lemma_mod_multiples_basic(q, ai);
}

/// The sequence of kinds of a field list.
pub open spec fn kinds_of(fields: Seq<FieldDescriptor>) -> Seq<ValueKind> {
    fields.map_values(|f: FieldDescriptor| f.kind)
}

/// Offsets assigned to `kinds`, starting from running offset `cur`.
pub open spec fn layout_offsets_from(kinds: Seq<ValueKind>, cur: nat) -> Seq<nat>
    decreases kinds.len(),
{
    if kinds.len() == 0 {
        Seq::empty()
    } else {
        let off = round_up_spec(cur, align_of_kind(kinds[0]));
        Seq::empty().push(off) + layout_offsets_from(
            kinds.drop_first(),
            off + size_of_kind(kinds[0]),
        )
    }
}

/// The running offset after laying out `kinds`, starting from `cur`.
pub open spec fn layout_end_from(kinds: Seq<ValueKind>, cur: nat) -> nat
    decreases kinds.len(),
{
    if kinds.len() == 0 {
        cur
    } else {
        let off = round_up_spec(cur, align_of_kind(kinds[0]));
        layout_end_from(kinds.drop_first(), off + size_of_kind(kinds[0]))
    }
}

/// The largest alignment among `kinds`; 1 when there are none.
pub open spec fn max_align(kinds: Seq<ValueKind>) -> nat
    decreases kinds.len(),
{
    if kinds.len() == 0 {
        1
    } else {
        let rest = max_align(kinds.drop_first());
        if align_of_kind(kinds[0]) >= rest {
            align_of_kind(kinds[0])
        } else {
            rest
        }
    }
}

/// Offset of each field of a record whose fields have these kinds, in order.
pub open spec fn field_offsets(kinds: Seq<ValueKind>) -> Seq<nat> {
    layout_offsets_from(kinds, 0)
}

/// Total size of a record whose fields have these kinds, in order: the end
/// of the last field rounded up to the record's alignment.
pub open spec fn total_size_spec(kinds: Seq<ValueKind>) -> nat {
    round_up_spec(layout_end_from(kinds, 0), max_align(kinds))
}

/// Appending one kind appends one offset and advances the end accordingly.
proof fn lemma_layout_snoc(kinds: Seq<ValueKind>, k: ValueKind, cur: nat)
    ensures
        layout_offsets_from(kinds.push(k), cur) == layout_offsets_from(kinds, cur).push(
            round_up_spec(layout_end_from(kinds, cur), align_of_kind(k)),
        ),
        layout_end_from(kinds.push(k), cur) == round_up_spec(
            layout_end_from(kinds, cur),
            align_of_kind(k),
        ) + size_of_kind(k),
        max_align(kinds.push(k)) == if align_of_kind(k) >= max_align(kinds) {
            align_of_kind(k)
        } else {
            max_align(kinds)
        },
    decreases kinds.len(),
{
    assert(kinds.push(k).len() == kinds.len() + 1);
    if kinds.len() == 0 {
        reveal_with_fuel(layout_offsets_from, 3);
        reveal_with_fuel(layout_end_from, 3);
        reveal_with_fuel(max_align, 3);
        lemma_kind_bounds(k);
        assert(kinds.push(k)[0] == k);
        assert(kinds.push(k).drop_first() =~= Seq::<ValueKind>::empty());
        assert(layout_end_from(kinds.push(k), cur) == round_up_spec(cur, align_of_kind(k))
            + size_of_kind(k));
        assert(layout_offsets_from(kinds.push(k), cur) =~= layout_offsets_from(kinds, cur).push(
            round_up_spec(layout_end_from(kinds, cur), align_of_kind(k)),
        ));
    } else {
        let off = round_up_spec(cur, align_of_kind(kinds[0]));
        assert(kinds.push(k)[0] == kinds[0]);
        assert(kinds.push(k).drop_first() =~= kinds.drop_first().push(k));
        lemma_layout_snoc(kinds.drop_first(), k, off + size_of_kind(kinds[0]));
        assert(layout_offsets_from(kinds.push(k), cur) =~= layout_offsets_from(kinds, cur).push(
            round_up_spec(layout_end_from(kinds, cur), align_of_kind(k)),
        ));
    }
}

/// Soundness of the layout: one offset per kind, each offset aligned and at
/// or after the running start, fields disjoint in declaration order, and
/// every field contained in the final running offset.
pub proof fn lemma_layout_sound(kinds: Seq<ValueKind>, cur: nat)
    ensures
        layout_offsets_from(kinds, cur).len() == kinds.len(),
        forall|i: int|
            0 <= i < kinds.len() ==> (#[trigger] layout_offsets_from(kinds, cur)[i]) % align_of_kind(
                kinds[i],
            ) == 0,
        forall|i: int| 0 <= i < kinds.len() ==> cur <= #[trigger] layout_offsets_from(kinds, cur)[i],
        forall|i: int, j: int|
            0 <= i < j < kinds.len() ==> #[trigger] layout_offsets_from(kinds, cur)[i]
                + size_of_kind(kinds[i]) <= #[trigger] layout_offsets_from(kinds, cur)[j],
        forall|i: int|
            0 <= i < kinds.len() ==> #[trigger] layout_offsets_from(kinds, cur)[i] + size_of_kind(
                kinds[i],
            ) <= layout_end_from(kinds, cur),
        cur <= layout_end_from(kinds, cur),
    decreases kinds.len(),
{
    if kinds.len() == 0 {
    } else {
        let a0 = align_of_kind(kinds[0]);
        lemma_kind_bounds(kinds[0]);
        lemma_round_up_props(cur, a0);
        let off = round_up_spec(cur, a0);
        let next = off + size_of_kind(kinds[0]);
        lemma_layout_sound(kinds.drop_first(), next);
        let offs = layout_offsets_from(kinds, cur);
        let rest = layout_offsets_from(kinds.drop_first(), next);
        assert(offs == Seq::empty().push(off) + rest);
        assert(offs[0] == off);
        assert forall|i: int| 0 < i < kinds.len() implies offs[i] == rest[i - 1] by {}
        assert(layout_end_from(kinds, cur) == layout_end_from(kinds.drop_first(), next));
    }
}

/// A descriptor whose offsets, total size and alignment are exactly those
/// the layout algorithm assigns to its fields' kinds.
pub open spec fn desc_wf(d: &RecordTypeDescriptor) -> bool {
    let kinds = kinds_of(d.fields@);
    &&& forall|i: int|
        0 <= i < d.fields@.len() ==> (#[trigger] d.fields@[i].offset) == field_offsets(kinds)[i]
    &&& d.total_size == total_size_spec(kinds)
    &&& d.total_alignment == max_align(kinds)
}

/// The field ranges of a well-formed descriptor lie inside its total size
/// and are pairwise disjoint, in declaration order.
pub proof fn lemma_desc_ranges(d: &RecordTypeDescriptor)
    requires
        desc_wf(d),
    ensures
        forall|i: int|
            0 <= i < d.fields@.len() ==> (#[trigger] d.fields@[i].offset) + size_of_kind(
                d.fields@[i].kind,
            ) <= d.total_size,
        forall|i: int, j: int|
            0 <= i < j < d.fields@.len() ==> (#[trigger] d.fields@[i].offset) + size_of_kind(
                d.fields@[i].kind,
            ) <= (#[trigger] d.fields@[j].offset),
{
    let kinds = kinds_of(d.fields@);
    lemma_layout_sound(kinds, 0);
    lemma_kind_bounds(ValueKind::Nil);
    assert(max_align(kinds) >= 1) by {
        lemma_max_align_pos(kinds);
    }
    lemma_round_up_props(layout_end_from(kinds, 0), max_align(kinds));
}

/// The largest alignment is always at least 1.
pub proof fn lemma_max_align_pos(kinds: Seq<ValueKind>)
    ensures
        max_align(kinds) >= 1,
    decreases kinds.len(),
{
    if kinds.len() > 0 {
        lemma_max_align_pos(kinds.drop_first());
        lemma_kind_bounds(kinds[0]);
    }
}

/// `x` rounded up to the next multiple of `a`, executably.
fn round_up(x: usize, a: usize) -> (r: usize)
    requires
        a >= 1,
        x + a <= usize::MAX,
    ensures
        r == round_up_spec(x as nat, a as nat),
{
    proof {
        lemma_round_up_props(x as nat, a as nat);
    }
    ((x + a - 1) / a) * a
}

impl RecordTypeDescriptor {
    /// Lay out a record type from its ordered field entries.
    ///
    /// The bound on the number of entries keeps every intermediate offset
    /// within the machine word; each field advances the running offset by at
    /// most its alignment slack plus its size, together at most 72 bytes.
    pub fn build(name: String, entries: Vec<FieldEntry>, external_type_id: u64) -> (d:
        RecordTypeDescriptor)
        requires
            entries@.len() * 72 + 8 <= usize::MAX,
        ensures
            desc_wf(&d),
            d.name@ == name@,
            d.external_type_id == external_type_id,
            d.fields@.len() == entries@.len(),
            forall|i: int|
                0 <= i < entries@.len() ==> (#[trigger] d.fields@[i].name@) == entries@[i].name@
                    && d.fields@[i].kind == entries@[i].kind,
    {
        let ghost entry_models: Seq<FieldEntry> = entries@;
        let ghost all_kinds: Seq<ValueKind> = entries@.map_values(|e: FieldEntry| e.kind);
        let mut rest = entries;
        let mut fields: Vec<FieldDescriptor> = Vec::new();
        let mut cur: usize = 0;
        let mut align: usize = 1;
        let mut i: usize = 0;
        let n = rest.len();
        while i < n
            invariant
                n == entry_models.len(),
                n * 72 + 8 <= usize::MAX,
                i <= n,
                rest@ =~= entry_models.skip(i as int),
                all_kinds == entry_models.map_values(|e: FieldEntry| e.kind),
                fields@.len() == i,
                forall|j: int|
                    0 <= j < i ==> ((#[trigger] fields@[j]).name@ == entry_models[j].name@
                        && fields@[j].kind == entry_models[j].kind),
                kinds_of(fields@) =~= all_kinds.take(i as int),
                forall|j: int|
                    0 <= j < i ==> (#[trigger] fields@[j].offset) == layout_offsets_from(
                        all_kinds.take(i as int),
                        0,
                    )[j],
                cur == layout_end_from(all_kinds.take(i as int), 0),
                align == max_align(all_kinds.take(i as int)),
                cur <= i * 72,
                1 <= align <= 8,
            decreases n - i,
        {
            let entry = rest.remove(0);
            let k = entry.kind;
            proof {
                assert(entry.kind == entry_models[i as int].kind);
                assert(entry.name@ == entry_models[i as int].name@);
                lemma_kind_bounds(k);
            }
            let a = kind_align(k);
            let off = round_up(cur, a);
            let sz = kind_size(k);
            proof {
                lemma_round_up_props(cur as nat, a as nat);
                assert(all_kinds.take(i + 1) =~= all_kinds.take(i as int).push(k));
                lemma_layout_snoc(all_kinds.take(i as int), k, 0);
                lemma_layout_sound(all_kinds.take(i as int), 0);
                lemma_layout_sound(all_kinds.take(i + 1), 0);
            }
            let ghost old_fields = fields@;
            fields.push(FieldDescriptor { name: entry.name, kind: k, offset: off });
            cur = off + sz;
            if a > align {
                align = a;
            }
            i = i + 1;
            proof {
                assert(rest@ =~= entry_models.skip(i as int));
                assert(kinds_of(fields@) =~= all_kinds.take(i as int));
                assert forall|j: int| 0 <= j < i implies ((#[trigger] fields@[j]).name@
                    == entry_models[j].name@ && fields@[j].kind == entry_models[j].kind) by {
                    if j < i - 1 {
                        assert(fields@[j] == old_fields[j]);
                    }
                }
            }
        }
        proof {
            assert(all_kinds.take(n as int) =~= all_kinds);
            assert(all_kinds.len() == entry_models.len());
        }
        let total_size = round_up(cur, align);
        RecordTypeDescriptor {
            name,
            fields,
            total_size,
            total_alignment: align,
            external_type_id,
        }
    }

    /// Index of the first field named `name`, if any.
    pub fn lookup(&self, name: &String) -> (r: Option<usize>)
        ensures
            match r {
                Some(i) => spec_lookup(self, name@) == Some(i as int),
                None => spec_lookup(self, name@) is None,
            },
    {
        let n = self.fields.len();
        let mut i: usize = 0;
        while i < n
            invariant
                n == self.fields@.len(),
                i <= n,
                lookup_from(self.fields@, name@, 0) == lookup_from(self.fields@, name@, i as int),
            decreases n - i,
        {
            if self.fields[i].name == *name {
                return Some(i);
            }
            i = i + 1;
        }
        None
    }
}

/// First index at or after `i` whose field is named `name`.
pub open spec fn lookup_from(fields: Seq<FieldDescriptor>, name: Seq<char>, i: int) -> Option<int>
    decreases fields.len() - i,
{
    if i < 0 || i >= fields.len() {
        None
    } else if fields[i].name@ == name {
        Some(i)
    } else {
        lookup_from(fields, name, i + 1)
    }
}

/// Index of the first field of `d` named `name`, if any.
pub open spec fn spec_lookup(d: &RecordTypeDescriptor, name: Seq<char>) -> Option<int> {
    lookup_from(d.fields@, name, 0)
}

/// What a successful or failed lookup says of the field list.
pub proof fn lemma_lookup_props(fields: Seq<FieldDescriptor>, name: Seq<char>, i: int)
    requires
        0 <= i,
    ensures
        match lookup_from(fields, name, i) {
            Some(j) => i <= j < fields.len() && fields[j].name@ == name,
            None => forall|j: int| i <= j < fields.len() ==> (#[trigger] fields[j].name@) != name,
        },
    decreases fields.len() - i,
{
    if i < fields.len() {
        if fields[i].name@ != name {
            lemma_lookup_props(fields, name, i + 1);
        }
    }
}

} // verus!
