use std::rc::Rc;

use component_store::accessor::new_record;
use component_store::accessor::Notification;
use component_store::accessor::RecordAccessor;
use component_store::kinds::kind_align;
use component_store::kinds::kind_is_managed;
use component_store::kinds::kind_size;
use component_store::kinds::ValueKind;
use component_store::layout::FieldEntry;
use component_store::layout::RecordTypeDescriptor;
use component_store::model::AccessError;
use component_store::pool::ManagedPool;
use component_store::value::Value;

fn entry(name: &str, kind: ValueKind) -> FieldEntry {
    FieldEntry { name: String::from(name), kind }
}

fn position_type() -> RecordTypeDescriptor {
    RecordTypeDescriptor::build(
        String::from("Position"),
        vec![entry("x", ValueKind::Float), entry("y", ValueKind::Float)],
        7,
    )
}

fn mixed_type() -> RecordTypeDescriptor {
    RecordTypeDescriptor::build(
        String::from("Mixed"),
        vec![
            entry("alive", ValueKind::Bool),
            entry("count", ValueKind::Int),
            entry("label", ValueKind::GString),
            entry("pos", ValueKind::Vector2),
            entry("target", ValueKind::Object),
            entry("res", ValueKind::Rid),
        ],
        11,
    )
}

#[test]
fn position_layout_scenario() {
    let d = position_type();
    assert_eq!(d.fields.len(), 2);
    assert_eq!(d.fields[0].offset, 0);
    assert_eq!(d.fields[1].offset, 4);
    assert_eq!(d.total_size, 8);
    assert_eq!(d.total_alignment, 4);
}

#[test]
fn layout_alignment_padding() {
    let d = RecordTypeDescriptor::build(
        String::from("Padded"),
        vec![
            entry("flag", ValueKind::Bool),
            entry("ratio", ValueKind::Float),
            entry("resource", ValueKind::Rid),
            entry("tail", ValueKind::Bool),
        ],
        1,
    );
    // bool at 0, float rounded up to 4, rid rounded up to 8, bool at 16,
    // total rounded up to the record alignment of 8
    assert_eq!(d.fields[0].offset, 0);
    assert_eq!(d.fields[1].offset, 4);
    assert_eq!(d.fields[2].offset, 8);
    assert_eq!(d.fields[3].offset, 16);
    assert_eq!(d.total_alignment, 8);
    assert_eq!(d.total_size, 24);
}

#[test]
fn position_initialize_and_get_scenario() {
    let d = position_type();
    let mut pool = ManagedPool::new();
    let mut buf = new_record(&d, &mut pool);
    let acc = RecordAccessor::new_resolved(Rc::new(d), 100);

    let x = String::from("x");
    let y = String::from("y");
    let r = acc.initialize(&x, Some(Value::Float(3.5f32.to_bits())), &mut buf, &mut pool);
    assert_eq!(r, Ok(()));
    assert_eq!(acc.get(&x, &buf, &pool), Ok(Value::Float(3.5f32.to_bits())));
    // y was never given a value: the canonical default is 0.0
    assert_eq!(acc.get(&y, &buf, &pool), Ok(Value::Float(0.0f32.to_bits())));
}

#[test]
fn round_trip_trivial_kinds() {
    let d = mixed_type();
    let mut pool = ManagedPool::new();
    let mut buf = new_record(&d, &mut pool);
    let acc = RecordAccessor::new_resolved(Rc::new(d), 4);

    let alive = String::from("alive");
    let count = String::from("count");
    let pos = String::from("pos");
    let res = String::from("res");

    assert_eq!(acc.set(&alive, Value::Bool(true), &mut buf, &mut pool), Ok(()));
    assert_eq!(acc.get(&alive, &buf, &pool), Ok(Value::Bool(true)));

    assert_eq!(acc.set(&count, Value::Int(-12345), &mut buf, &mut pool), Ok(()));
    assert_eq!(acc.get(&count, &buf, &pool), Ok(Value::Int(-12345)));

    let v2 = Value::Composite(
        ValueKind::Vector2,
        vec![1.25f32.to_bits(), (-8.0f32).to_bits()],
    );
    assert_eq!(acc.set(&pos, v2, &mut buf, &mut pool), Ok(()));
    assert_eq!(
        acc.get(&pos, &buf, &pool),
        Ok(Value::Composite(
            ValueKind::Vector2,
            vec![1.25f32.to_bits(), (-8.0f32).to_bits()],
        ))
    );

    assert_eq!(acc.set(&res, Value::Rid(0xdead_beef_u64), &mut buf, &mut pool), Ok(()));
    assert_eq!(acc.get(&res, &buf, &pool), Ok(Value::Rid(0xdead_beef_u64)));
}

#[test]
fn round_trip_managed_kinds() {
    let d = mixed_type();
    let mut pool = ManagedPool::new();
    let mut buf = new_record(&d, &mut pool);
    let acc = RecordAccessor::new_resolved(Rc::new(d), 4);

    let label = String::from("label");
    let target = String::from("target");

    let hello = Value::Managed(ValueKind::GString, b"hello".to_vec());
    assert_eq!(acc.set(&label, hello, &mut buf, &mut pool), Ok(()));
    assert_eq!(
        acc.get(&label, &buf, &pool),
        Ok(Value::Managed(ValueKind::GString, b"hello".to_vec()))
    );

    assert_eq!(acc.set(&target, Value::ObjectRef(Some(42)), &mut buf, &mut pool), Ok(()));
    assert_eq!(acc.get(&target, &buf, &pool), Ok(Value::ObjectRef(Some(42))));

    // the explicit null write is admitted for object fields and read back
    assert_eq!(acc.set(&target, Value::Nil, &mut buf, &mut pool), Ok(()));
    assert_eq!(acc.get(&target, &buf, &pool), Ok(Value::Nil));
}

#[test]
fn default_init_per_kind() {
    let d = mixed_type();
    let mut pool = ManagedPool::new();
    let mut buf = new_record(&d, &mut pool);
    let acc = RecordAccessor::new_resolved(Rc::new(d), 4);

    for (name, want) in [
        ("alive", Value::Bool(false)),
        ("count", Value::Int(0)),
        ("label", Value::Managed(ValueKind::GString, Vec::new())),
        ("pos", Value::Composite(ValueKind::Vector2, vec![0, 0])),
        ("target", Value::ObjectRef(None)),
        ("res", Value::Rid(0)),
    ] {
        let prop = String::from(name);
        assert_eq!(acc.initialize(&prop, None, &mut buf, &mut pool), Ok(()));
        assert_eq!(acc.get(&prop, &buf, &pool), Ok(want));
    }
}

#[test]
fn initialize_null_means_default() {
    let d = position_type();
    let mut pool = ManagedPool::new();
    let mut buf = new_record(&d, &mut pool);
    let acc = RecordAccessor::new_resolved(Rc::new(d), 2);

    let x = String::from("x");
    assert_eq!(acc.set(&x, Value::Float(9.0f32.to_bits()), &mut buf, &mut pool), Ok(()));
    assert_eq!(acc.initialize(&x, Some(Value::Nil), &mut buf, &mut pool), Ok(()));
    assert_eq!(acc.get(&x, &buf, &pool), Ok(Value::Float(0.0f32.to_bits())));
}

#[test]
fn type_mismatch_rejected_and_value_kept() {
    let d = mixed_type();
    let mut pool = ManagedPool::new();
    let mut buf = new_record(&d, &mut pool);
    let acc = RecordAccessor::new_resolved(Rc::new(d), 4);

    let count = String::from("count");
    assert_eq!(acc.set(&count, Value::Int(7), &mut buf, &mut pool), Ok(()));
    let r = acc.set(&count, Value::Float(1.0f32.to_bits()), &mut buf, &mut pool);
    assert_eq!(r, Err(AccessError::TypeMismatch));
    assert_eq!(acc.get(&count, &buf, &pool), Ok(Value::Int(7)));

    // null is not admitted for a non-object field
    let r = acc.set(&count, Value::Nil, &mut buf, &mut pool);
    assert_eq!(r, Err(AccessError::TypeMismatch));
    assert_eq!(acc.get(&count, &buf, &pool), Ok(Value::Int(7)));

    // initialization applies the same check
    let r = acc.initialize(&count, Some(Value::Bool(true)), &mut buf, &mut pool);
    assert_eq!(r, Err(AccessError::TypeMismatch));
    assert_eq!(acc.get(&count, &buf, &pool), Ok(Value::Int(7)));
}

#[test]
fn unknown_field_leaves_buffer_untouched() {
    let d = mixed_type();
    let mut pool = ManagedPool::new();
    let mut buf = new_record(&d, &mut pool);
    let acc = RecordAccessor::new_resolved(Rc::new(d), 4);

    let nope = String::from("nonexistent");
    assert_eq!(acc.get(&nope, &buf, &pool), Err(AccessError::NoSuchField));

    let before = buf.clone();
    let r = acc.set(&nope, Value::Int(1), &mut buf, &mut pool);
    assert_eq!(r, Err(AccessError::NoSuchField));
    assert_eq!(buf, before);

    let r = acc.initialize(&nope, None, &mut buf, &mut pool);
    assert_eq!(r, Err(AccessError::NoSuchField));
    assert_eq!(buf, before);
}

#[test]
fn whole_copy_type_guard() {
    let pos = Rc::new(position_type());
    let mixed = Rc::new(mixed_type());
    let mut pool = ManagedPool::new();

    let mut pos_buf = new_record(&pos, &mut pool);
    let mixed_buf = new_record(&mixed, &mut pool);

    let pos_acc = RecordAccessor::new_resolved(Rc::clone(&pos), 1);
    let mixed_acc = RecordAccessor::new_resolved(Rc::clone(&mixed), 2);

    let before = pos_buf.clone();
    let r = pos_acc.copy_from(&mixed_acc, &mut pos_buf, &mixed_buf);
    assert_eq!(r, Err(AccessError::TypeIdentityMismatch));
    assert_eq!(pos_buf, before);
}

#[test]
fn whole_copy_same_type() {
    let pos = Rc::new(position_type());
    let mut pool = ManagedPool::new();

    let mut a_buf = new_record(&pos, &mut pool);
    let mut b_buf = new_record(&pos, &mut pool);

    let a = RecordAccessor::new_resolved(Rc::clone(&pos), 1);
    let b = RecordAccessor::new_resolved(Rc::clone(&pos), 2);

    let x = String::from("x");
    assert_eq!(b.set(&x, Value::Float(2.5f32.to_bits()), &mut b_buf, &mut pool), Ok(()));

    assert_eq!(a.copy_from(&b, &mut a_buf, &b_buf), Ok(()));
    assert_eq!(a_buf, b_buf);
    assert_eq!(a.get(&x, &a_buf, &pool), Ok(Value::Float(2.5f32.to_bits())));
}

#[test]
fn zero_field_type() {
    let d = RecordTypeDescriptor::build(String::from("Tag"), Vec::new(), 3);
    assert_eq!(d.total_size, 0);

    let mut pool = ManagedPool::new();
    let mut buf = new_record(&d, &mut pool);
    assert_eq!(buf.len(), 0);

    let acc = RecordAccessor::new_empty(Rc::new(d));
    let any = String::from("anything");
    assert_eq!(acc.get(&any, &buf, &pool), Err(AccessError::NoSuchField));
    assert_eq!(
        acc.set(&any, Value::Bool(true), &mut buf, &mut pool),
        Err(AccessError::NoSuchField)
    );
}

#[test]
fn destruction_veto_keeps_accessor_usable() {
    let d = position_type();
    let mut pool = ManagedPool::new();
    let mut buf = new_record(&d, &mut pool);
    let mut acc = RecordAccessor::new_resolved(Rc::new(d), 9);

    let x = String::from("x");
    assert_eq!(acc.set(&x, Value::Float(1.0f32.to_bits()), &mut buf, &mut pool), Ok(()));

    // no store authorization: the deletion request is vetoed
    assert!(!acc.request_free());
    assert!(!acc.on_notification(Notification::Predelete));
    assert!(!acc.on_notification(Notification::Unrelated));
    acc.free();

    // the accessor is still fully usable
    assert_eq!(acc.get(&x, &buf, &pool), Ok(Value::Float(1.0f32.to_bits())));

    // once the store authorizes, the request proceeds
    acc.authorize_free();
    assert!(acc.request_free());
}

#[test]
fn type_name_and_identity() {
    let d = mixed_type();
    let acc = RecordAccessor::new_resolved(Rc::new(d), 4);
    assert_eq!(acc.get_component_type_name(), "Mixed");
    assert_eq!(acc.external_type_id(), 11);
}

#[test]
fn managed_overwrite_releases_old_slot() {
    let d = mixed_type();
    let mut pool = ManagedPool::new();
    let mut buf = new_record(&d, &mut pool);
    let acc = RecordAccessor::new_resolved(Rc::new(d), 4);

    let label = String::from("label");
    let slots_before = pool.slot_count();
    assert_eq!(
        acc.set(&label, Value::Managed(ValueKind::GString, b"a".to_vec()), &mut buf, &mut pool),
        Ok(())
    );
    assert_eq!(
        acc.set(&label, Value::Managed(ValueKind::GString, b"b".to_vec()), &mut buf, &mut pool),
        Ok(())
    );
    // each write fills a fresh slot and the old ones were released
    assert_eq!(pool.slot_count(), slots_before + 2);
    assert_eq!(
        acc.get(&label, &buf, &pool),
        Ok(Value::Managed(ValueKind::GString, b"b".to_vec()))
    );
}

#[test]
fn kind_registry_metadata() {
    assert_eq!(kind_size(ValueKind::Nil), 0);
    assert_eq!(kind_size(ValueKind::Bool), 1);
    assert_eq!(kind_size(ValueKind::Int), 4);
    assert_eq!(kind_size(ValueKind::Float), 4);
    assert_eq!(kind_size(ValueKind::Vector2), 8);
    assert_eq!(kind_size(ValueKind::Vector3), 12);
    assert_eq!(kind_size(ValueKind::Basis), 36);
    assert_eq!(kind_size(ValueKind::Transform3D), 48);
    assert_eq!(kind_size(ValueKind::Projection), 64);
    assert_eq!(kind_size(ValueKind::Rid), 8);
    assert_eq!(kind_size(ValueKind::GString), 8);

    assert_eq!(kind_align(ValueKind::Bool), 1);
    assert_eq!(kind_align(ValueKind::Float), 4);
    assert_eq!(kind_align(ValueKind::Rid), 8);
    assert_eq!(kind_align(ValueKind::PackedByteArray), 8);

    assert!(!kind_is_managed(ValueKind::Float));
    assert!(!kind_is_managed(ValueKind::Rid));
    assert!(kind_is_managed(ValueKind::GString));
    assert!(kind_is_managed(ValueKind::Object));
    assert!(kind_is_managed(ValueKind::PackedColorArray));
    assert!(kind_is_managed(ValueKind::Callable));
}

#[test]
fn default_init_transform_kinds_identity() {
    let d = RecordTypeDescriptor::build(
        String::from("Spatial"),
        vec![
            entry("xform", ValueKind::Transform2D),
            entry("rot", ValueKind::Quaternion),
            entry("basis", ValueKind::Basis),
            entry("world", ValueKind::Transform3D),
            entry("proj", ValueKind::Projection),
        ],
        21,
    );
    let mut pool = ManagedPool::new();
    let mut buf = new_record(&d, &mut pool);
    let acc = RecordAccessor::new_resolved(Rc::new(d), 5);

    let one = 1.0f32.to_bits();
    for (name, kind, want) in [
        // column-major 2x2 basis plus origin: identity
        ("xform", ValueKind::Transform2D, vec![one, 0, 0, one, 0, 0]),
        // identity quaternion (0, 0, 0, 1)
        ("rot", ValueKind::Quaternion, vec![0, 0, 0, one]),
        ("basis", ValueKind::Basis, vec![one, 0, 0, 0, one, 0, 0, 0, one]),
        (
            "world",
            ValueKind::Transform3D,
            vec![one, 0, 0, 0, one, 0, 0, 0, one, 0, 0, 0],
        ),
        (
            "proj",
            ValueKind::Projection,
            vec![one, 0, 0, 0, 0, one, 0, 0, 0, 0, one, 0, 0, 0, 0, one],
        ),
    ] {
        let prop = String::from(name);
        // new_record already default-initialized every field
        assert_eq!(acc.get(&prop, &buf, &pool), Ok(Value::Composite(kind, want.clone())));
        // the explicit empty value stores the same canonical default
        assert_eq!(acc.set(&prop, Value::Composite(kind, vec![one; want.len()]), &mut buf, &mut pool), Ok(()));
        assert_eq!(acc.initialize(&prop, Some(Value::Nil), &mut buf, &mut pool), Ok(()));
        assert_eq!(acc.get(&prop, &buf, &pool), Ok(Value::Composite(kind, want)));
    }
}
