use swingset::error::KernelError;
use swingset::kernel_types::{
    CapData as KernelCapData, CapSlot as KernelCapSlot, Message as KernelMessage,
    Resolution as KernelResolution, VatID,
};
use swingset::map_inbound::{
    map_inbound_message, map_inbound_object, map_inbound_promise, map_inbound_resolution,
    map_inbound_slot, map_inbound_target,
};
use swingset::object_table::ObjectTable;
use swingset::promise::PromiseTable;
use swingset::vat::{
    CapSlot as VatCapSlot, InboundTarget, ObjectID as VatObjectID, PromiseID as VatPromiseID,
    Resolution as VatResolution,
};
use swingset::vat_data::VatData;

#[test]
fn test_map_inbound_promise() {
    let us = VatID(1);
    let decider = VatID(3);
    let mut vd = VatData::new(us);
    let mut pt = PromiseTable::new();
    let p1 = pt.allocate_unresolved(decider, us); // ours
    vd.promise_clist.add(p1.0, 10).unwrap();
    let p2 = pt.allocate_unresolved(decider, decider); // not ours

    assert_eq!(map_inbound_promise(&mut vd, &pt, p1), Ok(VatPromiseID(10)));

    assert_eq!(map_inbound_promise(&mut vd, &pt, p2), Ok(VatPromiseID(-1)));
    // mapping should be stable
    assert_eq!(map_inbound_promise(&mut vd, &pt, p2), Ok(VatPromiseID(-1)));
}

#[test]
fn test_map_inbound_slot() {
    let us = VatID(1);
    let them = VatID(2);
    let decider = VatID(3);
    let mut vd = VatData::new(us);
    let mut pt = PromiseTable::new();
    let mut ot = ObjectTable::new();

    let o1 = ot.allocate(us); // ours
    vd.object_clist.add(o1.0, 10).unwrap();
    let o2 = ot.allocate(them); // not ours
    let ko1 = KernelCapSlot::Object(o1);
    let ko2 = KernelCapSlot::Object(o2);

    let p1 = pt.allocate_unresolved(decider, us); // ours
    vd.promise_clist.add(p1.0, 20).unwrap();
    let p2 = pt.allocate_unresolved(decider, them); // not ours
    let kp1 = KernelCapSlot::Promise(p1);
    let kp2 = KernelCapSlot::Promise(p2);

    assert_eq!(
        map_inbound_slot(&mut vd, &ot, &pt, ko1),
        Ok(VatCapSlot::Object(VatObjectID(10)))
    );
    assert_eq!(
        map_inbound_slot(&mut vd, &ot, &pt, ko2),
        Ok(VatCapSlot::Object(VatObjectID(-1)))
    );
    assert_eq!(
        map_inbound_slot(&mut vd, &ot, &pt, ko2),
        Ok(VatCapSlot::Object(VatObjectID(-1)))
    );

    assert_eq!(
        map_inbound_slot(&mut vd, &ot, &pt, kp1),
        Ok(VatCapSlot::Promise(VatPromiseID(20)))
    );
    assert_eq!(
        map_inbound_slot(&mut vd, &ot, &pt, kp2),
        Ok(VatCapSlot::Promise(VatPromiseID(-1)))
    );
    assert_eq!(
        map_inbound_slot(&mut vd, &ot, &pt, kp2),
        Ok(VatCapSlot::Promise(VatPromiseID(-1)))
    );
}

#[test]
fn a_reference_that_comes_home_must_be_known() {
    let us = VatID(1);
    let mut vd = VatData::new(us);
    let mut ot = ObjectTable::new();
    let mut pt = PromiseTable::new();
    let o = ot.allocate(us);
    let p = pt.allocate_unresolved(VatID(2), us);
    assert_eq!(map_inbound_object(&mut vd, &ot, o), Err(KernelError::Dangling));
    assert_eq!(map_inbound_promise(&mut vd, &pt, p), Err(KernelError::Dangling));
    // nothing was allocated for them
    assert_eq!(vd.object_clist.get_inbound(o.0), None);
    assert_eq!(vd.promise_clist.get_inbound(p.0), None);
}

#[test]
fn an_identifier_that_names_nothing_is_refused() {
    let mut vd = VatData::new(VatID(1));
    let ot = ObjectTable::new();
    let pt = PromiseTable::new();
    assert_eq!(
        map_inbound_slot(&mut vd, &ot, &pt, KernelCapSlot::Object(swingset::kernel_types::ObjectID(5))),
        Err(KernelError::Dangling)
    );
    assert_eq!(
        map_inbound_slot(&mut vd, &ot, &pt, KernelCapSlot::Promise(swingset::kernel_types::PromiseID(5))),
        Err(KernelError::Dangling)
    );
}

#[test]
fn target_keeps_its_kind() {
    let mut vd = VatData::new(VatID(1));
    let mut ot = ObjectTable::new();
    let mut pt = PromiseTable::new();
    let o = ot.allocate(VatID(2));
    let p = pt.allocate_unresolved(VatID(1), VatID(2));
    assert_eq!(
        map_inbound_target(&mut vd, &ot, &pt, KernelCapSlot::Object(o)),
        Ok(InboundTarget::Object(VatObjectID(-1)))
    );
    assert_eq!(
        map_inbound_target(&mut vd, &ot, &pt, KernelCapSlot::Promise(p)),
        Ok(InboundTarget::Promise(VatPromiseID(-1)))
    );
}

#[test]
fn message_maps_every_slot_and_the_result() {
    let mut vd = VatData::new(VatID(1));
    let mut ot = ObjectTable::new();
    let mut pt = PromiseTable::new();
    let o1 = ot.allocate(VatID(2));
    let o2 = ot.allocate(VatID(2));
    let p = pt.allocate_unresolved(VatID(1), VatID(2));
    let result = pt.allocate_unresolved(VatID(1), VatID(2));
    let m = KernelMessage {
        method: String::from("foo"),
        args: KernelCapData {
            body: Vec::from("body"),
            slots: vec![
                KernelCapSlot::Object(o2),
                KernelCapSlot::Promise(p),
                KernelCapSlot::Object(o1),
                KernelCapSlot::Object(o2),
            ],
        },
        result: Some(result),
    };
    let vm = map_inbound_message(&mut vd, &ot, &pt, m).unwrap();
    assert_eq!(vm.method, "foo");
    assert_eq!(vm.args.body, b"body");
    assert_eq!(
        vm.args.slots,
        vec![
            VatCapSlot::Object(VatObjectID(-1)),
            VatCapSlot::Promise(VatPromiseID(-1)),
            VatCapSlot::Object(VatObjectID(-2)),
            VatCapSlot::Object(VatObjectID(-1)),
        ]
    );
    assert_eq!(vm.result, Some(VatPromiseID(-2)));
}

#[test]
fn a_failing_slot_keeps_what_was_mapped_before_it() {
    let mut vd = VatData::new(VatID(1));
    let mut ot = ObjectTable::new();
    let pt = PromiseTable::new();
    let o1 = ot.allocate(VatID(2));
    let data = KernelCapData {
        body: vec![],
        slots: vec![KernelCapSlot::Object(o1), KernelCapSlot::Object(swingset::kernel_types::ObjectID(9))],
    };
    let r = map_inbound_resolution(&mut vd, &ot, &pt, KernelResolution::Data(data));
    assert!(matches!(r, Err(KernelError::Dangling)));
    assert_eq!(vd.object_clist.get_inbound(o1.0), Some(-1));
}

#[test]
fn resolution_keeps_its_kind() {
    let mut vd = VatData::new(VatID(1));
    let mut ot = ObjectTable::new();
    let pt = PromiseTable::new();
    let o1 = ot.allocate(VatID(2));
    let r = map_inbound_resolution(
        &mut vd,
        &ot,
        &pt,
        KernelResolution::Reference(KernelCapSlot::Object(o1)),
    )
    .unwrap();
    assert!(matches!(r, VatResolution::Reference(VatCapSlot::Object(VatObjectID(-1)))));
    let d = KernelCapData { body: Vec::from("x"), slots: vec![KernelCapSlot::Object(o1)] };
    match map_inbound_resolution(&mut vd, &ot, &pt, KernelResolution::Rejection(d)).unwrap() {
        VatResolution::Rejection(d) => {
            assert_eq!(d.body, b"x");
            assert_eq!(d.slots, vec![VatCapSlot::Object(VatObjectID(-1))]);
        }
        _ => panic!("kind changed"),
    }
}
