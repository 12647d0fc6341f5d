use swingset::error::KernelError;
use swingset::kernel_types::{
    CapData as KernelCapData, CapSlot as KernelCapSlot, Message as KernelMessage,
    ObjectID as KernelObjectID, PendingDelivery, PromiseID as KernelPromiseID,
    Resolution as KernelResolution, VatID,
};
use swingset::map_inbound::map_inbound_object;
use swingset::map_outbound::{
    get_outbound_promise, get_outbound_slot, map_outbound_capdata, map_outbound_object,
    map_outbound_promise, map_outbound_resolution, map_outbound_result, map_outbound_send,
    map_outbound_slot,
};
use swingset::object_table::ObjectTable;
use swingset::promise::PromiseTable;
use swingset::vat::{CapData, CapSlot, Message, ObjectID, PromiseID, Resolution};
use swingset::vat_data::VatData;

#[test]
fn an_export_gets_its_kernel_object_on_the_first_way_out() {
    let us = VatID(3);
    let mut vd = VatData::new(us);
    let mut ot = ObjectTable::new();
    ot.allocate(VatID(0));
    let k = map_outbound_object(&mut vd, &mut ot, ObjectID(5)).unwrap();
    assert_eq!(k, KernelObjectID(1));
    assert_eq!(ot.owner_of(k), us);
    assert_eq!(map_outbound_object(&mut vd, &mut ot, ObjectID(5)), Ok(k));
    assert_eq!(ot.next_id(), KernelObjectID(2));
    // and it comes home under its own name
    assert_eq!(map_inbound_object(&mut vd, &ot, k), Ok(ObjectID(5)));
    assert_eq!(map_outbound_object(&mut vd, &mut ot, ObjectID(0)), Ok(KernelObjectID(2)));
}

#[test]
fn an_import_cannot_be_forged() {
    let mut vd = VatData::new(VatID(3));
    let mut ot = ObjectTable::new();
    assert_eq!(map_outbound_object(&mut vd, &mut ot, ObjectID(-1)), Err(KernelError::Confinement));
    assert_eq!(ot.next_id(), KernelObjectID(0));
    let theirs = ot.allocate(VatID(1));
    vd.object_clist.add(theirs.0, -1).unwrap();
    assert_eq!(map_outbound_object(&mut vd, &mut ot, ObjectID(-1)), Ok(theirs));
    assert_eq!(ot.owner_of(theirs), VatID(1));
}

#[test]
fn a_kernel_object_is_not_paired_twice() {
    let mut vd = VatData::new(VatID(3));
    let mut ot = ObjectTable::new();
    vd.object_clist.add(0, 9).unwrap();
    assert_eq!(map_outbound_object(&mut vd, &mut ot, ObjectID(5)), Err(KernelError::Duplicate));
    assert_eq!(ot.next_id(), KernelObjectID(0));
    assert_eq!(vd.object_clist.get_outbound(5), None);
}

#[test]
fn the_sender_decides_a_promise_it_introduces() {
    let us = VatID(3);
    let mut vd = VatData::new(us);
    let mut pt = PromiseTable::new();
    let k = map_outbound_promise(&mut vd, &mut pt, PromiseID(4)).unwrap();
    assert_eq!(k, KernelPromiseID(0));
    assert_eq!(pt.decider_of(k), Some(us));
    assert_eq!(pt.allocator_of(k), us);
    assert_eq!(map_outbound_promise(&mut vd, &mut pt, PromiseID(4)), Ok(k));
    assert_eq!(pt.next_id(), KernelPromiseID(1));
}

#[test]
fn the_receiver_decides_the_result_of_a_send() {
    let us = VatID(3);
    let them = VatID(8);
    let mut vd = VatData::new(us);
    let mut pt = PromiseTable::new();
    let k = map_outbound_result(&mut vd, &mut pt, them, PromiseID(4)).unwrap();
    assert_eq!(pt.decider_of(k), Some(them));
    assert_eq!(pt.allocator_of(k), us);
    assert_eq!(vd.promise_clist.get_outbound(4), Some(k.0));
    // a later reference to the same identifier is the same promise
    assert_eq!(map_outbound_promise(&mut vd, &mut pt, PromiseID(4)), Ok(k));
    assert_eq!(pt.decider_of(k), Some(them));
}

#[test]
fn lookups_never_allocate() {
    let mut vd = VatData::new(VatID(3));
    assert_eq!(get_outbound_promise(&vd, PromiseID(1)), Err(KernelError::Confinement));
    assert_eq!(
        get_outbound_slot(&vd, CapSlot::Object(ObjectID(1))),
        Err(KernelError::Confinement)
    );
    assert_eq!(
        get_outbound_slot(&vd, CapSlot::Promise(PromiseID(1))),
        Err(KernelError::Confinement)
    );
    vd.promise_clist.add(7, 1).unwrap();
    vd.object_clist.add(8, 1).unwrap();
    assert_eq!(get_outbound_promise(&vd, PromiseID(1)), Ok(KernelPromiseID(7)));
    assert_eq!(
        get_outbound_slot(&vd, CapSlot::Object(ObjectID(1))),
        Ok(KernelCapSlot::Object(KernelObjectID(8)))
    );
    assert_eq!(
        get_outbound_slot(&vd, CapSlot::Promise(PromiseID(1))),
        Ok(KernelCapSlot::Promise(KernelPromiseID(7)))
    );
}

#[test]
fn capdata_maps_slot_by_slot() {
    let mut vd = VatData::new(VatID(3));
    let mut ot = ObjectTable::new();
    let mut pt = PromiseTable::new();
    let data = CapData::new(
        b"body",
        &[
            CapSlot::Object(ObjectID(2)),
            CapSlot::Promise(PromiseID(2)),
            CapSlot::Object(ObjectID(1)),
            CapSlot::Object(ObjectID(2)),
        ],
    );
    let k = map_outbound_capdata(&mut vd, &mut pt, &mut ot, data).unwrap();
    assert_eq!(k.body, b"body");
    assert_eq!(
        k.slots,
        vec![
            KernelCapSlot::Object(KernelObjectID(0)),
            KernelCapSlot::Promise(KernelPromiseID(0)),
            KernelCapSlot::Object(KernelObjectID(1)),
            KernelCapSlot::Object(KernelObjectID(0)),
        ]
    );
    assert_eq!(
        map_outbound_slot(&mut vd, &mut pt, &mut ot, CapSlot::Object(ObjectID(1))),
        Ok(KernelCapSlot::Object(KernelObjectID(1)))
    );
}

#[test]
fn a_failing_outbound_slot_keeps_what_was_mapped_before_it() {
    let mut vd = VatData::new(VatID(3));
    let mut ot = ObjectTable::new();
    let mut pt = PromiseTable::new();
    let data = CapData::new(b"", &[CapSlot::Object(ObjectID(2)), CapSlot::Object(ObjectID(-2))]);
    let r = map_outbound_resolution(&mut vd, &mut pt, &mut ot, Resolution::Rejection(data));
    assert_eq!(r, Err(KernelError::Confinement));
    assert_eq!(vd.object_clist.get_outbound(2), Some(0));
    assert_eq!(ot.owner_of(KernelObjectID(0)), VatID(3));
}

#[test]
fn outbound_resolution_keeps_its_kind() {
    let mut vd = VatData::new(VatID(3));
    let mut ot = ObjectTable::new();
    let mut pt = PromiseTable::new();
    assert_eq!(
        map_outbound_resolution(
            &mut vd,
            &mut pt,
            &mut ot,
            Resolution::Reference(CapSlot::Object(ObjectID(1)))
        ),
        Ok(KernelResolution::Reference(KernelCapSlot::Object(KernelObjectID(0))))
    );
    assert_eq!(
        map_outbound_resolution(
            &mut vd,
            &mut pt,
            &mut ot,
            Resolution::Data(CapData::new(b"d", &[CapSlot::Object(ObjectID(1))]))
        ),
        Ok(KernelResolution::Data(KernelCapData {
            body: Vec::from("d"),
            slots: vec![KernelCapSlot::Object(KernelObjectID(0))],
        }))
    );
    assert_eq!(
        map_outbound_resolution(
            &mut vd,
            &mut pt,
            &mut ot,
            Resolution::Rejection(CapData::new(b"r", &[]))
        ),
        Ok(KernelResolution::Rejection(KernelCapData { body: Vec::from("r"), slots: vec![] }))
    );
}

#[test]
fn a_send_becomes_a_delivery() {
    let us = VatID(3);
    let them = VatID(8);
    let mut vd = VatData::new(us);
    let mut ot = ObjectTable::new();
    let mut pt = PromiseTable::new();
    let target = KernelCapSlot::Object(ot.allocate(them));
    let m = Message::new(
        "foo",
        b"args",
        &[CapSlot::Promise(PromiseID(1)), CapSlot::Object(ObjectID(1))],
        Some(PromiseID(2)),
    );
    let pd = map_outbound_send(&mut vd, &mut pt, &mut ot, target, them, m).unwrap();
    assert_eq!(
        pd,
        PendingDelivery::Deliver {
            target,
            message: KernelMessage {
                method: String::from("foo"),
                args: KernelCapData {
                    body: Vec::from("args"),
                    slots: vec![
                        KernelCapSlot::Promise(KernelPromiseID(1)),
                        KernelCapSlot::Object(KernelObjectID(1)),
                    ],
                },
                result: Some(KernelPromiseID(0)),
            },
        }
    );
    assert_eq!(pt.decider_of(KernelPromiseID(0)), Some(them));
    assert_eq!(pt.decider_of(KernelPromiseID(1)), Some(us));
}
