use swingset::clist::{CList, CListError};

#[test]
fn clist_test_add() {
    let mut c = CList::new();
    let k1: usize = 101;
    let v1: isize = 201;
    assert_eq!(c.add(k1, v1), Ok(()));
    assert_eq!(c.map_inbound(k1), Ok(v1));
    assert_eq!(c.map_inbound(k1), Ok(v1));
    assert_eq!(c.map_outbound(v1, || panic!()), k1);
    assert_eq!(c.map_outbound(v1, || panic!()), k1);
    let k2: usize = 102;
    let v2 = c.map_inbound(k2).unwrap();
    assert_eq!(Some(v2), c.get_inbound(k2));
    assert_eq!(Some(v2), c.get_inbound(k2));
    assert_eq!(Some(k2), c.get_outbound(v2));
    assert_eq!(Some(k2), c.get_outbound(v2));
}

#[test]
fn test_missing_outbound() {
    let mut c = CList::new();
    let vbad: isize = 666;
    assert_eq!(c.get_outbound(vbad), None);
    assert_eq!(c.map_outbound(vbad, || 44), 44);
    assert_eq!(c.get_outbound(vbad), Some(44));
    assert_eq!(c.map_outbound(vbad, || 45), 44);
}

#[test]
fn test_missing_inbound() {
    let mut c = CList::new();
    let kbad: usize = 666;
    assert_eq!(c.get_inbound(kbad), None);
    assert_eq!(c.map_inbound(kbad), Ok(-1));
    assert_eq!(c.get_inbound(kbad), Some(-1));
    assert_eq!(c.map_inbound(kbad), Ok(-1));
    assert_eq!(c.map_inbound(333), Ok(-2));
    assert_eq!(c.map_inbound(333), Ok(-2));
    assert_eq!(c.map_inbound(334), Ok(-3));
}

#[test]
#[should_panic]
fn test_add_duplicate_ktype() {
    let mut c = CList::new();
    let k1: usize = 101;
    let v1: isize = 201;
    c.add(k1, v1).unwrap();

    c.add(k1, 202).unwrap();
}

#[test]
#[should_panic]
fn test_add_duplicate_vtype() {
    let mut c = CList::new();
    let k1: usize = 101;
    let v1: isize = 201;
    c.add(k1, v1).unwrap();

    c.add(102, v1).unwrap();
}

#[test]
fn add_names_the_side_that_is_taken() {
    let mut c = CList::new();
    assert_eq!(c.add(101, 201), Ok(()));
    assert_eq!(c.add(101, 202), Err(CListError::KernelPresent));
    assert_eq!(c.add(102, 201), Err(CListError::VatPresent));
    // a refused pair leaves no trace
    assert_eq!(c.get_outbound(202), None);
    assert_eq!(c.get_inbound(102), None);
    assert_eq!(c.get_inbound(101), Some(201));
    assert_eq!(c.get_outbound(201), Some(101));
}

#[test]
fn both_directions_agree() {
    let mut c = CList::new();
    c.add(7, 3).unwrap();
    let v = c.map_inbound(8).unwrap();
    let k = c.map_outbound(5, || 9);
    for (k, v) in [(7usize, 3isize), (8, v), (k, 5)] {
        assert_eq!(c.get_inbound(k), Some(v));
        assert_eq!(c.get_outbound(v), Some(k));
    }
}

#[test]
fn inbound_allocation_skips_registered_imports() {
    let mut c = CList::new();
    c.add(50, -1).unwrap();
    c.add(51, -3).unwrap();
    assert_eq!(c.map_inbound(60), Ok(-2));
    assert_eq!(c.map_inbound(61), Ok(-4));
    assert_eq!(c.map_inbound(62), Ok(-5));
    assert_eq!(c.get_outbound(-1), Some(50));
    assert_eq!(c.get_outbound(-3), Some(51));
    assert_eq!(c.get_outbound(-2), Some(60));
}

#[test]
fn inbound_allocation_stops_before_the_least_identifier() {
    let mut c = CList::new();
    c.add(1, isize::MIN).unwrap();
    assert_eq!(c.map_inbound(2), Ok(-1));
    assert_eq!(c.get_outbound(isize::MIN), Some(1));
}
