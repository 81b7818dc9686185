use virtio_gpu_nv::error::DeviceError;
use virtio_gpu_nv::handle_table::HandleTable;

/// A host descriptor, as the host would hand one in.
const FD: i32 = 7;

#[test]
fn insert_get_remove() {
    let mut t = HandleTable::new();
    let h = t.insert(FD);
    assert!(h > 0);
    assert!(t.get_raw(h).is_ok());
    assert!(t.remove(h).is_ok());
    assert!(matches!(t.get_raw(h), Err(DeviceError::BadHandle(_))));
}

#[test]
fn handles_are_unique() {
    let mut t = HandleTable::new();
    let h1 = t.insert(FD);
    let h2 = t.insert(FD);
    assert_ne!(h1, h2);
}

#[test]
fn removed_handles_do_not_come_back() {
    let mut t = HandleTable::default();
    let h1 = t.insert(10);
    assert_eq!(h1, 1);
    assert!(matches!(t.remove(h1), Ok(10)));
    assert!(matches!(t.remove(h1), Err(DeviceError::BadHandle(1))));
    let h2 = t.insert(11);
    assert_eq!(h2, 2);
    assert!(matches!(t.get_raw(h1), Err(DeviceError::BadHandle(1))));
    assert!(matches!(t.get_raw(h2), Ok(11)));
    assert_eq!(t.len(), 1);
}

#[test]
fn drain_returns_every_descriptor() {
    let mut t = HandleTable::new();
    t.insert(10);
    t.insert(20);
    let gone = t.insert(30);
    assert!(matches!(t.remove(gone), Ok(30)));
    assert!(!t.is_empty());
    let mut fds = t.drain_all();
    fds.sort();
    assert_eq!(fds, vec![10, 20]);
    assert!(t.is_empty());
    assert_eq!(t.insert(40), 4);
}

#[test]
fn removing_takes_one_handle() {
    let mut t = HandleTable::new();
    let a = t.insert(10);
    let b = t.insert(11);
    assert_eq!(t.len(), 2);
    assert!(matches!(t.remove(99), Err(DeviceError::BadHandle(99))));
    assert_eq!(t.len(), 2);
    assert!(matches!(t.remove(a), Ok(10)));
    assert_eq!(t.len(), 1);
    assert!(matches!(t.get_raw(a), Err(DeviceError::BadHandle(_))));
    assert!(matches!(t.get_raw(b), Ok(11)));
}
