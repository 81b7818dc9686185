use virtio_gpu_nv::error::DeviceError;
use virtio_gpu_nv::shm::{align_up, PgprotKind, ShmAllocator, Zone, ZoneConfig};

fn small_cfg() -> ZoneConfig {
    ZoneConfig { uc_size: 4096 * 2, wc_size: 4096 * 4, wb_size: 4096 * 2 }
}

/// An allocator over a window that the host would have mapped at 0x7000_0000.
fn small_alloc() -> ShmAllocator {
    ShmAllocator::new(small_cfg(), Some(3), 0x7000_0000)
}

#[test]
fn memfd_is_valid() {
    let a = small_alloc();
    assert!(a.memfd_raw() >= 0);
    assert!(a.base_ptr() != 0);
    assert_eq!(a.total_size(), 4096 * 8);
}

#[test]
fn zones_dont_overlap() {
    let a = small_alloc();
    assert_eq!(a.uc.base + a.uc.size, a.wc.base);
    assert_eq!(a.wc.base + a.wc.size, a.wb.base);
}

#[test]
fn alloc_correct_zone() {
    let mut a = small_alloc();
    let uc = a.allocate(100, PgprotKind::Uncached).unwrap();
    let wc = a.allocate(100, PgprotKind::WriteCombine).unwrap();
    let wb = a.allocate(100, PgprotKind::WriteBack).unwrap();

    assert_eq!(uc.offset, a.uc.base);
    assert_eq!(wc.offset, a.wc.base);
    assert_eq!(wb.offset, a.wb.base);
}

#[test]
fn alloc_respects_page_alignment() {
    let mut a = small_alloc();
    let r1 = a.allocate(1, PgprotKind::WriteBack).unwrap();
    let r2 = a.allocate(1, PgprotKind::WriteBack).unwrap();
    assert_eq!(r2.offset - r1.offset, 4096);
}

#[test]
fn zone_full_returns_error() {
    let mut a = small_alloc();
    a.allocate(4096 * 2, PgprotKind::Uncached).unwrap();
    assert!(a.allocate(1, PgprotKind::Uncached).is_err());
    assert!(a.allocate(4096, PgprotKind::WriteCombine).is_ok());
}

#[test]
fn set_base_ptr_changes_target() {
    let mut a = small_alloc();
    let original = a.base_ptr();
    let fake_ptr = 0xDEAD_0000;
    a.set_base_ptr(fake_ptr);
    assert_eq!(a.base_ptr(), fake_ptr);
    assert_ne!(a.base_ptr(), original);
}

#[test]
fn map_host_fd_with_memfd_fallback() {
    let mut a = small_alloc();
    let region = a.allocate(4096, PgprotKind::WriteCombine).unwrap();
    let map = a.map_host_fd(region.offset, 4096, 42);
    assert_eq!(map.target, a.base_ptr() + region.offset);
    assert_eq!(map.target, 0x7000_2000);
    assert_eq!(map.length, 4096);
    assert_eq!(map.fd, 42);
}

#[test]
fn full_zone_states_what_is_left() {
    let mut a = small_alloc();
    a.allocate(4097, PgprotKind::WriteCombine).unwrap();
    match a.allocate(4096 * 2 + 1, PgprotKind::WriteCombine) {
        Err(DeviceError::ZoneFull { pgprot, free, requested }) => {
            assert_eq!(pgprot, PgprotKind::WriteCombine);
            assert_eq!(free, 4096 * 2);
            assert_eq!(requested, 4096 * 2 + 1);
        }
        other => panic!("{:?}", other),
    }
    // What was refused takes no room.
    assert_eq!(a.allocate(4096 * 2, PgprotKind::WriteCombine).unwrap().offset, 4096 * 4);
}

#[test]
fn regions_of_all_zones_are_disjoint() {
    let mut a = small_alloc();
    let mut ends = vec![];
    for kind in [
        PgprotKind::Uncached,
        PgprotKind::Uncached,
        PgprotKind::WriteCombine,
        PgprotKind::WriteCombine,
        PgprotKind::WriteBack,
        PgprotKind::WriteBack,
    ] {
        let r = a.allocate(4000, kind).unwrap();
        ends.push((r.offset, r.offset + r.length));
    }
    for w in ends.windows(2) {
        assert!(w[0].1 <= w[1].0);
    }
    assert!(ends[5].1 <= a.total_size());
}

#[test]
fn lengths_near_the_machine_limit_are_not_measurable() {
    let a = small_alloc();
    assert!(a.can_measure(u64::MAX - 4096, PgprotKind::Uncached));
    assert!(!a.can_measure(u64::MAX - 4095, PgprotKind::Uncached));
    assert!(!a.can_measure(u64::MAX, PgprotKind::WriteBack));
}

#[test]
fn default_zones() {
    let cfg = ZoneConfig::default_256mib();
    assert_eq!(cfg.total(), 256 * 1024 * 1024);
    let a = ShmAllocator::with_default_zones(None, 0x1000);
    assert_eq!(a.memfd_raw(), -1);
    assert_eq!(a.uc_zone_offset(), 0);
    assert_eq!(a.wc_zone_offset(), 4 * 1024 * 1024);
    assert_eq!(a.wb_zone_offset(), 132 * 1024 * 1024);
    assert_eq!(a.total_size(), 256 * 1024 * 1024);
}

#[test]
fn caching_modes_have_codes() {
    assert_eq!(PgprotKind::from_u8(0), Some(PgprotKind::WriteBack));
    assert_eq!(PgprotKind::from_u8(1), Some(PgprotKind::WriteCombine));
    assert_eq!(PgprotKind::from_u8(2), Some(PgprotKind::Uncached));
    assert_eq!(PgprotKind::from_u8(3), None);
    assert_eq!(PgprotKind::Uncached.code(), 2);
}

#[test]
fn rounding_up() {
    assert_eq!(align_up(0, 4096), 0);
    assert_eq!(align_up(1, 4096), 4096);
    assert_eq!(align_up(4096, 4096), 4096);
    assert_eq!(align_up(5, 1), 5);
    assert_eq!(align_up(5, 8), 8);
    assert_eq!(align_up(1, 1 << 62), 1 << 62);
    assert_eq!(align_up(u64::MAX - 16, 16), u64::MAX - 15);
}

#[test]
fn zone_of_odd_size() {
    let mut z = Zone::new(10, 4096 * 2 + 100);
    assert_eq!(z.free_bytes(), 4096 * 2 + 100);
    assert_eq!(z.allocate(1), Some(10));
    assert_eq!(z.free_bytes(), 4096 + 100);
    assert_eq!(z.allocate(4097), None);
    assert_eq!(z.free_bytes(), 4096 + 100);
    assert_eq!(z.allocate(4096), Some(10 + 4096));
    assert_eq!(z.allocate(1), None);
    assert_eq!(z.allocate(0), Some(10 + 4096 * 2));
    assert_eq!(z.free_bytes(), 100);
}
