use virtio_gpu_nv::abi::ioctl::{
    escape_of, NV_ESC_RM_MAP_MEMORY, _IO, _IOC, _IOR, _IOW, _IOWR,
};
use virtio_gpu_nv::abi::versions::v595_58_03::{table, IoctlKind};
use virtio_gpu_nv::abi::versions::{is_supported, supported};
use virtio_gpu_nv::version::DriverVersion;

#[test]
fn parse_version_string() {
    let content =
        "NVRM version: NVIDIA UNIX x86_64 Kernel Module  535.129.03  Fri Oct 27 05:09:12 UTC 2023\n\
         GCC version: gcc version 12.2.0";

    let v = DriverVersion::detect(content).expect("should have found version");
    assert_eq!(v.major, 535);
    assert_eq!(v.minor, 129);
    assert_eq!(v.patch, 3);
    assert_eq!(v.as_string(), "535.129.03");
}

#[test]
fn versions_that_are_too_old_or_malformed_are_passed_over() {
    let err = "Could not parse NVIDIA driver version from /proc/driver/nvidia/version";
    assert_eq!(DriverVersion::detect("gcc version 12.2.0").unwrap_err(), err);
    assert_eq!(DriverVersion::detect("").unwrap_err(), err);
    assert_eq!(DriverVersion::detect("535.129 535.129.03.1 535.a.1 535..1").unwrap_err(), err);
    assert_eq!(DriverVersion::detect("535.129.4294967296").unwrap_err(), err);
    let v = DriverVersion::detect("499.1.1\t+500.+1.02\n600.0.0").unwrap();
    assert_eq!(v, DriverVersion::new(500, 1, 2));
    let v = DriverVersion::detect("x\u{2003}595.58.03\u{a0}y").unwrap();
    assert_eq!(v, DriverVersion::new(595, 58, 3));
}

#[test]
fn version_text_reads_back() {
    for v in [
        DriverVersion::new(500, 0, 0),
        DriverVersion::new(595, 58, 3),
        DriverVersion::new(4294967295, 10, 4294967295),
    ] {
        assert_eq!(DriverVersion::detect(&v.as_string()), Ok(v));
    }
    assert_eq!(DriverVersion::new(1, 2, 3).as_string(), "1.02.03");
    assert_eq!(DriverVersion::new(4294967295, 10, 100).as_string(), "4294967295.10.100");
}

#[test]
fn only_the_exact_version_is_supported() {
    assert!(is_supported(DriverVersion::new(535, 129, 3)));
    assert!(!is_supported(DriverVersion::new(535, 129, 4)));
    assert!(!is_supported(DriverVersion::new(595, 58, 3)));
    assert_eq!(supported().as_string(), "535.129.03");
}

#[test]
fn ioctl_numbers_have_fields() {
    assert_eq!(_IOWR(210, 72), (3 << 30) | (72 << 16) | (0x46 << 8) | 210);
    assert_eq!(_IO(1), 0x4601);
    assert_eq!(_IOW(1, 8), 0x4008_4601);
    assert_eq!(_IOR(1, 8), 0x8008_4601);
    assert_eq!(_IOC(3, 0x46, 0x4e, 56), _IOWR(NV_ESC_RM_MAP_MEMORY, 56));
    assert_eq!(escape_of(_IOWR(NV_ESC_RM_MAP_MEMORY, 56)), 0x4e);
    assert_eq!(escape_of(0xFFFF_FFFF_FFFF_FF01), 1);
}

#[test]
fn table_entries() {
    let t = table();
    assert_eq!(t.len(), 10);
    for e in &t {
        assert_eq!(escape_of(e.number), e.escape);
    }
    assert_eq!(t[0].number, _IOWR(0x25, 4096));
    assert_eq!(t[2].kind, IoctlKind::FdCarrying);
    assert_eq!(t[3].number, 0xC030_4655);
    assert_eq!(t[4].kind, IoctlKind::RmControl);
    assert_eq!(t[6].kind, IoctlKind::Mapping);
    assert_eq!(t[6].escape, 0x4e);
    assert_eq!(t[9].escape, 0x2d);
}
