use virtio_gpu_nv::harness::{frame, frame_len, path_to_open};
use virtio_gpu_nv::nv_gpu_device::{ActivateError, NvGpuDevice, VirtioShmRegion};
use virtio_gpu_nv::nvidia::Dispatch;
use virtio_gpu_nv::protocol::{MsgHeader, MsgType, OpenReq};
use virtio_gpu_nv::shm::ZoneConfig;
use virtio_gpu_nv::virtio::{DescChain, Descriptor};

#[test]
fn readable_descriptors_are_joined() {
    let chain = DescChain {
        descriptors: vec![
            Descriptor { data: &[1, 2], writable: false },
            Descriptor { data: &[9, 9], writable: true },
            Descriptor { data: &[], writable: false },
            Descriptor { data: &[3], writable: false },
        ],
    };
    assert_eq!(chain.readable_bytes(), vec![1, 2, 3]);
    assert!(DescChain { descriptors: vec![] }.readable_bytes().is_empty());
}

#[test]
fn configuration_of_the_window() {
    let mut dev = NvGpuDevice::with_default_zones(Some(5), 0x1000);
    let mut c = [0xAAu8; 26];
    dev.read_config(0, &mut c);
    assert_eq!(&c[..8], &[1, 0, 0, 0, 0, 0, 0, 0]);
    assert_eq!(&c[8..16], &[0; 8]);
    assert_eq!(&c[16..24], &(256u64 * 1024 * 1024).to_le_bytes());
    assert_eq!(&c[24..], &[0xAA; 2]);
    assert!(dev.shm_region().is_none());

    let region = VirtioShmRegion { host_addr: 1, guest_addr: 0x1_0000_0000, size: 0x2000 };
    dev.set_shm_region(region);
    assert_eq!(dev.shm_region(), Some(region));
    let mut c = [0u8; 12];
    dev.read_config(12, &mut c);
    assert_eq!(c, [1, 0, 0, 0, 0, 0x20, 0, 0, 0, 0, 0, 0]);
    let mut d = [7u8; 2];
    dev.read_config(24, &mut d);
    dev.read_config(u64::MAX, &mut d);
    assert_eq!(d, [7, 7]);
}

#[test]
fn features_and_identity() {
    let mut dev = NvGpuDevice::with_default_zones(Some(5), 0x1000);
    assert_eq!(dev.avail_features(), 1 << 32);
    dev.set_acked_features(3);
    assert_eq!(dev.acked_features(), 3);
    assert_eq!(dev.device_type(), 0x8042);
    assert_eq!(dev.device_name(), "gpu-nv");
    assert_eq!(dev.queue_config(), vec![256]);
    assert_eq!(dev.shm_memfd_raw(), 5);
    dev.write_config(0, &[1]);
}

#[test]
fn activation_and_reset() {
    let cfg = ZoneConfig { uc_size: 4096, wc_size: 4096, wb_size: 4096 };
    let mut dev = NvGpuDevice::new(cfg, None, 0x1000);
    assert_eq!(dev.shm_memfd_raw(), -1);
    assert_eq!(dev.activate(2), Err(ActivateError::BadActivate));
    assert!(!dev.is_activated());
    assert_eq!(dev.activate(1), Ok(()));
    assert!(dev.is_activated());

    let mut req = vec![];
    MsgHeader { msg_type: MsgType::Open.code(), cookie: 1 }.write(&mut req);
    OpenReq { kind: 0, index: 0 }.write(&mut req);
    let mut resp = [0u8; 64];
    match dev.backend.dispatch(&req, &mut resp) {
        Dispatch::Open(call) => dev.backend.complete_open(call.cookie, Ok(12), &mut resp),
        other => panic!("{:?}", other),
    };
    assert_eq!(dev.reset(), vec![12]);
    assert!(!dev.is_activated());
    assert!(dev.teardown().is_empty());
}

#[test]
fn frames() {
    assert_eq!(frame(&[7, 8]), vec![2, 0, 0, 0, 7, 8]);
    assert_eq!(frame_len(&[1, 2, 0, 0]), 513);
    assert_eq!(path_to_open("/dev/nvidiactl".to_string(), true), "/dev/null");
    assert_eq!(path_to_open("/dev/nvidiactl".to_string(), false), "/dev/nvidiactl");
    assert_eq!(path_to_open("/dev/nvidia0".to_string(), true), "/dev/nvidia0");
}
