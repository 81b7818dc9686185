use virtio_gpu_nv::errno::{EBADF, EINVAL, EIO, ENODEV, ENOMEM, ENOSYS, ENOTTY};
use virtio_gpu_nv::gpu_nv::allowlist::{
    fd_translation_ioctls, AllowedIoctls, NVGPU_CAP_COMPUTE, NVGPU_CAP_GRAPHICS,
    NVGPU_CAP_UTILITY, NVGPU_CAP_VIDEO,
};
use virtio_gpu_nv::gpu_nv::config::{DriDevice, GpuInfo, GpuNvConfig, HostProcFile, SysFile};
use virtio_gpu_nv::gpu_nv::device::{ActivateError, GpuNv};
use virtio_gpu_nv::gpu_nv::mmio::MmioAllocator;
use virtio_gpu_nv::gpu_nv::step::{HostAction, IoctlCall, MemoryRegion, Step};
use virtio_gpu_nv::gpu_nv::wire::{
    bytes_of, ioc_nr, NvgpuIoctlReq, NvgpuIoctlResp, NvgpuMmapReq, NvgpuMmapResp, NvgpuMsgHdr,
    NvgpuMunmapReq, NvgpuOpenReq, NvgpuOpenResp, NVGPU_DEV_UVM, NVGPU_MSG_CLOSE, NVGPU_MSG_GET_PROC_FILES,
    NVGPU_MSG_GET_SYS_FILES, NVGPU_MSG_IOCTL, NVGPU_MSG_MMAP, NVGPU_MSG_MUNMAP, NVGPU_MSG_OPEN,
};
use virtio_gpu_nv::gpu_nv::worker::Worker;

const BASE: u64 = 0x20_0000_0000;

fn gpu(addr: &str, minor: u32, text: &str) -> GpuInfo {
    GpuInfo {
        pci_addr: addr.to_string(),
        minor,
        information: HostProcFile { guest_path: "x".to_string(), content: text.to_string() },
    }
}

fn dri(name: &str, major: u32, minor: u32, gpu_id: u32) -> DriDevice {
    DriDevice { name: name.to_string(), major, minor, gpu_id }
}

fn config(caps: u32) -> GpuNvConfig {
    GpuNvConfig {
        num_gpus: 1,
        caps,
        driver_version: "595.58.03".to_string(),
        gpus: vec![gpu("0000:08:00.0", 3, "Model: A\n")],
        extra_proc: vec![HostProcFile {
            guest_path: "driver/nvidia/version".to_string(),
            content: "v1".to_string(),
        }],
        sys_files: vec![SysFile { path: "a/b".to_string(), content: vec![1, 2, 3] }],
        dri_devices: vec![dri("card1", 226, 1, 7), dri("renderD128", 226, 128, 7)],
    }
}

fn device(caps: u32) -> GpuNv {
    GpuNv::new(config(caps), BASE, 0x10_0000, 10)
}

fn worker(caps: u32) -> Worker {
    device(caps).activate(2).unwrap()
}

fn hdr(msg_type: u32, handle: u32) -> NvgpuMsgHdr {
    NvgpuMsgHdr { msg_type, handle, status: 0, padding: 0 }
}

fn done(step: Step) -> (Vec<u8>, Vec<HostAction>) {
    match step {
        Step::Done(r) => (r.bytes, r.actions),
        other => panic!("{:?}", other),
    }
}

/// The header of a response without actions.
fn header_of(step: Step) -> NvgpuMsgHdr {
    let (bytes, actions) = done(step);
    assert!(actions.is_empty());
    assert_eq!(bytes.len(), 16);
    NvgpuMsgHdr::read(&bytes)
}

fn assert_refused(step: Step, handle: u32, errno: i32) {
    let h = header_of(step);
    assert_eq!((h.msg_type, h.handle, h.status, h.padding), (0, handle, -errno, 0));
}

fn open_req(device_type: u32) -> Vec<u8> {
    bytes_of(&NvgpuOpenReq { hdr: hdr(NVGPU_MSG_OPEN, 0), device_type, flags: 0 })
}

/// Opens a device, which the host opens as `fd`.
fn open(w: &mut Worker, device_type: u32, fd: i32) -> u32 {
    assert!(!w.has_pending());
    match w.process_request(&open_req(device_type)) {
        Step::Open(call) => {
            assert!(w.can_open());
            let (bytes, _) = done(w.finish_open(call.device_type, Ok(fd)));
            let r = NvgpuOpenResp::read(&bytes);
            assert_eq!((r.hdr.msg_type, r.hdr.status), (NVGPU_MSG_OPEN, 0));
            r.hdr.handle
        }
        other => panic!("{:?}", other),
    }
}

fn ioctl_req(handle: u32, cmd: u32, data: &[u8], nested: &[u8]) -> Vec<u8> {
    let mut v = bytes_of(&NvgpuIoctlReq {
        hdr: hdr(NVGPU_MSG_IOCTL, handle),
        cmd,
        data_len: data.len() as u32,
        nested_offset: data.len() as u32,
        nested_len: nested.len() as u32,
    });
    v.extend(data);
    v.extend(nested);
    v
}

fn forwarded(w: &mut Worker, req: &[u8]) -> IoctlCall {
    match w.process_request(req) {
        Step::Ioctl(call) => call,
        other => panic!("{:?}", other),
    }
}

fn mmap_req(handle: u32, size: u64) -> Vec<u8> {
    bytes_of(&NvgpuMmapReq {
        hdr: hdr(NVGPU_MSG_MMAP, handle),
        size,
        offset: 0x55,
        prot: 3,
        padding: 0,
    })
}

/// Maps memory, which the host maps at `addr`.
fn map(w: &mut Worker, handle: u32, size: u64, addr: u64) -> NvgpuMmapResp {
    let call = match w.process_request(&mmap_req(handle, size)) {
        Step::Mmap(call) => call,
        other => panic!("{:?}", other),
    };
    assert!(w.is_open(call.handle) && w.can_place(call.size));
    match w.mmap_done(call, Ok(addr)) {
        Step::SetRegion(region) => {
            assert_eq!((region.flags, region.memory_size), (0, size));
            assert_eq!(region.userspace_addr, addr);
        }
        other => panic!("{:?}", other),
    }
    assert!(w.has_pending() && w.can_register());
    let (bytes, actions) = done(w.slot_done(true));
    assert!(actions.is_empty());
    NvgpuMmapResp::read(&bytes)
}

fn close(w: &mut Worker, handle: u32) -> Vec<HostAction> {
    let (bytes, actions) = done(w.process_request(&bytes_of(&hdr(NVGPU_MSG_CLOSE, handle))));
    let h = NvgpuMsgHdr::read(&bytes);
    assert_eq!((h.msg_type, h.handle, h.status), (NVGPU_MSG_CLOSE, handle, 0));
    actions
}

fn munmap(w: &mut Worker, mapping_id: u32) -> Vec<HostAction> {
    let req = bytes_of(&NvgpuMunmapReq { hdr: hdr(NVGPU_MSG_MUNMAP, 9), mapping_id, padding: 0 });
    let (bytes, actions) = done(w.process_request(&req));
    let h = NvgpuMsgHdr::read(&bytes);
    assert_eq!((h.msg_type, h.handle, h.status), (NVGPU_MSG_MUNMAP, 9, 0));
    actions
}

fn released(slot: u32, guest: u64, addr: u64, size: u64) -> Vec<HostAction> {
    vec![
        HostAction::SetRegion(MemoryRegion {
            slot,
            flags: 0,
            guest_phys_addr: guest,
            memory_size: 0,
            userspace_addr: 0,
        }),
        HostAction::Munmap { addr, size },
    ]
}

// ---- messages ----

#[test]
fn messages_are_packed_and_little_endian() {
    let h = NvgpuMsgHdr { msg_type: 3, handle: 0x0102_0304, status: -25, padding: 0 };
    assert_eq!(bytes_of(&h), vec![3, 0, 0, 0, 4, 3, 2, 1, 0xE7, 0xFF, 0xFF, 0xFF, 0, 0, 0, 0]);
    assert_eq!(NvgpuMsgHdr::read(&bytes_of(&h)).status, -25);
    assert_eq!(bytes_of(&NvgpuOpenReq::default()).len(), 24);
    assert_eq!(bytes_of(&NvgpuOpenResp::default()).len(), 16);
    assert_eq!(bytes_of(&NvgpuIoctlReq::default()).len(), 32);
    assert_eq!(bytes_of(&NvgpuIoctlResp::default()).len(), 24);
    assert_eq!(bytes_of(&NvgpuMmapReq::default()).len(), 40);
    assert_eq!(bytes_of(&NvgpuMunmapReq::default()).len(), 24);
    let m = NvgpuMmapResp { hdr: h, guest_phys_addr: 0x1122_3344_5566, size: 7, mapping_id: 8, padding: 0 };
    let b = bytes_of(&m);
    assert_eq!(b.len(), 40);
    assert_eq!(&b[16..24], &[0x66, 0x55, 0x44, 0x33, 0x22, 0x11, 0, 0]);
    let back = NvgpuMmapResp::read(&b);
    assert_eq!((back.guest_phys_addr, back.size, back.mapping_id), (0x1122_3344_5566, 7, 8));
}

#[test]
fn ioctl_number_is_the_lowest_byte() {
    assert_eq!(ioc_nr(0xC020_462A), 0x2A);
    assert_eq!(ioc_nr(0xFFFF_FFFF), 0xFF);
    assert_eq!(ioc_nr(0x100), 0);
}

#[test]
fn short_and_unknown_messages() {
    let mut w = worker(0);
    assert_refused(w.process_request(&[]), 0, EINVAL);
    assert_refused(w.process_request(&[1; 15]), 0, EINVAL);
    assert_refused(w.process_request(&bytes_of(&hdr(0, 5))), 5, ENOSYS);
    assert_refused(w.process_request(&bytes_of(&hdr(8, 6))), 6, ENOSYS);
    for t in [NVGPU_MSG_OPEN, NVGPU_MSG_IOCTL, NVGPU_MSG_MMAP, NVGPU_MSG_MUNMAP] {
        assert_refused(w.process_request(&bytes_of(&hdr(t, 5))), 0, EINVAL);
    }
}

// ---- OPEN and CLOSE ----

#[test]
fn device_types_have_files() {
    let mut w = worker(0);
    for (t, path) in [
        (0, "/dev/nvidia0"),
        (247, "/dev/nvidia247"),
        (255, "/dev/nvidiactl"),
        (256, "/dev/nvidia-uvm"),
        (257, "/dev/nvidia-uvm-tools"),
        (258, "/dev/nvidia-modeset"),
        (512, "/dev/dri/card1"),
        (513, "/dev/dri/renderD128"),
    ] {
        match w.process_request(&open_req(t)) {
            Step::Open(call) => {
                assert_eq!(call.path, path);
                assert_eq!(call.device_type, t);
            }
            other => panic!("{:?}", other),
        }
    }
    for t in [248, 254, 259, 511] {
        assert_refused(w.process_request(&open_req(t)), 0, EINVAL);
    }
    assert_refused(w.process_request(&open_req(514)), 0, ENODEV);
    assert_refused(w.process_request(&open_req(u32::MAX)), 0, ENODEV);
}

#[test]
fn failed_opens_are_reported() {
    let mut w = worker(0);
    assert_refused(w.finish_open(255, Err(Some(13))), 0, 13);
    assert_refused(w.finish_open(255, Err(None)), 0, EIO);
    assert_eq!(open(&mut w, 255, 20), 1);
}

#[test]
fn handles_count_up() {
    let mut w = worker(0);
    assert_eq!(open(&mut w, 255, 20), 1);
    assert_eq!(close(&mut w, 1), vec![HostAction::CloseFd(20)]);
    assert!(!w.is_open(1));
    assert_eq!(open(&mut w, 255, 20), 2);
    assert!(w.is_open(2));
    // Closing what is not open is no error.
    assert!(close(&mut w, 1).is_empty());
    assert!(close(&mut w, 77).is_empty());
}

// ---- MMAP and MUNMAP ----

#[test]
fn mappings_are_placed_one_after_the_other() {
    let mut w = worker(0);
    let h = open(&mut w, 0, 20);
    let a = map(&mut w, h, 0x1001, 0xA000);
    assert_eq!((a.guest_phys_addr, a.size, a.mapping_id), (BASE, 0x1001, 1));
    assert_eq!((a.hdr.msg_type, a.hdr.handle, a.hdr.status), (NVGPU_MSG_MMAP, h, 0));
    let b = map(&mut w, h, 0x1000, 0xB000);
    assert_eq!((b.guest_phys_addr, b.mapping_id), (BASE + 0x2000, 2));
    assert_eq!(munmap(&mut w, 1), released(10, BASE, 0xA000, 0x1001));
    assert!(munmap(&mut w, 1).is_empty());
    let c = map(&mut w, h, 0x1000, 0xC000);
    assert_eq!((c.guest_phys_addr, c.mapping_id), (BASE + 0x3000, 3));
    // Closing ends what is left, in order, and then the file.
    let mut expected = released(11, BASE + 0x2000, 0xB000, 0x1000);
    expected.extend(released(12, BASE + 0x3000, 0xC000, 0x1000));
    expected.push(HostAction::CloseFd(20));
    assert_eq!(close(&mut w, h), expected);
    assert!(munmap(&mut w, 2).is_empty());
}

#[test]
fn closing_a_file_keeps_the_mappings_of_others() {
    let mut w = worker(0);
    let h = open(&mut w, 0, 20);
    let g = open(&mut w, 1, 21);
    let a = map(&mut w, h, 0x1000, 0xA000);
    let b = map(&mut w, g, 0x1000, 0xB000);
    let actions = close(&mut w, h);
    assert_eq!(actions.len(), 3);
    assert!(munmap(&mut w, a.mapping_id).is_empty());
    assert_eq!(munmap(&mut w, b.mapping_id), released(11, BASE + 0x1000, 0xB000, 0x1000));
    assert_eq!(close(&mut w, g), vec![HostAction::CloseFd(21)]);
}

#[test]
fn mmap_asks_for_the_file() {
    let mut w = worker(0);
    assert_refused(w.process_request(&mmap_req(4, 0x1000)), 4, EBADF);
    let h = open(&mut w, 0, 20);
    match w.process_request(&mmap_req(h, 0x1000)) {
        Step::Mmap(call) => {
            assert_eq!((call.handle, call.fd, call.size, call.offset), (h, 20, 0x1000, 0x55));
            assert_refused(w.mmap_done(call, Err(Some(12))), h, 12);
            assert_refused(w.mmap_done(call, Err(None)), h, EIO);
            assert!(!w.has_pending());
        }
        other => panic!("{:?}", other),
    }
}

#[test]
fn mmap_beyond_the_window() {
    let mut w = worker(0);
    let h = open(&mut w, 0, 20);
    let call = match w.process_request(&mmap_req(h, 0x10_0001)) {
        Step::Mmap(call) => call,
        other => panic!("{:?}", other),
    };
    let (bytes, actions) = done(w.mmap_done(call, Ok(0xA000)));
    assert_eq!(NvgpuMsgHdr::read(&bytes).status, -ENOMEM);
    assert_eq!(actions, vec![HostAction::Munmap { addr: 0xA000, size: 0x10_0001 }]);
    // A refused mapping takes neither addresses nor a slot.
    let a = map(&mut w, h, 0x10_0000, 0xA000);
    assert_eq!((a.guest_phys_addr, a.mapping_id), (BASE, 1));
    assert_eq!(munmap(&mut w, 1), released(10, BASE, 0xA000, 0x10_0000));
}

#[test]
fn slot_that_cannot_be_set() {
    let mut w = worker(0);
    let h = open(&mut w, 0, 20);
    let call = match w.process_request(&mmap_req(h, 0x1000)) {
        Step::Mmap(call) => call,
        other => panic!("{:?}", other),
    };
    assert!(matches!(w.mmap_done(call, Ok(0xA000)), Step::SetRegion(_)));
    let (bytes, actions) = done(w.slot_done(false));
    let r = NvgpuMsgHdr::read(&bytes);
    assert_eq!((r.msg_type, r.handle, r.status), (0, h, -EIO));
    assert_eq!(actions, vec![HostAction::Munmap { addr: 0xA000, size: 0x1000 }]);
    // Its addresses and its slot are used up, its id is not.
    let a = map(&mut w, h, 0x1000, 0xB000);
    assert_eq!((a.guest_phys_addr, a.mapping_id), (BASE + 0x1000, 1));
    assert_eq!(munmap(&mut w, 1), released(11, BASE + 0x1000, 0xB000, 0x1000));
}

#[test]
fn mmio_window() {
    let mut m = MmioAllocator::new(0x1800, 0x3000);
    assert_eq!(m.allocate(0x10), Some(0x2000));
    assert_eq!(m.allocate(0x1000), Some(0x3000));
    assert!(m.fits(0x800) && !m.fits(0x801));
    assert_eq!(m.allocate(0x801), None);
    assert_eq!(m.allocate(u64::MAX), None);
    assert_eq!(m.allocate(0x800), Some(0x4000));
    assert_eq!(m.allocate(1), None);
    let m = MmioAllocator::new(u64::MAX - 0xFFF, 0);
    assert!(m.can_measure());
    let m = MmioAllocator::new(u64::MAX - 0xFFE, 0);
    assert!(!m.can_measure());
}

// ---- IOCTL ----

#[test]
fn ioctls_that_are_not_allowed() {
    let mut w = worker(0);
    let h = open(&mut w, 255, 20);
    assert_refused(w.process_request(&ioctl_req(h, 0x27, &[], &[])), h, ENOTTY);
    // The number is looked at before the lengths and the handle.
    assert_refused(w.process_request(&ioctl_req(99, 0xC0FF_4657, &[], &[])[..32]), 99, ENOTTY);
    let mut w = worker(NVGPU_CAP_GRAPHICS);
    let h = open(&mut w, 255, 20);
    assert_eq!(forwarded(&mut w, &ioctl_req(h, 0x27, &[], &[])).cmd, 0x27);
}

#[test]
fn uvm_ioctls_are_forwarded() {
    let mut w = worker(0);
    let ctl = open(&mut w, 255, 20);
    let uvm = open(&mut w, NVGPU_DEV_UVM, 21);
    let tools = open(&mut w, 257, 22);
    let data: Vec<u8> = (0..40).collect();
    for nr in 0..=0x4f {
        let call = forwarded(&mut w, &ioctl_req(uvm, 0x3000_0000 | nr, &data, &[9]));
        assert_eq!((call.handle, call.fd, call.cmd), (uvm, 21, 0x3000_0000 | nr));
        if nr == 0x2A || nr == 0x2B {
            // Numbers whose parameters have a pointer have one here too.
            assert_eq!(&call.data[16..24], &[0; 8]);
            assert_eq!(call.nested, vec![9]);
            assert_eq!(&call.finish(0, None)[24..64], &{
                let mut back = data.clone();
                if nr == 0x2B {
                    back[24..32].fill(0);
                }
                back
            }[..]);
        } else {
            assert_eq!(call.data, data);
            assert!(call.nested.is_empty());
        }
    }
    assert_eq!(forwarded(&mut w, &ioctl_req(uvm, 0x03, &[1], &[])).data, vec![1]);
    assert_refused(w.process_request(&ioctl_req(uvm, 0x2A, &[7; 8], &[])), uvm, EINVAL);
    // What is allowed on one device is not on another.
    assert_refused(w.process_request(&ioctl_req(uvm, 0x50, &[], &[])), uvm, ENOTTY);
    assert_refused(w.process_request(&ioctl_req(uvm, 0xC9, &[1, 0, 0, 0], &[])), uvm, ENOTTY);
    assert_refused(w.process_request(&ioctl_req(ctl, 0x03, &[], &[])), ctl, ENOTTY);
    assert_refused(w.process_request(&ioctl_req(tools, 0x03, &[], &[])), tools, ENOTTY);
    assert_refused(w.process_request(&ioctl_req(99, 0x03, &[], &[])), 99, ENOTTY);
    // Lengths count there too.
    let full = ioctl_req(uvm, 0x03, &[1; 8], &[]);
    assert_refused(w.process_request(&full[..39]), uvm, EINVAL);
    // Once it is closed, its numbers are gone with it.
    close(&mut w, uvm);
    assert_refused(w.process_request(&full), uvm, ENOTTY);
}

#[test]
fn ioctls_with_wrong_lengths() {
    let mut w = worker(0);
    let h = open(&mut w, 255, 20);
    let full = ioctl_req(h, 0xD2, &[1; 8], &[]);
    assert_refused(w.process_request(&full[..39]), h, EINVAL);
    let far = bytes_of(&NvgpuIoctlReq {
        hdr: hdr(NVGPU_MSG_IOCTL, h),
        cmd: 0xD2,
        data_len: 0,
        nested_offset: 1,
        nested_len: 0,
    });
    assert_refused(w.process_request(&far), h, EINVAL);
    let wide = bytes_of(&NvgpuIoctlReq {
        hdr: hdr(NVGPU_MSG_IOCTL, h),
        cmd: 0xD2,
        data_len: u32::MAX,
        nested_offset: u32::MAX,
        nested_len: u32::MAX,
    });
    assert_refused(w.process_request(&wide), h, EINVAL);
    assert_refused(w.process_request(&ioctl_req(5, 0xD2, &[1; 8], &[])), 5, EBADF);
}

#[test]
fn simple_ioctl() {
    let mut w = worker(0);
    let h = open(&mut w, 255, 20);
    let mut call = forwarded(&mut w, &ioctl_req(h, 0xC008_46D2, &[1, 2, 3], &[9]));
    assert_eq!((call.handle, call.fd, call.cmd), (h, 20, 0xC008_46D2));
    assert_eq!(call.data, vec![1, 2, 3]);
    assert!(call.nested.is_empty());
    call.point_at(5);
    assert_eq!(call.data, vec![1, 2, 3]);
    call.data[0] = 7;
    let bytes = call.finish(4, None);
    let r = NvgpuIoctlResp::read(&bytes);
    assert_eq!((r.hdr.msg_type, r.hdr.handle, r.hdr.status), (NVGPU_MSG_IOCTL, h, 4));
    assert_eq!((r.data_len, r.nested_len), (3, 0));
    assert_eq!(&bytes[24..], &[7, 2, 3]);

    let call = forwarded(&mut w, &ioctl_req(h, 0xD2, &[1, 2, 3], &[]));
    let bytes = call.finish(-1, Some(22));
    let r = NvgpuIoctlResp::read(&bytes);
    assert_eq!((r.hdr.status, r.data_len), (-22, 0));
    assert_eq!(bytes.len(), 24);
    let call = forwarded(&mut w, &ioctl_req(h, 0xD2, &[], &[]));
    assert_eq!(NvgpuIoctlResp::read(&call.finish(-1, None)).hdr.status, -EIO);
}

#[test]
fn registered_descriptors_are_translated() {
    let mut w = worker(0);
    let h = open(&mut w, 255, 20);
    let g = open(&mut w, 0, 0x0102_0304);
    let call = forwarded(&mut w, &ioctl_req(h, 0xC9, &[g as u8, 0, 0, 0, 9], &[]));
    assert_eq!(call.fd, 20);
    assert_eq!(call.data, vec![4, 3, 2, 1, 9]);
    assert_refused(w.process_request(&ioctl_req(h, 0xC9, &[1, 0, 0], &[])), h, EINVAL);
    assert_refused(w.process_request(&ioctl_req(h, 0xC9, &[9, 0, 0, 0], &[])), h, EBADF);
    assert_refused(w.process_request(&ioctl_req(9, 0xC9, &[1, 0, 0, 0], &[])), 9, EBADF);
}

#[test]
fn complex_ioctl_control() {
    let mut w = worker(0);
    let h = open(&mut w, 255, 20);
    let data: Vec<u8> = (0..40).collect();
    let mut call = forwarded(&mut w, &ioctl_req(h, 0xC020_462A, &data, &[50, 51]));
    assert_eq!(&call.data[..16], &data[..16]);
    assert_eq!(&call.data[16..24], &[0; 8]);
    assert_eq!(&call.data[24..], &data[24..]);
    assert_eq!(call.nested, vec![50, 51]);
    call.point_at(0x1122_3344_5566_7788);
    assert_eq!(call.data[16], 0x88);
    assert_eq!(call.data[23], 0x11);
    call.data.fill(0xEE);
    call.nested[1] = 0xDD;
    let bytes = call.finish(0, None);
    let r = NvgpuIoctlResp::read(&bytes);
    assert_eq!((r.hdr.status, r.data_len, r.nested_len), (0, 40, 2));
    assert_eq!(&bytes[24..40], &[0xEE; 16]);
    assert_eq!(&bytes[40..48], &data[16..24]);
    assert_eq!(&bytes[48..64], &[0xEE; 16]);
    assert_eq!(&bytes[64..], &[50, 0xDD]);
}

#[test]
fn complex_ioctl_alloc() {
    let mut w = worker(0);
    let h = open(&mut w, 255, 20);
    let data: Vec<u8> = (100..148).collect();
    let mut call = forwarded(&mut w, &ioctl_req(h, 0xC030_462B, &data, &[]));
    // Neither the pointer nor the requested rights reach the host.
    assert_eq!(&call.data[16..32], &[0; 16]);
    assert_eq!(&call.data[32..], &data[32..]);
    call.point_at(0x99);
    assert_eq!(&call.data[16..32], &[0; 16]);
    // The parameters go back even if the ioctl failed.
    let bytes = call.finish(-1, Some(ENOMEM));
    let r = NvgpuIoctlResp::read(&bytes);
    assert_eq!((r.hdr.status, r.data_len, r.nested_len), (-ENOMEM, 48, 0));
    assert_eq!(&bytes[40..48], &data[16..24]);
    assert_eq!(&bytes[48..56], &[0; 8]);
    // Too short for the rights, but not for the pointer.
    let call = forwarded(&mut w, &ioctl_req(h, 0x2B, &data[..31], &[]));
    assert_eq!(&call.data[24..], &data[24..31]);
    assert_refused(w.process_request(&ioctl_req(h, 0x2B, &data[..23], &[])), h, EINVAL);
    assert_refused(w.process_request(&ioctl_req(9, 0x2B, &data[..23], &[])), 9, EBADF);
}

#[test]
fn allowed_ioctls() {
    let none = AllowedIoctls::new(0);
    let graphics = AllowedIoctls::new(NVGPU_CAP_GRAPHICS);
    let video = AllowedIoctls::new(NVGPU_CAP_VIDEO);
    let other = AllowedIoctls::new(NVGPU_CAP_COMPUTE | NVGPU_CAP_UTILITY);
    let base = [
        0x01, 0x02, 0x29, 0x2A, 0x2B, 0x4E, 0x4F, 0x54, 0x58, 0x5E, 0xC8, 0xC9, 0xCE, 0xCF, 0xD1,
        0xD2, 0xD3, 0xD4, 0xD5, 0xD6, 0xD7, 0xD8, 0xD9, 0xDA,
    ];
    for nr in 0..=0x1FF {
        let in_base = base.contains(&nr);
        let in_graphics = [0x27, 0x34, 0x41, 0x4a, 0x57, 0x58, 0x59].contains(&nr);
        assert_eq!(none.is_allowed(nr), in_base);
        assert_eq!(other.is_allowed(nr), in_base);
        assert_eq!(graphics.is_allowed(nr), in_base || in_graphics);
        assert_eq!(video.is_allowed(nr), in_base || nr == 0x57 || nr == 0x58);
    }
    assert!(none.is_uvm_allowed(0x4f));
    assert!(none.is_uvm_allowed(0x3000_0100));
    assert!(!none.is_uvm_allowed(0x50));
    assert_eq!(fd_translation_ioctls().len(), 1);
    assert_eq!(AllowedIoctls::fd_translation(0xc9).unwrap().payload_offset, 0);
    assert!(AllowedIoctls::fd_translation(0xc8).is_none());
}

// ---- files ----

#[test]
fn proc_files() {
    let mut w = worker(0);
    let (bytes, _) = done(w.process_request(&bytes_of(&hdr(NVGPU_MSG_GET_PROC_FILES, 0))));
    let mut expected = vec![21, 0, 0, 0, 2, 0, 0, 0];
    expected.extend(b"driver/nvidia/version");
    expected.extend(b"v1");
    expected.extend([0; 8]);
    assert_eq!(bytes, expected);
}

#[test]
fn sys_files_and_dri_devices() {
    let mut w = worker(0);
    let (bytes, _) = done(w.process_request(&bytes_of(&hdr(NVGPU_MSG_GET_SYS_FILES, 0))));
    let mut expected = vec![3, 0, 0, 0, 3, 0, 0, 0];
    expected.extend(b"a/b");
    expected.extend([1, 2, 3]);
    expected.extend([0; 8]);
    expected.extend([2, 0, 0, 0]);
    expected.extend([5, 0, 0, 0, 226, 0, 0, 0, 1, 0, 0, 0, 7, 0, 0, 0]);
    expected.extend(b"card1");
    expected.extend([10, 0, 0, 0, 226, 0, 0, 0, 128, 0, 0, 0, 7, 0, 0, 0]);
    expected.extend(b"renderD128");
    assert_eq!(bytes, expected);
}

// ---- the device ----

#[test]
fn configuration_space() {
    let dev = device(NVGPU_CAP_VIDEO);
    let mut c = vec![0xAAu8; 8914];
    dev.read_config(0, &mut c);
    assert_eq!(&c[..9], b"595.58.03");
    assert_eq!(&c[9..32], &[0; 23]);
    assert_eq!(&c[32..40], &[1, 0, 0, 0, 4, 0, 0, 0]);
    assert_eq!(&c[40..72], &[0; 32]);
    assert_eq!(&c[72..84], b"0000:08:00.0");
    assert_eq!(&c[84..88], &[0; 4]);
    assert_eq!(&c[88..100], &[3, 0, 0, 0, 9, 0, 0, 0, 0, 0, 0, 0]);
    assert_eq!(&c[100..109], b"Model: A\n");
    assert!(c[109..8776].iter().all(|b| *b == 0));
    assert_eq!(&c[8776..8788], &[1, 0, 0, 0, 0, 0, 0, 0, 0xC9, 0, 0, 0]);
    assert!(c[8788..8912].iter().all(|b| *b == 0));
    // Beyond the end nothing is written.
    assert_eq!(&c[8912..], &[0xAA; 2]);
    let mut d = [0xAAu8; 4];
    dev.read_config(8910, &mut d);
    assert_eq!(d, [0, 0, 0xAA, 0xAA]);
    dev.read_config(8912, &mut d);
    dev.read_config(u64::MAX, &mut d);
    assert_eq!(d, [0, 0, 0xAA, 0xAA]);
    dev.read_config(36, &mut d);
    assert_eq!(d, [4, 0, 0, 0]);
}

#[test]
fn configuration_space_is_cut() {
    let mut cfg = config(0);
    cfg.driver_version = "v".repeat(40);
    cfg.gpus = (0..9).map(|i| gpu(&"p".repeat(20), i, &"t".repeat(2000))).collect();
    let dev = GpuNv::new(cfg, BASE, 0, 0);
    let mut c = vec![0u8; 8912];
    dev.read_config(0, &mut c);
    assert_eq!(&c[..31], "v".repeat(31).as_bytes());
    assert_eq!(c[31], 0);
    assert_eq!(c[32], 8);
    for i in 0..8 {
        assert_eq!(c[40 + 4 * i], i as u8);
        let slot = &c[72 + 1088 * i..72 + 1088 * (i + 1)];
        assert_eq!(&slot[..15], "p".repeat(15).as_bytes());
        assert_eq!(slot[15], 0);
        assert_eq!(slot[16], i as u8);
        assert_eq!(&slot[20..24], &1059u32.to_le_bytes());
        assert_eq!(&slot[24..28], &[0; 4]);
        assert!(slot[28..1087].iter().all(|b| *b == b't'));
        assert_eq!(slot[1087], 0);
    }
}

#[test]
fn features() {
    let mut dev = device(NVGPU_CAP_COMPUTE | NVGPU_CAP_GRAPHICS);
    assert_eq!(dev.avail_features(), (1 << 32) | 1 | 4);
    assert_eq!(dev.avail_features_by_page(0), 5);
    assert_eq!(dev.avail_features_by_page(1), 1);
    assert_eq!(dev.avail_features_by_page(2), 0);
    dev.set_acked_features(u64::MAX);
    assert_eq!(dev.acked_features(), dev.avail_features());
    dev.set_acked_features(2 | 4);
    assert_eq!(dev.acked_features(), 4);
    dev.ack_features_by_page(0, 1);
    assert_eq!(dev.acked_features(), 4);
    assert_eq!(device(NVGPU_CAP_VIDEO).avail_features(), (1 << 32) | 2);
    assert_eq!(device(0).avail_features(), 1 << 32);
}

#[test]
fn identity() {
    let mut dev = device(0);
    assert_eq!(dev.id(), 45);
    assert_eq!(dev.device_type(), 45);
    assert_eq!(dev.device_name(), "virtio-nvgpu");
    assert_eq!(dev.queue_config(), vec![256, 256]);
    let mut before = [0u8; 64];
    dev.read_config(0, &mut before);
    dev.write_config(0, &[9; 8]);
    let mut after = [0u8; 64];
    dev.read_config(0, &mut after);
    assert_eq!(before, after);
}

#[test]
fn activation() {
    let mut dev = device(0);
    assert!(matches!(dev.activate(1), Err(ActivateError::BadActivate)));
    assert!(!dev.is_activated());
    let mut w = dev.activate(2).unwrap();
    assert!(dev.is_activated());
    assert_eq!(open(&mut w, 255, 20), 1);
    dev.set_acked_features(1 << 32);
    assert!(dev.reset());
    assert!(!dev.is_activated());
    assert_eq!(dev.acked_features(), 0);
    // The window went to the first worker; a second one has none.
    let mut w = dev.activate(2).unwrap();
    let h = open(&mut w, 0, 20);
    let call = match w.process_request(&mmap_req(h, 1)) {
        Step::Mmap(call) => call,
        other => panic!("{:?}", other),
    };
    let (bytes, _) = done(w.mmap_done(call, Ok(0xA000)));
    assert_eq!(NvgpuMsgHdr::read(&bytes).status, -ENOMEM);
}
