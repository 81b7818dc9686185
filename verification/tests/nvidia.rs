use virtio_gpu_nv::abi::ioctl::{
    NV_ESC_ALLOC_OS_EVENT, NV_ESC_CHECK_VERSION_STR, NV_ESC_REGISTER_FD, NV_ESC_RM_ALLOC,
    NV_ESC_RM_CONTROL, NV_ESC_RM_MAP_MEMORY, _IOWR,
};
use virtio_gpu_nv::errno::{EBADF, EINVAL, EIO, ENODEV, ENOMEM, ENOSYS, ENOTTY};
use virtio_gpu_nv::nvidia::{device_path, Completion, Dispatch, IoctlCall, NvidiaBackend};
use virtio_gpu_nv::protocol::{
    CloseReq, DeviceKind, IoctlReq, IoctlResp, MsgHeader, MsgType, OpenReq, OpenResp, RespHeader,
    Status,
};
use virtio_gpu_nv::shm::ZoneConfig;

/// Where the host would have mapped the window.
const WINDOW: u64 = 0x7f00_0000_0000;

/// A small backend (8-page window).
fn for_test() -> NvidiaBackend {
    NvidiaBackend::new(
        ZoneConfig { uc_size: 4096 * 2, wc_size: 4096 * 4, wb_size: 4096 * 2 },
        Some(3),
        WINDOW,
    )
}

fn hdr(msg_type: MsgType, cookie: u64) -> Vec<u8> {
    let mut v = vec![];
    MsgHeader { msg_type: msg_type.code(), cookie }.write(&mut v);
    v
}

fn open_req(kind: u8, index: u8, cookie: u64) -> Vec<u8> {
    let mut v = hdr(MsgType::Open, cookie);
    OpenReq { kind, index }.write(&mut v);
    v
}

fn close_req(guest_handle: u64, cookie: u64) -> Vec<u8> {
    let mut v = hdr(MsgType::Close, cookie);
    CloseReq { guest_handle }.write(&mut v);
    v
}

fn ioctl_req(guest_handle: u64, escape: u32, params: &[u8], cookie: u64) -> Vec<u8> {
    let mut v = hdr(MsgType::Ioctl, cookie);
    let param_size = params.len() as u32;
    IoctlReq { guest_handle, request: _IOWR(escape, param_size), param_size }.write(&mut v);
    v.extend(params);
    v
}

fn parse_resp(buf: &[u8]) -> RespHeader {
    RespHeader::read(buf, 0)
}

fn parse_open_resp(buf: &[u8]) -> OpenResp {
    OpenResp::read(buf, 16)
}

/// Sends a request whose response needs no host.
fn answered(be: &mut NvidiaBackend, req: &[u8], resp: &mut [u8]) -> usize {
    assert!(be.can_dispatch(req, resp.len()));
    match be.dispatch(req, resp) {
        Dispatch::Done(n) => n,
        Dispatch::Close { written, .. } => written,
        other => panic!("{:?}", other),
    }
}

/// Sends an OPEN request; the host opens the file as `fd`.
fn open(be: &mut NvidiaBackend, req: &[u8], fd: i32, resp: &mut [u8]) -> u64 {
    match be.dispatch(req, resp) {
        Dispatch::Open(call) => be.complete_open(call.cookie, Ok(fd), resp),
        other => panic!("{:?}", other),
    };
    parse_open_resp(resp).guest_handle
}

/// Opens /dev/nvidiactl, which the host opens as `fd`.
fn open_ctl(be: &mut NvidiaBackend, fd: i32) -> u64 {
    let mut resp = vec![0u8; 64];
    open(be, &open_req(DeviceKind::Ctl.code(), 0, 1), fd, &mut resp)
}

/// Sends an IOCTL request that reaches the host.
fn forwarded(be: &mut NvidiaBackend, req: &[u8], resp: &mut [u8]) -> IoctlCall {
    assert!(be.can_dispatch(req, resp.len()));
    match be.dispatch(req, resp) {
        Dispatch::Ioctl(call) => call,
        other => panic!("{:?}", other),
    }
}

/// Completes an ioctl that maps nothing.
fn completed(be: &mut NvidiaBackend, call: IoctlCall, outcome: Result<(), i32>, resp: &mut [u8]) -> usize {
    match be.complete_ioctl(call, outcome, resp) {
        Completion::Done(n) => n,
        other => panic!("{:?}", other),
    }
}

// ---- requests that need no host ----

#[test]
fn open_invalid_gpu_index() {
    let mut be = for_test();
    let req = open_req(DeviceKind::Gpu.code(), 200, 1);
    let mut resp = vec![0u8; 64];
    answered(&mut be, &req, &mut resp);
    assert_eq!(parse_resp(&resp).status, Status::InvalidDevice.code());
}

#[test]
fn close_unknown_handle() {
    let mut be = for_test();
    let req = close_req(0xCAFE, 7);
    let mut resp = vec![0u8; 32];
    answered(&mut be, &req, &mut resp);
    assert_eq!(parse_resp(&resp).status, Status::BadHandle.code());
}

#[test]
fn short_request_rejected() {
    let mut be = for_test();
    let mut resp = vec![0u8; 32];
    let n = answered(&mut be, &[0u8; 4], &mut resp);
    assert_eq!(n, 16);
    assert_eq!(parse_resp(&resp).status, Status::InvalidMsgType.code());
    assert_eq!(parse_resp(&resp).cookie, 0);
}

#[test]
fn unknown_message_rejected() {
    let mut be = for_test();
    let mut req = vec![];
    MsgHeader { msg_type: 4, cookie: 99 }.write(&mut req);
    let mut resp = vec![0xAAu8; 20];
    assert_eq!(answered(&mut be, &req, &mut resp), 16);
    assert_eq!(parse_resp(&resp).status, Status::InvalidMsgType.code());
    assert_eq!(parse_resp(&resp).cookie, 99);
    assert_eq!(parse_resp(&resp).errno_host, 0);
    assert_eq!(&resp[16..], &[0xAA; 4]);
}

#[test]
fn response_that_does_not_fit_is_not_written() {
    let mut be = for_test();
    let mut resp = vec![0xAAu8; 15];
    assert_eq!(answered(&mut be, &[], &mut resp), 0);
    assert_eq!(resp, vec![0xAA; 15]);
}

#[test]
fn short_payloads_are_rejected() {
    let mut be = for_test();
    for (t, status) in [
        (MsgType::Open, Status::InvalidDevice),
        (MsgType::Close, Status::BadHandle),
        (MsgType::Ioctl, Status::InvalidMsgType),
    ] {
        let mut resp = vec![0u8; 64];
        assert_eq!(answered(&mut be, &hdr(t, 5), &mut resp), 16);
        assert_eq!(parse_resp(&resp).status, status.code());
        assert_eq!(parse_resp(&resp).cookie, 5);
    }
}

#[test]
fn requests_that_cannot_be_dispatched() {
    let mut be = for_test();
    let h = open_ctl(&mut be, 10);
    let full = ioctl_req(h, 0x30, &[0; 8], 1);
    assert!(be.can_dispatch(&full, 0));
    assert!(!be.can_dispatch(&full[..full.len() - 1], 64));
    assert!(!be.can_dispatch(&close_req(h, 1), 23));
    assert!(be.can_dispatch(&close_req(h, 1), 24));
    assert!(be.can_dispatch(&close_req(h + 1, 1), 0));
}

#[test]
fn device_files() {
    assert_eq!(device_path(0, 9).unwrap(), "/dev/nvidiactl");
    assert_eq!(device_path(1, 7).unwrap(), "/dev/nvidia7");
    assert!(device_path(1, 8).is_err());
    assert_eq!(device_path(2, 0).unwrap(), "/dev/nvidia-uvm");
    assert_eq!(device_path(3, 0).unwrap(), "/dev/nvidia-modeset");
    assert!(device_path(4, 0).is_err());
}

// ---- teardown ----

#[test]
fn teardown_empties_handles() {
    let mut be = for_test();
    for _ in 0..2 {
        open_ctl(&mut be, 10);
    }
    assert_eq!(be.handle_count(), 2);

    assert_eq!(be.teardown(), vec![10, 10]);
    assert_eq!(be.handle_count(), 0);
}

#[test]
fn drop_closes_remaining_handles() {
    // Whoever drops a backend closes what teardown returns.
    let mut be = for_test();
    open_ctl(&mut be, 10);
    assert_eq!(be.handle_count(), 1);
    assert_eq!(be.teardown(), vec![10]);
    drop(be);
}

// ---- round trips ----

#[test]
fn open_close_nvidiactl() {
    let mut be = for_test();

    let req = open_req(DeviceKind::Ctl.code(), 0, 42);
    let mut resp = vec![0u8; 64];
    let h = open(&mut be, &req, 10, &mut resp);
    let r = parse_resp(&resp);
    assert_eq!(r.status, Status::Success.code());
    assert_eq!(r.cookie, 42);
    assert!(h > 0);

    let req2 = close_req(h, 43);
    let mut resp2 = vec![0u8; 32];
    match be.dispatch(&req2, &mut resp2) {
        Dispatch::Close { fd, written } => {
            assert_eq!(fd, 10);
            assert_eq!(written, 24);
        }
        other => panic!("{:?}", other),
    }
    assert_eq!(parse_resp(&resp2).status, Status::Success.code());
    assert_eq!(parse_resp(&resp2).cookie, 43);
    assert_eq!(be.handle_count(), 0);
}

#[test]
fn failed_open_is_reported() {
    let mut be = for_test();
    let mut resp = vec![0u8; 16];
    match be.dispatch(&open_req(1, 3, 8), &mut resp) {
        Dispatch::Open(call) => {
            assert_eq!(call.path, "/dev/nvidia3");
            assert_eq!(be.complete_open(call.cookie, Err(2), &mut resp), 16);
        }
        other => panic!("{:?}", other),
    }
    assert_eq!(parse_resp(&resp).status, Status::OpenFailed.code());
    assert_eq!(parse_resp(&resp).errno_host, 2);
    assert_eq!(be.handle_count(), 0);
}

#[test]
fn check_version_str() {
    let mut be = for_test();
    let gh = open_ctl(&mut be, 10);
    assert!(gh > 0);

    // nv_ioctl_rm_api_version_t: cmd(4) + reply(4) + versionString(64) = 72 bytes
    let param_size: u32 = 72;
    // First 4 bytes = cmd field. Set to '2' (0x32) for query mode.
    let mut params = vec![0u8; param_size as usize];
    params[0] = 0x32;
    let req = ioctl_req(gh, NV_ESC_CHECK_VERSION_STR, &params, 2);

    let mut iresp = vec![0u8; 512];
    let call = forwarded(&mut be, &req, &mut iresp);
    assert_eq!(call.fd, 10);
    assert_eq!(call.request, _IOWR(NV_ESC_CHECK_VERSION_STR, 72));
    assert_eq!(call.params, params);
    completed(&mut be, call, Err(EINVAL), &mut iresp);
    let r = parse_resp(&iresp);
    assert!(
        r.status == Status::Success.code() || r.status == Status::IoctlFailed.code(),
        "unexpected status {}",
        r.status
    );
    assert_eq!(r.errno_host, EINVAL);

    let mut call = forwarded(&mut be, &req, &mut iresp);
    call.params[4] = 1;
    call.params[8] = b'5';
    let n = completed(&mut be, call, Ok(()), &mut iresp);
    assert_eq!(n, 16 + 32 + 72);
    assert_eq!(parse_resp(&iresp).status, Status::Success.code());
    let p = IoctlResp::read(&iresp, 16);
    assert_eq!((p.param_size, p.shm_offset, p.shm_length, p.pgprot), (72, 0, 0, 0));
    assert_eq!(iresp[48], 0x32);
    assert_eq!(iresp[52], 1);
    assert_eq!(iresp[56], b'5');
}

#[test]
fn ioctl_response_that_does_not_fit() {
    let mut be = for_test();
    let gh = open_ctl(&mut be, 10);
    let mut resp = vec![0u8; 16 + 32 + 7];
    let call = forwarded(&mut be, &ioctl_req(gh, 0x30, &[1; 8], 3), &mut resp);
    assert_eq!(completed(&mut be, call, Ok(()), &mut resp), 16);
    assert_eq!(parse_resp(&resp).status, Status::BufferTooSmall.code());
    let mut resp = vec![0u8; 16 + 32 + 8];
    let call = forwarded(&mut be, &ioctl_req(gh, 0x30, &[1; 8], 3), &mut resp);
    assert_eq!(completed(&mut be, call, Ok(()), &mut resp), 56);
}

#[test]
fn ioctl_on_unknown_handle() {
    let mut be = for_test();
    let mut resp = vec![0u8; 64];
    assert_eq!(answered(&mut be, &ioctl_req(1, 0x30, &[], 3), &mut resp), 16);
    assert_eq!(parse_resp(&resp).status, Status::BadHandle.code());
}

#[test]
fn embedded_handles_are_translated_and_restored() {
    let mut be = for_test();
    let a = open_ctl(&mut be, 10);
    let b = open_ctl(&mut be, 11);
    let mut resp = vec![0u8; 128];

    let call = forwarded(&mut be, &ioctl_req(a, NV_ESC_REGISTER_FD, &[b as u8, 0, 0, 0, 9], 3), &mut resp);
    assert_eq!(call.params, vec![11, 0, 0, 0, 9]);
    completed(&mut be, call, Ok(()), &mut resp);
    assert_eq!(&resp[48..53], &[b as u8, 0, 0, 0, 9]);

    let mut params = vec![0u8; 16];
    params[8] = b as u8;
    let mut call = forwarded(&mut be, &ioctl_req(a, NV_ESC_ALLOC_OS_EVENT, &params, 3), &mut resp);
    assert_eq!(call.params[8], 11);
    // The host may overwrite everything.
    call.params.fill(0xEE);
    completed(&mut be, call, Ok(()), &mut resp);
    let mut expected = vec![0xEE; 16];
    expected[8..12].copy_from_slice(&[b as u8, 0, 0, 0]);
    assert_eq!(&resp[48..64], &expected[..]);

    assert_eq!(answered(&mut be, &ioctl_req(a, NV_ESC_ALLOC_OS_EVENT, &[0; 11], 3), &mut resp), 16);
    assert_eq!(parse_resp(&resp).status, Status::IoctlFailed.code());
    assert_eq!(parse_resp(&resp).errno_host, EINVAL);
    params[8] = 77;
    answered(&mut be, &ioctl_req(a, NV_ESC_ALLOC_OS_EVENT, &params, 3), &mut resp);
    assert_eq!(parse_resp(&resp).status, Status::BadHandle.code());
}

#[test]
fn nested_parameters_go_behind_a_pointer() {
    let mut be = for_test();
    let gh = open_ctl(&mut be, 10);
    let mut resp = vec![0u8; 256];
    let mut params = vec![7u8; 32 + 5];
    params[32..].copy_from_slice(&[1, 2, 3, 4, 5]);
    let mut call = forwarded(&mut be, &ioctl_req(gh, NV_ESC_RM_CONTROL, &params, 3), &mut resp);
    assert_eq!(call.params, vec![7; 32]);
    assert_eq!(call.nested, vec![1, 2, 3, 4, 5]);
    call.point_at(0x1122_3344_5566_7788);
    assert_eq!(&call.params[16..24], &[0x88, 0x77, 0x66, 0x55, 0x44, 0x33, 0x22, 0x11]);
    assert_eq!(&call.params[24..], &[7; 8]);
    call.nested[0] = 9;
    let n = completed(&mut be, call, Ok(()), &mut resp);
    assert_eq!(n, 16 + 32 + 37);
    assert_eq!(&resp[48..64], &[7; 16]);
    assert_eq!(&resp[64..72], &[0; 8]);
    assert_eq!(&resp[72..80], &[7; 8]);
    assert_eq!(&resp[80..85], &[9, 2, 3, 4, 5]);

    // Without nested parameters the pointer is only cleared.
    let mut call = forwarded(&mut be, &ioctl_req(gh, NV_ESC_RM_ALLOC, &[7; 48], 3), &mut resp);
    assert!(call.nested.is_empty());
    call.point_at(1);
    assert_eq!(call.params, vec![7; 48]);
    assert_eq!(completed(&mut be, call, Ok(()), &mut resp), 16 + 32 + 48);
    assert_eq!(&resp[64..72], &[0; 8]);
    assert_eq!(&resp[72..96], &[7; 24]);

    answered(&mut be, &ioctl_req(gh, NV_ESC_RM_ALLOC, &[7; 47], 3), &mut resp);
    assert_eq!(parse_resp(&resp).errno_host, EINVAL);
}

/// Parameters of a control command with these nested parameters.
fn control_params(cmd: u32, nested: &[u8]) -> Vec<u8> {
    let mut params = vec![0u8; 32];
    params[8..12].copy_from_slice(&cmd.to_le_bytes());
    params.extend(nested);
    params
}

#[test]
fn nested_handles_are_translated_and_restored() {
    let mut be = for_test();
    open_ctl(&mut be, 10);
    let gh = open_ctl(&mut be, 0x0102_0304);
    let mut resp = vec![0u8; 256];
    // Export (0x3d05): the handle is at byte 16 of the nested parameters; import (0x3d06): at 0.
    for (cmd, at) in [(0x3d05, 16), (0x3d06, 0)] {
        let mut nested = vec![0xBBu8; 24];
        nested[at..at + 4].copy_from_slice(&(gh as u32).to_le_bytes());
        let req = ioctl_req(1, NV_ESC_RM_CONTROL, &control_params(cmd, &nested), 5);
        let mut call = forwarded(&mut be, &req, &mut resp);
        assert_eq!(&call.nested[at..at + 4], &[4, 3, 2, 1]);
        assert!(call.nested[..at].iter().all(|b| *b == 0xBB));
        assert!(call.nested[at + 4..].iter().all(|b| *b == 0xBB));
        // The host may overwrite everything.
        call.nested.fill(0xEE);
        let n = completed(&mut be, call, Ok(()), &mut resp);
        assert_eq!(n, 16 + 32 + 32 + 24);
        let mut expected = vec![0xEEu8; 24];
        expected[at..at + 4].copy_from_slice(&(gh as u32).to_le_bytes());
        assert_eq!(&resp[80..104], &expected[..]);

        // A handle that is not open does not reach the host.
        for bad in [99u32, 0xFFFF_FFFF] {
            nested[at..at + 4].copy_from_slice(&bad.to_le_bytes());
            let req = ioctl_req(1, NV_ESC_RM_CONTROL, &control_params(cmd, &nested), 6);
            assert_eq!(answered(&mut be, &req, &mut resp), 16);
            assert_eq!(parse_resp(&resp).status, Status::BadHandle.code());
            assert_eq!(parse_resp(&resp).cookie, 6);
        }
    }
}

#[test]
fn other_nested_parameters_hold_no_handles() {
    let mut be = for_test();
    open_ctl(&mut be, 10);
    let mut resp = vec![0u8; 256];
    // Another command, a handle that is cut off, and another ioctl.
    for (escape, params) in [
        (NV_ESC_RM_CONTROL, control_params(0x3d07, &[99; 24])),
        (NV_ESC_RM_CONTROL, control_params(0x3d05, &[99; 19])),
        (NV_ESC_RM_CONTROL, control_params(0x3d06, &[99; 3])),
        (NV_ESC_RM_ALLOC, control_params(0x3d05, &[99; 40])),
    ] {
        let call = forwarded(&mut be, &ioctl_req(1, escape, &params, 5), &mut resp);
        assert!(call.nested.iter().all(|b| *b == 99));
    }
}

// ---- NV_ESC_RM_MAP_MEMORY ----

#[test]
fn map_memory_rejects_bad_fd_handle() {
    let mut be = for_test();
    let gh = open_ctl(&mut be, 10);
    assert!(gh > 0);

    // IoctlNVOS33ParametersWithFD = 56 bytes, with a bogus handle (0xDEAD) at offset 48.
    let param_size: u32 = 56;
    let mut params = vec![0u8; param_size as usize];
    params[48..52].copy_from_slice(&0xDEADu32.to_le_bytes());
    let req = ioctl_req(gh, NV_ESC_RM_MAP_MEMORY, &params, 2);

    let mut iresp = vec![0u8; 512];
    answered(&mut be, &req, &mut iresp);
    let r = parse_resp(&iresp);
    assert_eq!(r.status, Status::BadHandle.code());
}

#[test]
fn map_memory_translates_fd_and_forwards() {
    let mut be = for_test();
    let ctl_handle = open_ctl(&mut be, 10);
    let map_handle = open_ctl(&mut be, 11);

    let param_size: u32 = 56;
    let mut params = vec![0u8; param_size as usize];
    params[48..52].copy_from_slice(&(map_handle as u32).to_le_bytes());
    let req = ioctl_req(ctl_handle, NV_ESC_RM_MAP_MEMORY, &params, 3);

    let mut iresp = vec![0u8; 512];
    let call = forwarded(&mut be, &req, &mut iresp);
    assert_eq!(call.fd, 10);
    assert_eq!(&call.params[48..52], &[11, 0, 0, 0]);
    completed(&mut be, call, Err(EINVAL), &mut iresp);
    let r = parse_resp(&iresp);
    assert_ne!(
        r.status,
        Status::BadHandle.code(),
        "FD translation should have succeeded"
    );
    assert_eq!(r.status, Status::IoctlFailed.code());
}

/// Parameters of a mapping of `length` bytes with this caching type, for the handle `gh`.
fn map_params(gh: u64, length: u64, caching: u32) -> Vec<u8> {
    let mut params = vec![0u8; 56];
    params[24..32].copy_from_slice(&length.to_le_bytes());
    params[44..48].copy_from_slice(&(caching << 23).to_le_bytes());
    params[48..52].copy_from_slice(&(gh as u32).to_le_bytes());
    params
}

#[test]
fn map_memory_places_the_mapping() {
    let mut be = for_test();
    let gh = open_ctl(&mut be, 10);
    // Caching type, code of the zone, offset of the zone.
    for (caching, code, offset) in [
        (0, 0, 4096 * 6),
        (5, 0, 4096 * 7),
        (2, 1, 4096 * 2),
        (6, 1, 4096 * 3),
        (1, 2, 0),
        (7, 2, 4096),
    ] {
        let mut resp = vec![0u8; 512];
        let req = ioctl_req(gh, NV_ESC_RM_MAP_MEMORY, &map_params(gh, 100, caching), 3);
        let call = forwarded(&mut be, &req, &mut resp);
        assert!(be.can_complete_ioctl(&call));
        let map = match be.complete_ioctl(call, Ok(()), &mut resp) {
            Completion::Mapping(map) => map,
            other => panic!("{:?}", other),
        };
        assert_eq!(map.map.target, WINDOW + offset);
        assert_eq!(map.map.length, 100);
        assert_eq!(map.map.fd, 10);
        let n = be.complete_map(map, true, &mut resp);
        assert_eq!(n, 16 + 32 + 56);
        assert_eq!(parse_resp(&resp).status, Status::Success.code());
        let p = IoctlResp::read(&resp, 16);
        assert_eq!((p.param_size, p.shm_offset, p.shm_length, p.pgprot), (56, offset, 100, code));
        assert_eq!(&resp[48 + 48..48 + 52], &(gh as u32).to_le_bytes());
    }
    // All six pages of the two small zones, and two of the large one, are taken.
    let mut resp = vec![0u8; 512];
    let req = ioctl_req(gh, NV_ESC_RM_MAP_MEMORY, &map_params(gh, 1, 3), 3);
    let call = forwarded(&mut be, &req, &mut resp);
    completed(&mut be, call, Ok(()), &mut resp);
    assert_eq!(parse_resp(&resp).status, Status::IoctlFailed.code());
    assert_eq!(parse_resp(&resp).errno_host, ENOMEM);
}

#[test]
fn map_memory_that_the_host_cannot_map() {
    let mut be = for_test();
    let gh = open_ctl(&mut be, 10);
    let mut resp = vec![0u8; 512];
    let req = ioctl_req(gh, NV_ESC_RM_MAP_MEMORY, &map_params(gh, 4096, 2), 3);
    let call = forwarded(&mut be, &req, &mut resp);
    match be.complete_ioctl(call, Ok(()), &mut resp) {
        Completion::Mapping(map) => assert_eq!(be.complete_map(map, false, &mut resp), 16),
        other => panic!("{:?}", other),
    }
    assert_eq!(parse_resp(&resp).status, Status::IoctlFailed.code());
    assert_eq!(parse_resp(&resp).errno_host, ENOMEM);
}

#[test]
fn map_memory_with_an_rm_error_goes_back_to_the_guest() {
    let mut be = for_test();
    let gh = open_ctl(&mut be, 10);
    let mut resp = vec![0u8; 512];
    let req = ioctl_req(gh, NV_ESC_RM_MAP_MEMORY, &map_params(gh, u64::MAX, 2), 3);
    let mut call = forwarded(&mut be, &req, &mut resp);
    assert!(!be.can_complete_ioctl(&call));
    call.params[40] = 0x1f;
    assert!(be.can_complete_ioctl(&call));
    assert_eq!(completed(&mut be, call, Ok(()), &mut resp), 16 + 32 + 56);
    assert_eq!(parse_resp(&resp).status, Status::Success.code());
    assert_eq!(resp[48 + 40], 0x1f);
    assert_eq!(&resp[48 + 48..48 + 52], &(gh as u32).to_le_bytes());

    answered(&mut be, &ioctl_req(gh, NV_ESC_RM_MAP_MEMORY, &[0; 55], 3), &mut resp);
    assert_eq!(parse_resp(&resp).errno_host, EINVAL);
}

#[test]
fn window_can_be_moved() {
    let mut be = NvidiaBackend::with_default_zones(None, 0x1000);
    assert_eq!(be.shm_total_size(), 256 * 1024 * 1024);
    assert_eq!(be.shm_memfd_raw(), -1);
    assert_eq!(be.shm_base_ptr(), 0x1000);
    be.set_shm_base(0xDEAD_0000);
    assert_eq!(be.shm_base_ptr(), 0xDEAD_0000);
    assert_eq!(for_test().shm_memfd_raw(), 3);
}

#[test]
fn error_numbers_are_those_of_the_host() {
    assert_eq!(EIO, libc::EIO);
    assert_eq!(EBADF, libc::EBADF);
    assert_eq!(ENOMEM, libc::ENOMEM);
    assert_eq!(ENODEV, libc::ENODEV);
    assert_eq!(EINVAL, libc::EINVAL);
    assert_eq!(ENOTTY, libc::ENOTTY);
    assert_eq!(ENOSYS, libc::ENOSYS);
}
