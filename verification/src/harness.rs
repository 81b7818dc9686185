//! Framing of the loopback transport that stands in for a virtual machine.
//!
//! Each message is preceded by its length, in four bytes.

use vstd::prelude::*;

use crate::bytes::{group_field_lengths, le32, push_bytes, push_u32, read_u32, u32_at, u32_field};

verus! {

broadcast use group_field_lengths;

/// Bytes of the length before a message.
pub const PREFIX_SIZE: usize = 4;

/// Room for a response.
pub const RESPONSE_CAPACITY: usize = 8192;

/// A message with its length before it.
pub open spec fn framed(body: Seq<u8>) -> Seq<u8> {
    le32(body.len() as u32) + body
}

/// A message with its length before it.
pub fn frame(body: &[u8]) -> (r: Vec<u8>)
    requires
        body.len() <= u32::MAX,
    ensures
        r@ == framed(body@),
{
    let mut out: Vec<u8> = Vec::new();
    push_u32(&mut out, body.len() as u32);
    push_bytes(&mut out, body);
    assert(out@ =~= framed(body@));
    out
}

/// The length of the message after `prefix`.
pub fn frame_len(prefix: &[u8]) -> (r: u32)
    requires
        prefix.len() == PREFIX_SIZE,
    ensures
        r == u32_at(prefix@, 0),
{
    read_u32(prefix, 0)
}

/// The reader of a framed message learns its length first, and then gets the message.
pub proof fn frame_reads_back(body: Seq<u8>)
    requires
        body.len() <= u32::MAX,
    ensures
        u32_at(framed(body).take(4), 0) == body.len(),
        framed(body).skip(4) == body,
{
    let f = framed(body);
    let n = body.len() as u32;
    assert(f.take(4).subrange(0, 4) =~= le32(n));
    u32_field(f.take(4), 0, n);
    assert(f.skip(4) =~= body);
}

/// The file that is opened for a device: in mock mode /dev/null stands in for /dev/nvidiactl, so
/// that no GPU is needed.
pub open spec fn opened_path(path: Seq<char>, mock: bool) -> Seq<char> {
    if mock && path == "/dev/nvidiactl"@ {
        "/dev/null"@
    } else {
        path
    }
}

/// The file that is opened for a device.
pub fn path_to_open(path: String, mock: bool) -> (r: String)
    ensures
        r@ == opened_path(path@, mock),
{
    let control = "/dev/nvidiactl".to_owned();
    if mock && path == control {
        "/dev/null".to_owned()
    } else {
        path
    }
}

/// Only in mock mode, and only for the control device, is another file opened than the one asked
/// for.
pub proof fn only_the_control_device_is_mocked(path: Seq<char>, mock: bool)
    ensures
        !mock ==> opened_path(path, mock) == path,
        path != "/dev/nvidiactl"@ ==> opened_path(path, mock) == path,
        mock && path == "/dev/nvidiactl"@ ==> opened_path(path, mock) == "/dev/null"@,
{
}

} // verus!
