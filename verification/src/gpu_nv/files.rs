//! Lists of files and DRI devices, as the guest gets them.
//!
//! A file is the length of its path (4), the length of its content (4), the path and the content.
//! Two zero lengths end a list of files.  A DRI device is the length of its name (4), its major
//! (4) and minor (4) number, the number of its GPU (4), and the name; their count stands before
//! them.

use vstd::prelude::*;
use vstd::utf8::encode_utf8;

use crate::bytes::{
    group_field_lengths, le32, len_field, length_field, push_bytes, push_u32, push_zeros, u32_at,
    u32_field, zero_fields, zeros,
};
use crate::gpu_nv::config::{DriDevice, HostProcFile, SysFile};

verus! {

broadcast use group_field_lengths;

/// A path and a content, both in bytes.
pub type FileBytes = (Seq<u8>, Seq<u8>);

/// The bytes of one file.
pub open spec fn file_record(f: FileBytes) -> Seq<u8> {
    le32(len_field(f.0.len())) + le32(len_field(f.1.len())) + f.0 + f.1
}

/// The bytes of a list of files: each file, and the end mark.
pub open spec fn file_list(files: Seq<FileBytes>) -> Seq<u8> {
    files.map_values(|f: FileBytes| file_record(f)).flatten() + zeros(8)
}

/// A proc file in bytes.
pub open spec fn proc_bytes(f: HostProcFile) -> FileBytes {
    (encode_utf8(f.guest_path@), encode_utf8(f.content@))
}

/// A sysfs file in bytes.
pub open spec fn sys_bytes(f: SysFile) -> FileBytes {
    (encode_utf8(f.path@), f.content@)
}

/// Proc files in bytes.
pub open spec fn proc_files(files: Seq<HostProcFile>) -> Seq<FileBytes> {
    files.map_values(|f: HostProcFile| proc_bytes(f))
}

/// Sysfs files in bytes.
pub open spec fn sys_files(files: Seq<SysFile>) -> Seq<FileBytes> {
    files.map_values(|f: SysFile| sys_bytes(f))
}

/// The bytes of one DRI device.
pub open spec fn dri_record(d: DriDevice) -> Seq<u8> {
    le32(len_field(encode_utf8(d.name@).len())) + le32(d.major) + le32(d.minor) + le32(d.gpu_id)
        + encode_utf8(d.name@)
}

/// The bytes of a list of DRI devices: their count, and each device.
pub open spec fn dri_list(devices: Seq<DriDevice>) -> Seq<u8> {
    le32(len_field(devices.len())) + devices.map_values(|d: DriDevice| dri_record(d)).flatten()
}

/// Appends a file.
fn push_file(out: &mut Vec<u8>, path: &[u8], content: &[u8])
    ensures
        final(out)@ == old(out)@ + file_record((path@, content@)),
{
    push_u32(out, length_field(path.len()));
    push_u32(out, length_field(content.len()));
    push_bytes(out, path);
    push_bytes(out, content);
    assert(out@ =~= old(out)@ + file_record((path@, content@)));
}

/// Appends a list of proc files.
pub fn push_proc_files(out: &mut Vec<u8>, files: &Vec<HostProcFile>)
    ensures
        final(out)@ == old(out)@ + file_list(proc_files(files@)),
{
    let ghost all = proc_files(files@).map_values(|f: FileBytes| file_record(f));
    let ghost start = out@;
    let mut i: usize = 0;
    assert(all.take(0).flatten() =~= Seq::empty());
    while i < files.len()
        invariant
            i <= files@.len(),
            all == proc_files(files@).map_values(|f: FileBytes| file_record(f)),
            out@ =~= start + all.take(i as int).flatten(),
        decreases files.len() - i,
    {
        let f = &files[i];
        push_file(out, f.guest_path.as_str().as_bytes(), f.content.as_str().as_bytes());
        proof {
            all.take(i as int).lemma_flatten_push(all[i as int]);
            assert(all.take(i + 1) =~= all.take(i as int).push(all[i as int]));
        }
        i += 1;
    }
    assert(all.take(i as int) =~= all);
    push_zeros(out, 8);
    assert(out@ =~= start + file_list(proc_files(files@)));
}

/// Appends a list of sysfs files.
pub fn push_sys_files(out: &mut Vec<u8>, files: &Vec<SysFile>)
    ensures
        final(out)@ == old(out)@ + file_list(sys_files(files@)),
{
    let ghost all = sys_files(files@).map_values(|f: FileBytes| file_record(f));
    let ghost start = out@;
    let mut i: usize = 0;
    assert(all.take(0).flatten() =~= Seq::empty());
    while i < files.len()
        invariant
            i <= files@.len(),
            all == sys_files(files@).map_values(|f: FileBytes| file_record(f)),
            out@ =~= start + all.take(i as int).flatten(),
        decreases files.len() - i,
    {
        let f = &files[i];
        push_file(out, f.path.as_str().as_bytes(), f.content.as_slice());
        proof {
            all.take(i as int).lemma_flatten_push(all[i as int]);
            assert(all.take(i + 1) =~= all.take(i as int).push(all[i as int]));
        }
        i += 1;
    }
    assert(all.take(i as int) =~= all);
    push_zeros(out, 8);
    assert(out@ =~= start + file_list(sys_files(files@)));
}

/// Appends a list of DRI devices.
pub fn push_dri_devices(out: &mut Vec<u8>, devices: &Vec<DriDevice>)
    ensures
        final(out)@ == old(out)@ + dri_list(devices@),
{
    let ghost all = devices@.map_values(|d: DriDevice| dri_record(d));
    let ghost start = out@ + le32(len_field(devices@.len()));
    push_u32(out, length_field(devices.len()));
    let mut i: usize = 0;
    assert(all.take(0).flatten() =~= Seq::empty());
    while i < devices.len()
        invariant
            i <= devices@.len(),
            all == devices@.map_values(|d: DriDevice| dri_record(d)),
            out@ =~= start + all.take(i as int).flatten(),
        decreases devices.len() - i,
    {
        let d = &devices[i];
        let name = d.name.as_str().as_bytes();
        let ghost before = out@;
        push_u32(out, length_field(name.len()));
        push_u32(out, d.major);
        push_u32(out, d.minor);
        push_u32(out, d.gpu_id);
        push_bytes(out, name);
        proof {
            assert(out@ =~= before + dri_record(*d));
            all.take(i as int).lemma_flatten_push(all[i as int]);
            assert(all.take(i + 1) =~= all.take(i as int).push(all[i as int]));
        }
        i += 1;
    }
    assert(all.take(i as int) =~= all);
    assert(out@ =~= old(out)@ + dri_list(devices@));
}

/// The list of files that `s` starts with, and what follows its end mark.
pub open spec fn read_files(s: Seq<u8>) -> Option<(Seq<FileBytes>, Seq<u8>)>
    decreases s.len(),
{
    if s.len() < 8 {
        None
    } else {
        let path_len = u32_at(s, 0) as int;
        let content_len = u32_at(s, 4) as int;
        let end = 8 + path_len + content_len;
        if path_len == 0 && content_len == 0 {
            Some((Seq::empty(), s.skip(8)))
        } else if s.len() < end {
            None
        } else {
            match read_files(s.skip(end)) {
                None => None,
                Some((files, rest)) => Some(
                    (
                        seq![(s.subrange(8, 8 + path_len), s.subrange(8 + path_len, end))] + files,
                        rest,
                    ),
                ),
            }
        }
    }
}

/// A list of files can be written so that it is read back: no length is too long for its field,
/// and no file looks like the end mark.
pub open spec fn listable(files: Seq<FileBytes>) -> bool {
    forall|i: int|
        0 <= i < files.len() ==> {
            let f = #[trigger] files[i];
            &&& f.0.len() <= u32::MAX
            &&& f.1.len() <= u32::MAX
            &&& f.0.len() + f.1.len() > 0
        }
}

/// Where the guest finds a file: at byte 0 the length of its path, at byte 4 that of its content,
/// and from byte 8 on the path and then the content.  The next one follows at once.
pub proof fn record_reads_back(f: FileBytes, rest: Seq<u8>)
    requires
        f.0.len() <= u32::MAX,
        f.1.len() <= u32::MAX,
    ensures
        ({
            let s = file_record(f) + rest;
            let mid = (8 + f.0.len()) as int;
            let end = mid + f.1.len();
            &&& s.len() == end + rest.len()
            &&& u32_at(s, 0) == f.0.len()
            &&& u32_at(s, 4) == f.1.len()
            &&& s.subrange(8, mid) == f.0
            &&& s.subrange(mid, end) == f.1
            &&& s.skip(end) == rest
        }),
{
    let s = file_record(f) + rest;
    let mid = (8 + f.0.len()) as int;
    let end = mid + f.1.len();
    let a = len_field(f.0.len());
    let b = len_field(f.1.len());
    assert(s.subrange(0, 4) =~= le32(a));
    assert(s.subrange(4, 8) =~= le32(b));
    u32_field(s, 0, a);
    u32_field(s, 4, b);
    assert(s.subrange(8, mid) =~= f.0);
    assert(s.subrange(mid, end) =~= f.1);
    assert(s.skip(end) =~= rest);
}

/// The guest reads exactly the files that were written, and finds whatever follows them.
pub proof fn files_read_back(files: Seq<FileBytes>, rest: Seq<u8>)
    requires
        listable(files),
    ensures
        read_files(file_list(files) + rest) == Some((files, rest)),
    decreases files.len(),
{
    let s = file_list(files) + rest;
    let records = files.map_values(|f: FileBytes| file_record(f));
    if files.len() == 0 {
        assert(records.flatten() =~= Seq::empty());
        assert(s =~= zeros(8) + rest);
        assert(s.skip(8) =~= rest);
        zero_fields();
        assert(s.subrange(0, 4) =~= zeros(4));
        assert(s.subrange(4, 8) =~= zeros(4));
        u32_field(s, 0, 0);
        u32_field(s, 4, 0);
        assert(files =~= Seq::empty());
    } else {
        let f = files[0];
        let tail = files.drop_first();
        let after = file_list(tail) + rest;
        assert forall|i: int| 0 <= i < tail.len() implies (#[trigger] tail[i]).0.len() <= u32::MAX
            && tail[i].1.len() <= u32::MAX && tail[i].0.len() + tail[i].1.len() > 0 by {
            assert(tail[i] == files[i + 1]);
        }
        files_read_back(tail, rest);
        assert(records.first() == file_record(f));
        assert(records.drop_first() =~= tail.map_values(|f: FileBytes| file_record(f)));
        assert(records.flatten() =~= file_record(f) + records.drop_first().flatten());
        assert(s =~= file_record(f) + after);
        record_reads_back(f, after);
        assert(files =~= seq![f] + tail);
    }
}

/// A DRI device as the guest reads it: its name, its major and minor number, and the number of
/// its GPU.
pub type DriFields = (Seq<u8>, u32, u32, u32);

/// A DRI device as the guest reads it.
pub open spec fn dri_fields(d: DriDevice) -> DriFields {
    (encode_utf8(d.name@), d.major, d.minor, d.gpu_id)
}

/// The `n` DRI devices that `s` starts with, and what follows them.
pub open spec fn read_dri(s: Seq<u8>, n: nat) -> Option<(Seq<DriFields>, Seq<u8>)>
    decreases n,
{
    if n == 0 {
        Some((Seq::empty(), s))
    } else if s.len() < 16 || s.len() < 16 + u32_at(s, 0) {
        None
    } else {
        let end = 16 + u32_at(s, 0);
        match read_dri(s.skip(end), (n - 1) as nat) {
            None => None,
            Some((devices, rest)) => Some(
                (
                    seq![(s.subrange(16, end), u32_at(s, 4), u32_at(s, 8), u32_at(s, 12))]
                        + devices,
                    rest,
                ),
            ),
        }
    }
}

/// Where the guest finds a DRI device: at byte 0 the length of its name, at bytes 4 and 8 its major
/// and minor number, at byte 12 the number of its GPU, and from byte 16 on the name.  The next one
/// follows at once.
pub proof fn dri_record_reads_back(d: DriDevice, rest: Seq<u8>)
    requires
        encode_utf8(d.name@).len() <= u32::MAX,
    ensures
        ({
            let s = dri_record(d) + rest;
            let name = encode_utf8(d.name@);
            let end = 16 + name.len() as int;
            &&& s.len() == end + rest.len()
            &&& u32_at(s, 0) == name.len()
            &&& u32_at(s, 4) == d.major
            &&& u32_at(s, 8) == d.minor
            &&& u32_at(s, 12) == d.gpu_id
            &&& s.subrange(16, end) == name
            &&& s.skip(end) == rest
        }),
{
    let s = dri_record(d) + rest;
    let name = encode_utf8(d.name@);
    let n = len_field(name.len());
    assert(s.subrange(0, 4) =~= le32(n));
    assert(s.subrange(4, 8) =~= le32(d.major));
    assert(s.subrange(8, 12) =~= le32(d.minor));
    assert(s.subrange(12, 16) =~= le32(d.gpu_id));
    u32_field(s, 0, n);
    u32_field(s, 4, d.major);
    u32_field(s, 8, d.minor);
    u32_field(s, 12, d.gpu_id);
    assert(s.subrange(16, 16 + name.len() as int) =~= name);
    assert(s.skip(16 + name.len() as int) =~= rest);
}

/// The guest reads exactly the DRI devices that were written.
pub proof fn devices_read_back(devices: Seq<DriDevice>, rest: Seq<u8>)
    requires
        devices.len() <= u32::MAX,
        forall|i: int|
            0 <= i < devices.len() ==> encode_utf8((#[trigger] devices[i]).name@).len() <= u32::MAX,
    ensures
        u32_at(dri_list(devices) + rest, 0) == devices.len(),
        read_dri((dri_list(devices) + rest).skip(4), devices.len()) == Some(
            (devices.map_values(|d: DriDevice| dri_fields(d)), rest),
        ),
{
    let s = dri_list(devices) + rest;
    let records = devices.map_values(|d: DriDevice| dri_record(d)).flatten();
    assert(s.subrange(0, 4) =~= le32(len_field(devices.len())));
    u32_field(s, 0, len_field(devices.len()));
    assert(s.skip(4) =~= records + rest);
    dri_records_read_back(devices, rest);
}

/// DRI devices one after the other are read back.
proof fn dri_records_read_back(devices: Seq<DriDevice>, rest: Seq<u8>)
    requires
        forall|i: int|
            0 <= i < devices.len() ==> encode_utf8((#[trigger] devices[i]).name@).len() <= u32::MAX,
    ensures
        read_dri(
            devices.map_values(|d: DriDevice| dri_record(d)).flatten() + rest,
            devices.len(),
        ) == Some((devices.map_values(|d: DriDevice| dri_fields(d)), rest)),
    decreases devices.len(),
{
    let records = devices.map_values(|d: DriDevice| dri_record(d));
    let fields = devices.map_values(|d: DriDevice| dri_fields(d));
    let s = records.flatten() + rest;
    if devices.len() == 0 {
        assert(s =~= rest);
        assert(fields =~= Seq::empty());
    } else {
        let d = devices[0];
        let tail = devices.drop_first();
        let after = records.drop_first().flatten() + rest;
        assert forall|i: int| 0 <= i < tail.len() implies encode_utf8(
            (#[trigger] tail[i]).name@,
        ).len() <= u32::MAX by {
            assert(tail[i] == devices[i + 1]);
        }
        dri_records_read_back(tail, rest);
        assert(records.drop_first() =~= tail.map_values(|d: DriDevice| dri_record(d)));
        assert(records.flatten() =~= dri_record(d) + records.drop_first().flatten());
        assert(s =~= dri_record(d) + after);
        dri_record_reads_back(d, after);
        assert(fields =~= seq![dri_fields(d)] + tail.map_values(|d: DriDevice| dri_fields(d)));
    }
}

/// A list of files is the bytes of each, one after the other, and then eight zero bytes; a list of
/// DRI devices is their number, in four bytes, and then the bytes of each.
pub proof fn lists_are_put_together(
    files: Seq<FileBytes>,
    f: FileBytes,
    devices: Seq<DriDevice>,
    d: DriDevice,
)
    requires
        devices.len() < 0xFFFF_FFFF,
    ensures
        file_list(Seq::<FileBytes>::empty()) == zeros(8),
        file_list(seq![f] + files) == file_record(f) + file_list(files),
        dri_list(devices.push(d)).skip(4) == dri_list(devices).skip(4) + dri_record(d),
        dri_list(devices).take(4) == le32(devices.len() as u32),
        dri_list(Seq::<DriDevice>::empty()).len() == 4,
{
    let none = Seq::<FileBytes>::empty().map_values(|f: FileBytes| file_record(f));
    assert(none.flatten() =~= Seq::empty());
    assert(file_list(Seq::<FileBytes>::empty()) =~= zeros(8));
    let all = (seq![f] + files).map_values(|f: FileBytes| file_record(f));
    assert(all.first() == file_record(f));
    assert(all.drop_first() =~= files.map_values(|f: FileBytes| file_record(f)));
    assert(file_list(seq![f] + files) =~= file_record(f) + file_list(files));
    let before = devices.map_values(|d: DriDevice| dri_record(d));
    let after = devices.push(d).map_values(|d: DriDevice| dri_record(d));
    assert(after =~= before.push(dri_record(d)));
    before.lemma_flatten_push(dri_record(d));
    assert(dri_list(devices).skip(4) =~= before.flatten());
    assert(dri_list(devices.push(d)).skip(4) =~= after.flatten());
    assert(dri_list(devices).take(4) =~= le32(devices.len() as u32));
    let no_devices = Seq::<DriDevice>::empty().map_values(|d: DriDevice| dri_record(d));
    assert(no_devices.flatten() =~= Seq::empty());
}

} // verus!
