//! The configuration space of the device.
//!
//! Its layout is fixed: unused places are zero.
//!
//! | bytes      | content                                                         |
//! |------------|-----------------------------------------------------------------|
//! | 0..32      | version of the driver, at most 31 bytes                         |
//! | 32..36     | number of GPUs                                                  |
//! | 36..40     | capabilities                                                    |
//! | 40..72     | device ids of the GPUs, 8 * 4                                   |
//! | 72..8776   | the GPUs, 8 * 1088                                              |
//! | 8776..8780 | number of ioctls with an embedded handle                        |
//! | 8780..8784 | zero                                                            |
//! | 8784..8912 | those ioctls, 16 * 8: number, place of the handle               |
//!
//! A GPU is its PCI address (16, at most 15 used), its minor number (4), the length of its
//! information (4), zero (4), and the information (1060, at most 1059 used).

use vstd::prelude::*;
use vstd::utf8::encode_utf8;

use crate::bytes::{
    cut, equal_parts, field_of_part, group_field_lengths, le32, padded, push_padded, push_u32,
    push_zeros, u32_at, u32_field, zero_fields, zeros,
};
use crate::gpu_nv::allowlist::{fd_translation_ioctls, fd_translations, FdTranslationEntry};
use crate::gpu_nv::config::{GpuInfo, GpuNvConfig};

verus! {

broadcast use group_field_lengths;

/// Size of the configuration space.
pub const CONFIG_SIZE: usize = 8912;

/// Size of one GPU in it.
pub const GPU_SLOT: usize = 1088;

/// GPUs that it has room for.
pub const N_GPU_SLOTS: usize = 8;

/// Ioctls with an embedded handle that it has room for.
pub const N_FD_SLOTS: usize = 16;

/// The number of GPUs that the configuration space shows.
pub open spec fn shown(gpus: Seq<GpuInfo>) -> u32 {
    if gpus.len() < 8 {
        gpus.len() as u32
    } else {
        8
    }
}

/// The device ids: each GPU is known by its index.
pub open spec fn id_parts(n: u32) -> Seq<Seq<u8>> {
    Seq::new(
        8,
        |i: int|
            if i < n {
                le32(i as u32)
            } else {
                zeros(4)
            },
    )
}

/// The information that a GPU slot holds.
pub open spec fn slot_text(gpu: GpuInfo) -> Seq<u8> {
    cut(encode_utf8(gpu.information.content@), 1059)
}

/// One GPU.
pub open spec fn gpu_slot(gpu: GpuInfo) -> Seq<u8> {
    padded(cut(encode_utf8(gpu.pci_addr@), 15), 16) + le32(gpu.minor) + le32(
        slot_text(gpu).len() as u32,
    ) + zeros(4) + padded(slot_text(gpu), 1060)
}

/// The GPUs; unused slots are zero.
pub open spec fn slot_parts(gpus: Seq<GpuInfo>) -> Seq<Seq<u8>> {
    Seq::new(
        8,
        |i: int|
            if i < gpus.len() {
                gpu_slot(gpus[i])
            } else {
                zeros(1088)
            },
    )
}

/// The ioctls with an embedded handle; unused entries are zero.
pub open spec fn fd_parts(entries: Seq<FdTranslationEntry>) -> Seq<Seq<u8>> {
    Seq::new(
        16,
        |i: int|
            if i < entries.len() {
                le32(entries[i].nr) + le32(entries[i].payload_offset as u32)
            } else {
                zeros(8)
            },
    )
}

/// The part of the configuration space before the GPUs.
pub open spec fn config_head(config: GpuNvConfig) -> Seq<u8> {
    padded(cut(encode_utf8(config.driver_version@), 31), 32) + le32(shown(config.gpus@)) + le32(
        config.caps,
    ) + id_parts(shown(config.gpus@)).flatten()
}

/// The part of the configuration space after the GPUs.
pub open spec fn config_tail() -> Seq<u8> {
    le32(fd_translations().len() as u32) + zeros(4) + fd_parts(fd_translations()).flatten()
}

/// The configuration space.
pub open spec fn config_image(config: GpuNvConfig) -> Seq<u8> {
    config_head(config) + slot_parts(config.gpus@).flatten() + config_tail()
}

/// Appends the part before the GPUs.
fn push_head(out: &mut Vec<u8>, config: &GpuNvConfig)
    ensures
        final(out)@ == old(out)@ + config_head(*config),
{
    let n: u32 = if config.gpus.len() < N_GPU_SLOTS {
        config.gpus.len() as u32
    } else {
        8
    };
    push_padded(out, config.driver_version.as_str().as_bytes(), 31, 32);
    push_u32(out, n);
    push_u32(out, config.caps);
    let ghost start = out@;
    let ghost parts = id_parts(n);
    assert(parts.take(0).flatten() =~= Seq::empty());
    let mut i: u32 = 0;
    while i < 8
        invariant
            i <= 8,
            n <= 8,
            parts == id_parts(n),
            out@ =~= start + parts.take(i as int).flatten(),
        decreases 8 - i,
    {
        if i < n {
            push_u32(out, i);
        } else {
            push_zeros(out, 4);
        }
        proof {
            parts.take(i as int).lemma_flatten_push(parts[i as int]);
            assert(parts.take(i + 1) =~= parts.take(i as int).push(parts[i as int]));
        }
        i += 1;
    }
    assert(parts.take(8) =~= parts);
    assert(out@ =~= old(out)@ + config_head(*config));
}

/// Appends one GPU.
fn push_gpu(out: &mut Vec<u8>, gpu: &GpuInfo)
    ensures
        final(out)@ == old(out)@ + gpu_slot(*gpu),
{
    let text = gpu.information.content.as_str().as_bytes();
    let text_len: u32 = if text.len() < 1059 {
        text.len() as u32
    } else {
        1059
    };
    push_padded(out, gpu.pci_addr.as_str().as_bytes(), 15, 16);
    push_u32(out, gpu.minor);
    push_u32(out, text_len);
    push_zeros(out, 4);
    push_padded(out, text, 1059, 1060);
    assert(slot_text(*gpu).len() == text_len);
    assert(out@ =~= old(out)@ + gpu_slot(*gpu));
}

/// Appends the GPUs.
fn push_gpus(out: &mut Vec<u8>, gpus: &Vec<GpuInfo>)
    ensures
        final(out)@ == old(out)@ + slot_parts(gpus@).flatten(),
{
    let ghost parts = slot_parts(gpus@);
    assert(parts.take(0).flatten() =~= Seq::empty());
    let mut i: usize = 0;
    while i < N_GPU_SLOTS
        invariant
            i <= 8,
            parts == slot_parts(gpus@),
            out@ =~= old(out)@ + parts.take(i as int).flatten(),
        decreases 8 - i,
    {
        if i < gpus.len() {
            push_gpu(out, &gpus[i]);
        } else {
            push_zeros(out, GPU_SLOT);
        }
        proof {
            parts.take(i as int).lemma_flatten_push(parts[i as int]);
            assert(parts.take(i + 1) =~= parts.take(i as int).push(parts[i as int]));
        }
        i += 1;
    }
    assert(parts.take(8) =~= parts);
}

/// Appends the part after the GPUs.
fn push_tail(out: &mut Vec<u8>)
    ensures
        final(out)@ == old(out)@ + config_tail(),
{
    let entries = fd_translation_ioctls();
    push_u32(out, entries.len() as u32);
    push_zeros(out, 4);
    let ghost start = out@;
    let ghost parts = fd_parts(entries@);
    assert(parts.take(0).flatten() =~= Seq::empty());
    let mut i: usize = 0;
    while i < N_FD_SLOTS
        invariant
            i <= 16,
            entries@ == fd_translations(),
            parts == fd_parts(entries@),
            out@ =~= start + parts.take(i as int).flatten(),
        decreases 16 - i,
    {
        if i < entries.len() {
            let ghost before = out@;
            push_u32(out, entries[i].nr);
            push_u32(out, entries[i].payload_offset as u32);
            assert(out@ =~= before + parts[i as int]);
        } else {
            push_zeros(out, 8);
        }
        proof {
            parts.take(i as int).lemma_flatten_push(parts[i as int]);
            assert(parts.take(i + 1) =~= parts.take(i as int).push(parts[i as int]));
        }
        i += 1;
    }
    assert(parts.take(16) =~= parts);
    assert(out@ =~= old(out)@ + config_tail());
}

/// The configuration space.
pub fn config_bytes(config: &GpuNvConfig) -> (r: Vec<u8>)
    ensures
        r@ == config_image(*config),
        r@.len() == CONFIG_SIZE,
{
    let mut out: Vec<u8> = Vec::new();
    push_head(&mut out, config);
    push_gpus(&mut out, &config.gpus);
    push_tail(&mut out);
    assert(out@ =~= config_image(*config));
    proof {
        layout_is_fixed(*config);
    }
    out
}

/// Whatever the configuration, the space has the same size and everything in it the same place.
pub proof fn layout_is_fixed(config: GpuNvConfig)
    ensures
        ({
            let c = config_image(config);
            &&& c.len() == CONFIG_SIZE
            &&& c.subrange(0, 32) == padded(cut(encode_utf8(config.driver_version@), 31), 32)
            &&& u32_at(c, 32) == shown(config.gpus@)
            &&& u32_at(c, 36) == config.caps
            &&& c.subrange(40, 72) == id_parts(shown(config.gpus@)).flatten()
            &&& c.subrange(72, 8776) == slot_parts(config.gpus@).flatten()
            &&& u32_at(c, 8776) == fd_translations().len()
            &&& c.subrange(8784, 8912) == fd_parts(fd_translations()).flatten()
        }),
{
    let c = config_image(config);
    let n = shown(config.gpus@);
    let head = config_head(config);
    let tail = config_tail();
    let slots = slot_parts(config.gpus@).flatten();
    let version = padded(cut(encode_utf8(config.driver_version@), 31), 32);
    equal_parts(id_parts(n), 4);
    equal_parts(slot_parts(config.gpus@), 1088);
    equal_parts(fd_parts(fd_translations()), 8);
    assert(head.len() == 72 && slots.len() == 8704 && tail.len() == 136);
    assert(c.subrange(0, 32) =~= version);
    assert(c.subrange(32, 36) =~= le32(n));
    assert(c.subrange(36, 40) =~= le32(config.caps));
    assert(c.subrange(40, 72) =~= id_parts(n).flatten());
    assert(c.subrange(72, 8776) =~= slots);
    let nf = fd_translations().len() as u32;
    assert(c.subrange(8776, 8780) =~= le32(nf));
    assert(c.subrange(8784, 8912) =~= fd_parts(fd_translations()).flatten());
    u32_field(c, 32, n);
    u32_field(c, 36, config.caps);
    u32_field(c, 8776, nf);
}

/// The GPU `i` is found at byte `72 + 1088 * i`, and slots without a GPU are zero.
pub proof fn gpus_are_found_by_index(config: GpuNvConfig, i: int)
    requires
        0 <= i < N_GPU_SLOTS,
    ensures
        config_image(config).subrange(72 + 1088 * i, 72 + 1088 * i + 1088) == if i
            < config.gpus@.len() {
            gpu_slot(config.gpus@[i])
        } else {
            zeros(1088)
        },
{
    let c = config_image(config);
    let parts = slot_parts(config.gpus@);
    layout_is_fixed(config);
    equal_parts(parts, 1088);
    assert(parts[i].len() == 1088);
    assert(parts.flatten().subrange(i * 1088, i * 1088 + 1088) == parts[i]);
    assert(c.subrange(72 + 1088 * i, 72 + 1088 * i + 1088) =~= c.subrange(72, 8776).subrange(
        i * 1088,
        i * 1088 + 1088,
    ));
}

/// What the guest reads of the configuration, byte by byte: the version of the driver in bytes 0 to
/// 30, the number of GPUs at byte 32, at most eight, the capabilities at byte 36, and the number of
/// the GPU `i` at byte 40 and four for each before it.
pub proof fn guest_reads_the_configuration(config: GpuNvConfig, i: int, k: int)
    requires
        0 <= i < 8,
        0 <= k < 32,
    ensures
        ({
            let c = config_image(config);
            let version = encode_utf8(config.driver_version@);
            let n = config.gpus@.len();
            &&& c.len() == 8912
            &&& c[k] == if k < 31 && k < version.len() {
                version[k]
            } else {
                0
            }
            &&& u32_at(c, 32) == if n < 8 {
                n as int
            } else {
                8
            }
            &&& u32_at(c, 36) == config.caps
            &&& u32_at(c, 40 + 4 * i) == if i < n {
                i
            } else {
                0
            }
        }),
{
    let c = config_image(config);
    let n = shown(config.gpus@);
    let parts = id_parts(n);
    layout_is_fixed(config);
    equal_parts(parts, 4);
    let version = padded(cut(encode_utf8(config.driver_version@), 31), 32);
    assert(c[k] == c.subrange(0, 32)[k]);
    let ids = c.subrange(40, 72);
    assert(parts[i].len() == 4);
    assert(ids.subrange(i * 4, i * 4 + 4) == parts[i]);
    assert(c.subrange(40 + 4 * i, 44 + 4 * i) =~= ids.subrange(i * 4, i * 4 + 4));
    zero_fields();
    u32_field(
        c,
        40 + 4 * i,
        if i < n {
            i as u32
        } else {
            0
        },
    );
}

/// What the guest reads of the GPU `i`, which has 1088 bytes from byte 72 + 1088 * i on: its PCI
/// address in the first 15, its minor number at byte 16, how long its information is at byte 20,
/// and the information from byte 28 on, at most 1059 bytes.
pub proof fn guest_reads_each_gpu(config: GpuNvConfig, i: int, k: int)
    requires
        0 <= i < 8,
        i < config.gpus@.len(),
        0 <= k < 1060,
    ensures
        ({
            let c = config_image(config);
            let at = 72 + 1088 * i;
            let gpu = config.gpus@[i];
            let addr = encode_utf8(gpu.pci_addr@);
            let text = encode_utf8(gpu.information.content@);
            &&& k < 16 ==> c[at + k] == if k < 15 && k < addr.len() {
                addr[k]
            } else {
                0
            }
            &&& u32_at(c, at + 16) == gpu.minor
            &&& u32_at(c, at + 20) == if text.len() < 1059 {
                text.len() as int
            } else {
                1059
            }
            &&& u32_at(c, at + 24) == 0
            &&& c[at + 28 + k] == if k < 1059 && k < text.len() {
                text[k]
            } else {
                0
            }
        }),
{
    let c = config_image(config);
    let at = 72 + 1088 * i;
    let gpu = config.gpus@[i];
    gpus_are_found_by_index(config, i);
    layout_is_fixed(config);
    let slot = c.subrange(at, at + 1088);
    assert(slot == gpu_slot(gpu));
    zero_fields();
    let n = slot_text(gpu).len() as u32;
    assert(slot.subrange(16, 20) =~= le32(gpu.minor));
    assert(slot.subrange(20, 24) =~= le32(n));
    assert(slot.subrange(24, 28) =~= le32(0));
    u32_field(slot, 16, gpu.minor);
    u32_field(slot, 20, n);
    u32_field(slot, 24, 0);
    field_of_part(c, at, at + 1088, 16);
    field_of_part(c, at, at + 1088, 20);
    field_of_part(c, at, at + 1088, 24);
    if k < 16 {
        assert(c[at + k] == slot[k]);
    }
    assert(c[at + 28 + k] == slot[28 + k]);
}

/// What the guest reads of the ioctls with an embedded handle: their number at byte 8776, and each
/// in eight bytes from byte 8784 on, its number and then the place of the handle.  They are exactly
/// those that the device translates.
pub proof fn guest_reads_the_translations(config: GpuNvConfig, i: int)
    requires
        0 <= i < fd_translations().len(),
    ensures
        ({
            let c = config_image(config);
            &&& u32_at(c, 8776) == fd_translations().len()
            &&& u32_at(c, 8784 + 8 * i) == fd_translations()[i].nr
            &&& u32_at(c, 8788 + 8 * i) == fd_translations()[i].payload_offset
            &&& u32_at(c, 8780) == 0
            &&& forall|k: int| 8784 + 8 * fd_translations().len() <= k < 8912 ==> c[k] == 0
            &&& fd_translations().len() == 1
            &&& fd_translations()[0].nr == 0xC9
            &&& fd_translations()[0].payload_offset == 0
        }),
{
    let c = config_image(config);
    let parts = fd_parts(fd_translations());
    layout_is_fixed(config);
    equal_parts(parts, 8);
    assert(parts[i].len() == 8);
    let table = c.subrange(8784, 8912);
    assert(table.subrange(i * 8, i * 8 + 8) == parts[i]);
    let e = fd_translations()[i];
    assert(c.subrange(8784 + 8 * i, 8788 + 8 * i) =~= parts[i].subrange(0, 4));
    assert(parts[i].subrange(0, 4) =~= le32(e.nr));
    assert(c.subrange(8788 + 8 * i, 8792 + 8 * i) =~= parts[i].subrange(4, 8));
    assert(parts[i].subrange(4, 8) =~= le32(e.payload_offset as u32));
    u32_field(c, 8784 + 8 * i, e.nr);
    u32_field(c, 8788 + 8 * i, e.payload_offset as u32);
    zero_fields();
    assert(c.subrange(8780, 8784) =~= le32(0));
    u32_field(c, 8780, 0);
    assert forall|k: int| 8784 + 8 * fd_translations().len() <= k < 8912 implies c[k] == 0 by {
        let j = (k - 8784) / 8;
        assert(parts[j] == zeros(8));
        assert(table.subrange(j * 8, j * 8 + 8) == parts[j]);
        assert(c[k] == table.subrange(j * 8, j * 8 + 8)[k - 8784 - j * 8]);
    }
}

} // verus!
