//! The shared-memory window: three zones, one per caching mode, each filled from its start.

use vstd::arithmetic::div_mod::{
    lemma_fundamental_div_mod, lemma_mod_bound, lemma_mod_multiples_basic,
};
use vstd::prelude::*;

use crate::error::DeviceError;

verus! {

/// Size of a page.
pub const PAGE: u64 = 4096;

/// Caching mode of a mapping.
#[derive(Clone, Copy, Debug, PartialEq, Eq, Structural)]
pub enum PgprotKind {
    WriteBack,
    WriteCombine,
    Uncached,
}

impl PgprotKind {
    /// The number that stands for the mode on the wire.
    pub open spec fn spec_code(self) -> u8 {
        match self {
            PgprotKind::WriteBack => 0,
            PgprotKind::WriteCombine => 1,
            PgprotKind::Uncached => 2,
        }
    }

    /// The number that stands for the mode on the wire.
    pub fn code(self) -> (r: u8)
        ensures
            r == self.spec_code(),
    {
        match self {
            PgprotKind::WriteBack => 0,
            PgprotKind::WriteCombine => 1,
            PgprotKind::Uncached => 2,
        }
    }

    /// The mode that `v` stands for on the wire, if any.
    pub fn from_u8(v: u8) -> (r: Option<Self>)
        ensures
            r is Some <==> v <= 2,
            r matches Some(k) ==> k.spec_code() == v,
    {
        match v {
            0 => Some(PgprotKind::WriteBack),
            1 => Some(PgprotKind::WriteCombine),
            2 => Some(PgprotKind::Uncached),
            _ => None,
        }
    }
}

/// A part of the window that was given out.
#[derive(Clone, Copy, Debug)]
pub struct ShmRegion {
    pub offset: u64,
    pub length: u64,
    pub pgprot: PgprotKind,
}

/// The least multiple of `align` that is not below `v`.
pub open spec fn round_up(v: int, align: int) -> int {
    (v + align - 1) / align * align
}

/// Exactly one bit of `x` is set.
pub open spec fn is_power_of_two(x: u64) -> bool {
    x > 0 && x & ((x - 1) as u64) == 0
}

/// A page is a power of two.
proof fn page_is_power_of_two()
    ensures
        is_power_of_two(PAGE),
{
    assert(0x1000u64 & 0xFFFu64 == 0) by (bit_vector);
}

/// Rounds `v` up to a multiple of `align`.
pub fn align_up(v: u64, align: u64) -> (r: u64)
    requires
        is_power_of_two(align),
        v + align <= u64::MAX,
    ensures
        r == round_up(v as int, align as int),
        v <= r < v + align,
        r % align == 0,
{
    let sum = v + align - 1;
    proof {
        let (s, a) = (sum as int, align as int);
        lemma_fundamental_div_mod(s, a);
        lemma_mod_bound(s, a);
        lemma_mod_multiples_basic(s / a, a);
        assert(s / a * a == a * (s / a)) by (nonlinear_arith);
    }
    sum / align * align
}

/// One zone of the window.
#[derive(Clone, Copy, Debug)]
pub struct Zone {
    /// Offset of the zone in the window.
    pub base: u64,
    /// Bytes in the zone.
    pub size: u64,
    /// Bytes given out so far, all from the zone's start.
    pub cursor: u64,
}

impl Zone {
    /// What is given out lies in the zone, and is whole pages.
    pub open spec fn wf(self) -> bool {
        &&& self.cursor <= self.size
        &&& self.base + self.size <= u64::MAX
        &&& self.cursor % PAGE == 0
    }

    /// Bytes that are left.
    pub open spec fn free(self) -> int {
        self.size - self.cursor
    }

    /// The sums that decide whether `length` bytes fit stay in range.
    pub open spec fn measurable(self, length: u64) -> bool {
        &&& length + PAGE <= u64::MAX
        &&& self.cursor + round_up(length as int, PAGE as int) <= u64::MAX
    }

    /// `length` bytes, rounded up to pages, are left.
    pub open spec fn has_room(self, length: u64) -> bool {
        self.cursor + round_up(length as int, PAGE as int) <= self.size
    }

    /// The zone after `length` bytes were given out.
    pub open spec fn after(self, length: u64) -> Zone {
        Zone { cursor: (self.cursor + round_up(length as int, PAGE as int)) as u64, ..self }
    }

    /// An empty zone of `size` bytes at `base`.
    pub fn new(base: u64, size: u64) -> (r: Self)
        ensures
            r == (Zone { base, size, cursor: 0 }),
            base + size <= u64::MAX ==> r.wf(),
    {
        Zone { base, size, cursor: 0 }
    }

    /// Gives out `length` bytes, rounded up to pages, and returns their offset in the window.
    pub fn allocate(&mut self, length: u64) -> (r: Option<u64>)
        requires
            old(self).wf(),
            old(self).measurable(length),
        ensures
            final(self).wf(),
            r == if old(self).has_room(length) {
                Some((old(self).base + old(self).cursor) as u64)
            } else {
                None
            },
            *final(self) == if old(self).has_room(length) {
                old(self).after(length)
            } else {
                *old(self)
            },
    {
        proof {
            page_is_power_of_two();
        }
        let aligned = align_up(length, PAGE);
        if self.cursor + aligned > self.size {
            return None;
        }
        let offset = self.base + self.cursor;
        self.cursor = self.cursor + aligned;
        Some(offset)
    }

    /// Bytes that are left.
    pub fn free_bytes(&self) -> (r: u64)
        requires
            self.wf(),
        ensures
            r == self.free(),
    {
        self.size - self.cursor
    }
}

/// Sizes of the three zones.
#[derive(Clone, Copy, Debug)]
pub struct ZoneConfig {
    pub uc_size: u64,
    pub wc_size: u64,
    pub wb_size: u64,
}

impl ZoneConfig {
    /// The sum of the three sizes.
    pub open spec fn sum(self) -> int {
        self.uc_size + self.wc_size + self.wb_size
    }

    /// Whole pages in each zone, at least one page in all, and a sum that fits.
    pub open spec fn valid(self) -> bool {
        &&& self.uc_size % PAGE == 0
        &&& self.wc_size % PAGE == 0
        &&& self.wb_size % PAGE == 0
        &&& 0 < self.sum() <= u64::MAX
    }

    /// 256 MiB: 4 uncached, 128 write-combining, 124 write-back.
    pub fn default_256mib() -> (r: Self)
        ensures
            r.uc_size == 4 * 1024 * 1024,
            r.wc_size == 128 * 1024 * 1024,
            r.wb_size == 124 * 1024 * 1024,
            r.sum() == 256 * 1024 * 1024,
            r.valid(),
    {
        ZoneConfig {
            uc_size: 4 * 1024 * 1024,
            wc_size: 128 * 1024 * 1024,
            wb_size: 124 * 1024 * 1024,
        }
    }

    /// The sum of the three sizes.
    pub fn total(&self) -> (r: u64)
        requires
            self.sum() <= u64::MAX,
        ensures
            r == self.sum(),
    {
        self.uc_size + self.wc_size + self.wb_size
    }
}

/// A host mapping to be laid over a part of the window.
#[derive(Clone, Copy, Debug)]
pub struct HostMap {
    /// Host address that the mapping is fixed to.
    pub target: u64,
    /// Bytes to map.
    pub length: u64,
    /// Host descriptor to map, from its start.
    pub fd: i32,
}

/// Gives out parts of the window.
#[derive(Clone, Copy, Debug)]
pub struct ShmAllocator {
    pub uc: Zone,
    pub wc: Zone,
    pub wb: Zone,
    /// Host address of the window.  At first that of the allocator's own memory; the guest's
    /// memory once it is set up.
    pub base_ptr: u64,
    /// Descriptor of the allocator's own memory, if it has one.
    pub memfd: Option<i32>,
    pub total_size: u64,
}

impl ShmAllocator {
    /// The zones lie one after the other, without gap or overlap, and fill the window.
    pub open spec fn wf(self) -> bool {
        &&& self.uc.wf()
        &&& self.wc.wf()
        &&& self.wb.wf()
        &&& self.uc.size % PAGE == 0
        &&& self.wc.size % PAGE == 0
        &&& self.wb.size % PAGE == 0
        &&& self.uc.base == 0
        &&& self.uc.base + self.uc.size == self.wc.base
        &&& self.wc.base + self.wc.size == self.wb.base
        &&& self.wb.base + self.wb.size == self.total_size
        &&& self.total_size > 0
        &&& self.base_ptr + self.total_size <= u64::MAX
    }

    /// The zone that serves mappings of mode `pgprot`.
    pub open spec fn zone(self, pgprot: PgprotKind) -> Zone {
        match pgprot {
            PgprotKind::Uncached => self.uc,
            PgprotKind::WriteCombine => self.wc,
            PgprotKind::WriteBack => self.wb,
        }
    }

    /// The allocator with the zone of mode `pgprot` replaced.
    pub open spec fn with_zone(self, pgprot: PgprotKind, zone: Zone) -> ShmAllocator {
        match pgprot {
            PgprotKind::Uncached => ShmAllocator { uc: zone, ..self },
            PgprotKind::WriteCombine => ShmAllocator { wc: zone, ..self },
            PgprotKind::WriteBack => ShmAllocator { wb: zone, ..self },
        }
    }

    /// What a request for `length` bytes of mode `pgprot` gives.
    pub open spec fn granted(self, length: u64, pgprot: PgprotKind) -> Result<
        ShmRegion,
        DeviceError,
    > {
        let zone = self.zone(pgprot);
        if zone.has_room(length) {
            Ok(ShmRegion { offset: (zone.base + zone.cursor) as u64, length, pgprot })
        } else {
            Err(
                DeviceError::ZoneFull {
                    pgprot,
                    free: (zone.size - zone.cursor) as u64,
                    requested: length,
                },
            )
        }
    }

    /// The allocator after a request for `length` bytes of mode `pgprot`.
    pub open spec fn after(self, length: u64, pgprot: PgprotKind) -> ShmAllocator {
        let zone = self.zone(pgprot);
        if zone.has_room(length) {
            self.with_zone(pgprot, zone.after(length))
        } else {
            self
        }
    }

    /// An allocator over the memory of `memfd`, which the host has mapped at `memfd_ptr`.
    pub fn new(cfg: ZoneConfig, memfd: Option<i32>, memfd_ptr: u64) -> (r: Self)
        requires
            cfg.valid(),
            memfd_ptr + cfg.sum() <= u64::MAX,
        ensures
            r.wf(),
            r.uc == (Zone { base: 0, size: cfg.uc_size, cursor: 0 }),
            r.wc == (Zone { base: cfg.uc_size, size: cfg.wc_size, cursor: 0 }),
            r.wb == (Zone {
                base: (cfg.uc_size + cfg.wc_size) as u64,
                size: cfg.wb_size,
                cursor: 0,
            }),
            r.base_ptr == memfd_ptr,
            r.memfd == memfd,
            r.total_size == cfg.sum(),
    {
        let total = cfg.total();
        let uc_base: u64 = 0;
        let wc_base = cfg.uc_size;
        let wb_base = cfg.uc_size + cfg.wc_size;
        ShmAllocator {
            uc: Zone::new(uc_base, cfg.uc_size),
            wc: Zone::new(wc_base, cfg.wc_size),
            wb: Zone::new(wb_base, cfg.wb_size),
            base_ptr: memfd_ptr,
            memfd,
            total_size: total,
        }
    }

    /// An allocator with the zones of [`ZoneConfig::default_256mib`].
    pub fn with_default_zones(memfd: Option<i32>, memfd_ptr: u64) -> (r: Self)
        requires
            memfd_ptr + 256 * 1024 * 1024 <= u64::MAX,
        ensures
            r.wf(),
            r.uc == (Zone { base: 0, size: 0x40_0000, cursor: 0 }),
            r.wc == (Zone { base: 0x40_0000, size: 0x800_0000, cursor: 0 }),
            r.wb == (Zone { base: 0x840_0000, size: 0x7c0_0000, cursor: 0 }),
            r.base_ptr == memfd_ptr,
            r.memfd == memfd,
            r.total_size == 256 * 1024 * 1024,
    {
        ShmAllocator::new(ZoneConfig::default_256mib(), memfd, memfd_ptr)
    }

    /// Moves the window to another host address: from then on host mappings go there.
    pub fn set_base_ptr(&mut self, ptr: u64)
        requires
            old(self).wf(),
            ptr + old(self).total_size <= u64::MAX,
        ensures
            final(self).wf(),
            *final(self) == (ShmAllocator { base_ptr: ptr, ..*old(self) }),
    {
        self.base_ptr = ptr;
    }

    /// Whether the sums that decide a request for `length` bytes of mode `pgprot` stay in range.
    pub fn can_measure(&self, length: u64, pgprot: PgprotKind) -> (r: bool)
        requires
            self.wf(),
        ensures
            r == self.zone(pgprot).measurable(length),
    {
        let zone = match pgprot {
            PgprotKind::Uncached => self.uc,
            PgprotKind::WriteCombine => self.wc,
            PgprotKind::WriteBack => self.wb,
        };
        proof {
            page_is_power_of_two();
        }
        length <= u64::MAX - PAGE && align_up(length, PAGE) <= u64::MAX - zone.cursor
    }

    /// Gives out `length` bytes of mode `pgprot`, rounded up to pages.
    pub fn allocate(&mut self, length: u64, pgprot: PgprotKind) -> (r: Result<
        ShmRegion,
        DeviceError,
    >)
        requires
            old(self).wf(),
            old(self).zone(pgprot).measurable(length),
        ensures
            final(self).wf(),
            r == old(self).granted(length, pgprot),
            *final(self) == old(self).after(length, pgprot),
    {
        let (found, free) = match pgprot {
            PgprotKind::Uncached => (self.uc.allocate(length), self.uc.free_bytes()),
            PgprotKind::WriteCombine => (self.wc.allocate(length), self.wc.free_bytes()),
            PgprotKind::WriteBack => (self.wb.allocate(length), self.wb.free_bytes()),
        };
        match found {
            Some(offset) => Ok(ShmRegion { offset, length, pgprot }),
            None => Err(DeviceError::ZoneFull { pgprot, free, requested: length }),
        }
    }

    /// The host mapping that lays `host_fd` over the window at `offset`.
    pub fn map_host_fd(&self, offset: u64, length: u64, host_fd: i32) -> (r: HostMap)
        requires
            self.wf(),
            offset + length <= self.total_size,
        ensures
            r.target == self.base_ptr + offset,
            r.length == length,
            r.fd == host_fd,
    {
        HostMap { target: self.base_ptr + offset, length, fd: host_fd }
    }

    /// Descriptor of the allocator's own memory, or -1.
    pub fn memfd_raw(&self) -> (r: i32)
        ensures
            r == match self.memfd {
                Some(fd) => fd,
                None => -1i32,
            },
    {
        match self.memfd {
            Some(fd) => fd,
            None => -1,
        }
    }

    /// Host address of the window.
    pub fn base_ptr(&self) -> (r: u64)
        ensures
            r == self.base_ptr,
    {
        self.base_ptr
    }

    /// Offset of the uncached zone.
    pub fn uc_zone_offset(&self) -> (r: u64)
        ensures
            r == self.uc.base,
    {
        self.uc.base
    }

    /// Offset of the write-combining zone.
    pub fn wc_zone_offset(&self) -> (r: u64)
        ensures
            r == self.wc.base,
    {
        self.wc.base
    }

    /// Offset of the write-back zone.
    pub fn wb_zone_offset(&self) -> (r: u64)
        ensures
            r == self.wb.base,
    {
        self.wb.base
    }

    /// Bytes in the window.
    pub fn total_size(&self) -> (r: u64)
        ensures
            r == self.total_size,
    {
        self.total_size
    }
}

/// `later` can follow `earlier`: the zones are where they were and hold at least as much.
pub open spec fn follows(earlier: ShmAllocator, later: ShmAllocator) -> bool {
    forall|k: PgprotKind|
        #![trigger later.zone(k)]
        {
            &&& later.zone(k).base == earlier.zone(k).base
            &&& later.zone(k).size == earlier.zone(k).size
            &&& later.zone(k).cursor >= earlier.zone(k).cursor
        }
}

/// Every request leads to an allocator that can follow the one before it.
pub proof fn allocation_moves_forward(a: ShmAllocator, length: u64, pgprot: PgprotKind)
    requires
        a.wf(),
        a.zone(pgprot).measurable(length),
    ensures
        follows(a, a.after(length, pgprot)),
        a.after(length, pgprot).wf(),
{
}

/// A zone gives out `length` bytes, rounded up to pages, exactly if so many are left: from where
/// the last ones ended, and those are then no longer left.  Otherwise nothing changes.
pub proof fn zone_gives_out_what_is_left(z: Zone, length: u64)
    requires
        z.wf(),
        z.measurable(length),
    ensures
        z.has_room(length) <==> round_up(length as int, PAGE as int) <= z.free(),
        z.has_room(length) ==> {
            let after = z.after(length);
            &&& after.wf()
            &&& after.base == z.base && after.size == z.size
            &&& after.free() == z.free() - round_up(length as int, PAGE as int)
            &&& z.base + z.cursor == z.base + (z.size - z.free())
        },
        0 <= z.free() <= z.size,
{
}

/// What follows an allocator that follows another follows that one too.
pub proof fn follows_is_transitive(a: ShmAllocator, b: ShmAllocator, c: ShmAllocator)
    requires
        follows(a, b),
        follows(b, c),
    ensures
        follows(a, c),
{
    assert forall|k: PgprotKind|
        #![trigger c.zone(k)]
        {
            &&& c.zone(k).base == a.zone(k).base
            &&& c.zone(k).size == a.zone(k).size
            &&& c.zone(k).cursor >= a.zone(k).cursor
        } by {
        assert(b.zone(k).base == a.zone(k).base);
        assert(c.zone(k).base == b.zone(k).base);
    }
}

/// A region that is given out starts on a page boundary and lies, with the rest of its last page,
/// in the zone of its mode, and so in the window.
pub proof fn region_lies_in_its_zone(a: ShmAllocator, length: u64, pgprot: PgprotKind)
    requires
        a.wf(),
        a.granted(length, pgprot) is Ok,
    ensures
        ({
            let r = a.granted(length, pgprot)->Ok_0;
            let zone = a.zone(pgprot);
            &&& r.offset % PAGE == 0
            &&& zone.base <= r.offset
            &&& r.offset + round_up(length as int, PAGE as int) <= zone.base + zone.size
            &&& r.offset + length <= r.offset + round_up(length as int, PAGE as int)
            &&& zone.base + zone.size <= a.total_size
        }),
{
}

/// Two regions that are given out one after the other, with any requests between them, share no
/// page.
pub proof fn regions_are_disjoint(
    a: ShmAllocator,
    length_a: u64,
    pgprot_a: PgprotKind,
    b: ShmAllocator,
    length_b: u64,
    pgprot_b: PgprotKind,
)
    requires
        a.wf(),
        b.wf(),
        a.granted(length_a, pgprot_a) is Ok,
        b.granted(length_b, pgprot_b) is Ok,
        follows(a.after(length_a, pgprot_a), b),
    ensures
        ({
            let ra = a.granted(length_a, pgprot_a)->Ok_0;
            let rb = b.granted(length_b, pgprot_b)->Ok_0;
            ||| ra.offset + round_up(length_a as int, PAGE as int) <= rb.offset
            ||| rb.offset + round_up(length_b as int, PAGE as int) <= ra.offset
        }),
{
    let after = a.after(length_a, pgprot_a);
    assert(b.zone(pgprot_a).base == after.zone(pgprot_a).base);
    assert(b.zone(pgprot_b).base == after.zone(pgprot_b).base);
    assert(b.zone(pgprot_a).cursor >= after.zone(pgprot_a).cursor);
}

/// Rounding up gives the least multiple that is not below.
pub proof fn rounding_gives_the_least_multiple(v: int, multiple: int)
    requires
        0 <= v,
        multiple % 4096 == 0,
        v <= multiple,
    ensures
        round_up(v, 4096) % 4096 == 0,
        v <= round_up(v, 4096) <= multiple,
{
}

/// The zones lie one after the other: memory that is not cached (mode 2) first, then combined (mode
/// 1), then written back (mode 0), and together they are the window.
pub proof fn zones_lie_one_after_the_other(a: ShmAllocator)
    requires
        a.wf(),
    ensures
        PgprotKind::Uncached.spec_code() == 2,
        PgprotKind::WriteCombine.spec_code() == 1,
        PgprotKind::WriteBack.spec_code() == 0,
        a.zone(PgprotKind::Uncached) == a.uc,
        a.zone(PgprotKind::WriteCombine) == a.wc,
        a.zone(PgprotKind::WriteBack) == a.wb,
        a.uc.base == 0,
        a.wc.base == a.uc.size,
        a.wb.base == a.uc.size + a.wc.size,
        a.total_size == a.uc.size + a.wc.size + a.wb.size,
{
}

/// A request gets the next bytes of its zone, exactly if the whole pages that it needs are left.
/// The zone then continues `pages` further on, and the others as they were.  Otherwise the error
/// states how many bytes are left, and nothing changes.
pub proof fn requests_get_the_next_bytes(
    a: ShmAllocator,
    length: u64,
    pgprot: PgprotKind,
    pages: int,
    other: PgprotKind,
)
    requires
        a.wf(),
        a.zone(pgprot).measurable(length),
        pages % 4096 == 0,
        length <= pages < length + 4096,
        other != pgprot,
    ensures
        ({
            let z = a.zone(pgprot);
            let t = a.after(length, pgprot);
            &&& t.zone(other) == a.zone(other)
            &&& t.base_ptr == a.base_ptr && t.memfd == a.memfd && t.total_size == a.total_size
            &&& z.cursor + pages <= z.size ==> {
                &&& a.granted(length, pgprot) is Ok
                &&& a.granted(length, pgprot)->Ok_0.offset == z.base + z.cursor
                &&& a.granted(length, pgprot)->Ok_0.length == length
                &&& a.granted(length, pgprot)->Ok_0.pgprot == pgprot
                &&& t.zone(pgprot).base == z.base && t.zone(pgprot).size == z.size
                &&& t.zone(pgprot).cursor == z.cursor + pages
            }
            &&& z.cursor + pages > z.size ==> {
                &&& a.granted(length, pgprot) == Err::<ShmRegion, DeviceError>(
                    DeviceError::ZoneFull {
                        pgprot,
                        free: (z.size - z.cursor) as u64,
                        requested: length,
                    },
                )
                &&& t == a
            }
        }),
{
    assert(round_up(length as int, 4096) == pages);
}

/// Which requests can be measured: all whose length, rounded up to pages after what the zone gave
/// out, is a machine number.
pub proof fn measurable_requests(z: Zone, length: u64)
    requires
        z.wf(),
        length <= u64::MAX - 4096,
        z.cursor <= u64::MAX - 4096 - length,
    ensures
        z.measurable(length),
{
}

/// A length can be measured exactly if it and a page are a machine number together, and what the
/// zone gave out and the whole pages that it needs are.
pub proof fn measurable_lengths(z: Zone, length: u64, pages: int)
    requires
        pages % 4096 == 0,
        length <= pages < length + 4096,
    ensures
        z.measurable(length) <==> length + 4096 <= u64::MAX && z.cursor + pages <= u64::MAX,
{
    assert(round_up(length as int, 4096) == pages);
}

/// Zones can be made of any sizes that are whole pages, not all nothing, and a machine number
/// together.
pub proof fn valid_sizes(cfg: ZoneConfig)
    ensures
        cfg.sum() == cfg.uc_size + cfg.wc_size + cfg.wb_size,
        cfg.valid() <==> {
            &&& cfg.uc_size % 4096 == 0
            &&& cfg.wc_size % 4096 == 0
            &&& cfg.wb_size % 4096 == 0
            &&& 0 < cfg.uc_size + cfg.wc_size + cfg.wb_size <= u64::MAX
        },
{
}

} // verus!
