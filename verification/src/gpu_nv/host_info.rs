//! What the host's files say of its GPUs and DRI devices.

use vstd::prelude::*;
use vstd::utf8::encode_utf8;

use crate::gpu_nv::config::{DriDevice, GpuInfo, HostProcFile};
use crate::paths::{file_name, file_name_of};
use crate::sort::{sort, sorted_values_ascend, sorting_keeps_every_value, stably_sorted, Ranked};
use crate::text::{
    chars_of, is_blank, is_tight, is_whole, parse_u32, pieces, same, separators_part_texts, split,
    starts_with, trim, trimmed, trimming_takes_white_space_away, u32_of, Separator,
};

verus! {

// The order of byte strings.

/// `a` does not come after `b` in a dictionary of byte strings.
pub open spec fn bytes_le(a: Seq<u8>, b: Seq<u8>) -> bool
    decreases a.len(),
{
    if a.len() == 0 {
        true
    } else if b.len() == 0 {
        false
    } else {
        a[0] < b[0] || (a[0] == b[0] && bytes_le(a.drop_first(), b.drop_first()))
    }
}

/// Of two byte strings one does not come after the other.
proof fn bytes_le_total(a: Seq<u8>, b: Seq<u8>)
    ensures
        bytes_le(a, b) || bytes_le(b, a),
    decreases a.len(),
{
    if a.len() > 0 && b.len() > 0 {
        bytes_le_total(a.drop_first(), b.drop_first());
    }
}

/// The order of byte strings is transitive.
proof fn bytes_le_transitive(a: Seq<u8>, b: Seq<u8>, c: Seq<u8>)
    requires
        bytes_le(a, b),
        bytes_le(b, c),
    ensures
        bytes_le(a, c),
    decreases a.len(),
{
    if a.len() > 0 && a[0] == b[0] && b[0] == c[0] {
        bytes_le_transitive(a.drop_first(), b.drop_first(), c.drop_first());
    }
}

/// Whether `a` does not come after `b` in a dictionary of byte strings.
fn in_dictionary_order(a: &[u8], b: &[u8]) -> (r: bool)
    ensures
        r == bytes_le(a@, b@),
{
    let mut i: usize = 0;
    assert(a@.skip(0) =~= a@);
    assert(b@.skip(0) =~= b@);
    while i < a.len() && i < b.len() && a[i] == b[i]
        invariant
            i <= a@.len(),
            i <= b@.len(),
            bytes_le(a@, b@) == bytes_le(a@.skip(i as int), b@.skip(i as int)),
        decreases a.len() - i,
    {
        assert(a@.skip(i as int).drop_first() =~= a@.skip(i + 1));
        assert(b@.skip(i as int).drop_first() =~= b@.skip(i + 1));
        i += 1;
    }
    i == a.len() || (i < b.len() && a[i] < b[i])
}

impl Ranked for GpuInfo {
    /// GPUs are ordered by their PCI addresses.
    open spec fn rank_le(&self, other: &Self) -> bool {
        bytes_le(encode_utf8(self.pci_addr@), encode_utf8(other.pci_addr@))
    }

    proof fn rank_total(&self, other: &Self) {
        bytes_le_total(encode_utf8(self.pci_addr@), encode_utf8(other.pci_addr@));
    }

    proof fn rank_transitive(&self, mid: &Self, other: &Self) {
        bytes_le_transitive(
            encode_utf8(self.pci_addr@),
            encode_utf8(mid.pci_addr@),
            encode_utf8(other.pci_addr@),
        );
    }

    fn may_precede(&self, other: &Self) -> (r: bool) {
        in_dictionary_order(
            self.pci_addr.as_str().as_bytes(),
            other.pci_addr.as_str().as_bytes(),
        )
    }
}

/// The node is that of a card, and not of a renderer.
pub open spec fn is_card(name: Seq<char>) -> bool {
    "card"@.is_prefix_of(name)
}

impl Ranked for DriDevice {
    /// Cards come before renderers; among each, devices are ordered by their minor numbers.
    open spec fn rank_le(&self, other: &Self) -> bool {
        if is_card(self.name@) == is_card(other.name@) {
            self.minor <= other.minor
        } else {
            is_card(self.name@)
        }
    }

    proof fn rank_total(&self, other: &Self) {
    }

    proof fn rank_transitive(&self, mid: &Self, other: &Self) {
    }

    fn may_precede(&self, other: &Self) -> (r: bool) {
        let mine = starts_with(chars_of(self.name.as_str()).as_slice(), "card");
        let theirs = starts_with(chars_of(other.name.as_str()).as_slice(), "card");
        if mine == theirs {
            self.minor <= other.minor
        } else {
            mine
        }
    }
}

// GPUs.

/// The number of a GPU, as a line "GPU ID: 0x1234abcd" or "GPU ID: 1234" states it.
pub open spec fn gpu_id_of_line(line: Seq<char>) -> Option<u32> {
    let l = trim(line);
    if "GPU ID:"@.is_prefix_of(l) {
        let val = trim(l.skip(7));
        if "0x"@.is_prefix_of(val) || "0X"@.is_prefix_of(val) {
            u32_of(val.skip(2), 16)
        } else {
            u32_of(val, 10)
        }
    } else {
        None
    }
}

/// The first number of a GPU that the lines state, or zero.
pub open spec fn first_gpu_id(lines: Seq<Seq<char>>) -> u32
    decreases lines.len(),
{
    if lines.len() == 0 {
        0
    } else {
        match gpu_id_of_line(lines.first()) {
            Some(id) => id,
            None => first_gpu_id(lines.drop_first()),
        }
    }
}

/// The number of a GPU, as its file "information" states it.
pub open spec fn gpu_id_in(text: Seq<char>) -> u32 {
    first_gpu_id(pieces(text, Separator::Char('\n')))
}

/// The number of a GPU in a line.
fn line_gpu_id(line: &[char]) -> (r: Option<u32>)
    ensures
        r == gpu_id_of_line(line@),
{
    proof {
        reveal_strlit("GPU ID:");
        reveal_strlit("0x");
        reveal_strlit("0X");
    }
    let l = trimmed(line);
    if !starts_with(l, "GPU ID:") {
        return None;
    }
    let rest = &l[7..l.len()];
    assert(rest@ =~= l@.skip(7));
    let val = trimmed(rest);
    if starts_with(val, "0x") || starts_with(val, "0X") {
        let hex = &val[2..val.len()];
        assert(hex@ =~= val@.skip(2));
        parse_u32(hex, 16)
    } else {
        parse_u32(val, 10)
    }
}

/// The number of a GPU, as its file "information" states it.  Zero means that it is not known.
pub fn parse_gpu_id_from_information(text: &str) -> (r: u32)
    ensures
        r == gpu_id_in(text@),
{
    let chars = chars_of(text);
    let lines = split(chars.as_slice(), Separator::Char('\n'));
    let ghost all = pieces(text@, Separator::Char('\n'));
    let mut i: usize = 0;
    assert(all.skip(0) =~= all);
    while i < lines.len()
        invariant
            i <= lines@.len() == all.len(),
            all == pieces(text@, Separator::Char('\n')),
            forall|j: int| 0 <= j < lines@.len() ==> (#[trigger] lines@[j])@ == all[j],
            first_gpu_id(all) == first_gpu_id(all.skip(i as int)),
        decreases lines.len() - i,
    {
        assert(all.skip(i as int).first() == all[i as int]);
        assert(all.skip(i as int).drop_first() =~= all.skip(i + 1));
        if let Some(id) = line_gpu_id(lines[i].as_slice()) {
            return id;
        }
        i += 1;
    }
    0
}

/// Where the first colon of a line is, or the length of the line.
pub open spec fn colon_at(line: Seq<char>) -> int
    decreases line.len(),
{
    if line.len() == 0 || line.first() == ':' {
        0
    } else {
        1 + colon_at(line.drop_first())
    }
}

/// The line states the minor number: "Device Minor" stands before its first colon.
pub open spec fn is_minor_line(line: Seq<char>) -> bool {
    let at = colon_at(line);
    at < line.len() && trim(line.take(at)) == "Device Minor"@
}

/// The minor number that the first line to state one states.
pub open spec fn first_minor(lines: Seq<Seq<char>>) -> Option<u32>
    decreases lines.len(),
{
    if lines.len() == 0 {
        None
    } else if is_minor_line(lines.first()) {
        u32_of(trim(lines.first().skip(colon_at(lines.first()) + 1)), 10)
    } else {
        first_minor(lines.drop_first())
    }
}

/// The minor number of a GPU, as its file "information" states it.
pub open spec fn minor_in(text: Seq<char>) -> Option<u32> {
    first_minor(pieces(text, Separator::Char('\n')))
}

/// Where the first colon of a line is, or the length of the line.
fn find_colon(line: &[char]) -> (r: usize)
    ensures
        r == colon_at(line@),
        r <= line@.len(),
{
    let mut i: usize = 0;
    assert(line@.skip(0) =~= line@);
    while i < line.len() && line[i] != ':'
        invariant
            i <= line@.len(),
            colon_at(line@) == i + colon_at(line@.skip(i as int)),
        decreases line.len() - i,
    {
        assert(line@.skip(i as int).drop_first() =~= line@.skip(i + 1));
        i += 1;
    }
    i
}

/// The minor number of a GPU, as its file "information" states it.
fn parse_minor(text: &str) -> (r: Option<u32>)
    ensures
        r == minor_in(text@),
{
    let chars = chars_of(text);
    let lines = split(chars.as_slice(), Separator::Char('\n'));
    let ghost all = pieces(text@, Separator::Char('\n'));
    let mut i: usize = 0;
    assert(all.skip(0) =~= all);
    while i < lines.len()
        invariant
            i <= lines@.len() == all.len(),
            all == pieces(text@, Separator::Char('\n')),
            forall|j: int| 0 <= j < lines@.len() ==> (#[trigger] lines@[j])@ == all[j],
            first_minor(all) == first_minor(all.skip(i as int)),
        decreases lines.len() - i,
    {
        assert(all.skip(i as int).first() == all[i as int]);
        assert(all.skip(i as int).drop_first() =~= all.skip(i + 1));
        let line = lines[i].as_slice();
        let at = find_colon(line);
        if at < line.len() {
            let key = &line[0..at];
            assert(key@ =~= line@.take(at as int));
            if same(trimmed(key), "Device Minor") {
                let value = &line[at + 1..line.len()];
                assert(value@ =~= line@.skip(at + 1));
                return parse_u32(trimmed(value), 10);
            }
        }
        i += 1;
    }
    None
}

/// The directory of a GPU, and its file "information".
#[derive(Debug)]
pub struct GpuEntry {
    pub pci_addr: String,
    pub information: String,
}

/// `g` is the GPU that the entry describes.
pub open spec fn describes(entry: GpuEntry, g: GpuInfo) -> bool {
    &&& g.pci_addr@ == entry.pci_addr@
    &&& Some(g.minor) == minor_in(entry.information@)
    &&& g.information.guest_path@ == "driver/nvidia/gpus/"@ + entry.pci_addr@ + "/information"@
    &&& g.information.content@ == entry.information@
}

/// The GPU at a PCI address with this file "information", unless it states no minor number.
pub fn parse_gpu_information(pci_addr: &str, text: &str) -> (r: Option<GpuInfo>)
    ensures
        match r {
            Some(g) => {
                &&& g.pci_addr@ == pci_addr@
                &&& minor_in(text@) == Some(g.minor)
                &&& g.information.guest_path@ == "driver/nvidia/gpus/"@ + pci_addr@
                    + "/information"@
                &&& g.information.content@ == text@
            },
            None => minor_in(text@) is None,
        },
{
    match parse_minor(text) {
        None => None,
        Some(minor) => {
            let mut guest_path = "driver/nvidia/gpus/".to_owned();
            guest_path.append(pci_addr);
            guest_path.append("/information");
            Some(
                GpuInfo {
                    pci_addr: pci_addr.to_owned(),
                    minor,
                    information: HostProcFile { guest_path, content: text.to_owned() },
                },
            )
        },
    }
}

/// The entries that state a minor number, in order.
pub open spec fn usable(entries: Seq<GpuEntry>) -> Seq<GpuEntry> {
    entries.filter(|e: GpuEntry| minor_in(e.information@) is Some)
}

/// `gpus` are what the entries describe, one by one.
pub open spec fn described(entries: Seq<GpuEntry>, gpus: Seq<GpuInfo>) -> bool {
    &&& gpus.len() == entries.len()
    &&& forall|i: int| 0 <= i < gpus.len() ==> describes(#[trigger] entries[i], gpus[i])
}

/// GPUs that a guest can get at most.
pub const MAX_GPUS: usize = 8;

/// `chosen` are the GPUs of the entries, ordered by PCI address, at most eight.
pub open spec fn chosen_gpus(entries: Seq<GpuEntry>, chosen: Seq<GpuInfo>) -> bool {
    exists|found: Seq<GpuInfo>, sorted: Seq<GpuInfo>|
        {
            &&& #[trigger] described(usable(entries), found)
            &&& #[trigger] stably_sorted(found, sorted)
            &&& chosen == if sorted.len() <= MAX_GPUS {
                sorted
            } else {
                sorted.take(MAX_GPUS as int)
            }
        }
}

/// The GPUs that the guest gets: those that state a minor number, ordered by PCI address, at most
/// eight.
pub fn read_host_gpu_info(entries: &Vec<GpuEntry>) -> (r: Result<Vec<GpuInfo>, String>)
    ensures
        match r {
            Ok(gpus) => usable(entries@).len() > 0 && chosen_gpus(entries@, gpus@),
            Err(e) => usable(entries@).len() == 0 && e@
                == "no NVIDIA GPUs found in /proc/driver/nvidia/gpus"@,
        },
{
    let ghost is_usable = |e: GpuEntry| minor_in(e.information@) is Some;
    let mut gpus: Vec<GpuInfo> = Vec::new();
    let mut i: usize = 0;
    proof {
        reveal(Seq::filter);
        assert(entries@.take(0).filter(is_usable) =~= Seq::empty());
    }
    while i < entries.len()
        invariant
            i <= entries@.len(),
            is_usable == (|e: GpuEntry| minor_in(e.information@) is Some),
            described(entries@.take(i as int).filter(is_usable), gpus@),
        decreases entries.len() - i,
    {
        let e = &entries[i];
        let ghost before = entries@.take(i as int).filter(is_usable);
        proof {
            reveal(Seq::filter);
            assert(entries@.take(i + 1).drop_last() =~= entries@.take(i as int));
            assert(entries@.take(i + 1).last() == *e);
        }
        if let Some(g) = parse_gpu_information(e.pci_addr.as_str(), e.information.as_str()) {
            gpus.push(g);
            assert(entries@.take(i + 1).filter(is_usable) =~= before.push(*e));
        }
        i += 1;
    }
    assert(entries@.take(i as int) =~= entries@);
    let ghost found = gpus@;
    let mut sorted = sort(gpus);
    if sorted.len() == 0 {
        return Err("no NVIDIA GPUs found in /proc/driver/nvidia/gpus".to_owned());
    }
    let ghost all = sorted@;
    if sorted.len() > MAX_GPUS {
        sorted.truncate(MAX_GPUS);
    }
    assert(described(usable(entries@), found));
    assert(stably_sorted(found, all));
    Ok(sorted)
}

// DRI devices.

/// A node below /sys/class/drm, and what the host's files say of it.
#[derive(Debug)]
pub struct DriEntry {
    pub name: String,
    /// The last part of what its link "device" leads to.
    pub pci_addr: Option<String>,
    /// Its file "dev".
    pub dev: Option<String>,
    /// The file "information" of the GPU at that address.
    pub information: Option<String>,
}

/// The name is that of a card or a renderer.
pub open spec fn is_dri_name(name: Seq<char>) -> bool {
    "card"@.is_prefix_of(name) || "renderD"@.is_prefix_of(name)
}

/// Whether the name is that of a card or a renderer.
pub fn dri_name(name: &str) -> (r: bool)
    ensures
        r == is_dri_name(name@),
{
    let chars = chars_of(name);
    starts_with(chars.as_slice(), "card") || starts_with(chars.as_slice(), "renderD")
}

/// The number that a part of a file "dev" states, or zero.
pub open spec fn number_or_zero(s: Seq<char>) -> u32 {
    match u32_of(s, 10) {
        Some(n) => n,
        None => 0,
    }
}

/// The major and minor number that a file "dev" states, as in "226:128"; a major number of zero
/// counts as none.
pub open spec fn dev_numbers(text: Seq<char>) -> Option<(u32, u32)> {
    let parts = pieces(trim(text), Separator::Char(':'));
    if parts.len() == 2 && number_or_zero(parts[0]) != 0 {
        Some((number_or_zero(parts[0]), number_or_zero(parts[1])))
    } else {
        None
    }
}

/// The major and minor number that a file "dev" states.
pub fn parse_dev(text: &str) -> (r: Option<(u32, u32)>)
    ensures
        r == dev_numbers(text@),
{
    let chars = chars_of(text);
    let parts = split(trimmed(chars.as_slice()), Separator::Char(':'));
    if parts.len() != 2 {
        return None;
    }
    let major = match parse_u32(parts[0].as_slice(), 10) {
        Some(n) => n,
        None => 0,
    };
    let minor = match parse_u32(parts[1].as_slice(), 10) {
        Some(n) => n,
        None => 0,
    };
    if major == 0 {
        None
    } else {
        Some((major, minor))
    }
}

/// The address is one of `addrs`.
pub open spec fn listed(addrs: Seq<String>, addr: Seq<char>) -> bool {
    exists|i: int| 0 <= i < addrs.len() && (#[trigger] addrs[i])@ == addr
}

/// Whether the address is one of `addrs`.
pub fn is_listed(addrs: &Vec<String>, addr: &String) -> (r: bool)
    ensures
        r == listed(addrs@, addr@),
{
    let mut i: usize = 0;
    while i < addrs.len()
        invariant
            i <= addrs@.len(),
            forall|j: int| 0 <= j < i ==> (#[trigger] addrs@[j])@ != addr@,
        decreases addrs.len() - i,
    {
        if addrs[i] == *addr {
            assert(addrs@[i as int]@ == addr@);
            return true;
        }
        i += 1;
    }
    false
}

/// The PCI address that the link "device" of a node leads to, if it is one of `addrs`.
pub open spec fn owner_of(target: Seq<char>, addrs: Seq<String>) -> Option<Seq<char>> {
    match file_name_of(target) {
        Some(addr) if listed(addrs, addr) => Some(addr),
        _ => None,
    }
}

/// The PCI address that the link "device" of a node leads to, if it is one of `addrs`.
pub fn dri_owner(target: &str, addrs: &Vec<String>) -> (r: Option<String>)
    ensures
        match r {
            Some(addr) => owner_of(target@, addrs@) == Some(addr@),
            None => owner_of(target@, addrs@) is None,
        },
{
    match file_name(target) {
        None => None,
        Some(addr) => if is_listed(addrs, &addr) {
            Some(addr)
        } else {
            None
        },
    }
}

/// The number of the GPU of a node: zero where there is no file "information".
pub open spec fn entry_gpu_id(information: Option<String>) -> u32 {
    match information {
        Some(text) => gpu_id_in(text@),
        None => 0,
    }
}

/// The DRI device of a node, if it belongs to one of the GPUs at `addrs`.
pub open spec fn dri_of(entry: DriEntry, addrs: Seq<String>) -> Option<DriDevice> {
    match (entry.pci_addr, entry.dev) {
        (Some(addr), Some(dev)) => {
            match dev_numbers(dev@) {
                Some((major, minor)) if is_dri_name(entry.name@) && listed(addrs, addr@) => Some(
                    DriDevice {
                        name: entry.name,
                        major,
                        minor,
                        gpu_id: entry_gpu_id(entry.information),
                    },
                ),
                _ => None,
            }
        },
        _ => None,
    }
}

/// The DRI devices of nodes, in order.
pub open spec fn dri_found(entries: Seq<DriEntry>, addrs: Seq<String>) -> Seq<DriDevice>
    decreases entries.len(),
{
    if entries.len() == 0 {
        Seq::empty()
    } else {
        let before = dri_found(entries.drop_last(), addrs);
        match dri_of(entries.last(), addrs) {
            Some(d) => before.push(d),
            None => before,
        }
    }
}

/// The DRI device of a node.
fn dri_device(entry: DriEntry, addrs: &Vec<String>) -> (r: Option<DriDevice>)
    ensures
        r == dri_of(entry, addrs@),
{
    if !dri_name(entry.name.as_str()) {
        return None;
    }
    match &entry.pci_addr {
        None => {
            return None;
        },
        Some(addr) => {
            if !is_listed(addrs, addr) {
                return None;
            }
        },
    }
    let numbers = match &entry.dev {
        None => None,
        Some(dev) => parse_dev(dev.as_str()),
    };
    match numbers {
        None => None,
        Some((major, minor)) => {
            let gpu_id = match &entry.information {
                Some(text) => parse_gpu_id_from_information(text.as_str()),
                None => 0,
            };
            Some(DriDevice { name: entry.name, major, minor, gpu_id })
        },
    }
}

/// The DRI devices of the GPUs at `gpu_pci_addrs`: cards first, and each by minor number.
pub fn find_dri_devices(entries: Vec<DriEntry>, gpu_pci_addrs: &Vec<String>) -> (r: Vec<DriDevice>)
    ensures
        stably_sorted(dri_found(entries@, gpu_pci_addrs@), r@),
{
    let ghost all = entries@;
    let ghost mut done: int = 0;
    let mut rest = entries;
    let mut found: Vec<DriDevice> = Vec::new();
    assert(all.skip(0) =~= all);
    assert(all.take(0) =~= Seq::empty());
    assert(found@ =~= Seq::empty());
    while rest.len() > 0
        invariant
            0 <= done <= all.len(),
            rest@ == all.skip(done),
            found@ == dri_found(all.take(done), gpu_pci_addrs@),
        decreases rest.len(),
    {
        let entry = rest.remove(0);
        proof {
            assert(entry == all[done]);
            assert(all.take(done + 1).drop_last() =~= all.take(done));
            assert(all.take(done + 1).last() == entry);
            assert(rest@ =~= all.skip(done + 1));
            done = done + 1;
        }
        if let Some(d) = dri_device(entry, gpu_pci_addrs) {
            found.push(d);
        }
    }
    assert(all.take(done) =~= all);
    sort(found)
}

// What the files say.

/// Byte strings are ordered by the first byte in which they differ; a string comes before all that
/// continue it.
pub proof fn bytes_are_ordered_like_words(a: Seq<u8>, b: Seq<u8>, k: int)
    requires
        0 <= k <= a.len(),
        k <= b.len(),
        a.take(k) == b.take(k),
    ensures
        k == a.len() ==> bytes_le(a, b),
        k == a.len() && k < b.len() ==> !bytes_le(b, a),
        k < a.len() && k < b.len() && a[k] < b[k] ==> bytes_le(a, b) && !bytes_le(b, a),
    decreases k,
{
    if k > 0 {
        assert(a.take(k)[0] == a[0]);
        assert(b.take(k)[0] == b[0]);
        assert(a[0] == b[0]);
        assert(a.drop_first().take(k - 1) =~= a.take(k).drop_first());
        assert(b.drop_first().take(k - 1) =~= b.take(k).drop_first());
        bytes_are_ordered_like_words(a.drop_first(), b.drop_first(), k - 1);
    }
}

/// A line that says "GPU ID:" and then a value, with white space around both, states the value: in
/// radix 16 if it starts with "0x" or "0X", and in decimal otherwise.
pub proof fn gpu_id_lines_state_the_value(
    a: Seq<char>,
    b: Seq<char>,
    value: Seq<char>,
    c: Seq<char>,
)
    requires
        is_blank(a),
        is_blank(b),
        is_blank(c),
        is_tight(value),
        value.len() > 0,
    ensures
        ({
            let line = a + ("GPU ID:"@ + b + value) + c;
            let hex = value.len() >= 2 && value[0] == '0' && (value[1] == 'x' || value[1] == 'X');
            gpu_id_of_line(line) == if hex {
                u32_of(value.skip(2), 16)
            } else {
                u32_of(value, 10)
            }
        }),
{
    reveal_strlit("GPU ID:");
    reveal_strlit("0x");
    reveal_strlit("0X");
    let said = "GPU ID:"@ + b + value;
    assert(said[0] == 'G');
    assert(said.last() == value.last());
    trimming_takes_white_space_away(a, said, c);
    assert("GPU ID:"@ =~= said.subrange(0, 7));
    let empty = Seq::<char>::empty();
    trimming_takes_white_space_away(b, value, empty);
    assert(said.skip(7) =~= b + value + empty);
    if value.len() >= 2 {
        let start = value.subrange(0, 2);
        assert(start[0] == value[0] && start[1] == value[1]);
        if value[0] == '0' && value[1] == 'x' {
            assert(start =~= "0x"@);
        }
        if value[0] == '0' && value[1] == 'X' {
            assert(start =~= "0X"@);
        }
    }
}

/// Other lines state no number of a GPU.
pub proof fn other_lines_state_no_gpu_id(line: Seq<char>)
    requires
        !("GPU ID:"@.is_prefix_of(trim(line))),
    ensures
        gpu_id_of_line(line) is None,
{
}

/// The first line that states the number of a GPU counts, and where none does it is zero.
pub proof fn first_gpu_id_counts(line: Seq<char>, rest: Seq<char>)
    requires
        is_whole(line, Separator::Char('\n')),
    ensures
        gpu_id_in(line.push('\n') + rest) == match gpu_id_of_line(line) {
            Some(id) => id,
            None => gpu_id_in(rest),
        },
        gpu_id_in(line) == match gpu_id_of_line(line) {
            Some(id) => id,
            None => 0,
        },
{
    let sep = Separator::Char('\n');
    separators_part_texts(line, '\n', rest, sep);
    let all = seq![line] + pieces(rest, sep);
    assert(all.first() == line);
    assert(all.drop_first() =~= pieces(rest, sep));
    let one = seq![line];
    assert(one.first() == line);
    assert(one.drop_first() =~= Seq::empty());
    assert(first_gpu_id(one.drop_first()) == 0);
}

/// Where the first colon of a line is.
proof fn colon_is_found(key: Seq<char>, value: Seq<char>)
    requires
        is_whole(key, Separator::Char(':')),
    ensures
        colon_at(key.push(':') + value) == key.len(),
        colon_at(key) == key.len(),
    decreases key.len(),
{
    let line = key.push(':') + value;
    if key.len() > 0 {
        assert(!Separator::Char(':').matches(key[0]));
        assert(line.first() == key[0]);
        assert(key.first() == key[0]);
        assert forall|i: int| 0 <= i < key.drop_first().len() implies !Separator::Char(
            ':',
        ).matches(#[trigger] key.drop_first()[i]) by {
            assert(!Separator::Char(':').matches(key[i + 1]));
        }
        colon_is_found(key.drop_first(), value);
        assert(line.drop_first() =~= key.drop_first().push(':') + value);
    } else {
        assert(line.first() == ':');
    }
}

/// A text states a minor number in the first line that has, before its first colon and with white
/// space around it, "Device Minor": what is after that colon, without white space around it, in
/// decimal.  Lines without a colon state nothing.
pub proof fn first_minor_counts(key: Seq<char>, value: Seq<char>, rest: Seq<char>)
    requires
        is_whole(key, Separator::Char(':')),
        is_whole(key, Separator::Char('\n')),
        is_whole(value, Separator::Char('\n')),
    ensures
        minor_in(key.push(':') + value.push('\n') + rest) == if trim(key) == "Device Minor"@ {
            u32_of(trim(value), 10)
        } else {
            minor_in(rest)
        },
        minor_in(key.push('\n') + rest) == minor_in(rest),
        minor_in(key.push(':') + value) == if trim(key) == "Device Minor"@ {
            u32_of(trim(value), 10)
        } else {
            None
        },
        minor_in(key) is None,
{
    let sep = Separator::Char('\n');
    let line = key.push(':') + value;
    assert(is_whole(line, sep)) by {
        assert forall|i: int| 0 <= i < line.len() implies !sep.matches(#[trigger] line[i]) by {
            if i < key.len() {
                assert(!sep.matches(key[i]));
            } else if i > key.len() {
                assert(!sep.matches(value[i - key.len() - 1]));
            }
        }
    }
    separators_part_texts(line, '\n', rest, sep);
    separators_part_texts(key, '\n', rest, sep);
    assert(line.push('\n') + rest =~= key.push(':') + value.push('\n') + rest);
    let found = pieces(rest, sep);
    let all = seq![line] + found;
    assert(all.first() == line);
    assert(all.drop_first() =~= found);
    let bare = seq![key] + found;
    assert(bare.first() == key);
    assert(bare.drop_first() =~= found);
    colon_is_found(key, value);
    assert(line.take(key.len() as int) =~= key);
    assert(line.skip(key.len() as int + 1) =~= value);
    let one = seq![line];
    assert(one.first() == line);
    assert(one.drop_first() =~= Seq::empty());
    let two = seq![key];
    assert(two.first() == key);
    assert(two.drop_first() =~= Seq::empty());
    assert(first_minor(Seq::<Seq<char>>::empty()) is None);
}

/// A file "dev" states two numbers with a colon between them, with white space around both; what
/// cannot be read counts as zero, and with a major number of zero there is no device.
pub proof fn dev_files_state_two_numbers(
    a: Seq<char>,
    major: Seq<char>,
    minor: Seq<char>,
    b: Seq<char>,
)
    requires
        is_blank(a),
        is_blank(b),
        is_whole(major, Separator::Char(':')),
        is_whole(minor, Separator::Char(':')),
        is_tight(major.push(':') + minor),
    ensures
        ({
            let got = dev_numbers(a + (major.push(':') + minor) + b);
            let (x, y) = (u32_of(major, 10), u32_of(minor, 10));
            &&& got is Some <==> x is Some && x->0 != 0
            &&& got matches Some((m, n)) ==> m == x->0 && (y is Some ==> n == y->0) && (y is None
                ==> n == 0)
        }),
{
    let sep = Separator::Char(':');
    trimming_takes_white_space_away(a, major.push(':') + minor, b);
    separators_part_texts(major, ':', minor, sep);
    separators_part_texts(minor, ':', minor, sep);
    assert(pieces(major.push(':') + minor, sep) =~= seq![major, minor]);
}

/// A node is a DRI device of one of the GPUs exactly if its name starts with "card" or "renderD",
/// it leads to one of the addresses, and its file "dev" can be read.  It then has that name, those
/// numbers, and the number of the GPU, or zero.
pub proof fn nodes_of_the_gpus_are_devices(entry: DriEntry, addrs: Seq<String>)
    ensures
        ({
            let got = dri_of(entry, addrs);
            &&& got is Some <==> {
                &&& "card"@.is_prefix_of(entry.name@) || "renderD"@.is_prefix_of(entry.name@)
                &&& entry.pci_addr is Some
                &&& exists|i: int|
                    0 <= i < addrs.len() && (#[trigger] addrs[i])@ == entry.pci_addr->0@
                &&& entry.dev is Some
                &&& dev_numbers(entry.dev->0@) is Some
            }
            &&& got matches Some(d) ==> {
                &&& d.name == entry.name
                &&& dev_numbers(entry.dev->0@) == Some((d.major, d.minor))
                &&& entry.information matches Some(text) ==> d.gpu_id == gpu_id_in(text@)
                &&& entry.information is None ==> d.gpu_id == 0
            }
        }),
{
}

/// The devices of some nodes and of others are those of all of them, in order.
pub proof fn devices_of_parts(a: Seq<DriEntry>, b: Seq<DriEntry>, e: DriEntry, addrs: Seq<String>)
    ensures
        dri_found(a + b, addrs) == dri_found(a, addrs) + dri_found(b, addrs),
        dri_found(seq![e], addrs) == match dri_of(e, addrs) {
            Some(d) => seq![d],
            None => Seq::empty(),
        },
    decreases b.len(),
{
    let one = seq![e];
    assert(one.drop_last() =~= Seq::empty());
    assert(dri_found(one.drop_last(), addrs) =~= Seq::<DriDevice>::empty());
    assert(dri_found(one, addrs) =~= match dri_of(e, addrs) {
        Some(d) => seq![d],
        None => Seq::empty(),
    });
    if b.len() == 0 {
        assert(a + b =~= a);
        assert(dri_found(a, addrs) + dri_found(b, addrs) =~= dri_found(a, addrs));
    } else {
        devices_of_parts(a, b.drop_last(), e, addrs);
        assert((a + b).drop_last() =~= a + b.drop_last());
        assert((a + b).last() == b.last());
        assert(dri_found(a + b, addrs) =~= dri_found(a, addrs) + dri_found(b, addrs));
    }
}

/// What comes of sorting devices: no card stands behind a renderer, and among each kind minor
/// numbers do not fall.  No device is added or lost.
pub proof fn cards_come_first(found: Seq<DriDevice>, sorted: Seq<DriDevice>, i: int, j: int)
    requires
        stably_sorted(found, sorted),
        0 <= i < j < sorted.len(),
    ensures
        "card"@.is_prefix_of(sorted[j].name@) ==> "card"@.is_prefix_of(sorted[i].name@),
        "card"@.is_prefix_of(sorted[j].name@) == "card"@.is_prefix_of(sorted[i].name@)
            ==> sorted[i].minor <= sorted[j].minor,
        sorted.len() == found.len(),
        found.contains(sorted[i]),
        sorted.contains(found[i]),
{
    sorted_values_ascend(found, sorted, i, j);
    sorting_keeps_every_value(found, sorted, i);
}

/// Which GPUs the guest gets: as many as there are entries that state a minor number, at most
/// eight; each is one that such an entry describes; and their addresses ascend.
pub proof fn gpus_ascend_by_address(
    entries: Seq<GpuEntry>,
    chosen: Seq<GpuInfo>,
    i: int,
    j: int,
)
    requires
        chosen_gpus(entries, chosen),
    ensures
        ({
            let n = entries.filter(|e: GpuEntry| minor_in(e.information@) is Some).len();
            chosen.len() == if n < 8 {
                n as int
            } else {
                8
            }
        }),
        0 <= i < j < chosen.len() ==> bytes_le(
            encode_utf8(chosen[i].pci_addr@),
            encode_utf8(chosen[j].pci_addr@),
        ),
        0 <= i < chosen.len() ==> exists|e: GpuEntry| #[trigger]
            entries.contains(e) && chosen[i].pci_addr@ == e.pci_addr@ && minor_in(e.information@)
                == Some(chosen[i].minor) && chosen[i].information.content@ == e.information@
                && chosen[i].information.guest_path@ == "driver/nvidia/gpus/"@ + e.pci_addr@
                + "/information"@,
{
    let (found, sorted) = choose|found: Seq<GpuInfo>, sorted: Seq<GpuInfo>|
        {
            &&& #[trigger] described(usable(entries), found)
            &&& #[trigger] stably_sorted(found, sorted)
            &&& chosen == if sorted.len() <= MAX_GPUS {
                sorted
            } else {
                sorted.take(MAX_GPUS as int)
            }
        };
    if 0 <= i < j < chosen.len() {
        sorted_values_ascend(found, sorted, i, j);
        assert(chosen[i] == sorted[i] && chosen[j] == sorted[j]);
    }
    if 0 <= i < chosen.len() {
        sorting_keeps_every_value(found, sorted, i);
        let k = choose|k: int| 0 <= k < found.len() && found[k] == sorted[i];
        let e = usable(entries)[k];
        assert(describes(e, found[k]));
        filtered_entries_are_entries(entries, k);
        assert(entries.contains(e));
    }
}

/// An entry that is left of some is one of them.
proof fn filtered_entries_are_entries(entries: Seq<GpuEntry>, k: int)
    requires
        0 <= k < usable(entries).len(),
    ensures
        entries.contains(usable(entries)[k]),
    decreases entries.len(),
{
    reveal(Seq::filter);
    let shorter = entries.drop_last();
    let e = usable(entries)[k];
    if k < usable(shorter).len() {
        filtered_entries_are_entries(shorter, k);
        let i = choose|i: int| 0 <= i < shorter.len() && shorter[i] == e;
        assert(entries[i] == e);
    } else {
        assert(entries[entries.len() - 1] == e);
    }
}

/// Of more than eight GPUs the guest gets those with the first addresses: one that it does not get
/// has no address before any that it does.
pub proof fn first_gpus_are_chosen(
    entries: Seq<GpuEntry>,
    chosen: Seq<GpuInfo>,
    k: int,
    i: int,
)
    requires
        chosen_gpus(entries, chosen),
        0 <= k < entries.len(),
        minor_in(entries[k].information@) is Some,
        0 <= i < chosen.len(),
    ensures
        (exists|j: int|
            0 <= j < chosen.len() && (#[trigger] chosen[j]).pci_addr@ == entries[k].pci_addr@
                && minor_in(entries[k].information@) == Some(chosen[j].minor)) || bytes_le(
            encode_utf8(chosen[i].pci_addr@),
            encode_utf8(entries[k].pci_addr@),
        ),
{
    let (found, sorted) = choose|found: Seq<GpuInfo>, sorted: Seq<GpuInfo>|
        {
            &&& #[trigger] described(usable(entries), found)
            &&& #[trigger] stably_sorted(found, sorted)
            &&& chosen == if sorted.len() <= MAX_GPUS {
                sorted
            } else {
                sorted.take(MAX_GPUS as int)
            }
        };
    let e = entries[k];
    let at = usable_entry_is_left(entries, k);
    assert(describes(e, found[at]));
    sorting_keeps_every_value(found, sorted, at);
    let p = choose|p: int| 0 <= p < sorted.len() && sorted[p] == found[at];
    if p < chosen.len() {
        assert(chosen[p] == sorted[p]);
        assert(chosen[p].pci_addr@ == e.pci_addr@);
    } else {
        sorted_values_ascend(found, sorted, i, p);
        assert(chosen[i] == sorted[i]);
    }
}

/// Where an entry that states a minor number stands among those that do.
proof fn usable_entry_is_left(entries: Seq<GpuEntry>, k: int) -> (at: int)
    requires
        0 <= k < entries.len(),
        minor_in(entries[k].information@) is Some,
    ensures
        0 <= at < usable(entries).len(),
        usable(entries)[at] == entries[k],
    decreases entries.len(),
{
    reveal(Seq::filter);
    if k == entries.len() - 1 {
        usable(entries).len() - 1
    } else {
        usable_entry_is_left(entries.drop_last(), k)
    }
}

/// A node belongs to the GPU whose address is the last part of where its link leads, and to none if
/// that is no address of a GPU.
pub proof fn links_lead_to_owners(target: Seq<char>, addrs: Seq<String>, addr: Seq<char>)
    ensures
        owner_of(target, addrs) == Some(addr) <==> file_name_of(target) == Some(addr) && exists|
            i: int,
        |
            0 <= i < addrs.len() && (#[trigger] addrs[i])@ == addr,
{
}

} // verus!
