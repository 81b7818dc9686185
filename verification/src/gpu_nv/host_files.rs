//! Which of the host's sysfs and procfs files the guest gets a copy of.
//!
//! The host lists directories and reads files; the functions here say which, and under which
//! name the guest sees them.

use vstd::prelude::*;

use crate::gpu_nv::config::{HostProcFile, SysFile};
use crate::text::{chars_of, same, starts_with};

verus! {

/// What an entry of a directory is.
#[derive(Clone, Copy, Debug, PartialEq, Eq, Structural)]
pub enum NodeKind {
    Symlink,
    Directory,
    File,
    Other,
}

/// An entry of a directory, with the entries below it.
#[derive(Debug)]
pub struct Node {
    pub name: String,
    pub kind: NodeKind,
    /// Size of a file in bytes.
    pub size: u64,
    /// Entries of a directory, in the order in which the host lists them.
    pub children: Vec<Node>,
}

/// Files of a PCI device that may be this large are copied.
pub const MAX_SYSFS_FILE: u64 = 4096;

/// The entry is passed over, whatever it is: a window into device memory ("resource0" and so on,
/// but not the text file "resource"), or the ROM.
pub open spec fn is_skipped(name: Seq<char>) -> bool {
    ||| "resource"@.is_prefix_of(name) && name != "resource"@
    ||| name == "rom"@
}

/// The directory is passed over: nothing in it is of use to the guest.
pub open spec fn is_useless_dir(name: Seq<char>) -> bool {
    ||| name == "power"@
    ||| name == "msi_irqs"@
    ||| "virtfn"@.is_prefix_of(name)
    ||| name == "iommu"@
    ||| name == "ptm"@
    ||| name == "accel"@
}

/// The walk of a PCI device's files enters directories of this name.
pub open spec fn is_entered(name: Seq<char>) -> bool {
    !is_skipped(name) && !is_useless_dir(name)
}

/// A path with one more part.
pub open spec fn joined(prefix: Seq<char>, name: Seq<char>) -> Seq<char> {
    prefix + "/"@ + name
}

/// What a string list says.
pub open spec fn views(list: Seq<String>) -> Seq<Seq<char>> {
    list.map_values(|s: String| s@)
}

/// The files of a PCI device that are copied, of the first `n` entries of a directory at
/// `prefix`.
pub open spec fn sysfs_paths(nodes: Vec<Node>, n: nat, prefix: Seq<char>, max_size: u64) -> Seq<
    Seq<char>,
>
    decreases nodes, n,
{
    if n == 0 || n > nodes.len() {
        Seq::empty()
    } else {
        sysfs_paths(nodes, (n - 1) as nat, prefix, max_size) + sysfs_node_paths(
            nodes[n - 1],
            prefix,
            max_size,
        )
    }
}

/// The files that are copied, of one entry: a file itself, if it is small; those of a directory,
/// if it is entered.  Links are not followed.
pub open spec fn sysfs_node_paths(node: Node, prefix: Seq<char>, max_size: u64) -> Seq<Seq<char>>
    decreases node, 0nat,
{
    if is_skipped(node.name@) {
        Seq::empty()
    } else if node.kind == NodeKind::Directory {
        if is_useless_dir(node.name@) {
            Seq::empty()
        } else {
            sysfs_paths(
                node.children,
                node.children.len() as nat,
                joined(prefix, node.name@),
                max_size,
            )
        }
    } else if node.kind == NodeKind::File && node.size <= max_size {
        seq![joined(prefix, node.name@)]
    } else {
        Seq::empty()
    }
}

/// All files, of the first `n` entries of a directory at `prefix`, however deep they lie.
pub open spec fn proc_paths(nodes: Vec<Node>, n: nat, prefix: Seq<char>) -> Seq<Seq<char>>
    decreases nodes, n,
{
    if n == 0 || n > nodes.len() {
        Seq::empty()
    } else {
        proc_paths(nodes, (n - 1) as nat, prefix) + proc_node_paths(nodes[n - 1], prefix)
    }
}

/// All files, of one entry.
pub open spec fn proc_node_paths(node: Node, prefix: Seq<char>) -> Seq<Seq<char>>
    decreases node, 0nat,
{
    if node.kind == NodeKind::Directory {
        proc_paths(node.children, node.children.len() as nat, joined(prefix, node.name@))
    } else if node.kind == NodeKind::File {
        seq![joined(prefix, node.name@)]
    } else {
        Seq::empty()
    }
}

/// A path with one more part.
fn join(prefix: &str, name: &str) -> (r: String)
    ensures
        r@ == joined(prefix@, name@),
{
    let mut path = prefix.to_owned();
    path.append("/");
    path.append(name);
    path
}

/// Whether the entry is passed over, whatever it is.
fn skipped(name: &[char]) -> (r: bool)
    ensures
        r == is_skipped(name@),
{
    (starts_with(name, "resource") && !same(name, "resource")) || same(name, "rom")
}

/// Whether the directory is passed over.
fn useless_dir(name: &[char]) -> (r: bool)
    ensures
        r == is_useless_dir(name@),
{
    same(name, "power") || same(name, "msi_irqs") || starts_with(name, "virtfn") || same(
        name,
        "iommu",
    ) || same(name, "ptm") || same(name, "accel")
}

/// Whether the walk of a PCI device's files enters directories of this name.  The entries of
/// other directories need not be listed.
pub fn enters(name: &str) -> (r: bool)
    ensures
        r == is_entered(name@),
{
    let chars = chars_of(name);
    !skipped(chars.as_slice()) && !useless_dir(chars.as_slice())
}

/// Appends the files of a PCI device that are copied, of a directory at `prefix`.
pub fn walk_sysfs_tree(nodes: &Vec<Node>, prefix: &str, paths: &mut Vec<String>, max_size: u64)
    ensures
        views(final(paths)@) == views(old(paths)@) + sysfs_paths(
            *nodes,
            nodes@.len(),
            prefix@,
            max_size,
        ),
    decreases nodes,
{
    let ghost before = views(paths@);
    let mut i: usize = 0;
    assert(before =~= before + Seq::<Seq<char>>::empty());
    while i < nodes.len()
        invariant
            i <= nodes@.len(),
            views(paths@) == before + sysfs_paths(*nodes, i as nat, prefix@, max_size),
        decreases nodes.len() - i,
    {
        let node = &nodes[i];
        let ghost so_far = views(paths@);
        let name = chars_of(node.name.as_str());
        if skipped(name.as_slice()) {
            assert(so_far =~= so_far + Seq::<Seq<char>>::empty());
        } else if node.kind == NodeKind::Directory {
            if useless_dir(name.as_slice()) {
                assert(so_far =~= so_far + Seq::<Seq<char>>::empty());
            } else {
                let below = join(prefix, node.name.as_str());
                assert(decreases_to!(nodes => node.children));
                walk_sysfs_tree(&node.children, below.as_str(), paths, max_size);
            }
        } else if node.kind == NodeKind::File && node.size <= max_size {
            let path = join(prefix, node.name.as_str());
            paths.push(path);
            assert(views(paths@) =~= so_far + seq![joined(prefix@, node.name@)]);
        } else {
            assert(so_far =~= so_far + Seq::<Seq<char>>::empty());
        }
        assert(views(paths@) == so_far + sysfs_node_paths(*node, prefix@, max_size));
        assert(views(paths@) =~= before + sysfs_paths(*nodes, (i + 1) as nat, prefix@, max_size));
        i += 1;
    }
}

/// Appends all files of a directory at `prefix`, however deep they lie.
pub fn walk_proc_dir(nodes: &Vec<Node>, prefix: &str, paths: &mut Vec<String>)
    ensures
        views(final(paths)@) == views(old(paths)@) + proc_paths(*nodes, nodes@.len(), prefix@),
    decreases nodes,
{
    let ghost before = views(paths@);
    let mut i: usize = 0;
    assert(before =~= before + Seq::<Seq<char>>::empty());
    while i < nodes.len()
        invariant
            i <= nodes@.len(),
            views(paths@) == before + proc_paths(*nodes, i as nat, prefix@),
        decreases nodes.len() - i,
    {
        let node = &nodes[i];
        let ghost so_far = views(paths@);
        if node.kind == NodeKind::Directory {
            let below = join(prefix, node.name.as_str());
            assert(decreases_to!(nodes => node.children));
            walk_proc_dir(&node.children, below.as_str(), paths);
        } else if node.kind == NodeKind::File {
            let path = join(prefix, node.name.as_str());
            paths.push(path);
            assert(views(paths@) =~= so_far + seq![joined(prefix@, node.name@)]);
        } else {
            assert(so_far =~= so_far + Seq::<Seq<char>>::empty());
        }
        assert(views(paths@) == so_far + proc_node_paths(*node, prefix@));
        assert(views(paths@) =~= before + proc_paths(*nodes, (i + 1) as nat, prefix@));
        i += 1;
    }
}

/// The files of a PCI device.
#[derive(Debug)]
pub struct PciDir {
    /// PCI address.
    pub addr: String,
    /// What its directory below /sys/bus/pci/devices holds; nothing where there is none.
    pub nodes: Vec<Node>,
}

/// Where below /sys the directory of a PCI device is.
pub open spec fn pci_prefix(addr: Seq<char>) -> Seq<char> {
    "bus/pci/devices/"@ + addr
}

/// The files that are copied, of PCI devices one after the other.
pub open spec fn pci_paths(dirs: Seq<PciDir>) -> Seq<Seq<char>>
    decreases dirs.len(),
{
    if dirs.len() == 0 {
        Seq::empty()
    } else {
        let dir = dirs.last();
        pci_paths(dirs.drop_last()) + sysfs_paths(
            dir.nodes,
            dir.nodes@.len(),
            pci_prefix(dir.addr@),
            MAX_SYSFS_FILE,
        )
    }
}

/// Where below /sys the directory of a PCI device is.
fn pci_dir_path(addr: &str) -> (r: String)
    ensures
        r@ == pci_prefix(addr@),
{
    let mut path = "bus/pci/devices/".to_owned();
    path.append(addr);
    path
}

/// The paths below /sys of the files of PCI devices that are copied.
pub fn read_host_pci_sysfs(dirs: &Vec<PciDir>) -> (r: Vec<String>)
    ensures
        views(r@) == pci_paths(dirs@),
{
    let mut paths: Vec<String> = Vec::new();
    let mut i: usize = 0;
    assert(views(paths@) =~= Seq::empty());
    while i < dirs.len()
        invariant
            i <= dirs@.len(),
            views(paths@) == pci_paths(dirs@.take(i as int)),
        decreases dirs.len() - i,
    {
        let dir = &dirs[i];
        proof {
            assert(dirs@.take(i + 1).drop_last() =~= dirs@.take(i as int));
            assert(dirs@.take(i + 1).last() == *dir);
        }
        let prefix = pci_dir_path(dir.addr.as_str());
        walk_sysfs_tree(&dir.nodes, prefix.as_str(), &mut paths, MAX_SYSFS_FILE);
        i += 1;
    }
    assert(dirs@.take(i as int) =~= dirs@);
    paths
}

/// The plain files of a directory at `prefix`.
pub open spec fn plain_paths(nodes: Seq<Node>, prefix: Seq<char>) -> Seq<Seq<char>> {
    nodes.filter(|n: Node| n.kind == NodeKind::File).map_values(
        |n: Node| joined(prefix, n.name@),
    )
}

/// The plain files of PCI devices one after the other.
pub open spec fn plain_pci_paths(dirs: Seq<PciDir>) -> Seq<Seq<char>>
    decreases dirs.len(),
{
    if dirs.len() == 0 {
        Seq::empty()
    } else {
        let dir = dirs.last();
        plain_pci_paths(dirs.drop_last()) + plain_paths(dir.nodes@, pci_prefix(dir.addr@))
    }
}

/// Appends the plain files of a directory at `prefix`.
fn push_plain_files(nodes: &Vec<Node>, prefix: &str, paths: &mut Vec<String>)
    ensures
        views(final(paths)@) == views(old(paths)@) + plain_paths(nodes@, prefix@),
{
    let ghost before = views(paths@);
    let ghost is_file = |n: Node| n.kind == NodeKind::File;
    let ghost path_of = |n: Node| joined(prefix@, n.name@);
    let mut i: usize = 0;
    proof {
        reveal(Seq::filter);
        assert(before =~= before + nodes@.take(0).filter(is_file).map_values(path_of));
    }
    while i < nodes.len()
        invariant
            i <= nodes@.len(),
            is_file == (|n: Node| n.kind == NodeKind::File),
            path_of == (|n: Node| joined(prefix@, n.name@)),
            views(paths@) == before + nodes@.take(i as int).filter(is_file).map_values(path_of),
        decreases nodes.len() - i,
    {
        let node = &nodes[i];
        let ghost so_far = views(paths@);
        let ghost files = nodes@.take(i as int).filter(is_file);
        proof {
            reveal(Seq::filter);
            assert(nodes@.take(i + 1).drop_last() =~= nodes@.take(i as int));
            assert(nodes@.take(i + 1).last() == *node);
        }
        if node.kind == NodeKind::File {
            paths.push(join(prefix, node.name.as_str()));
            proof {
                assert(nodes@.take(i + 1).filter(is_file) == files.push(*node));
                assert(files.push(*node).map_values(path_of) =~= files.map_values(path_of).push(
                    joined(prefix@, node.name@),
                ));
                assert(views(paths@) =~= so_far.push(joined(prefix@, node.name@)));
                assert(views(paths@) =~= before + files.push(*node).map_values(path_of));
            }
        }
        i += 1;
    }
    assert(nodes@.take(i as int) =~= nodes@);
}

/// The paths below /sys of all plain files right in the directories of PCI devices.
pub fn read_host_sys_files(dirs: &Vec<PciDir>) -> (r: Vec<String>)
    ensures
        views(r@) == plain_pci_paths(dirs@),
{
    let mut paths: Vec<String> = Vec::new();
    let mut i: usize = 0;
    assert(views(paths@) =~= Seq::empty());
    while i < dirs.len()
        invariant
            i <= dirs@.len(),
            views(paths@) == plain_pci_paths(dirs@.take(i as int)),
        decreases dirs.len() - i,
    {
        let dir = &dirs[i];
        proof {
            assert(dirs@.take(i + 1).drop_last() =~= dirs@.take(i as int));
            assert(dirs@.take(i + 1).last() == *dir);
        }
        let prefix = pci_dir_path(dir.addr.as_str());
        push_plain_files(&dir.nodes, prefix.as_str(), &mut paths);
        i += 1;
    }
    assert(dirs@.take(i as int) =~= dirs@);
    paths
}

/// The paths below /sys of what the kernel says of the driver's modules.
pub fn read_host_module_sys_files() -> (r: Vec<String>)
    ensures
        views(r@) == seq!["module/nvidia/initstate"@, "module/nvidia_uvm/initstate"@],
{
    let paths = vec![
        "module/nvidia/initstate".to_owned(),
        "module/nvidia_uvm/initstate".to_owned(),
    ];
    assert(views(paths@) =~= seq!["module/nvidia/initstate"@, "module/nvidia_uvm/initstate"@]);
    paths
}

/// The paths below /proc of all files of the driver; `nodes` is what /proc/driver/nvidia holds.
pub fn read_host_nvidia_proc_tree(nodes: &Vec<Node>) -> (r: Vec<String>)
    ensures
        views(r@) == proc_paths(*nodes, nodes@.len(), "driver/nvidia"@),
{
    let mut paths: Vec<String> = Vec::new();
    assert(views(paths@) =~= Seq::empty());
    walk_proc_dir(nodes, "driver/nvidia", &mut paths);
    assert(views(paths@) =~= proc_paths(*nodes, nodes@.len(), "driver/nvidia"@));
    paths
}

/// A file below /sys, if the host could read it.
#[derive(Debug)]
pub struct SysRead {
    pub path: String,
    pub content: Option<Vec<u8>>,
}

/// A file below /proc, if the host could read it.
#[derive(Debug)]
pub struct ProcRead {
    pub path: String,
    pub content: Option<String>,
}

/// The files below /sys that the host could read.
pub open spec fn sys_captured(reads: Seq<SysRead>) -> Seq<SysFile>
    decreases reads.len(),
{
    if reads.len() == 0 {
        Seq::empty()
    } else {
        let before = sys_captured(reads.drop_last());
        match reads.last().content {
            Some(content) => before.push(SysFile { path: reads.last().path, content }),
            None => before,
        }
    }
}

/// The files below /proc that the host could read.
pub open spec fn proc_captured(reads: Seq<ProcRead>) -> Seq<HostProcFile>
    decreases reads.len(),
{
    if reads.len() == 0 {
        Seq::empty()
    } else {
        let before = proc_captured(reads.drop_last());
        match reads.last().content {
            Some(content) => before.push(
                HostProcFile { guest_path: reads.last().path, content },
            ),
            None => before,
        }
    }
}

/// The files below /sys that the guest gets: those that the host could read, in order.
pub fn capture_sys_files(reads: Vec<SysRead>) -> (r: Vec<SysFile>)
    ensures
        r@ == sys_captured(reads@),
{
    let ghost all = reads@;
    let ghost mut done: int = 0;
    let mut rest = reads;
    let mut files: Vec<SysFile> = Vec::new();
    assert(all.skip(0) =~= all);
    assert(all.take(0) =~= Seq::empty());
    assert(files@ =~= Seq::empty());
    while rest.len() > 0
        invariant
            0 <= done <= all.len(),
            rest@ == all.skip(done),
            files@ == sys_captured(all.take(done)),
        decreases rest.len(),
    {
        let read = rest.remove(0);
        proof {
            assert(read == all[done]);
            assert(all.take(done + 1).drop_last() =~= all.take(done));
            assert(all.take(done + 1).last() == read);
            assert(rest@ =~= all.skip(done + 1));
            done = done + 1;
        }
        if let Some(content) = read.content {
            files.push(SysFile { path: read.path, content });
        }
    }
    assert(all.take(done) =~= all);
    files
}

/// The files below /proc that the guest gets: those that the host could read, in order.
pub fn capture_proc_files(reads: Vec<ProcRead>) -> (r: Vec<HostProcFile>)
    ensures
        r@ == proc_captured(reads@),
{
    let ghost all = reads@;
    let ghost mut done: int = 0;
    let mut rest = reads;
    let mut files: Vec<HostProcFile> = Vec::new();
    assert(all.skip(0) =~= all);
    assert(all.take(0) =~= Seq::empty());
    assert(files@ =~= Seq::empty());
    while rest.len() > 0
        invariant
            0 <= done <= all.len(),
            rest@ == all.skip(done),
            files@ == proc_captured(all.take(done)),
        decreases rest.len(),
    {
        let read = rest.remove(0);
        proof {
            assert(read == all[done]);
            assert(all.take(done + 1).drop_last() =~= all.take(done));
            assert(all.take(done + 1).last() == read);
            assert(rest@ =~= all.skip(done + 1));
            done = done + 1;
        }
        if let Some(content) = read.content {
            files.push(HostProcFile { guest_path: read.path, content });
        }
    }
    assert(all.take(done) =~= all);
    files
}

// What is copied.

/// A name of a PCI device's entry is passed over exactly if it is "rom", or starts with "resource"
/// and goes on.
pub open spec fn passed_over(name: Seq<char>) -> bool {
    name == "rom"@ || ("resource"@.is_prefix_of(name) && name.len() > 8)
}

/// A directory of a PCI device is entered unless its name is passed over, is one of "power",
/// "msi_irqs", "iommu", "ptm" and "accel", or starts with "virtfn".
pub open spec fn walked_into(name: Seq<char>) -> bool {
    &&& !passed_over(name)
    &&& name != "power"@
    &&& name != "msi_irqs"@
    &&& name != "iommu"@
    &&& name != "ptm"@
    &&& name != "accel"@
    &&& !("virtfn"@.is_prefix_of(name))
}

/// What is copied of an entry of a PCI device: of a file its path, if it has at most `max_size`
/// bytes and its name is not passed over; of a directory that is entered what is copied of its
/// entries, under its own path; of everything else nothing.
pub proof fn small_files_are_copied(node: Node, prefix: Seq<char>, max_size: u64)
    ensures
        ({
            let got = sysfs_node_paths(node, prefix, max_size);
            let path = prefix + "/"@ + node.name@;
            &&& node.kind == NodeKind::File && node.size <= max_size && !passed_over(node.name@)
                ==> got == seq![path]
            &&& node.kind == NodeKind::Directory && walked_into(node.name@) ==> got == sysfs_paths(
                node.children,
                node.children@.len(),
                path,
                max_size,
            )
            &&& node.kind == NodeKind::File && (node.size > max_size || passed_over(node.name@))
                ==> got.len() == 0
            &&& node.kind == NodeKind::Directory && !walked_into(node.name@) ==> got.len() == 0
            &&& (node.kind == NodeKind::Symlink || node.kind == NodeKind::Other) ==> got.len() == 0
        }),
{
    reveal_strlit("resource");
    let name = node.name@;
    if "resource"@.is_prefix_of(name) {
        if name.len() == 8 {
            assert(name.subrange(0, 8) =~= name);
        }
    }
}

/// What is copied of entries is what is copied of each, in order.
pub proof fn entries_are_copied_in_order(
    nodes: Vec<Node>,
    n: nat,
    prefix: Seq<char>,
    max_size: u64,
)
    requires
        n < nodes@.len(),
    ensures
        sysfs_paths(nodes, 0, prefix, max_size).len() == 0,
        sysfs_paths(nodes, n + 1, prefix, max_size) == sysfs_paths(nodes, n, prefix, max_size)
            + sysfs_node_paths(nodes@[n as int], prefix, max_size),
        proc_paths(nodes, 0, prefix).len() == 0,
        proc_paths(nodes, n + 1, prefix) == proc_paths(nodes, n, prefix) + proc_node_paths(
            nodes@[n as int],
            prefix,
        ),
{
}

/// What is copied of an entry of the driver's: of a file, however large, its path; of a directory
/// what is copied of its entries, under its own path; of everything else nothing.
pub proof fn all_files_of_the_driver_are_copied(node: Node, prefix: Seq<char>)
    ensures
        ({
            let got = proc_node_paths(node, prefix);
            let path = prefix + "/"@ + node.name@;
            &&& node.kind == NodeKind::File ==> got == seq![path]
            &&& node.kind == NodeKind::Directory ==> got == proc_paths(
                node.children,
                node.children@.len(),
                path,
            )
            &&& (node.kind == NodeKind::Symlink || node.kind == NodeKind::Other) ==> got.len() == 0
        }),
{
}

/// What is copied of PCI devices is what is copied of each, in order: small files, of at most 4096
/// bytes, below "bus/pci/devices/" and the address.
pub proof fn devices_are_copied_in_order(dirs: Seq<PciDir>, dir: PciDir)
    ensures
        pci_paths(Seq::<PciDir>::empty()).len() == 0,
        pci_paths(dirs.push(dir)) == pci_paths(dirs) + sysfs_paths(
            dir.nodes,
            dir.nodes@.len(),
            "bus/pci/devices/"@ + dir.addr@,
            4096,
        ),
        plain_pci_paths(Seq::<PciDir>::empty()).len() == 0,
        plain_pci_paths(dirs.push(dir)) == plain_pci_paths(dirs) + plain_paths(
            dir.nodes@,
            "bus/pci/devices/"@ + dir.addr@,
        ),
{
    assert(dirs.push(dir).drop_last() =~= dirs);
    assert(dirs.push(dir).last() == dir);
}

/// The plain files of a directory are its files, each by its path, in order.
pub proof fn plain_files_are_listed_in_order(nodes: Seq<Node>, node: Node, prefix: Seq<char>)
    ensures
        plain_paths(Seq::<Node>::empty(), prefix).len() == 0,
        plain_paths(nodes.push(node), prefix) == if node.kind == NodeKind::File {
            plain_paths(nodes, prefix).push(prefix + "/"@ + node.name@)
        } else {
            plain_paths(nodes, prefix)
        },
{
    reveal(Seq::filter);
    assert(nodes.push(node).drop_last() =~= nodes);
    assert(nodes.push(node).last() == node);
    assert(plain_paths(nodes.push(node), prefix) =~= if node.kind == NodeKind::File {
        plain_paths(nodes, prefix).push(prefix + "/"@ + node.name@)
    } else {
        plain_paths(nodes, prefix)
    });
}

/// Every file that the host could read is captured, with its path and content, in order, and no
/// other.
pub proof fn readable_files_are_captured(
    sys: Seq<SysRead>,
    s: SysRead,
    procs: Seq<ProcRead>,
    p: ProcRead,
)
    ensures
        sys_captured(Seq::<SysRead>::empty()).len() == 0,
        sys_captured(sys.push(s)) == match s.content {
            Some(content) => sys_captured(sys).push(SysFile { path: s.path, content }),
            None => sys_captured(sys),
        },
        proc_captured(Seq::<ProcRead>::empty()).len() == 0,
        proc_captured(procs.push(p)) == match p.content {
            Some(content) => proc_captured(procs).push(
                HostProcFile { guest_path: p.path, content },
            ),
            None => proc_captured(procs),
        },
{
    assert(sys.push(s).drop_last() =~= sys);
    assert(sys.push(s).last() == s);
    assert(procs.push(p).drop_last() =~= procs);
    assert(procs.push(p).last() == p);
}

/// A list of paths says each of them, in order; and what is listed of a directory at all is what
/// may be entered.
pub proof fn paths_are_listed_in_order(list: Seq<String>, i: int, name: Seq<char>)
    requires
        0 <= i < list.len(),
    ensures
        views(list).len() == list.len(),
        views(list)[i] == list[i]@,
        is_entered(name) <==> walked_into(name),
{
    reveal_strlit("resource");
    if "resource"@.is_prefix_of(name) && name.len() == 8 {
        assert(name.subrange(0, 8) =~= name);
    }
}

} // verus!
