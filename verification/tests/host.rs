use virtio_gpu_nv::gpu_nv::host_files::{
    capture_proc_files, capture_sys_files, enters, read_host_module_sys_files,
    read_host_nvidia_proc_tree, read_host_pci_sysfs, read_host_sys_files, Node, NodeKind, PciDir,
    ProcRead, SysRead,
};
use virtio_gpu_nv::gpu_nv::host_info::{
    dri_name, dri_owner, find_dri_devices, parse_dev, parse_gpu_id_from_information, parse_gpu_information,
    read_host_gpu_info, DriEntry, GpuEntry,
};
use virtio_gpu_nv::gpu_nv::libs::{
    candidate_dirs, find_nvidia_libs, first_library, libs_dir_of, required_nvidia_libs,
};

fn node(name: &str, kind: NodeKind, size: u64, children: Vec<Node>) -> Node {
    Node { name: name.to_string(), kind, size, children }
}

fn file(name: &str) -> Node {
    node(name, NodeKind::File, 10, vec![])
}

fn dir(name: &str, children: Vec<Node>) -> Node {
    node(name, NodeKind::Directory, 0, children)
}

#[test]
fn gpu_ids() {
    assert_eq!(parse_gpu_id_from_information("Model: x\n  GPU ID:   0x1234abCD \nGPU ID: 5"), 0x1234abcd);
    assert_eq!(parse_gpu_id_from_information("GPU ID:\t0XfF\r\n"), 255);
    assert_eq!(parse_gpu_id_from_information("GPU ID: 77"), 77);
    // A line that cannot be read is passed over.
    assert_eq!(parse_gpu_id_from_information("GPU ID: 0xzz\nGPU ID:\nGPU ID: +8"), 8);
    assert_eq!(parse_gpu_id_from_information("GPU ID: 0x1ffffffff\ngpu id: 3"), 0);
    assert_eq!(parse_gpu_id_from_information(""), 0);
}

#[test]
fn gpu_information() {
    let text = "Model: \t A\nDevice Minor: \t 3\r\nDevice Minor: 4\n";
    let g = parse_gpu_information("0000:08:00.0", text).unwrap();
    assert_eq!(g.pci_addr, "0000:08:00.0");
    assert_eq!(g.minor, 3);
    assert_eq!(g.information.guest_path, "driver/nvidia/gpus/0000:08:00.0/information");
    assert_eq!(g.information.content, text);
    // The first line that states it counts, even if it cannot be read.
    assert!(parse_gpu_information("a", "Device Minor: x\nDevice Minor: 4").is_none());
    assert!(parse_gpu_information("a", "Device Minor 3").is_none());
    assert!(parse_gpu_information("a", "Device Minor: 3: 4").is_none());
    assert_eq!(parse_gpu_information("a", " Device Minor :9").unwrap().minor, 9);
}

fn gpu_entry(addr: &str, text: &str) -> GpuEntry {
    GpuEntry { pci_addr: addr.to_string(), information: text.to_string() }
}

#[test]
fn gpus_are_ordered_by_address() {
    let entries = vec![
        gpu_entry("0000:41:00.0", "Device Minor: 1"),
        gpu_entry("0000:08:00.0", "Device Minor: 0"),
        gpu_entry("0000:09:00.0", "nothing"),
        gpu_entry("0000:08", "Device Minor: 2"),
    ];
    let gpus = read_host_gpu_info(&entries).unwrap();
    let seen: Vec<(&str, u32)> = gpus.iter().map(|g| (g.pci_addr.as_str(), g.minor)).collect();
    assert_eq!(seen, vec![("0000:08", 2), ("0000:08:00.0", 0), ("0000:41:00.0", 1)]);
}

#[test]
fn at_least_one_gpu_and_at_most_eight() {
    let err = read_host_gpu_info(&vec![gpu_entry("a", "x")]).unwrap_err();
    assert_eq!(err, "no NVIDIA GPUs found in /proc/driver/nvidia/gpus");
    let entries: Vec<GpuEntry> =
        (0..10).map(|i| gpu_entry(&format!("{}", 9 - i), &format!("Device Minor: {}", i))).collect();
    let gpus = read_host_gpu_info(&entries).unwrap();
    assert_eq!(gpus.len(), 8);
    assert_eq!((gpus[0].minor, gpus[7].minor), (9, 2));
}

#[test]
fn dev_files() {
    assert_eq!(parse_dev("226:128\n"), Some((226, 128)));
    assert_eq!(parse_dev(" 226:x "), Some((226, 0)));
    assert_eq!(parse_dev("0:1"), None);
    assert_eq!(parse_dev("x:1"), None);
    assert_eq!(parse_dev("226"), None);
    assert_eq!(parse_dev("226:1:2"), None);
    assert!(dri_name("card0") && dri_name("renderD128"));
    assert!(!dri_name("render128") && !dri_name("version"));
}

fn dri_entry(name: &str, addr: Option<&str>, dev: Option<&str>, info: Option<&str>) -> DriEntry {
    DriEntry {
        name: name.to_string(),
        pci_addr: addr.map(|s| s.to_string()),
        dev: dev.map(|s| s.to_string()),
        information: info.map(|s| s.to_string()),
    }
}

#[test]
fn dri_devices_of_the_gpus() {
    let addrs = vec!["0000:08:00.0".to_string(), "0000:09:00.0".to_string()];
    let (a, b) = (Some("0000:08:00.0"), Some("0000:09:00.0"));
    let found = find_dri_devices(
        vec![
            dri_entry("renderD129", b, Some("226:129\n"), None),
            dri_entry("card2", b, Some("226:2\n"), Some("GPU ID: 0x22")),
            dri_entry("card2-DP-1", Some("card2"), None, None),
            dri_entry("renderD128", a, Some("226:128\n"), Some("GPU ID: 0x11")),
            dri_entry("card1", a, Some("226:1\n"), Some("GPU ID: 0x11")),
            dri_entry("card0", Some("0000:00:02.0"), Some("226:0\n"), None),
            dri_entry("card9", a, None, None),
            dri_entry("card8", None, Some("226:8"), None),
            dri_entry("version", a, Some("226:7"), None),
            // A second node with the same minor number stays behind the first.
            dri_entry("card1b", a, Some("226:1\n"), None),
        ],
        &addrs,
    );
    let seen: Vec<(&str, u32, u32, u32)> =
        found.iter().map(|d| (d.name.as_str(), d.major, d.minor, d.gpu_id)).collect();
    assert_eq!(
        seen,
        vec![
            ("card1", 226, 1, 0x11),
            ("card1b", 226, 1, 0),
            ("card2", 226, 2, 0x22),
            ("renderD128", 226, 128, 0x11),
            ("renderD129", 226, 129, 0),
        ]
    );
}

#[test]
fn pci_sysfs_files() {
    let nodes = vec![
        file("vendor"),
        file("resource"),
        file("resource0"),
        file("resource1_wc"),
        file("rom"),
        node("config", NodeKind::File, 4096, vec![]),
        node("big", NodeKind::File, 4097, vec![]),
        node("driver", NodeKind::Symlink, 0, vec![]),
        node("socket", NodeKind::Other, 0, vec![]),
        dir("power", vec![file("control")]),
        dir("virtfn0", vec![file("vendor")]),
        dir("rom", vec![file("x")]),
        dir("drm", vec![dir("card1", vec![file("dev"), dir("power", vec![file("y")])]), file("uevent")]),
        file("device"),
    ];
    let dirs = vec![
        PciDir { addr: "0000:08:00.0".to_string(), nodes },
        PciDir { addr: "gone".to_string(), nodes: vec![] },
        PciDir { addr: "b".to_string(), nodes: vec![file("vendor")] },
    ];
    assert_eq!(
        read_host_pci_sysfs(&dirs),
        vec![
            "bus/pci/devices/0000:08:00.0/vendor",
            "bus/pci/devices/0000:08:00.0/resource",
            "bus/pci/devices/0000:08:00.0/config",
            "bus/pci/devices/0000:08:00.0/drm/card1/dev",
            "bus/pci/devices/0000:08:00.0/drm/uevent",
            "bus/pci/devices/0000:08:00.0/device",
            "bus/pci/devices/b/vendor",
        ]
    );
    assert_eq!(
        read_host_sys_files(&dirs[1..].iter().map(|d| PciDir {
            addr: d.addr.clone(),
            nodes: vec![file("rom"), dir("d", vec![file("z")]), file("resource0")],
        }).collect()),
        vec![
            "bus/pci/devices/gone/rom",
            "bus/pci/devices/gone/resource0",
            "bus/pci/devices/b/rom",
            "bus/pci/devices/b/resource0",
        ]
    );
    assert!(enters("drm") && enters("resource"));
    for name in ["power", "msi_irqs", "virtfn3", "iommu", "ptm", "accel", "rom", "resource4"] {
        assert!(!enters(name));
    }
}

#[test]
fn proc_tree() {
    let nodes = vec![
        file("version"),
        dir("gpus", vec![dir("0000:08:00.0", vec![file("information"), file("power")])]),
        node("pipe", NodeKind::Other, 0, vec![]),
        node("params", NodeKind::File, 1 << 40, vec![]),
    ];
    assert_eq!(
        read_host_nvidia_proc_tree(&nodes),
        vec![
            "driver/nvidia/version",
            "driver/nvidia/gpus/0000:08:00.0/information",
            "driver/nvidia/gpus/0000:08:00.0/power",
            "driver/nvidia/params",
        ]
    );
}

#[test]
fn files_that_cannot_be_read_are_passed_over() {
    assert_eq!(
        read_host_module_sys_files(),
        vec!["module/nvidia/initstate", "module/nvidia_uvm/initstate"]
    );
    let files = capture_sys_files(vec![
        SysRead { path: "a".to_string(), content: Some(vec![1]) },
        SysRead { path: "b".to_string(), content: None },
        SysRead { path: "c".to_string(), content: Some(vec![]) },
    ]);
    let seen: Vec<(&str, &[u8])> = files.iter().map(|f| (f.path.as_str(), f.content.as_slice())).collect();
    assert_eq!(seen, vec![("a", &[1u8][..]), ("c", &[][..])]);
    let files = capture_proc_files(vec![
        ProcRead { path: "a".to_string(), content: None },
        ProcRead { path: "b".to_string(), content: Some("text".to_string()) },
    ]);
    assert_eq!(files.len(), 1);
    assert_eq!((files[0].guest_path.as_str(), files[0].content.as_str()), ("b", "text"));
}

#[test]
fn libraries() {
    let libs = required_nvidia_libs();
    assert_eq!(libs.len(), 21);
    assert_eq!((libs[0], libs[20]), ("libcuda.so.1", "nvidia_layers.json"));
    assert_eq!(candidate_dirs()[1], "/usr/lib64");
    let none = vec![false; 5];
    assert_eq!(find_nvidia_libs(Some("/opt/nv".to_string()), &none).unwrap(), "/opt/nv");
    assert_eq!(
        find_nvidia_libs(None, &vec![false, false, true, false, true]).unwrap(),
        "/usr/lib/aarch64-linux-gnu"
    );
    assert_eq!(
        find_nvidia_libs(None, &none).unwrap_err(),
        "Cannot find NVIDIA libraries on host. Install the NVIDIA driver or ensure nvidia-container-cli is in PATH."
    );
}

#[test]
fn first_line_of_the_container_tool() {
    assert_eq!(first_library(""), None);
    assert_eq!(first_library(" /usr/lib/é/libcuda.so.1 \r\n/x\n").unwrap(), "/usr/lib/é/libcuda.so.1");
    assert_eq!(first_library("/a/b").unwrap(), "/a/b");
    assert_eq!(first_library("\n/a/b").unwrap(), "");
}

#[test]
fn directory_of_the_first_library() {
    assert_eq!(libs_dir_of("/usr/lib64/libcuda.so.1\n/x/y\n").unwrap(), "/usr/lib64");
    assert_eq!(libs_dir_of("libcuda.so.1").unwrap(), "");
    assert_eq!(libs_dir_of("/"), None);
    assert_eq!(libs_dir_of("  \n/x/y"), None);
    assert_eq!(libs_dir_of(""), None);
}

#[test]
fn owner_of_a_dri_node() {
    let addrs = vec!["0000:08:00.0".to_string()];
    assert_eq!(dri_owner("../../../0000:08:00.0", &addrs).unwrap(), "0000:08:00.0");
    assert_eq!(dri_owner("../../card1", &addrs), None);
    assert_eq!(dri_owner("0000:08:00.0/..", &addrs), None);
}
