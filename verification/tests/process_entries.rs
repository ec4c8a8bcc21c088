use remote_memory::process::{
    create_process_entry, get_regions, get_running_processes, MapEntry, MapPath, MapPermissions,
    ProcessInfo,
};
use remote_memory::protocol::{EncodedString, ProcessEntry, Region};

fn perms(read: bool, write: bool, execute: bool, private: bool) -> MapPermissions {
    MapPermissions { read, write, execute, private }
}

fn entry(pathname: MapPath) -> MapEntry {
    MapEntry {
        start: 0x0000555555554000,
        end: 0x0000555555555000,
        perms: perms(true, false, true, false),
        offset: 0x1000,
        dev_major: 8,
        dev_minor: 1,
        inode: 77,
        pathname,
    }
}

#[test]
fn permission_bits() {
    assert_eq!(perms(false, false, false, false).bits(), 0);
    assert_eq!(perms(true, false, false, false).bits(), 1);
    assert_eq!(perms(false, true, false, false).bits(), 2);
    assert_eq!(perms(false, false, true, false).bits(), 4);
    assert_eq!(perms(false, false, false, true).bits(), 8);
    assert_eq!(perms(true, false, true, false).bits(), 5);
    assert_eq!(perms(true, true, true, true).bits(), 15);
}

#[test]
fn labels_of_mappings() {
    assert_eq!(MapPath::Path("/bin/app".to_string()).label(), "/bin/app");
    assert_eq!(MapPath::Other("custom".to_string()).label(), "custom");
    assert_eq!(MapPath::Heap.label(), "[Heap]");
    assert_eq!(MapPath::Stack.label(), "[Stack]");
    assert_eq!(MapPath::TStack(4321).label(), "TStack: 4321");
    assert_eq!(MapPath::TStack(u32::MAX).label(), "TStack: 4294967295");
    assert_eq!(MapPath::Vdso.label(), "[Vdso]");
    assert_eq!(MapPath::Vvar.label(), "[Vvar]");
    assert_eq!(MapPath::Vsyscall.label(), "[Vsyscall]");
    assert_eq!(MapPath::Rollup.label(), "[Rollup]");
    assert_eq!(MapPath::Anonymous.label(), "[Anonymous]");
    assert_eq!(MapPath::Vsys(-5).label(), "Vsys: -5");
    assert_eq!(MapPath::Vsys(12).label(), "Vsys: 12");
}

#[test]
fn a_mapping_becomes_a_region() {
    let map = entry(MapPath::Path("/bin/app".to_string()));
    assert!(map.is_valid());
    assert_eq!(map.device(), "8:1");
    assert_eq!(
        map.region(),
        Region {
            start: 0x0000555555554000,
            end: 0x0000555555555000,
            size: 4096,
            permissions: 5,
            offset: 0x1000,
            device: EncodedString::new("8:1".to_string()),
            inode: 77,
            pathname: EncodedString::new("/bin/app".to_string()),
        }
    );
}

#[test]
fn an_empty_mapping_has_size_zero() {
    let mut map = entry(MapPath::Anonymous);
    map.end = map.start;
    map.dev_major = 0;
    map.dev_minor = 253;
    let region = map.region();
    assert_eq!(region.size, 0);
    assert_eq!(region.device.to_string(), "0:253");
    assert_eq!(region.pathname.to_string(), "[Anonymous]");
}

#[test]
fn a_mapping_that_ends_before_it_starts_is_not_valid() {
    let mut map = entry(MapPath::Heap);
    map.end = map.start - 1;
    assert!(!map.is_valid());
    assert_eq!(get_regions(&vec![entry(MapPath::Heap), map]), None);
}

#[test]
fn regions_keep_the_order_of_the_mappings() {
    let maps = vec![entry(MapPath::Heap), entry(MapPath::Stack), entry(MapPath::Vdso)];
    let regions = get_regions(&maps).unwrap();
    let names: Vec<String> = regions.iter().map(|r| r.pathname.to_string()).collect();
    assert_eq!(names, vec!["[Heap]", "[Stack]", "[Vdso]"]);
    assert_eq!(get_regions(&Vec::new()), Some(Vec::new()));
}

#[test]
fn the_label_of_a_process() {
    let with_cmdline = ProcessInfo {
        pid: 10,
        cmdline: vec!["/usr/bin/cat".to_string(), "file".to_string()],
        comm: Some("cat".to_string()),
    };
    assert_eq!(with_cmdline.name(), Some("/usr/bin/cat file".to_string()));
    let kernel_thread = ProcessInfo { pid: 2, cmdline: vec![], comm: Some("kthreadd".to_string()) };
    assert_eq!(kernel_thread.name(), Some("kthreadd".to_string()));
    let blank = ProcessInfo { pid: 3, cmdline: vec![String::new()], comm: Some("x".to_string()) };
    assert_eq!(blank.name(), Some("x".to_string()));
    let nameless = ProcessInfo { pid: 4, cmdline: vec![], comm: None };
    assert_eq!(nameless.name(), None);
    assert_eq!(create_process_entry(&nameless), None);
}

#[test]
fn processes_become_entries() {
    let procs = vec![
        ProcessInfo { pid: 1, cmdline: vec!["init".to_string()], comm: None },
        ProcessInfo { pid: 2, cmdline: vec![], comm: Some("kthreadd".to_string()) },
    ];
    assert_eq!(
        get_running_processes(&procs),
        Some(vec![
            ProcessEntry { name: EncodedString::new("init".to_string()), pid: 1 },
            ProcessEntry { name: EncodedString::new("kthreadd".to_string()), pid: 2 },
        ])
    );
    let mut broken = procs.clone();
    broken.push(ProcessInfo { pid: 3, cmdline: vec![], comm: None });
    assert_eq!(get_running_processes(&broken), None);
    assert_eq!(get_running_processes(&Vec::new()), Some(Vec::new()));
}
