//! Processes and mappings as the host reports them, and the wire entries made from them.

use crate::protocol::{
    process_views, region_views, EncodedString, ProcessEntry, ProcessEntryView, Region,
    RegionView,
};
use crate::text::{decimal, i64_to_decimal, join_spaced, join_with_space, lemma_decimal, texts};
use vstd::prelude::*;
use vstd::string::StringExecFns;
use vstd::utf8::{
    encode_utf8, is_ascii_chars, is_ascii_chars_concat, is_ascii_chars_encode_utf8,
};

verus! {

/// What backs a mapping.
#[derive(Debug, PartialEq, Eq, Clone)]
pub enum MapPath {
    /// The file that backs the mapping.
    Path(String),
    /// Some other pseudo-path, by its name.
    Other(String),
    Heap,
    Stack,
    /// The stack of the thread with this identifier.
    TStack(u32),
    Vdso,
    Vvar,
    Vsyscall,
    Rollup,
    Anonymous,
    /// A shared memory segment with this key.
    Vsys(i32),
}

impl MapPath {
    /// The text that names the mapping on the wire: the file's path, or a label.
    pub open spec fn spec_label(&self) -> Seq<char> {
        match self {
            MapPath::Path(path) => path@,
            MapPath::Other(name) => name@,
            MapPath::Heap => "[Heap]"@,
            MapPath::Stack => "[Stack]"@,
            MapPath::TStack(tid) => "TStack: "@ + decimal(*tid as int),
            MapPath::Vdso => "[Vdso]"@,
            MapPath::Vvar => "[Vvar]"@,
            MapPath::Vsyscall => "[Vsyscall]"@,
            MapPath::Rollup => "[Rollup]"@,
            MapPath::Anonymous => "[Anonymous]"@,
            MapPath::Vsys(key) => "Vsys: "@ + decimal(*key as int),
        }
    }

    pub fn label(&self) -> (out: String)
        ensures
            out@ == self.spec_label(),
    {
        match self {
            MapPath::Path(path) => path.clone(),
            MapPath::Other(name) => name.clone(),
            MapPath::Heap => "[Heap]".to_owned(),
            MapPath::Stack => "[Stack]".to_owned(),
            MapPath::TStack(tid) => "TStack: ".to_owned().concat(
                i64_to_decimal(*tid as i64).as_str(),
            ),
            MapPath::Vdso => "[Vdso]".to_owned(),
            MapPath::Vvar => "[Vvar]".to_owned(),
            MapPath::Vsyscall => "[Vsyscall]".to_owned(),
            MapPath::Rollup => "[Rollup]".to_owned(),
            MapPath::Anonymous => "[Anonymous]".to_owned(),
            MapPath::Vsys(key) => "Vsys: ".to_owned().concat(i64_to_decimal(*key as i64).as_str()),
        }
    }
}

/// What a mapping permits, and whether it is private to the process.
#[derive(Debug, PartialEq, Eq, Clone, Copy)]
pub struct MapPermissions {
    pub read: bool,
    pub write: bool,
    pub execute: bool,
    pub private: bool,
}

impl MapPermissions {
    /// The permission bits: read is 1, write is 2, execute is 4, private is 8.
    pub open spec fn spec_bits(self) -> u8 {
        ((if self.read {
            1int
        } else {
            0int
        }) + (if self.write {
            2int
        } else {
            0int
        }) + (if self.execute {
            4int
        } else {
            0int
        }) + (if self.private {
            8int
        } else {
            0int
        })) as u8
    }

    pub fn bits(self) -> (out: u8)
        ensures
            out == self.spec_bits(),
            out < 16,
    {
        let mut out: u8 = 0;
        if self.read {
            out = out + 1;
        }
        if self.write {
            out = out + 2;
        }
        if self.execute {
            out = out + 4;
        }
        if self.private {
            out = out + 8;
        }
        out
    }
}

/// One mapping of a process's address space, as the host reports it.
#[derive(Debug, PartialEq, Eq, Clone)]
pub struct MapEntry {
    pub start: u64,
    pub end: u64,
    pub perms: MapPermissions,
    pub offset: u64,
    pub dev_major: i32,
    pub dev_minor: i32,
    pub inode: u64,
    pub pathname: MapPath,
}

impl MapEntry {
    /// The device as text: major, a colon, minor.
    pub open spec fn spec_device(&self) -> Seq<char> {
        decimal(self.dev_major as int) + ":"@ + decimal(self.dev_minor as int)
    }

    /// The mapping does not end before it starts, and its name is short enough to travel.
    pub open spec fn valid(&self) -> bool {
        self.start <= self.end && encode_utf8(self.pathname.spec_label()).len()
            <= u32::MAX
    }

    /// The region that stands for the mapping.
    pub open spec fn spec_region(&self) -> RegionView {
        RegionView {
            start: self.start,
            end: self.end,
            size: (self.end - self.start) as u64,
            permissions: self.perms.spec_bits(),
            offset: self.offset,
            device: encode_utf8(self.spec_device()),
            inode: self.inode,
            pathname: encode_utf8(self.pathname.spec_label()),
        }
    }

    /// The device's text is short.
    pub proof fn lemma_device_is_short(&self)
        ensures
            encode_utf8(self.spec_device()).len() <= 41,
    {
        lemma_decimal(self.dev_major as int);
        lemma_decimal(self.dev_minor as int);
        reveal_strlit(":");
        let front = decimal(self.dev_major as int) + ":"@;
        assert(is_ascii_chars(":"@));
        is_ascii_chars_concat(front, decimal(self.dev_major as int), ":"@);
        is_ascii_chars_concat(self.spec_device(), front, decimal(self.dev_minor as int));
        is_ascii_chars_encode_utf8(self.spec_device());
    }

    pub fn device(&self) -> (out: String)
        ensures
            out@ == self.spec_device(),
    {
        let mut out = i64_to_decimal(self.dev_major as i64);
        out.append(":");
        out.append(i64_to_decimal(self.dev_minor as i64).as_str());
        out
    }

    pub fn is_valid(&self) -> (out: bool)
        ensures
            out == self.valid(),
    {
        self.start <= self.end && self.pathname.label().as_str().as_bytes().len()
            <= u32::MAX as usize
    }

    /// The region that stands for the mapping.
    pub fn region(&self) -> (out: Region)
        requires
            self.valid(),
        ensures
            out@ == self.spec_region(),
            out.well_formed(),
            out.consistent(),
    {
        proof {
            self.lemma_device_is_short();
        }
        Region {
            start: self.start,
            end: self.end,
            size: self.end - self.start,
            permissions: self.perms.bits(),
            offset: self.offset,
            device: EncodedString::new(self.device()),
            inode: self.inode,
            pathname: EncodedString::new(self.pathname.label()),
        }
    }
}

/// The regions that stand for `maps`, in the same order; nothing where a mapping is not
/// valid.
pub open spec fn spec_get_regions(maps: Seq<MapEntry>) -> Option<Seq<RegionView>> {
    if forall|i: int| 0 <= i < maps.len() ==> (#[trigger] maps[i]).valid() {
        Some(maps.map_values(|m: MapEntry| m.spec_region()))
    } else {
        None
    }
}

pub fn get_regions(maps: &Vec<MapEntry>) -> (out: Option<Vec<Region>>)
    ensures
        match out {
            Some(regions) => {
                &&& spec_get_regions(maps@) == Some(region_views(regions@))
                &&& forall|i: int|
                    #![trigger regions@[i]]
                    0 <= i < regions@.len() ==> regions@[i].well_formed()
                        && regions@[i].consistent()
            },
            None => spec_get_regions(maps@) is None,
        },
{
    let mut regions: Vec<Region> = Vec::new();
    let mut i: usize = 0;
    while i < maps.len()
        invariant
            i <= maps.len(),
            regions@.len() == i,
            forall|j: int| 0 <= j < i ==> (#[trigger] maps@[j]).valid(),
            forall|j: int|
                #![trigger regions@[j]]
                0 <= j < i ==> {
                    &&& regions@[j]@ == maps@[j].spec_region()
                    &&& regions@[j].well_formed()
                    &&& regions@[j].consistent()
                },
        decreases maps.len() - i,
    {
        if !maps[i].is_valid() {
            return None;
        }
        regions.push(maps[i].region());
        i += 1;
    }
    assert(region_views(regions@) == maps@.map_values(|m: MapEntry| m.spec_region()));
    Some(regions)
}

/// One running process, as the host reports it.
#[derive(Debug, PartialEq, Eq, Clone)]
pub struct ProcessInfo {
    pub pid: i32,
    /// The command line, argument by argument.
    pub cmdline: Vec<String>,
    /// The short name from the kernel's stat record, where it could be read.
    pub comm: Option<String>,
}

impl ProcessInfo {
    /// The label for people: the command line joined by spaces, or the short name where
    /// the command line is empty.
    pub open spec fn spec_name(&self) -> Seq<char> {
        let joined = join_spaced(texts(self.cmdline@));
        if joined.len() > 0 {
            joined
        } else {
            match self.comm {
                Some(comm) => comm@,
                None => Seq::empty(),
            }
        }
    }

    /// There is a label, and it is short enough to travel.
    pub open spec fn valid(&self) -> bool {
        (join_spaced(texts(self.cmdline@)).len() > 0 || self.comm is Some) && encode_utf8(
            self.spec_name(),
        ).len() <= u32::MAX
    }

    /// The entry that stands for the process.
    pub open spec fn spec_entry(&self) -> ProcessEntryView {
        ProcessEntryView { name: encode_utf8(self.spec_name()), pid: self.pid }
    }

    /// The label, where there is one.
    pub fn name(&self) -> (out: Option<String>)
        ensures
            match out {
                Some(name) => name@ == self.spec_name() && (join_spaced(texts(self.cmdline@)).len()
                    > 0 || self.comm is Some),
                None => join_spaced(texts(self.cmdline@)).len() == 0 && self.comm is None,
            },
    {
        let name = join_with_space(&self.cmdline);
        if name.as_str().is_empty() {
            match &self.comm {
                Some(comm) => Some(comm.clone()),
                None => None,
            }
        } else {
            Some(name)
        }
    }
}

/// The entry that stands for the process; nothing where it is not valid.
pub fn create_process_entry(process: &ProcessInfo) -> (out: Option<ProcessEntry>)
    ensures
        match out {
            Some(entry) => process.valid() && entry@ == process.spec_entry() && entry.well_formed(),
            None => !process.valid(),
        },
{
    match process.name() {
        None => None,
        Some(name) => {
            if name.as_str().as_bytes().len() <= u32::MAX as usize {
                Some(ProcessEntry { pid: process.pid, name: EncodedString::new(name) })
            } else {
                None
            }
        },
    }
}

/// The entries that stand for `processes`, in the same order; nothing where a process is
/// not valid.
pub open spec fn spec_get_running_processes(processes: Seq<ProcessInfo>) -> Option<
    Seq<ProcessEntryView>,
> {
    if forall|i: int| 0 <= i < processes.len() ==> (#[trigger] processes[i]).valid() {
        Some(processes.map_values(|p: ProcessInfo| p.spec_entry()))
    } else {
        None
    }
}

pub fn get_running_processes(processes: &Vec<ProcessInfo>) -> (out: Option<Vec<ProcessEntry>>)
    ensures
        match out {
            Some(entries) => {
                &&& spec_get_running_processes(processes@) == Some(process_views(entries@))
                &&& forall|i: int|
                    0 <= i < entries@.len() ==> (#[trigger] entries@[i]).well_formed()
            },
            None => spec_get_running_processes(processes@) is None,
        },
{
    let mut entries: Vec<ProcessEntry> = Vec::new();
    let mut i: usize = 0;
    while i < processes.len()
        invariant
            i <= processes.len(),
            entries@.len() == i,
            forall|j: int| 0 <= j < i ==> (#[trigger] processes@[j]).valid(),
            forall|j: int|
                #![trigger entries@[j]]
                0 <= j < i ==> {
                    &&& entries@[j]@ == processes@[j].spec_entry()
                    &&& entries@[j].well_formed()
                },
        decreases processes.len() - i,
    {
        match create_process_entry(&processes[i]) {
            None => {
                return None;
            },
            Some(entry) => {
                entries.push(entry);
            },
        }
        i += 1;
    }
    assert(process_views(entries@) == processes@.map_values(|p: ProcessInfo| p.spec_entry()));
    Some(entries)
}

} // verus!
