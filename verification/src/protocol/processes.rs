//! The running processes: one entry on the wire, a run of them, and the response that
//! carries them.

use crate::compression::{compress, decompress, lz4_frame, lz4_unframe, COMPRESSION_LEVEL};
use crate::protocol::{
    decoded, expect, is_text, lemma_string_round_trip, spec_expect, spec_read_string,
    spec_write_string, EncodedString, ErrorPacket, PacketError, PacketFault, PacketType, Pid,
};
use crate::wire::{
    bits_of_i32, get_u32, i32_from_bits, i32_of_be, i32_to_be, lemma_i32_be, lemma_split,
    lemma_u32_be, put_u32, u32_of_be, u32_to_be,
};
use vstd::prelude::*;
use vstd::utf8::encode_utf8;

verus! {

/// One running process, as a mathematical value.
pub struct ProcessEntryView {
    pub name: Seq<u8>,
    pub pid: Pid,
}

impl ProcessEntryView {
    /// The name can travel.
    pub open spec fn encodable(self) -> bool {
        is_text(self.name)
    }
}

/// One running process: a label for people, and its identifier.
#[derive(Debug, PartialEq, Eq, Clone)]
pub struct ProcessEntry {
    pub name: EncodedString,
    pub pid: Pid,
}

impl View for ProcessEntry {
    type V = ProcessEntryView;

    open spec fn view(&self) -> ProcessEntryView {
        ProcessEntryView { name: self.name@, pid: self.pid }
    }
}

/// The models of a run of process entries.
pub open spec fn process_views(processes: Seq<ProcessEntry>) -> Seq<ProcessEntryView> {
    processes.map_values(|p: ProcessEntry| p@)
}

/// The wire form of a run of process entries, one after the other.
pub open spec fn spec_write_processes(processes: Seq<ProcessEntryView>) -> Seq<u8>
    decreases processes.len(),
{
    if processes.len() == 0 {
        Seq::empty()
    } else {
        spec_write_processes(processes.drop_last()) + ProcessEntry::spec_write(processes.last())
    }
}

/// The `count` process entries that start at `at`, and the position after them.
pub open spec fn spec_read_processes(data: Seq<u8>, at: int, count: nat) -> Result<
    (Seq<ProcessEntryView>, int),
    PacketFault,
>
    decreases count,
{
    if count == 0 {
        Ok((Seq::empty(), at))
    } else {
        match ProcessEntry::spec_read(data, at) {
            Err(e) => Err(e),
            Ok((first, next)) => match spec_read_processes(data, next, (count - 1) as nat) {
                Err(e) => Err(e),
                Ok((rest, end)) => Ok((seq![first] + rest, end)),
            },
        }
    }
}

/// A reading result with `done` put in front of what was read.
pub open spec fn spec_after_processes(
    done: Seq<ProcessEntryView>,
    rest: Result<(Seq<ProcessEntryView>, int), PacketFault>,
) -> Result<(Seq<ProcessEntryView>, int), PacketFault> {
    match rest {
        Err(e) => Err(e),
        Ok((more, end)) => Ok((done + more, end)),
    }
}

/// A run of process entries is the first entry followed by the others.
pub proof fn lemma_write_processes_front(processes: Seq<ProcessEntryView>)
    requires
        processes.len() > 0,
    ensures
        spec_write_processes(processes) == ProcessEntry::spec_write(processes.first())
            + spec_write_processes(processes.drop_first()),
    decreases processes.len(),
{
    if processes.len() == 1 {
        assert(processes.drop_last().len() == 0);
        assert(processes.drop_first().len() == 0);
        assert(spec_write_processes(processes.drop_last()) == Seq::<u8>::empty());
        assert(spec_write_processes(processes.drop_first()) == Seq::<u8>::empty());
        assert(processes.first() == processes.last());
        assert(Seq::<u8>::empty() + ProcessEntry::spec_write(processes.last())
            == ProcessEntry::spec_write(processes.first()) + Seq::<u8>::empty());
    } else {
        lemma_write_processes_front(processes.drop_last());
        assert(processes.drop_last().first() == processes.first());
        assert(processes.drop_last().drop_first() == processes.drop_first().drop_last());
        assert(processes.drop_first().last() == processes.last());
        let a = ProcessEntry::spec_write(processes.first());
        let m = spec_write_processes(processes.drop_first().drop_last());
        let z = ProcessEntry::spec_write(processes.last());
        assert((a + m) + z == a + (m + z));
    }
}

/// Process entries that were written at `at` are read back, whatever surrounds them.
pub proof fn lemma_processes_round_trip(data: Seq<u8>, at: int, processes: Seq<ProcessEntryView>)
    requires
        forall|i: int| 0 <= i < processes.len() ==> (#[trigger] processes[i]).encodable(),
        0 <= at,
        at + spec_write_processes(processes).len() <= data.len(),
        data.subrange(at, at + spec_write_processes(processes).len()) == spec_write_processes(
            processes,
        ),
    ensures
        spec_read_processes(data, at, processes.len()) == Ok::<
            (Seq<ProcessEntryView>, int),
            PacketFault,
        >((processes, at + spec_write_processes(processes).len())),
    decreases processes.len(),
{
    if processes.len() == 0 {
        assert(processes == Seq::<ProcessEntryView>::empty());
    } else {
        lemma_write_processes_front(processes);
        let a = ProcessEntry::spec_write(processes.first());
        let b = spec_write_processes(processes.drop_first());
        lemma_split(data, at, a, b);
        assert(processes[0].encodable());
        ProcessEntry::lemma_round_trip(data, at, processes.first());
        assert forall|i: int| 0 <= i < processes.drop_first().len() implies (
        #[trigger] processes.drop_first()[i]).encodable() by {
            assert(processes[i + 1].encodable());
        }
        lemma_processes_round_trip(data, at + a.len(), processes.drop_first());
        assert(seq![processes.first()] + processes.drop_first() == processes);
    }
}

impl ProcessEntry {
    /// The name is well formed.
    pub open spec fn well_formed(&self) -> bool {
        self.name.well_formed()
    }

    /// A process entry's bytes on the wire.
    pub open spec fn spec_write(p: ProcessEntryView) -> Seq<u8> {
        spec_write_string(p.name) + i32_to_be(p.pid)
    }

    /// The process entry that starts at `at`, and the position after it.
    pub open spec fn spec_read(data: Seq<u8>, at: int) -> Result<
        (ProcessEntryView, int),
        PacketFault,
    > {
        match spec_read_string(data, at) {
            Err(e) => Err(e),
            Ok((name, pid_at)) => if data.len() < pid_at + 4 {
                Err(PacketFault::Truncated)
            } else {
                Ok(
                    (
                        ProcessEntryView {
                            name,
                            pid: i32_of_be(data.subrange(pid_at, pid_at + 4)),
                        },
                        pid_at + 4,
                    ),
                )
            },
        }
    }

    /// Appends the entry's wire form.
    pub fn write(&self, out: &mut Vec<u8>)
        requires
            self.well_formed(),
        ensures
            final(out)@ == old(out)@ + Self::spec_write(self@),
    {
        self.name.write(out);
        put_u32(out, bits_of_i32(self.pid));
        assert(final(out)@ == old(out)@ + Self::spec_write(self@));
    }

    /// Reads the entry that starts at `at`; with it comes the position after it.
    pub fn read(data: &[u8], at: usize) -> (out: Result<(ProcessEntry, usize), PacketError>)
        requires
            at <= data.len(),
        ensures
            match out {
                Ok((p, next)) => p.well_formed() && next <= data.len() && Self::spec_read(
                    data@,
                    at as int,
                ) == Ok::<(ProcessEntryView, int), PacketFault>((p@, next as int)),
                Err(e) => Self::spec_read(data@, at as int) == Err::<
                    (ProcessEntryView, int),
                    PacketFault,
                >(e@),
            },
    {
        let (name, pid_at) = match EncodedString::read(data, at) {
            Ok(found) => found,
            Err(e) => {
                return Err(e);
            },
        };
        if data.len() - pid_at < 4 {
            return Err(PacketError::Truncated);
        }
        let pid = i32_from_bits(get_u32(data, pid_at));
        Ok((ProcessEntry { name, pid }, pid_at + 4))
    }

    /// An entry that was written at `at` is read back, whatever surrounds it.
    pub proof fn lemma_round_trip(data: Seq<u8>, at: int, p: ProcessEntryView)
        requires
            p.encodable(),
            0 <= at,
            at + Self::spec_write(p).len() <= data.len(),
            data.subrange(at, at + Self::spec_write(p).len()) == Self::spec_write(p),
        ensures
            Self::spec_write(p).len() == 8 + p.name.len(),
            Self::spec_read(data, at) == Ok::<(ProcessEntryView, int), PacketFault>(
                (p, at + Self::spec_write(p).len()),
            ),
    {
        lemma_i32_be(p.pid);
        lemma_u32_be(p.name.len() as u32);
        lemma_split(data, at, spec_write_string(p.name), i32_to_be(p.pid));
        lemma_string_round_trip(data, at, p.name);
    }
}

/// Appends the wire form of every entry of `processes`, in order.
pub fn write_processes(processes: &Vec<ProcessEntry>, out: &mut Vec<u8>)
    requires
        forall|i: int| 0 <= i < processes@.len() ==> (#[trigger] processes@[i]).well_formed(),
    ensures
        final(out)@ == old(out)@ + spec_write_processes(process_views(processes@)),
{
    let mut i: usize = 0;
    assert(process_views(processes@).take(0).len() == 0);
    while i < processes.len()
        invariant
            i <= processes.len(),
            forall|i: int| 0 <= i < processes@.len() ==> (#[trigger] processes@[i]).well_formed(),
            out@ == old(out)@ + spec_write_processes(process_views(processes@).take(i as int)),
        decreases processes.len() - i,
    {
        let ghost before = process_views(processes@).take(i as int);
        let ghost after = process_views(processes@).take(i + 1);
        assert(after.drop_last() == before);
        assert(after.last() == processes@[i as int]@);
        processes[i].write(out);
        assert(out@ == old(out)@ + (spec_write_processes(before) + ProcessEntry::spec_write(
            processes@[i as int]@,
        )));
        i += 1;
    }
    assert(process_views(processes@).take(i as int) == process_views(processes@));
}

/// Reads `count` entries that start at `at`; with them comes the position after them.
pub fn read_processes(data: &[u8], at: usize, count: u32) -> (out: Result<
    (Vec<ProcessEntry>, usize),
    PacketError,
>)
    requires
        at <= data.len(),
    ensures
        match out {
            Ok((processes, next)) => {
                &&& next <= data.len()
                &&& processes@.len() == count
                &&& forall|i: int|
                    0 <= i < processes@.len() ==> (#[trigger] processes@[i]).well_formed()
                &&& spec_read_processes(data@, at as int, count as nat) == Ok::<
                    (Seq<ProcessEntryView>, int),
                    PacketFault,
                >((process_views(processes@), next as int))
            },
            Err(e) => spec_read_processes(data@, at as int, count as nat) == Err::<
                (Seq<ProcessEntryView>, int),
                PacketFault,
            >(e@),
        },
{
    let mut processes: Vec<ProcessEntry> = Vec::new();
    let mut pos: usize = at;
    let mut i: u32 = 0;
    assert(process_views(processes@) + Seq::<ProcessEntryView>::empty() == process_views(
        processes@,
    ));
    assert(forall|more: Seq<ProcessEntryView>| Seq::<ProcessEntryView>::empty() + more == more);
    while i < count
        invariant
            i <= count,
            pos <= data.len(),
            processes@.len() == i,
            forall|i: int| 0 <= i < processes@.len() ==> (#[trigger] processes@[i]).well_formed(),
            spec_read_processes(data@, at as int, count as nat) == spec_after_processes(
                process_views(processes@),
                spec_read_processes(data@, pos as int, (count - i) as nat),
            ),
        decreases count - i,
    {
        match ProcessEntry::read(data, pos) {
            Err(e) => {
                return Err(e);
            },
            Ok((process, next)) => {
                proof {
                    let done = process_views(processes@);
                    let tail = spec_read_processes(data@, next as int, (count - i - 1) as nat);
                    assert(process_views(processes@.push(process)) == done.push(process@));
                    match tail {
                        Ok((more, end)) => {
                            assert(done + (seq![process@] + more) == done.push(process@) + more);
                        },
                        Err(e) => {},
                    }
                }
                processes.push(process);
                pos = next;
                i += 1;
            },
        }
    }
    assert(process_views(processes@) + Seq::<ProcessEntryView>::empty() == process_views(
        processes@,
    ));
    Ok((processes, pos))
}

/// The response to a `SendProcesses` request: the processes that are running.
#[derive(Debug, PartialEq, Eq, Clone)]
pub struct RequestProcessesPacketResponse {
    pub _type: PacketType,
    pub count: u32,
    pub processes: Vec<ProcessEntry>,
}

impl View for RequestProcessesPacketResponse {
    type V = Seq<ProcessEntryView>;

    /// The entries, in order.
    open spec fn view(&self) -> Seq<ProcessEntryView> {
        process_views(self.processes@)
    }
}

impl RequestProcessesPacketResponse {
    pub open spec fn well_formed(&self) -> bool {
        &&& self._type == PacketType::SendProcesses
        &&& self.count == self.processes@.len()
        &&& forall|i: int|
            0 <= i < self.processes@.len() ==> (#[trigger] self.processes@[i]).well_formed()
    }

    /// The frame before compression: tag, count, entries.
    pub open spec fn spec_serialize_frame(processes: Seq<ProcessEntryView>) -> Seq<u8> {
        seq![PacketType::SendProcesses.tag()] + u32_to_be(processes.len() as u32) + spec_write_processes(
            processes,
        )
    }

    /// The processes of the uncompressed frame in `data`.
    pub open spec fn spec_deserialize_frame(data: Seq<u8>) -> Result<
        Seq<ProcessEntryView>,
        PacketFault,
    > {
        match spec_expect(data, PacketType::SendProcesses) {
            Err(e) => Err(e),
            Ok(_) => if data.len() < 5 {
                Err(PacketFault::Truncated)
            } else {
                match spec_read_processes(data, 5, u32_of_be(data.subrange(1, 5)) as nat) {
                    Err(e) => Err(e),
                    Ok((processes, _)) => Ok(processes),
                }
            },
        }
    }

    /// What is sent: the frame, compressed.
    pub open spec fn spec_serialize(processes: Seq<ProcessEntryView>) -> Seq<u8> {
        lz4_frame(Self::spec_serialize_frame(processes), COMPRESSION_LEVEL)
    }

    /// The processes of the compressed frame in `data`.
    pub open spec fn spec_deserialize(data: Seq<u8>) -> Result<Seq<ProcessEntryView>, PacketFault> {
        match lz4_unframe(data) {
            None => Err(PacketFault::Compression),
            Some(frame) => Self::spec_deserialize_frame(frame),
        }
    }

    /// Decodes an uncompressed frame.
    pub fn deserialize_frame(data: &[u8]) -> (out: Result<Self, PacketError>)
        ensures
            decoded(out) == Self::spec_deserialize_frame(data@),
            out matches Ok(packet) ==> packet.well_formed(),
    {
        match expect(data, PacketType::SendProcesses) {
            Err(e) => Err(e),
            Ok(_) => {
                if data.len() < 5 {
                    return Err(PacketError::Truncated);
                }
                let count = get_u32(data, 1);
                match read_processes(data, 5, count) {
                    Err(e) => Err(e),
                    Ok((processes, _)) => Ok(
                        RequestProcessesPacketResponse {
                            _type: PacketType::SendProcesses,
                            count,
                            processes,
                        },
                    ),
                }
            },
        }
    }

    /// Encodes the frame without compressing it.
    pub fn serialize_frame(processes: Vec<ProcessEntry>) -> (out: Vec<u8>)
        requires
            processes@.len() <= u32::MAX,
            forall|i: int| 0 <= i < processes@.len() ==> (#[trigger] processes@[i]).well_formed(),
        ensures
            out@ == Self::spec_serialize_frame(process_views(processes@)),
            out@[0] == PacketType::SendProcesses.tag(),
    {
        let object = RequestProcessesPacketResponse {
            _type: PacketType::SendProcesses,
            count: processes.len() as u32,
            processes,
        };
        let mut out: Vec<u8> = Vec::new();
        out.push(object._type.to_u8());
        put_u32(&mut out, object.count);
        write_processes(&object.processes, &mut out);
        out
    }

    pub fn deserialize(data: &[u8]) -> (out: Result<Self, PacketError>)
        ensures
            decoded(out) == Self::spec_deserialize(data@),
            out matches Ok(packet) ==> packet.well_formed(),
    {
        match decompress(data) {
            None => Err(PacketError::Compression),
            Some(decompressed_data) => Self::deserialize_frame(decompressed_data.as_slice()),
        }
    }

    /// What comes out is the compressed frame. It decodes to the processes that went in, and
    /// it is no frame of this type until it has been decompressed.
    pub fn serialize(processes: Vec<ProcessEntry>) -> (out: Vec<u8>)
        requires
            processes@.len() <= u32::MAX,
            forall|i: int| 0 <= i < processes@.len() ==> (#[trigger] processes@[i]).well_formed(),
        ensures
            out@ == Self::spec_serialize(process_views(processes@)),
            lz4_unframe(out@) == Some(Self::spec_serialize_frame(process_views(processes@))),
            Self::spec_deserialize(out@) == Ok::<Seq<ProcessEntryView>, PacketFault>(
                process_views(processes@),
            ),
            Self::spec_deserialize_frame(out@) == Err::<Seq<ProcessEntryView>, PacketFault>(
                PacketFault::IncorrectPacketType,
            ),
    {
        let ghost views = process_views(processes@);
        let frame = Self::serialize_frame(processes);
        let out = compress(frame.as_slice());
        proof {
            assert forall|i: int| 0 <= i < views.len() implies (#[trigger] views[i]).encodable() by {
                assert(processes@[i].well_formed());
            }
            Self::lemma_round_trip(views);
            assert(out@[0] == out@.subrange(0, 4)[0]);
        }
        out
    }

    /// An uncompressed frame decodes to the processes that were put into it.
    pub proof fn lemma_round_trip(processes: Seq<ProcessEntryView>)
        requires
            processes.len() <= u32::MAX,
            forall|i: int| 0 <= i < processes.len() ==> (#[trigger] processes[i]).encodable(),
        ensures
            Self::spec_serialize_frame(processes)[0] == PacketType::SendProcesses.tag(),
            Self::spec_deserialize_frame(Self::spec_serialize_frame(processes)) == Ok::<
                Seq<ProcessEntryView>,
                PacketFault,
            >(processes),
    {
        let data = Self::spec_serialize_frame(processes);
        let head = seq![PacketType::SendProcesses.tag()] + u32_to_be(processes.len() as u32);
        lemma_u32_be(processes.len() as u32);
        assert(data.subrange(0, 5 + spec_write_processes(processes).len() as int) == data);
        lemma_split(data, 0, head, spec_write_processes(processes));
        lemma_split(data, 0, seq![PacketType::SendProcesses.tag()], u32_to_be(processes.len() as u32));
        lemma_processes_round_trip(data, 5, processes);
    }

    /// An error frame in place of this frame gives a failure that carries the message of
    /// the error frame: for the frame as it is, and for whatever decompresses to it.
    pub proof fn lemma_error_substitution(text: Seq<char>, wire: Seq<u8>)
        requires
            encode_utf8(text).len() <= u32::MAX,
        ensures
            Self::spec_deserialize_frame(ErrorPacket::spec_serialize(encode_utf8(text))) == Err::<
                Seq<ProcessEntryView>,
                PacketFault,
            >(PacketFault::Remote(text)),
            lz4_unframe(wire) == Some(ErrorPacket::spec_serialize(encode_utf8(text)))
                ==> Self::spec_deserialize(wire) == Err::<Seq<ProcessEntryView>, PacketFault>(
                PacketFault::Remote(text),
            ),
    {
        ErrorPacket::lemma_substitution(text, PacketType::SendProcesses);
    }
}

} // verus!
