//! The regions of a process: one region on the wire, a run of them, and the response that
//! carries them.

use crate::compression::{compress, decompress, lz4_frame, lz4_unframe, COMPRESSION_LEVEL};
use crate::protocol::{
    decoded, expect, is_text, lemma_string_round_trip, spec_expect, spec_read_string,
    spec_write_string, EncodedString, ErrorPacket, PacketError, PacketFault, PacketType,
};
use crate::wire::{
    get_u32, get_u64, lemma_split, lemma_u32_be, lemma_u64_be, put_u32, put_u64, u32_of_be,
    u32_to_be, u64_of_be, u64_to_be,
};
use vstd::prelude::*;
use vstd::utf8::encode_utf8;

verus! {

/// One mapping of a process's address space, as a mathematical value.
pub struct RegionView {
    pub start: u64,
    pub end: u64,
    pub size: u64,
    pub permissions: u8,
    pub offset: u64,
    pub device: Seq<u8>,
    pub inode: u64,
    pub pathname: Seq<u8>,
}

impl RegionView {
    /// Both strings can travel.
    pub open spec fn encodable(self) -> bool {
        is_text(self.device) && is_text(self.pathname)
    }
}

/// One mapping of a process's address space.
#[derive(Debug, PartialEq, Eq, Clone)]
pub struct Region {
    pub start: u64,
    pub end: u64,
    pub size: u64,
    pub permissions: u8,
    pub offset: u64,
    pub device: EncodedString,
    pub inode: u64,
    pub pathname: EncodedString,
}

impl View for Region {
    type V = RegionView;

    open spec fn view(&self) -> RegionView {
        RegionView {
            start: self.start,
            end: self.end,
            size: self.size,
            permissions: self.permissions,
            offset: self.offset,
            device: self.device@,
            inode: self.inode,
            pathname: self.pathname@,
        }
    }
}

/// The models of a run of regions.
pub open spec fn region_views(regions: Seq<Region>) -> Seq<RegionView> {
    regions.map_values(|r: Region| r@)
}

/// The wire form of a run of regions, one after the other.
pub open spec fn spec_write_regions(regions: Seq<RegionView>) -> Seq<u8>
    decreases regions.len(),
{
    if regions.len() == 0 {
        Seq::empty()
    } else {
        spec_write_regions(regions.drop_last()) + Region::spec_write(regions.last())
    }
}

/// The `count` regions that start at `at`, and the position after them.
pub open spec fn spec_read_regions(data: Seq<u8>, at: int, count: nat) -> Result<
    (Seq<RegionView>, int),
    PacketFault,
>
    decreases count,
{
    if count == 0 {
        Ok((Seq::empty(), at))
    } else {
        match Region::spec_read(data, at) {
            Err(e) => Err(e),
            Ok((first, next)) => match spec_read_regions(data, next, (count - 1) as nat) {
                Err(e) => Err(e),
                Ok((rest, end)) => Ok((seq![first] + rest, end)),
            },
        }
    }
}

/// A reading result with `done` put in front of what was read.
pub open spec fn spec_after_regions(
    done: Seq<RegionView>,
    rest: Result<(Seq<RegionView>, int), PacketFault>,
) -> Result<(Seq<RegionView>, int), PacketFault> {
    match rest {
        Err(e) => Err(e),
        Ok((more, end)) => Ok((done + more, end)),
    }
}

/// A run of regions is the first region followed by the others.
pub proof fn lemma_write_regions_front(regions: Seq<RegionView>)
    requires
        regions.len() > 0,
    ensures
        spec_write_regions(regions) == Region::spec_write(regions.first()) + spec_write_regions(
            regions.drop_first(),
        ),
    decreases regions.len(),
{
    if regions.len() == 1 {
        assert(regions.drop_last().len() == 0);
        assert(regions.drop_first().len() == 0);
        assert(spec_write_regions(regions.drop_last()) == Seq::<u8>::empty());
        assert(spec_write_regions(regions.drop_first()) == Seq::<u8>::empty());
        assert(regions.first() == regions.last());
        assert(Seq::<u8>::empty() + Region::spec_write(regions.last()) == Region::spec_write(
            regions.first(),
        ) + Seq::<u8>::empty());
    } else {
        lemma_write_regions_front(regions.drop_last());
        assert(regions.drop_last().first() == regions.first());
        assert(regions.drop_last().drop_first() == regions.drop_first().drop_last());
        assert(regions.drop_first().last() == regions.last());
        let a = Region::spec_write(regions.first());
        let m = spec_write_regions(regions.drop_first().drop_last());
        let z = Region::spec_write(regions.last());
        assert((a + m) + z == a + (m + z));
    }
}

/// Regions that were written at `at` are read back, whatever surrounds them.
pub proof fn lemma_regions_round_trip(data: Seq<u8>, at: int, regions: Seq<RegionView>)
    requires
        forall|i: int| 0 <= i < regions.len() ==> (#[trigger] regions[i]).encodable(),
        0 <= at,
        at + spec_write_regions(regions).len() <= data.len(),
        data.subrange(at, at + spec_write_regions(regions).len()) == spec_write_regions(regions),
    ensures
        spec_read_regions(data, at, regions.len()) == Ok::<(Seq<RegionView>, int), PacketFault>(
            (regions, at + spec_write_regions(regions).len()),
        ),
    decreases regions.len(),
{
    if regions.len() == 0 {
        assert(regions == Seq::<RegionView>::empty());
    } else {
        lemma_write_regions_front(regions);
        let a = Region::spec_write(regions.first());
        let b = spec_write_regions(regions.drop_first());
        lemma_split(data, at, a, b);
        assert(regions[0].encodable());
        Region::lemma_round_trip(data, at, regions.first());
        assert forall|i: int| 0 <= i < regions.drop_first().len() implies (
        #[trigger] regions.drop_first()[i]).encodable() by {
            assert(regions[i + 1].encodable());
        }
        lemma_regions_round_trip(data, at + a.len(), regions.drop_first());
        assert(seq![regions.first()] + regions.drop_first() == regions);
    }
}

impl Region {
    /// Both strings are well formed.
    pub open spec fn well_formed(&self) -> bool {
        self.device.well_formed() && self.pathname.well_formed()
    }

    /// The span is consistent and only the four permission bits are used.
    pub open spec fn consistent(&self) -> bool {
        self.start + self.size == self.end && self.permissions < 16
    }

    /// A region's bytes on the wire.
    pub open spec fn spec_write(r: RegionView) -> Seq<u8> {
        u64_to_be(r.start) + u64_to_be(r.end) + u64_to_be(r.size) + seq![r.permissions]
            + u64_to_be(r.offset) + spec_write_string(r.device) + u64_to_be(r.inode)
            + spec_write_string(r.pathname)
    }

    /// The region that starts at `at`, and the position after it.
    pub open spec fn spec_read(data: Seq<u8>, at: int) -> Result<(RegionView, int), PacketFault> {
        if data.len() < at + 33 {
            Err(PacketFault::Truncated)
        } else {
            match spec_read_string(data, at + 33) {
                Err(e) => Err(e),
                Ok((device, inode_at)) => if data.len() < inode_at + 8 {
                    Err(PacketFault::Truncated)
                } else {
                    match spec_read_string(data, inode_at + 8) {
                        Err(e) => Err(e),
                        Ok((pathname, next)) => Ok(
                            (
                                RegionView {
                                    start: u64_of_be(data.subrange(at, at + 8)),
                                    end: u64_of_be(data.subrange(at + 8, at + 16)),
                                    size: u64_of_be(data.subrange(at + 16, at + 24)),
                                    permissions: data[at + 24],
                                    offset: u64_of_be(data.subrange(at + 25, at + 33)),
                                    device,
                                    inode: u64_of_be(data.subrange(inode_at, inode_at + 8)),
                                    pathname,
                                },
                                next,
                            ),
                        ),
                    }
                },
            }
        }
    }

    /// Appends the region's wire form.
    pub fn write(&self, out: &mut Vec<u8>)
        requires
            self.well_formed(),
        ensures
            final(out)@ == old(out)@ + Self::spec_write(self@),
    {
        put_u64(out, self.start);
        put_u64(out, self.end);
        put_u64(out, self.size);
        out.push(self.permissions);
        put_u64(out, self.offset);
        self.device.write(out);
        put_u64(out, self.inode);
        self.pathname.write(out);
        assert(final(out)@ == old(out)@ + Self::spec_write(self@));
    }

    /// Reads the region that starts at `at`; with it comes the position after it.
    pub fn read(data: &[u8], at: usize) -> (out: Result<(Region, usize), PacketError>)
        requires
            at <= data.len(),
        ensures
            match out {
                Ok((r, next)) => r.well_formed() && next <= data.len() && Self::spec_read(
                    data@,
                    at as int,
                ) == Ok::<(RegionView, int), PacketFault>((r@, next as int)),
                Err(e) => Self::spec_read(data@, at as int) == Err::<(RegionView, int), PacketFault>(
                    e@,
                ),
            },
    {
        if data.len() - at < 33 {
            return Err(PacketError::Truncated);
        }
        let start = get_u64(data, at);
        let end = get_u64(data, at + 8);
        let size = get_u64(data, at + 16);
        let permissions = data[at + 24];
        let offset = get_u64(data, at + 25);
        let (device, inode_at) = match EncodedString::read(data, at + 33) {
            Ok(found) => found,
            Err(e) => {
                return Err(e);
            },
        };
        if data.len() - inode_at < 8 {
            return Err(PacketError::Truncated);
        }
        let inode = get_u64(data, inode_at);
        let (pathname, next) = match EncodedString::read(data, inode_at + 8) {
            Ok(found) => found,
            Err(e) => {
                return Err(e);
            },
        };
        Ok((Region { start, end, size, permissions, offset, device, inode, pathname }, next))
    }

    /// A region that was written at `at` is read back, whatever surrounds it.
    pub proof fn lemma_round_trip(data: Seq<u8>, at: int, r: RegionView)
        requires
            r.encodable(),
            0 <= at,
            at + Self::spec_write(r).len() <= data.len(),
            data.subrange(at, at + Self::spec_write(r).len()) == Self::spec_write(r),
        ensures
            Self::spec_write(r).len() == 49 + r.device.len() + r.pathname.len(),
            Self::spec_read(data, at) == Ok::<(RegionView, int), PacketFault>(
                (r, at + Self::spec_write(r).len()),
            ),
    {
        lemma_u64_be(r.start);
        lemma_u64_be(r.end);
        lemma_u64_be(r.size);
        lemma_u64_be(r.offset);
        lemma_u64_be(r.inode);
        lemma_u32_be(r.device.len() as u32);
        lemma_u32_be(r.pathname.len() as u32);
        let f0 = u64_to_be(r.start);
        let f1 = f0 + u64_to_be(r.end);
        let f2 = f1 + u64_to_be(r.size);
        let f3 = f2 + seq![r.permissions];
        let f4 = f3 + u64_to_be(r.offset);
        let f5 = f4 + spec_write_string(r.device);
        let f6 = f5 + u64_to_be(r.inode);
        lemma_split(data, at, f6, spec_write_string(r.pathname));
        lemma_split(data, at, f5, u64_to_be(r.inode));
        lemma_split(data, at, f4, spec_write_string(r.device));
        lemma_split(data, at, f3, u64_to_be(r.offset));
        lemma_split(data, at, f2, seq![r.permissions]);
        lemma_split(data, at, f1, u64_to_be(r.size));
        lemma_split(data, at, f0, u64_to_be(r.end));
        assert(data.subrange(at + 24, at + 25)[0] == r.permissions);
        lemma_string_round_trip(data, at + 33, r.device);
        lemma_string_round_trip(data, at + 45 + r.device.len(), r.pathname);
    }
}

/// Appends the wire form of every region of `regions`, in order.
pub fn write_regions(regions: &Vec<Region>, out: &mut Vec<u8>)
    requires
        forall|i: int| 0 <= i < regions@.len() ==> (#[trigger] regions@[i]).well_formed(),
    ensures
        final(out)@ == old(out)@ + spec_write_regions(region_views(regions@)),
{
    let mut i: usize = 0;
    assert(region_views(regions@).take(0).len() == 0);
    while i < regions.len()
        invariant
            i <= regions.len(),
            forall|i: int| 0 <= i < regions@.len() ==> (#[trigger] regions@[i]).well_formed(),
            out@ == old(out)@ + spec_write_regions(region_views(regions@).take(i as int)),
        decreases regions.len() - i,
    {
        let ghost before = region_views(regions@).take(i as int);
        let ghost after = region_views(regions@).take(i + 1);
        assert(after.drop_last() == before);
        assert(after.last() == regions@[i as int]@);
        regions[i].write(out);
        assert(out@ == old(out)@ + (spec_write_regions(before) + Region::spec_write(
            regions@[i as int]@,
        )));
        i += 1;
    }
    assert(region_views(regions@).take(i as int) == region_views(regions@));
}

/// Reads `count` regions that start at `at`; with them comes the position after them.
pub fn read_regions(data: &[u8], at: usize, count: u32) -> (out: Result<
    (Vec<Region>, usize),
    PacketError,
>)
    requires
        at <= data.len(),
    ensures
        match out {
            Ok((regions, next)) => {
                &&& next <= data.len()
                &&& regions@.len() == count
                &&& forall|i: int| 0 <= i < regions@.len() ==> (#[trigger] regions@[i]).well_formed()
                &&& spec_read_regions(data@, at as int, count as nat) == Ok::<
                    (Seq<RegionView>, int),
                    PacketFault,
                >((region_views(regions@), next as int))
            },
            Err(e) => spec_read_regions(data@, at as int, count as nat) == Err::<
                (Seq<RegionView>, int),
                PacketFault,
            >(e@),
        },
{
    let mut regions: Vec<Region> = Vec::new();
    let mut pos: usize = at;
    let mut i: u32 = 0;
    assert(region_views(regions@) + Seq::<RegionView>::empty() == region_views(regions@));
    assert(forall|more: Seq<RegionView>| Seq::<RegionView>::empty() + more == more);
    while i < count
        invariant
            i <= count,
            pos <= data.len(),
            regions@.len() == i,
            forall|i: int| 0 <= i < regions@.len() ==> (#[trigger] regions@[i]).well_formed(),
            spec_read_regions(data@, at as int, count as nat) == spec_after_regions(
                region_views(regions@),
                spec_read_regions(data@, pos as int, (count - i) as nat),
            ),
        decreases count - i,
    {
        match Region::read(data, pos) {
            Err(e) => {
                return Err(e);
            },
            Ok((region, next)) => {
                proof {
                    let done = region_views(regions@);
                    let tail = spec_read_regions(data@, next as int, (count - i - 1) as nat);
                    assert(region_views(regions@.push(region)) == done.push(region@));
                    match tail {
                        Ok((more, end)) => {
                            assert(done + (seq![region@] + more) == done.push(region@) + more);
                        },
                        Err(e) => {},
                    }
                }
                regions.push(region);
                pos = next;
                i += 1;
            },
        }
    }
    assert(region_views(regions@) + Seq::<RegionView>::empty() == region_views(regions@));
    Ok((regions, pos))
}

/// The response to a `TargetPID` request: the regions of the process now bound.
#[derive(Debug, PartialEq, Eq, Clone)]
pub struct RequestPidRegionsPacketResponse {
    pub _type: PacketType,
    pub count: u32,
    pub regions: Vec<Region>,
}

impl View for RequestPidRegionsPacketResponse {
    type V = Seq<RegionView>;

    /// The regions, in order.
    open spec fn view(&self) -> Seq<RegionView> {
        region_views(self.regions@)
    }
}

impl RequestPidRegionsPacketResponse {
    pub open spec fn well_formed(&self) -> bool {
        &&& self._type == PacketType::TargetPID
        &&& self.count == self.regions@.len()
        &&& forall|i: int|
            0 <= i < self.regions@.len() ==> (#[trigger] self.regions@[i]).well_formed()
    }

    /// The frame before compression: tag, count, regions.
    pub open spec fn spec_serialize_frame(regions: Seq<RegionView>) -> Seq<u8> {
        seq![PacketType::TargetPID.tag()] + u32_to_be(regions.len() as u32) + spec_write_regions(
            regions,
        )
    }

    /// The regions of the uncompressed frame in `data`.
    pub open spec fn spec_deserialize_frame(data: Seq<u8>) -> Result<
        Seq<RegionView>,
        PacketFault,
    > {
        match spec_expect(data, PacketType::TargetPID) {
            Err(e) => Err(e),
            Ok(_) => if data.len() < 5 {
                Err(PacketFault::Truncated)
            } else {
                match spec_read_regions(data, 5, u32_of_be(data.subrange(1, 5)) as nat) {
                    Err(e) => Err(e),
                    Ok((regions, _)) => Ok(regions),
                }
            },
        }
    }

    /// What is sent: the frame, compressed.
    pub open spec fn spec_serialize(regions: Seq<RegionView>) -> Seq<u8> {
        lz4_frame(Self::spec_serialize_frame(regions), COMPRESSION_LEVEL)
    }

    /// The regions of the compressed frame in `data`.
    pub open spec fn spec_deserialize(data: Seq<u8>) -> Result<Seq<RegionView>, PacketFault> {
        match lz4_unframe(data) {
            None => Err(PacketFault::Compression),
            Some(frame) => Self::spec_deserialize_frame(frame),
        }
    }

    /// Decodes an uncompressed frame.
    pub fn deserialize_frame(data: &[u8]) -> (out: Result<Self, PacketError>)
        ensures
            decoded(out) == Self::spec_deserialize_frame(data@),
            out matches Ok(packet) ==> packet.well_formed(),
    {
        match expect(data, PacketType::TargetPID) {
            Err(e) => Err(e),
            Ok(_) => {
                if data.len() < 5 {
                    return Err(PacketError::Truncated);
                }
                let count = get_u32(data, 1);
                match read_regions(data, 5, count) {
                    Err(e) => Err(e),
                    Ok((regions, _)) => Ok(
                        RequestPidRegionsPacketResponse {
                            _type: PacketType::TargetPID,
                            count,
                            regions,
                        },
                    ),
                }
            },
        }
    }

    /// Encodes the frame without compressing it.
    pub fn serialize_frame(regions: Vec<Region>) -> (out: Vec<u8>)
        requires
            regions@.len() <= u32::MAX,
            forall|i: int| 0 <= i < regions@.len() ==> (#[trigger] regions@[i]).well_formed(),
        ensures
            out@ == Self::spec_serialize_frame(region_views(regions@)),
            out@[0] == PacketType::TargetPID.tag(),
    {
        let object = RequestPidRegionsPacketResponse {
            _type: PacketType::TargetPID,
            count: regions.len() as u32,
            regions,
        };
        let mut out: Vec<u8> = Vec::new();
        out.push(object._type.to_u8());
        put_u32(&mut out, object.count);
        write_regions(&object.regions, &mut out);
        out
    }

    pub fn deserialize(data: &[u8]) -> (out: Result<Self, PacketError>)
        ensures
            decoded(out) == Self::spec_deserialize(data@),
            out matches Ok(packet) ==> packet.well_formed(),
    {
        match decompress(data) {
            None => Err(PacketError::Compression),
            Some(decompressed_data) => Self::deserialize_frame(decompressed_data.as_slice()),
        }
    }

    /// What comes out is the compressed frame. It decodes to the regions that went in, and
    /// it is no frame of this type until it has been decompressed.
    pub fn serialize(regions: Vec<Region>) -> (out: Vec<u8>)
        requires
            regions@.len() <= u32::MAX,
            forall|i: int| 0 <= i < regions@.len() ==> (#[trigger] regions@[i]).well_formed(),
        ensures
            out@ == Self::spec_serialize(region_views(regions@)),
            lz4_unframe(out@) == Some(Self::spec_serialize_frame(region_views(regions@))),
            Self::spec_deserialize(out@) == Ok::<Seq<RegionView>, PacketFault>(
                region_views(regions@),
            ),
            Self::spec_deserialize_frame(out@) == Err::<Seq<RegionView>, PacketFault>(
                PacketFault::IncorrectPacketType,
            ),
    {
        let ghost views = region_views(regions@);
        let frame = Self::serialize_frame(regions);
        let out = compress(frame.as_slice());
        proof {
            assert forall|i: int| 0 <= i < views.len() implies (#[trigger] views[i]).encodable() by {
                assert(regions@[i].well_formed());
            }
            Self::lemma_round_trip(views);
            assert(out@[0] == out@.subrange(0, 4)[0]);
        }
        out
    }

    /// An uncompressed frame decodes to the regions that were put into it.
    pub proof fn lemma_round_trip(regions: Seq<RegionView>)
        requires
            regions.len() <= u32::MAX,
            forall|i: int| 0 <= i < regions.len() ==> (#[trigger] regions[i]).encodable(),
        ensures
            Self::spec_serialize_frame(regions)[0] == PacketType::TargetPID.tag(),
            Self::spec_deserialize_frame(Self::spec_serialize_frame(regions)) == Ok::<
                Seq<RegionView>,
                PacketFault,
            >(regions),
    {
        let data = Self::spec_serialize_frame(regions);
        let head = seq![PacketType::TargetPID.tag()] + u32_to_be(regions.len() as u32);
        lemma_u32_be(regions.len() as u32);
        assert(data.subrange(0, 5 + spec_write_regions(regions).len() as int) == data);
        lemma_split(data, 0, head, spec_write_regions(regions));
        lemma_split(data, 0, seq![PacketType::TargetPID.tag()], u32_to_be(regions.len() as u32));
        lemma_regions_round_trip(data, 5, regions);
    }

    /// An error frame in place of this frame gives a failure that carries the message of
    /// the error frame: for the frame as it is, and for whatever decompresses to it.
    pub proof fn lemma_error_substitution(text: Seq<char>, wire: Seq<u8>)
        requires
            encode_utf8(text).len() <= u32::MAX,
        ensures
            Self::spec_deserialize_frame(ErrorPacket::spec_serialize(encode_utf8(text))) == Err::<
                Seq<RegionView>,
                PacketFault,
            >(PacketFault::Remote(text)),
            lz4_unframe(wire) == Some(ErrorPacket::spec_serialize(encode_utf8(text)))
                ==> Self::spec_deserialize(wire) == Err::<Seq<RegionView>, PacketFault>(
                PacketFault::Remote(text),
            ),
    {
        ErrorPacket::lemma_substitution(text, PacketType::TargetPID);
    }
}

} // verus!
