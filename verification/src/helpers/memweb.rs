//! The two lists, seen from the client: each function takes the bytes of a compressed
//! response and gives the list that the response carries.

use crate::protocol::{
    process_views, region_views, PacketError, PacketFault, ProcessEntry, ProcessEntryView, Region,
    RegionView, RequestPidRegionsPacketResponse, RequestProcessesPacketResponse,
};
use vstd::prelude::*;

verus! {

/// The processes that a process-list response carries.
pub fn get_processes(response: &[u8]) -> (out: Result<Vec<ProcessEntry>, PacketError>)
    ensures
        match out {
            Ok(processes) => {
                &&& RequestProcessesPacketResponse::spec_deserialize(response@) == Ok::<
                    Seq<ProcessEntryView>,
                    PacketFault,
                >(process_views(processes@))
                &&& forall|i: int|
                    0 <= i < processes@.len() ==> (#[trigger] processes@[i]).well_formed()
            },
            Err(e) => RequestProcessesPacketResponse::spec_deserialize(response@) == Err::<
                Seq<ProcessEntryView>,
                PacketFault,
            >(e@),
        },
{
    match RequestProcessesPacketResponse::deserialize(response) {
        Ok(processes) => Ok(processes.processes),
        Err(e) => Err(e),
    }
}

/// The regions that a region-list response carries.
pub fn get_regions(response: &[u8]) -> (out: Result<Vec<Region>, PacketError>)
    ensures
        match out {
            Ok(regions) => {
                &&& RequestPidRegionsPacketResponse::spec_deserialize(response@) == Ok::<
                    Seq<RegionView>,
                    PacketFault,
                >(region_views(regions@))
                &&& forall|i: int| 0 <= i < regions@.len() ==> (#[trigger] regions@[i]).well_formed()
            },
            Err(e) => RequestPidRegionsPacketResponse::spec_deserialize(response@) == Err::<
                Seq<RegionView>,
                PacketFault,
            >(e@),
        },
{
    match RequestPidRegionsPacketResponse::deserialize(response) {
        Ok(regions) => Ok(regions.regions),
        Err(e) => Err(e),
    }
}

} // verus!
