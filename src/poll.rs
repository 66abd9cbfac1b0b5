//! One poll tick: the reads of the subscribed devices become a batch of readings,
//! and each device's descriptor records how its read went.

use vstd::prelude::*;
use crate::address::HardwareAddress;
use crate::decode::{decode, decoded, Measurements, FRAME_BYTES};
use crate::registry::{
    DeviceRegistry, DeviceEvent, DeviceState, DescriptorView, TransportError, keys_unique, step,
};

verus! {

/// The most device reads a tick has in flight at once.
pub const MAX_CONCURRENT_READS: usize = 8;

/// One decoded reading, tagged with its source and the collector's time.
#[derive(Clone, Debug)]
pub struct SensorReading {
    pub source_name: String,
    pub source_address: HardwareAddress,
    pub measurements: Measurements,
    pub collected_at_ms: u64,
}

pub struct ReadingView {
    pub name: Seq<char>,
    pub address: Seq<u8>,
    pub measurements: Measurements,
    pub collected_at_ms: u64,
}

impl View for SensorReading {
    type V = ReadingView;

    open spec fn view(&self) -> ReadingView {
        ReadingView {
            name: self.source_name@,
            address: self.source_address.octets@,
            measurements: self.measurements,
            collected_at_ms: self.collected_at_ms,
        }
    }
}

/// What the transport returned for one device's read request.
pub struct DeviceRead {
    pub device: usize,
    pub payload: Result<Vec<u8>, TransportError>,
}

/// The event that a read's result makes for its device.
pub open spec fn read_event(payload: Result<Vec<u8>, TransportError>) -> DeviceEvent {
    match payload {
        Ok(bytes) => if bytes@.len() >= FRAME_BYTES {
            DeviceEvent::ReadSucceeded
        } else {
            DeviceEvent::DecodeFailed
        },
        Err(e) => DeviceEvent::TransportFailed(e),
    }
}

/// The descriptors and the batch after the reads in `reads`, taken in order. A read for
/// a device that is not `Subscribed` when it is taken changes nothing.
pub open spec fn tick_outcome(devices: Seq<DescriptorView>, reads: Seq<DeviceRead>, now_ms: u64) -> (
    Seq<DescriptorView>,
    Seq<ReadingView>,
)
    decreases reads.len(),
{
    if reads.len() == 0 {
        (devices, Seq::empty())
    } else {
        let (before, batch) = tick_outcome(devices, reads.drop_last(), now_ms);
        let read = reads.last();
        let i = read.device as int;
        if i < before.len() && before[i].state == DeviceState::Subscribed {
            let after = before.update(i, step(before[i], read_event(read.payload), now_ms));
            match read.payload {
                Ok(bytes) => if bytes@.len() >= FRAME_BYTES {
                    (
                        after,
                        batch.push(
                            ReadingView {
                                name: before[i].name,
                                address: before[i].address,
                                measurements: decoded(bytes@),
                                collected_at_ms: now_ms,
                            },
                        ),
                    )
                } else {
                    (after, batch)
                },
                Err(_) => (after, batch),
            }
        } else {
            (before, batch)
        }
    }
}

/// Takes one tick's reads: each read of a `Subscribed` device that decodes joins the
/// batch; a failed read or decode is recorded on its own device only and is left out.
pub fn collect_readings(registry: &mut DeviceRegistry, reads: &Vec<DeviceRead>, now_ms: u64) -> (r:
    Vec<SensorReading>)
    requires
        old(registry).wf(),
    ensures
        final(registry).wf(),
        (final(registry)@, r@.map_values(|x: SensorReading| x@)) == tick_outcome(
            old(registry)@,
            reads@,
            now_ms,
        ),
{
    let mut batch: Vec<SensorReading> = Vec::new();
    let mut i: usize = 0;
    proof {
        assert(reads@.take(0) =~= Seq::<DeviceRead>::empty());
        assert(batch@.map_values(|x: SensorReading| x@) =~= Seq::<ReadingView>::empty());
    }
    while i < reads.len()
        invariant
            registry.wf(),
            0 <= i <= reads@.len(),
            (registry@, batch@.map_values(|x: SensorReading| x@)) == tick_outcome(
                old(registry)@,
                reads@.take(i as int),
                now_ms,
            ),
        decreases reads@.len() - i,
    {
        let ghost batch_before = batch@;
        proof {
            assert(reads@.take(i + 1).drop_last() =~= reads@.take(i as int));
            assert(reads@.take(i + 1).last() == reads@[i as int]);
        }
        let read = &reads[i];
        let d = read.device;
        if d < registry.len() && registry.get(d).state == DeviceState::Subscribed {
            match &read.payload {
                Ok(bytes) => {
                    match decode(bytes.as_slice()) {
                        Ok(m) => {
                            let reading = SensorReading {
                                source_name: registry.get(d).name.clone(),
                                source_address: registry.get(d).address,
                                measurements: m,
                                collected_at_ms: now_ms,
                            };
                            registry.apply(d, DeviceEvent::ReadSucceeded, now_ms);
                            batch.push(reading);
                            proof {
                                assert(batch@.map_values(|x: SensorReading| x@) =~= batch_before.map_values(
                                    |x: SensorReading| x@,
                                ).push(reading@));
                            }
                        },
                        Err(_) => {
                            registry.apply(d, DeviceEvent::DecodeFailed, now_ms);
                        },
                    }
                },
                Err(e) => {
                    registry.apply(d, DeviceEvent::TransportFailed(*e), now_ms);
                },
            }
        }
        i = i + 1;
    }
    proof {
        assert(reads@.take(reads@.len() as int) =~= reads@);
    }
    batch
}

/// A tick changes only the descriptors of devices it read: a failed read of one
/// device never touches another's descriptor.
pub proof fn tick_touches_only_read_devices(
    devices: Seq<DescriptorView>,
    reads: Seq<DeviceRead>,
    now_ms: u64,
    j: int,
)
    requires
        0 <= j < devices.len(),
        forall|k: int| 0 <= k < reads.len() ==> reads[k].device as int != j,
    ensures
        tick_outcome(devices, reads, now_ms).0.len() == devices.len(),
        tick_outcome(devices, reads, now_ms).0[j] == devices[j],
    decreases reads.len(),
{
    if reads.len() > 0 {
        tick_touches_only_read_devices(devices, reads.drop_last(), now_ms, j);
    }
}

proof fn lemma_tick_keeps_keys(devices: Seq<DescriptorView>, reads: Seq<DeviceRead>, now_ms: u64)
    ensures
        tick_outcome(devices, reads, now_ms).0.len() == devices.len(),
        forall|k: int|
            0 <= k < devices.len() ==> (#[trigger] tick_outcome(devices, reads, now_ms).0[k]).name
                == devices[k].name,
    decreases reads.len(),
{
    if reads.len() > 0 {
        lemma_tick_keeps_keys(devices, reads.drop_last(), now_ms);
    }
}

/// A reading collected at `now_ms` from one of `reads` that returned a full payload for
/// a configured device.
pub open spec fn from_this_tick(
    e: ReadingView,
    devices: Seq<DescriptorView>,
    reads: Seq<DeviceRead>,
    now_ms: u64,
) -> bool {
    &&& e.collected_at_ms == now_ms
    &&& exists|k: int|
        0 <= k < reads.len() && (reads[k].device as int) < devices.len() && read_event(
            #[trigger] reads[k].payload,
        ) == DeviceEvent::ReadSucceeded && e.name == devices[reads[k].device as int].name
}

/// Every reading of a tick's batch comes from that tick's own reads and time: nothing
/// is carried over from an earlier tick.
pub proof fn batch_holds_only_this_tick(devices: Seq<DescriptorView>, reads: Seq<DeviceRead>, now_ms: u64)
    ensures
        tick_outcome(devices, reads, now_ms).1.len() <= reads.len(),
        forall|m: int|
            0 <= m < tick_outcome(devices, reads, now_ms).1.len() ==> from_this_tick(
                #[trigger] tick_outcome(devices, reads, now_ms).1[m],
                devices,
                reads,
                now_ms,
            ),
    decreases reads.len(),
{
    if reads.len() > 0 {
        let prev = reads.drop_last();
        batch_holds_only_this_tick(devices, prev, now_ms);
        lemma_tick_keeps_keys(devices, prev, now_ms);
        let n = reads.len() - 1;
        let batch = tick_outcome(devices, prev, now_ms).1;
        let out = tick_outcome(devices, reads, now_ms).1;
        assert forall|m: int| 0 <= m < out.len() implies from_this_tick(
            #[trigger] out[m],
            devices,
            reads,
            now_ms,
        ) by {
            if m < batch.len() {
                assert(out[m] == batch[m]);
                assert(from_this_tick(batch[m], devices, prev, now_ms));
                let k = choose|k: int|
                    0 <= k < prev.len() && (prev[k].device as int) < devices.len() && read_event(
                        #[trigger] prev[k].payload,
                    ) == DeviceEvent::ReadSucceeded && batch[m].name
                        == devices[prev[k].device as int].name;
                assert(prev[k] == reads[k]);
            } else {
                let i = reads[n].device as int;
                assert(tick_outcome(devices, prev, now_ms).0[i].name == devices[i].name);
                assert(read_event(reads[n].payload) == DeviceEvent::ReadSucceeded);
            }
        }
    }
}

/// A device none of whose reads in a tick returned a full payload has no reading in
/// that tick's batch, whatever happened to the other devices.
pub proof fn failed_reads_left_out(
    devices: Seq<DescriptorView>,
    reads: Seq<DeviceRead>,
    now_ms: u64,
    a: int,
)
    requires
        keys_unique(devices),
        0 <= a < devices.len(),
        forall|k: int|
            0 <= k < reads.len() && reads[k].device as int == a ==> read_event(
                #[trigger] reads[k].payload,
            ) != DeviceEvent::ReadSucceeded,
    ensures
        forall|m: int|
            0 <= m < tick_outcome(devices, reads, now_ms).1.len() ==> (#[trigger] tick_outcome(
                devices,
                reads,
                now_ms,
            ).1[m]).name != devices[a].name,
{
    batch_holds_only_this_tick(devices, reads, now_ms);
    let out = tick_outcome(devices, reads, now_ms).1;
    assert forall|m: int| 0 <= m < out.len() implies (#[trigger] out[m]).name != devices[a].name by {
        assert(from_this_tick(out[m], devices, reads, now_ms));
        let k = choose|k: int|
            0 <= k < reads.len() && (reads[k].device as int) < devices.len()
                && read_event(#[trigger] reads[k].payload) == DeviceEvent::ReadSucceeded
                && out[m].name == devices[reads[k].device as int].name;
        assert(reads[k].device as int != a);
    }
}

/// With no device `Subscribed`, a tick leaves every descriptor as it was and yields an
/// empty batch.
pub proof fn no_subscribed_devices_empty_batch(
    devices: Seq<DescriptorView>,
    reads: Seq<DeviceRead>,
    now_ms: u64,
)
    requires
        forall|k: int| 0 <= k < devices.len() ==> devices[k].state != DeviceState::Subscribed,
    ensures
        tick_outcome(devices, reads, now_ms).0 == devices,
        tick_outcome(devices, reads, now_ms).1.len() == 0,
    decreases reads.len(),
{
    if reads.len() > 0 {
        no_subscribed_devices_empty_batch(devices, reads.drop_last(), now_ms);
    }
}

} // verus!
