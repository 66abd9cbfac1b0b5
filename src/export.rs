//! Conversion of a tick's batch into write points for the time-series sink.

use vstd::prelude::*;
use crate::address::HardwareAddress;
use crate::decode::Measurements;
use crate::poll::{SensorReading, ReadingView};

verus! {

/// One point of a batched write: the measurement name, the tags `name` and `mac`,
/// the fields of one reading and its collection time.
#[derive(Clone, Debug)]
pub struct WritePoint {
    pub measurement: String,
    pub name: String,
    pub address: HardwareAddress,
    pub fields: Measurements,
    pub collected_at_ms: u64,
}

pub struct PointView {
    pub measurement: Seq<char>,
    pub name: Seq<char>,
    pub address: Seq<u8>,
    pub fields: Measurements,
    pub collected_at_ms: u64,
}

impl View for WritePoint {
    type V = PointView;

    open spec fn view(&self) -> PointView {
        PointView {
            measurement: self.measurement@,
            name: self.name@,
            address: self.address.octets@,
            fields: self.fields,
            collected_at_ms: self.collected_at_ms,
        }
    }
}

/// The point that a reading becomes under `measurement`.
pub open spec fn point_of(measurement: Seq<char>, r: ReadingView) -> PointView {
    PointView {
        measurement,
        name: r.name,
        address: r.address,
        fields: r.measurements,
        collected_at_ms: r.collected_at_ms,
    }
}

/// The points of one batch, one per reading and in the batch's order.
pub fn to_points(measurement: &String, readings: &Vec<SensorReading>) -> (r: Vec<WritePoint>)
    ensures
        r@.len() == readings@.len(),
        forall|k: int| 0 <= k < r@.len() ==> r@[k]@ == point_of(measurement@, readings@[k]@),
{
    let mut points: Vec<WritePoint> = Vec::new();
    let mut i: usize = 0;
    while i < readings.len()
        invariant
            0 <= i <= readings@.len(),
            points@.len() == i,
            forall|k: int| 0 <= k < i ==> points@[k]@ == point_of(measurement@, readings@[k]@),
        decreases readings@.len() - i,
    {
        let reading = &readings[i];
        points.push(
            WritePoint {
                measurement: measurement.clone(),
                name: reading.source_name.clone(),
                address: reading.source_address,
                fields: reading.measurements,
                collected_at_ms: reading.collected_at_ms,
            },
        );
        i = i + 1;
    }
    points
}

} // verus!
