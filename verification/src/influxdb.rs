//! The data points that a metrics store gets for the results of a cycle.

use crate::probe_result::{ProbeResult, ResultModel};
use vstd::prelude::*;
use vstd::string::StringExecFns;

verus! {

/// The delay that is recorded for a dead proxy, in milliseconds.
pub const DEAD_DELAY_MS: u64 = 99999;

/// One point of the measurement `probe`: the tags `name`, `protocol` and
/// `node`, the fields `alive` and `delay_ms`, and the time of the upload.
#[derive(Debug, Clone, PartialEq, Eq)]
pub struct MetricPoint {
    pub name: String,
    pub protocol: String,
    pub node: String,
    pub alive: bool,
    pub delay_ms: u64,
    pub timestamp: i64,
}

/// The mathematical model of a [`MetricPoint`].
pub struct PointModel {
    pub name: Seq<char>,
    pub protocol: Seq<char>,
    pub node: Seq<char>,
    pub alive: bool,
    pub delay_ms: u64,
    pub timestamp: i64,
}

impl View for MetricPoint {
    type V = PointModel;

    open spec fn view(&self) -> PointModel {
        PointModel {
            name: self.name@,
            protocol: self.protocol@,
            node: self.node@,
            alive: self.alive,
            delay_ms: self.delay_ms,
            timestamp: self.timestamp,
        }
    }
}

/// The point for one result: a live proxy is recorded with its delay, a dead
/// one with the fixed delay of dead proxies.
pub open spec fn point_of(r: ResultModel, node: Seq<char>, timestamp: i64) -> PointModel {
    PointModel {
        name: r.name,
        protocol: r.protocol,
        node: node,
        alive: r.alive,
        delay_ms: match r.delay_ms {
            Some(d) => if r.alive {
                d
            } else {
                DEAD_DELAY_MS
            },
            None => DEAD_DELAY_MS,
        },
        timestamp: timestamp,
    }
}

/// The models of a list of points.
pub open spec fn points_model(points: Seq<MetricPoint>) -> Seq<PointModel> {
    Seq::new(points.len(), |i: int| points[i]@)
}

/// One point for each result, in the order of the results, all with the same
/// node and time.
pub fn metric_points(results: &Vec<ProbeResult>, node_name: &str, timestamp: i64) -> (r: Vec<
    MetricPoint,
>)
    ensures
        points_model(r@) == Seq::new(
            results@.len(),
            |i: int| point_of(results@[i]@, node_name@, timestamp),
        ),
{
    let mut points: Vec<MetricPoint> = Vec::new();
    let mut i: usize = 0;
    while i < results.len()
        invariant
            i <= results@.len(),
            points@.len() == i,
            forall|j: int|
                0 <= j < i ==> (#[trigger] points@[j])@ == point_of(
                    results@[j]@,
                    node_name@,
                    timestamp,
                ),
        decreases results@.len() - i,
    {
        let result = &results[i];
        let delay_ms = match result.delay_ms {
            Some(d) => if result.alive {
                d
            } else {
                DEAD_DELAY_MS
            },
            None => DEAD_DELAY_MS,
        };
        points.push(
            MetricPoint {
                name: result.name.clone(),
                protocol: result.protocol.clone(),
                node: String::from_str(node_name),
                alive: result.alive,
                delay_ms,
                timestamp,
            },
        );
        i = i + 1;
    }
    assert(points_model(points@) =~= Seq::new(
        results@.len(),
        |i: int| point_of(results@[i]@, node_name@, timestamp),
    ));
    points
}

} // verus!
