//! One scrape cycle for one pool: parse the flat listing, reconstruct the
//! hierarchy, correlate it with the topology snapshot, and build the metric
//! families — or fail as a whole, so that no half-built metric set is ever
//! emitted.

use vstd::prelude::*;

use crate::correlate::{correlate, correlate_seq};
use crate::device::{devices_of, scrape_ok, Device, ParseError};
use crate::metrics::{build_all_metrics, groups_of_entities, groups_view, MetricGroup, MetricGroupV};
use crate::reconstruct::{reconstruct, reconstruct_spec};
use crate::topology::{PoolTopology, PoolTopologyV};

verus! {

/// The metric families one scrape of one pool denotes: the listing's rows
/// parsed, reconstructed against the pool's name, correlated with the
/// snapshot, and expanded into metric families.
pub open spec fn scrape_groups(s: Seq<char>, topo: PoolTopologyV) -> Seq<MetricGroupV> {
    groups_of_entities(
        correlate_seq(reconstruct_spec(devices_of(s), topo.name), topo, None),
    )
}

/// Runs one scrape cycle over the raw listing text and the topology
/// snapshot. A numeric parse failure anywhere in the listing fails the
/// whole cycle and emits nothing; otherwise every metric family of the
/// pool's entity set is returned.
pub fn scrape_pool(stdout: String, topo: &PoolTopology) -> (r: Result<Vec<MetricGroup>, ParseError>)
    ensures
        r matches Ok(groups) ==> scrape_ok(stdout@) && groups_view(groups@) == scrape_groups(
            stdout@,
            topo@,
        ),
        r is Err ==> !scrape_ok(stdout@) && r == Err::<Vec<MetricGroup>, ParseError>(
            ParseError::NumericParseFailure,
        ),
{
    let devices = match Device::parse_from_stdout(stdout) {
        Ok(devices) => devices,
        Err(e) => {
            return Err(e);
        },
    };
    let entities = reconstruct(&devices, &topo.name);
    let enriched = correlate(&entities, topo);
    Ok(build_all_metrics(&enriched))
}

} // verus!
