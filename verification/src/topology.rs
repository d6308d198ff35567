//! The library's own model of the externally obtained topology snapshot:
//! a pool, its vdevs, and their disks, each carrying health and error state
//! that the flat diagnostic listing lacks.

use vstd::prelude::*;

verus! {

/// Operational state of a pool, vdev or disk.
#[derive(Debug, PartialEq, Eq, Structural, Clone, Copy)]
pub enum Health {
    Online,
    Degraded,
    Faulted,
    Offline,
    Available,
    Unavailable,
    Removed,
}

/// I/O error counters of one pool, vdev or disk.
#[derive(Debug, PartialEq, Eq, Structural, Clone, Copy)]
pub struct ErrorStats {
    pub read: u64,
    pub write: u64,
    pub checksum: u64,
}

/// One disk of the topology snapshot, identified by a path-like string.
#[derive(Debug, PartialEq, Eq)]
pub struct DiskTopology {
    pub path: String,
    pub health: Health,
    pub error_stats: ErrorStats,
}

/// The mathematical value of a `DiskTopology`.
pub struct DiskTopologyV {
    pub path: Seq<char>,
    pub health: Health,
    pub error_stats: ErrorStats,
}

impl View for DiskTopology {
    type V = DiskTopologyV;

    open spec fn view(&self) -> DiskTopologyV {
        DiskTopologyV { path: self.path@, health: self.health, error_stats: self.error_stats }
    }
}

/// One vdev of the topology snapshot.
#[derive(Debug, PartialEq, Eq)]
pub struct VdevTopology {
    pub disks: Vec<DiskTopology>,
    pub error_stats: ErrorStats,
}

/// The mathematical value of a `VdevTopology`.
pub struct VdevTopologyV {
    pub disks: Seq<DiskTopologyV>,
    pub error_stats: ErrorStats,
}

impl View for VdevTopology {
    type V = VdevTopologyV;

    open spec fn view(&self) -> VdevTopologyV {
        VdevTopologyV {
            disks: self.disks@.map_values(|d: DiskTopology| d@),
            error_stats: self.error_stats,
        }
    }
}

/// The topology snapshot of one pool.
#[derive(Debug, PartialEq, Eq)]
pub struct PoolTopology {
    pub name: String,
    pub health: Health,
    pub error_stats: ErrorStats,
    pub vdevs: Vec<VdevTopology>,
}

/// The mathematical value of a `PoolTopology`.
pub struct PoolTopologyV {
    pub name: Seq<char>,
    pub health: Health,
    pub error_stats: ErrorStats,
    pub vdevs: Seq<VdevTopologyV>,
}

impl View for PoolTopology {
    type V = PoolTopologyV;

    open spec fn view(&self) -> PoolTopologyV {
        PoolTopologyV {
            name: self.name@,
            health: self.health,
            error_stats: self.error_stats,
            vdevs: self.vdevs@.map_values(|v: VdevTopology| v@),
        }
    }
}

} // verus!
