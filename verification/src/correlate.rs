//! Enriches reconstructed entities with the health and error state of the
//! separately obtained topology snapshot: disks by best-effort substring
//! match over all topology disks, vdevs positionally through the topology
//! vdev that supplied the most recently matched disk, pools directly.

use vstd::prelude::*;
use vstd::string::*;

use crate::reconstruct::{ents_view, Entity, EntityKind, EntityV};
use crate::text::{seq_contains, str_contains};
use crate::topology::{DiskTopology, DiskTopologyV, PoolTopology, PoolTopologyV, VdevTopologyV};

verus! {

/// The first disk of the list whose path contains `name`, if any.
pub open spec fn match_in_disks(disks: Seq<DiskTopologyV>, name: Seq<char>) -> Option<int>
    decreases disks.len(),
{
    if disks.len() == 0 {
        None
    } else if seq_contains(disks[0].path, name) {
        Some(0int)
    } else {
        match match_in_disks(disks.drop_first(), name) {
            Some(j) => Some(j + 1),
            None => None,
        }
    }
}

/// The first disk over all vdevs, scanned vdev by vdev in order, whose path
/// contains `name`: the pair of vdev index and disk index, if any.
pub open spec fn match_in_vdevs(vdevs: Seq<VdevTopologyV>, name: Seq<char>) -> Option<(int, int)>
    decreases vdevs.len(),
{
    if vdevs.len() == 0 {
        None
    } else {
        match match_in_disks(vdevs[0].disks, name) {
            Some(j) => Some((0int, j)),
            None => match match_in_vdevs(vdevs.drop_first(), name) {
                Some((v, j)) => Some((v + 1, j)),
                None => None,
            },
        }
    }
}

/// One pass over the remaining entities: a pool takes the snapshot's
/// pool-level state, a matched disk takes its matching disk's state and
/// leaves its topology vdev open, and a vdev takes the error counters of
/// the topology vdev left open by the disk matched most recently before it.
pub open spec fn correlate_seq(
    ents: Seq<EntityV>,
    topo: PoolTopologyV,
    cur: Option<int>,
) -> Seq<EntityV>
    decreases ents.len(),
{
    if ents.len() == 0 {
        Seq::<EntityV>::empty()
    } else {
        let e = ents[0];
        let rest = ents.drop_first();
        match e.kind {
            EntityKind::Pool => seq![
                EntityV { health: Some(topo.health), error_stats: Some(topo.error_stats), ..e },
            ] + correlate_seq(rest, topo, cur),
            EntityKind::Vdev => {
                let enriched = match cur {
                    Some(v) => EntityV { error_stats: Some(topo.vdevs[v].error_stats), ..e },
                    None => e,
                };
                seq![enriched] + correlate_seq(rest, topo, None)
            },
            EntityKind::Disk => match match_in_vdevs(topo.vdevs, e.name) {
                Some((v, j)) => seq![
                    EntityV {
                        health: Some(topo.vdevs[v].disks[j].health),
                        error_stats: Some(topo.vdevs[v].disks[j].error_stats),
                        ..e
                    },
                ] + correlate_seq(rest, topo, Some(v)),
                None => seq![e] + correlate_seq(rest, topo, cur),
            },
        }
    }
}

/// `m` with `off` added to a disk index.
spec fn shift_disk_match(m: Option<int>, off: int) -> Option<int> {
    match m {
        Some(j) => Some(j + off),
        None => None,
    }
}

/// `m` with `off` added to the vdev index.
spec fn shift_vdev_match(m: Option<(int, int)>, off: int) -> Option<(int, int)> {
    match m {
        Some((v, j)) => Some((v + off, j)),
        None => None,
    }
}

/// Scans one vdev's disks for the first whose path contains `name`.
fn find_in_vdev_disks(disks: &Vec<DiskTopology>, name: &String) -> (r: Option<usize>)
    ensures
        match r {
            Some(j) => j < disks@.len() && match_in_disks(
                disks@.map_values(|d: DiskTopology| d@),
                name@,
            ) == Some(j as int),
            None => match_in_disks(
                disks@.map_values(|d: DiskTopology| d@),
                name@,
            ) is None,
        },
{
    let ghost dv = disks@.map_values(|d: DiskTopology| d@);
    let m = disks.len();
    let mut j: usize = 0;
    proof {
        assert(dv.subrange(0, m as int) =~= dv);
    }
    while j < m
        invariant
            m == dv.len(),
            dv == disks@.map_values(|d: DiskTopology| d@),
            j <= m,
            match_in_disks(dv, name@) == shift_disk_match(
                match_in_disks(dv.subrange(j as int, m as int), name@),
                j as int,
            ),
        decreases m - j,
    {
        let ghost rest = dv.subrange(j as int, m as int);
        proof {
            assert(rest[0] == dv[j as int]);
            assert(rest.drop_first() =~= dv.subrange(j + 1, m as int));
        }
        if str_contains(disks[j].path.as_str(), name.as_str()) {
            return Some(j);
        }
        j = j + 1;
    }
    proof {
        assert(dv.subrange(m as int, m as int) =~= Seq::<DiskTopologyV>::empty());
    }
    None
}

/// Scans the snapshot's vdevs in order for the first disk whose path
/// contains `name`.
fn find_disk_match(topo: &PoolTopology, name: &String) -> (r: Option<(usize, usize)>)
    ensures
        match r {
            Some((v, j)) => v < topo@.vdevs.len() && j < topo@.vdevs[v as int].disks.len()
                && match_in_vdevs(topo@.vdevs, name@) == Some((v as int, j as int)),
            None => match_in_vdevs(topo@.vdevs, name@) is None,
        },
{
    let ghost tv = topo@.vdevs;
    let n = topo.vdevs.len();
    let mut v: usize = 0;
    proof {
        assert(tv.subrange(0, n as int) =~= tv);
    }
    while v < n
        invariant
            n == tv.len(),
            tv == topo@.vdevs,
            v <= n,
            match_in_vdevs(tv, name@) == shift_vdev_match(
                match_in_vdevs(tv.subrange(v as int, n as int), name@),
                v as int,
            ),
        decreases n - v,
    {
        let ghost rest = tv.subrange(v as int, n as int);
        proof {
            assert(rest[0] == tv[v as int]);
            assert(rest.drop_first() =~= tv.subrange(v + 1, n as int));
            assert(topo.vdevs@[v as int]@.disks == tv[v as int].disks);
        }
        if let Some(j) = find_in_vdev_disks(&topo.vdevs[v].disks, name) {
            return Some((v, j));
        }
        v = v + 1;
    }
    proof {
        assert(tv.subrange(n as int, n as int) =~= Seq::<VdevTopologyV>::empty());
    }
    None
}

/// The value of an optional owned name.
spec fn opt_name_view(o: Option<String>) -> Option<Seq<char>> {
    match o {
        Some(s) => Some(s@),
        None => None,
    }
}

fn clone_opt_name(o: &Option<String>) -> (r: Option<String>)
    ensures
        opt_name_view(r) == opt_name_view(*o),
{
    match o {
        Some(s) => Some(s.clone()),
        None => None,
    }
}

/// Enriches the reconstructed entities with the snapshot's health and error
/// state; unmatched entities keep both absent.
pub fn correlate(entities: &Vec<Entity>, topo: &PoolTopology) -> (r: Vec<Entity>)
    ensures
        ents_view(r@) == correlate_seq(ents_view(entities@), topo@, None),
{
    let ghost ev = ents_view(entities@);
    let n = entities.len();
    let mut out: Vec<Entity> = Vec::new();
    let mut cur: Option<usize> = None;
    let mut i: usize = 0;
    proof {
        assert(ev.subrange(0, n as int) =~= ev);
    }
    while i < n
        invariant
            n == entities@.len(),
            ev == ents_view(entities@),
            i <= n,
            match cur {
                Some(v) => v < topo@.vdevs.len(),
                None => true,
            },
            ents_view(out@) + correlate_seq(
                ev.subrange(i as int, n as int),
                topo@,
                match cur {
                    Some(v) => Some(v as int),
                    None => None,
                },
            ) == correlate_seq(ev, topo@, None),
        decreases n - i,
    {
        let ghost rest = ev.subrange(i as int, n as int);
        let ghost cur_v: Option<int> = match cur {
            Some(v) => Some(v as int),
            None => None,
        };
        proof {
            assert(rest[0] == ev[i as int]);
            assert(rest.drop_first() =~= ev.subrange(i + 1, n as int));
        }
        let e = &entities[i];
        let ghost old_out = out@;
        match e.kind {
            EntityKind::Pool => {
                out.push(Entity {
                    kind: EntityKind::Pool,
                    name: e.name.clone(),
                    io_stats: e.io_stats,
                    parent_vdev_name: clone_opt_name(&e.parent_vdev_name),
                    health: Some(topo.health),
                    error_stats: Some(topo.error_stats),
                    disk_count: e.disk_count,
                });
                proof {
                    assert(ents_view(out@) =~= ents_view(old_out).push(
                        (EntityV {
                            health: Some(topo@.health),
                            error_stats: Some(topo@.error_stats),
                            ..ev[i as int]
                        }),
                    ));
                    assert(ents_view(out@) + correlate_seq(
                        ev.subrange(i + 1, n as int),
                        topo@,
                        cur_v,
                    ) =~= correlate_seq(ev, topo@, None));
                }
            },
            EntityKind::Vdev => {
                let error_stats = match cur {
                    Some(v) => Some(topo.vdevs[v].error_stats),
                    None => e.error_stats,
                };
                out.push(Entity {
                    kind: EntityKind::Vdev,
                    name: e.name.clone(),
                    io_stats: e.io_stats,
                    parent_vdev_name: clone_opt_name(&e.parent_vdev_name),
                    health: e.health,
                    error_stats,
                    disk_count: e.disk_count,
                });
                cur = None;
                proof {
                    let enriched = match cur_v {
                        Some(v) => (EntityV {
                            error_stats: Some(topo@.vdevs[v].error_stats),
                            ..ev[i as int]
                        }),
                        None => ev[i as int],
                    };
                    assert(ents_view(out@) =~= ents_view(old_out).push(enriched));
                    assert(ents_view(out@) + correlate_seq(
                        ev.subrange(i + 1, n as int),
                        topo@,
                        None,
                    ) =~= correlate_seq(ev, topo@, None));
                }
            },
            EntityKind::Disk => {
                match find_disk_match(topo, &e.name) {
                    Some((v, j)) => {
                        let disk = &topo.vdevs[v].disks[j];
                        proof {
                            assert(topo.vdevs@[v as int]@.disks[j as int]
                                == topo@.vdevs[v as int].disks[j as int]);
                        }
                        out.push(Entity {
                            kind: EntityKind::Disk,
                            name: e.name.clone(),
                            io_stats: e.io_stats,
                            parent_vdev_name: clone_opt_name(&e.parent_vdev_name),
                            health: Some(disk.health),
                            error_stats: Some(disk.error_stats),
                            disk_count: e.disk_count,
                        });
                        cur = Some(v);
                        proof {
                            let m = match_in_vdevs(topo@.vdevs, ev[i as int].name);
                            assert(m == Some((v as int, j as int)));
                            assert(ents_view(out@) =~= ents_view(old_out).push(
                                (EntityV {
                                    health: Some(topo@.vdevs[v as int].disks[j as int].health),
                                    error_stats: Some(
                                        topo@.vdevs[v as int].disks[j as int].error_stats,
                                    ),
                                    ..ev[i as int]
                                }),
                            ));
                            assert(ents_view(out@) + correlate_seq(
                                ev.subrange(i + 1, n as int),
                                topo@,
                                Some(v as int),
                            ) =~= correlate_seq(ev, topo@, None));
                        }
                    },
                    None => {
                        out.push(Entity {
                            kind: EntityKind::Disk,
                            name: e.name.clone(),
                            io_stats: e.io_stats,
                            parent_vdev_name: clone_opt_name(&e.parent_vdev_name),
                            health: e.health,
                            error_stats: e.error_stats,
                            disk_count: e.disk_count,
                        });
                        proof {
                            assert(ents_view(out@) =~= ents_view(old_out).push(ev[i as int]));
                            assert(ents_view(out@) + correlate_seq(
                                ev.subrange(i + 1, n as int),
                                topo@,
                                cur_v,
                            ) =~= correlate_seq(ev, topo@, None));
                        }
                    },
                }
            },
        }
        i = i + 1;
    }
    proof {
        assert(ev.subrange(n as int, n as int) =~= Seq::<EntityV>::empty());
        assert(ents_view(out@) + Seq::<EntityV>::empty() =~= ents_view(out@));
    }
    out
}

} // verus!
