//! Rebuilds the pool → vdev → disk hierarchy from the ordered, flat row
//! sequence: ordering alone carries the parentage, since a vdev header row
//! is followed by its member disk rows.

use vstd::prelude::*;
use vstd::string::*;

use crate::device::{devs_view, Device, DeviceV, IoStats};
use crate::topology::{ErrorStats, Health};

verus! {

/// What a reconstructed entity is.
#[derive(Debug, PartialEq, Eq, Structural, Clone, Copy)]
pub enum EntityKind {
    Pool,
    Vdev,
    Disk,
}

/// One reconstructed entity: health and error counters stay absent until
/// correlation resolves them; `disk_count` is carried by pools and vdevs
/// and counts the disk rows positionally attached to them.
#[derive(Debug, PartialEq, Eq)]
pub struct Entity {
    pub kind: EntityKind,
    pub name: String,
    pub io_stats: IoStats,
    pub parent_vdev_name: Option<String>,
    pub health: Option<Health>,
    pub error_stats: Option<ErrorStats>,
    pub disk_count: Option<u64>,
}

/// The mathematical value of an `Entity`.
pub struct EntityV {
    pub kind: EntityKind,
    pub name: Seq<char>,
    pub io_stats: IoStats,
    pub parent_vdev_name: Option<Seq<char>>,
    pub health: Option<Health>,
    pub error_stats: Option<ErrorStats>,
    pub disk_count: Option<u64>,
}

impl View for Entity {
    type V = EntityV;

    open spec fn view(&self) -> EntityV {
        EntityV {
            kind: self.kind,
            name: self.name@,
            io_stats: self.io_stats,
            parent_vdev_name: match self.parent_vdev_name {
                Some(ref s) => Some(s@),
                None => None,
            },
            health: self.health,
            error_stats: self.error_stats,
            disk_count: self.disk_count,
        }
    }
}

/// The values of a sequence of entities.
pub open spec fn ents_view(v: Seq<Entity>) -> Seq<EntityV> {
    v.map_values(|e: Entity| e@)
}

/// The row names the pool itself: its pool-level aggregate row.
pub open spec fn is_pool_row(d: DeviceV, pool: Seq<char>) -> bool {
    d.name == pool
}

/// The row opens a new vdev: it carries capacity and available but does not
/// name the pool.
pub open spec fn is_vdev_header(d: DeviceV, pool: Seq<char>) -> bool {
    d.name != pool && d.io_stats.capacity is Some && d.io_stats.available is Some
}

/// The row is a disk-level row.
pub open spec fn is_disk_row(d: DeviceV, pool: Seq<char>) -> bool {
    d.name != pool && !(d.io_stats.capacity is Some && d.io_stats.available is Some)
}

/// The pool entity of the pool's own aggregate row.
pub open spec fn pool_entity(d: DeviceV, total_disks: u64) -> EntityV {
    EntityV {
        kind: EntityKind::Pool,
        name: d.name,
        io_stats: d.io_stats,
        parent_vdev_name: None,
        health: None,
        error_stats: None,
        disk_count: Some(total_disks),
    }
}

/// The vdev entity of a finalized vdev header row.
pub open spec fn vdev_entity(d: DeviceV, disk_count: u64) -> EntityV {
    EntityV {
        kind: EntityKind::Vdev,
        name: d.name,
        io_stats: d.io_stats,
        parent_vdev_name: None,
        health: None,
        error_stats: None,
        disk_count: Some(disk_count),
    }
}

/// The disk entity of a disk-level row, attached to the open vdev if any.
pub open spec fn disk_entity(d: DeviceV, parent: Option<Seq<char>>) -> EntityV {
    EntityV {
        kind: EntityKind::Disk,
        name: d.name,
        io_stats: d.io_stats,
        parent_vdev_name: parent,
        health: None,
        error_stats: None,
        disk_count: None,
    }
}

/// How many rows of the sequence are disk-level rows.
pub open spec fn count_disk_rows(devs: Seq<DeviceV>, pool: Seq<char>) -> int
    decreases devs.len(),
{
    if devs.len() == 0 {
        0
    } else {
        (if is_disk_row(devs[0], pool) {
            1int
        } else {
            0int
        }) + count_disk_rows(devs.drop_first(), pool)
    }
}

pub proof fn lemma_count_disk_rows_bounds(devs: Seq<DeviceV>, pool: Seq<char>)
    ensures
        0 <= count_disk_rows(devs, pool) <= devs.len(),
    decreases devs.len(),
{
    if devs.len() != 0 {
        lemma_count_disk_rows_bounds(devs.drop_first(), pool);
    }
}

/// The name of the open vdev, if one is open.
pub open spec fn open_vdev_name(cur: Option<(DeviceV, u64)>) -> Option<Seq<char>> {
    match cur {
        Some((v, _)) => Some(v.name),
        None => None,
    }
}

/// One forward pass over the remaining rows: the pool's row yields the pool
/// entity, a vdev header finalizes the open vdev and opens a new one, and a
/// disk row attaches to the open vdev; a vdev still open at the end is
/// finalized last.
pub open spec fn recon_seq(
    devs: Seq<DeviceV>,
    pool: Seq<char>,
    total_disks: u64,
    cur: Option<(DeviceV, u64)>,
) -> Seq<EntityV>
    decreases devs.len(),
{
    if devs.len() == 0 {
        match cur {
            Some((v, c)) => seq![vdev_entity(v, c)],
            None => Seq::<EntityV>::empty(),
        }
    } else {
        let d = devs[0];
        let rest = devs.drop_first();
        if is_pool_row(d, pool) {
            seq![pool_entity(d, total_disks)] + recon_seq(rest, pool, total_disks, cur)
        } else if is_vdev_header(d, pool) {
            let flushed = match cur {
                Some((v, c)) => seq![vdev_entity(v, c)],
                None => Seq::<EntityV>::empty(),
            };
            flushed + recon_seq(rest, pool, total_disks, Some((d, 0)))
        } else {
            let bumped = match cur {
                Some((v, c)) => Some((v, (c + 1) as u64)),
                None => None,
            };
            seq![disk_entity(d, open_vdev_name(cur))] + recon_seq(rest, pool, total_disks, bumped)
        }
    }
}

/// The entity list the ordered row sequence denotes.
pub open spec fn reconstruct_spec(devs: Seq<DeviceV>, pool: Seq<char>) -> Seq<EntityV> {
    recon_seq(devs, pool, count_disk_rows(devs, pool) as u64, None)
}

/// The name of the last vdev header strictly before row `i`, if any.
pub open spec fn last_vdev_before(devs: Seq<DeviceV>, pool: Seq<char>, i: int) -> Option<Seq<char>>
    decreases i,
{
    if i <= 0 {
        None
    } else if is_vdev_header(devs[i - 1], pool) {
        Some(devs[i - 1].name)
    } else {
        last_vdev_before(devs, pool, i - 1)
    }
}

/// The disk entities the rows from `i` on should yield: each disk row
/// attached to the nearest vdev header before it, in row order.
pub open spec fn expected_disks(devs: Seq<DeviceV>, pool: Seq<char>, i: int) -> Seq<EntityV>
    decreases devs.len() - i,
{
    if i < 0 || i >= devs.len() {
        Seq::<EntityV>::empty()
    } else {
        let head = if is_disk_row(devs[i], pool) {
            seq![disk_entity(devs[i], last_vdev_before(devs, pool, i))]
        } else {
            Seq::<EntityV>::empty()
        };
        head + expected_disks(devs, pool, i + 1)
    }
}

/// The disk entities of an entity list, in order.
pub open spec fn disks_of(es: Seq<EntityV>) -> Seq<EntityV> {
    es.filter(|e: EntityV| e.kind is Disk)
}

proof fn lemma_disks_of_one(e: EntityV)
    ensures
        disks_of(seq![e]) == if e.kind is Disk {
            seq![e]
        } else {
            Seq::<EntityV>::empty()
        },
{
    reveal_with_fuel(Seq::<EntityV>::filter, 2);
    assert(seq![e].drop_last() =~= Seq::<EntityV>::empty());
    if e.kind is Disk {
        assert(disks_of(seq![e]) =~= seq![e]);
    }
}

proof fn lemma_disks_of_empty()
    ensures
        disks_of(Seq::<EntityV>::empty()) == Seq::<EntityV>::empty(),
{
    reveal_with_fuel(Seq::<EntityV>::filter, 1);
}

proof fn lemma_recon_disks(
    devs: Seq<DeviceV>,
    pool: Seq<char>,
    total: u64,
    i: int,
    cur: Option<(DeviceV, u64)>,
)
    requires
        0 <= i <= devs.len(),
        open_vdev_name(cur) == last_vdev_before(devs, pool, i),
    ensures
        disks_of(recon_seq(devs.subrange(i, devs.len() as int), pool, total, cur))
            == expected_disks(devs, pool, i),
    decreases devs.len() - i,
{
    broadcast use Seq::filter_distributes_over_add;

    let rest = devs.subrange(i, devs.len() as int);
    if i == devs.len() {
        match cur {
            Some((v, c)) => {
                lemma_disks_of_one(vdev_entity(v, c));
            },
            None => {
                lemma_disks_of_empty();
            },
        }
    } else {
        let d = devs[i];
        assert(rest[0] == d);
        assert(rest.drop_first() =~= devs.subrange(i + 1, devs.len() as int));
        if is_pool_row(d, pool) {
            assert(last_vdev_before(devs, pool, i + 1) == last_vdev_before(devs, pool, i));
            lemma_recon_disks(devs, pool, total, i + 1, cur);
            lemma_disks_of_one(pool_entity(d, total));
            assert(disks_of(recon_seq(rest, pool, total, cur)) =~= expected_disks(devs, pool, i));
        } else if is_vdev_header(d, pool) {
            assert(last_vdev_before(devs, pool, i + 1) == Some(d.name));
            lemma_recon_disks(devs, pool, total, i + 1, Some((d, 0)));
            match cur {
                Some((v, c)) => {
                    lemma_disks_of_one(vdev_entity(v, c));
                },
                None => {
                    lemma_disks_of_empty();
                },
            }
            assert(disks_of(recon_seq(rest, pool, total, cur)) =~= expected_disks(devs, pool, i));
        } else {
            let bumped = match cur {
                Some((v, c)) => Some((v, (c + 1) as u64)),
                None => None,
            };
            assert(open_vdev_name(bumped) == open_vdev_name(cur));
            assert(last_vdev_before(devs, pool, i + 1) == last_vdev_before(devs, pool, i));
            lemma_recon_disks(devs, pool, total, i + 1, bumped);
            lemma_disks_of_one(disk_entity(d, open_vdev_name(cur)));
            assert(disks_of(recon_seq(rest, pool, total, cur)) =~= expected_disks(devs, pool, i));
        }
    }
}

/// Reconstruction ordering: every disk row between two vdev headers attaches
/// to the vdev header preceding it, and none to a later one — the disk
/// entities of a reconstruction are exactly the disk rows, in row order,
/// each carrying the nearest preceding vdev header's name as its parent.
pub proof fn lemma_reconstruction_ordering(devs: Seq<DeviceV>, pool: Seq<char>)
    ensures
        disks_of(reconstruct_spec(devs, pool)) == expected_disks(devs, pool, 0),
{
    assert(devs.subrange(0, devs.len() as int) =~= devs);
    lemma_recon_disks(devs, pool, count_disk_rows(devs, pool) as u64, 0, None);
}

/// Rebuilds the entity list from the ordered rows of one pool's listing.
pub fn reconstruct(devices: &Vec<Device>, pool_name: &String) -> (r: Vec<Entity>)
    ensures
        ents_view(r@) == reconstruct_spec(devs_view(devices@), pool_name@),
{
    let ghost dv = devs_view(devices@);
    let n = devices.len();

    let mut total: u64 = 0;
    let mut i: usize = 0;
    proof {
        assert(dv.subrange(0, n as int) =~= dv);
        lemma_count_disk_rows_bounds(dv, pool_name@);
    }
    while i < n
        invariant
            n == devices@.len(),
            dv == devs_view(devices@),
            i <= n,
            total <= i,
            total as int + count_disk_rows(dv.subrange(i as int, n as int), pool_name@)
                == count_disk_rows(dv, pool_name@),
        decreases n - i,
    {
        let ghost rest = dv.subrange(i as int, n as int);
        proof {
            assert(rest[0] == dv[i as int]);
            assert(rest.drop_first() =~= dv.subrange(i + 1, n as int));
        }
        let d = &devices[i];
        if !(d.name == *pool_name) && !d.is_pool_or_vdev() {
            total = total + 1;
        }
        i = i + 1;
    }
    proof {
        assert(dv.subrange(n as int, n as int) =~= Seq::<DeviceV>::empty());
        assert(total as int == count_disk_rows(dv, pool_name@));
    }

    let mut out: Vec<Entity> = Vec::new();
    let mut cur: Option<(usize, u64)> = None;
    let mut i: usize = 0;
    proof {
        assert(dv.subrange(0, n as int) =~= dv);
    }
    while i < n
        invariant
            n == devices@.len(),
            dv == devs_view(devices@),
            i <= n,
            match cur {
                Some((idx, c)) => idx < n && c <= i && open_vdev_name(
                    Some((dv[idx as int], c)),
                ) == Some(dv[idx as int].name),
                None => true,
            },
            ents_view(out@) + recon_seq(
                dv.subrange(i as int, n as int),
                pool_name@,
                total,
                match cur {
                    Some((idx, c)) => Some((dv[idx as int], c)),
                    None => None,
                },
            ) == recon_seq(dv, pool_name@, total, None),
        decreases n - i,
    {
        let ghost rest = dv.subrange(i as int, n as int);
        let ghost cur_v: Option<(DeviceV, u64)> = match cur {
            Some((idx, c)) => Some((dv[idx as int], c)),
            None => None,
        };
        proof {
            assert(rest[0] == dv[i as int]);
            assert(rest.drop_first() =~= dv.subrange(i + 1, n as int));
        }
        let d = &devices[i];
        if d.name == *pool_name {
            let ghost old_out = out@;
            out.push(Entity {
                kind: EntityKind::Pool,
                name: d.name.clone(),
                io_stats: d.io_stats,
                parent_vdev_name: None,
                health: None,
                error_stats: None,
                disk_count: Some(total),
            });
            proof {
                assert(ents_view(out@) =~= ents_view(old_out).push(
                    pool_entity(dv[i as int], total),
                ));
                assert(ents_view(out@) + recon_seq(
                    dv.subrange(i + 1, n as int),
                    pool_name@,
                    total,
                    cur_v,
                ) =~= recon_seq(dv, pool_name@, total, None));
            }
        } else if d.is_pool_or_vdev() {
            if let Some((idx, c)) = cur {
                let v = &devices[idx];
                let ghost old_out = out@;
                out.push(Entity {
                    kind: EntityKind::Vdev,
                    name: v.name.clone(),
                    io_stats: v.io_stats,
                    parent_vdev_name: None,
                    health: None,
                    error_stats: None,
                    disk_count: Some(c),
                });
                proof {
                    assert(ents_view(out@) =~= ents_view(old_out).push(
                        vdev_entity(dv[idx as int], c),
                    ));
                }
            }
            cur = Some((i, 0));
            proof {
                assert(ents_view(out@) + recon_seq(
                    dv.subrange(i + 1, n as int),
                    pool_name@,
                    total,
                    Some((dv[i as int], 0u64)),
                ) =~= recon_seq(dv, pool_name@, total, None));
            }
        } else {
            let parent = match &cur {
                Some((idx, _)) => Some(devices[*idx].name.clone()),
                None => None,
            };
            let ghost old_out = out@;
            out.push(Entity {
                kind: EntityKind::Disk,
                name: d.name.clone(),
                io_stats: d.io_stats,
                parent_vdev_name: parent,
                health: None,
                error_stats: None,
                disk_count: None,
            });
            proof {
                assert(ents_view(out@) =~= ents_view(old_out).push(
                    disk_entity(dv[i as int], open_vdev_name(cur_v)),
                ));
            }
            if let Some((idx, c)) = cur {
                cur = Some((idx, c + 1));
            }
            proof {
                assert(ents_view(out@) + recon_seq(
                    dv.subrange(i + 1, n as int),
                    pool_name@,
                    total,
                    match cur {
                        Some((idx, c)) => Some((dv[idx as int], c)),
                        None => None,
                    },
                ) =~= recon_seq(dv, pool_name@, total, None));
            }
        }
        i = i + 1;
    }
    if let Some((idx, c)) = cur {
        let v = &devices[idx];
        let ghost old_out = out@;
        out.push(Entity {
            kind: EntityKind::Vdev,
            name: v.name.clone(),
            io_stats: v.io_stats,
            parent_vdev_name: None,
            health: None,
            error_stats: None,
            disk_count: Some(c),
        });
        proof {
            assert(dv.subrange(n as int, n as int) =~= Seq::<DeviceV>::empty());
            assert(ents_view(out@) =~= ents_view(old_out).push(vdev_entity(dv[idx as int], c)));
            assert(ents_view(out@) =~= recon_seq(dv, pool_name@, total, None));
        }
    } else {
        proof {
            assert(dv.subrange(n as int, n as int) =~= Seq::<DeviceV>::empty());
            assert(ents_view(out@) + Seq::<EntityV>::empty() =~= ents_view(out@));
        }
    }
    out
}

} // verus!
