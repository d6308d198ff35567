//! Turns each enriched entity into a label set and a table of named
//! counters; a resolved health value is expanded into seven one-hot state
//! counters, since the downstream metrics format has no enum type.

use vstd::prelude::*;
use vstd::string::*;

use crate::reconstruct::{ents_view, Entity, EntityKind, EntityV};
use crate::topology::Health;

verus! {

/// The values of a label list.
pub open spec fn labels_view(v: Seq<(String, String)>) -> Seq<(Seq<char>, Seq<char>)> {
    v.map_values(|p: (String, String)| (p.0@, p.1@))
}

/// The values of a metric table.
pub open spec fn metrics_view(v: Seq<(String, u64)>) -> Seq<(Seq<char>, u64)> {
    v.map_values(|p: (String, u64)| (p.0@, p.1))
}

/// One metric family: a constant label set and named counter values.
#[derive(Debug, PartialEq, Eq)]
pub struct MetricGroup {
    pub labels: Vec<(String, String)>,
    pub metrics: Vec<(String, u64)>,
}

/// The mathematical value of a `MetricGroup`.
#[verifier::ext_equal]
pub struct MetricGroupV {
    pub labels: Seq<(Seq<char>, Seq<char>)>,
    pub metrics: Seq<(Seq<char>, u64)>,
}

impl View for MetricGroup {
    type V = MetricGroupV;

    open spec fn view(&self) -> MetricGroupV {
        MetricGroupV { labels: labels_view(self.labels@), metrics: metrics_view(self.metrics@) }
    }
}

/// The values of a sequence of metric groups.
pub open spec fn groups_view(v: Seq<MetricGroup>) -> Seq<MetricGroupV> {
    v.map_values(|g: MetricGroup| g@)
}

/// The label set of an entity: its device type and name, a `pool` label on
/// the pool itself, and the parent vdev's name on a disk whose parentage
/// resolved.
pub open spec fn entity_labels(e: EntityV) -> Seq<(Seq<char>, Seq<char>)> {
    match e.kind {
        EntityKind::Pool => seq![
            ("device_type"@, "pool"@),
            ("device_name"@, e.name),
            ("pool"@, e.name),
        ],
        EntityKind::Vdev => seq![("device_type"@, "vdev"@), ("device_name"@, e.name)],
        EntityKind::Disk => seq![("device_type"@, "disk"@), ("device_name"@, e.name)] + (
        match e.parent_vdev_name {
            Some(p) => seq![("vdev"@, p)],
            None => Seq::<(Seq<char>, Seq<char>)>::empty(),
        }),
    }
}

/// The I/O counters of an entity: capacity and available only when both are
/// present, the four rate counters always.
pub open spec fn io_metrics(e: EntityV) -> Seq<(Seq<char>, u64)> {
    (match (e.io_stats.capacity, e.io_stats.available) {
        (Some(c), Some(a)) => seq![("capacity"@, c), ("available"@, a)],
        _ => Seq::<(Seq<char>, u64)>::empty(),
    }) + seq![
        ("read_operations"@, e.io_stats.read_op),
        ("write_operations"@, e.io_stats.write_op),
        ("read_bandwidth"@, e.io_stats.read_band),
        ("write_bandwidth"@, e.io_stats.write_band),
    ]
}

/// The error counters of an entity, only where correlation resolved them.
pub open spec fn error_metrics(e: EntityV) -> Seq<(Seq<char>, u64)> {
    match e.error_stats {
        Some(s) => seq![
            ("read_errors"@, s.read),
            ("write_errors"@, s.write),
            ("checksum_errors"@, s.checksum),
        ],
        None => Seq::<(Seq<char>, u64)>::empty(),
    }
}

/// The positional disk count of a pool or vdev entity.
pub open spec fn count_metrics(e: EntityV) -> Seq<(Seq<char>, u64)> {
    match e.disk_count {
        Some(c) => seq![("disk_count"@, c)],
        None => Seq::<(Seq<char>, u64)>::empty(),
    }
}

/// Every non-health counter of an entity.
pub open spec fn main_metrics(e: EntityV) -> Seq<(Seq<char>, u64)> {
    io_metrics(e) + error_metrics(e) + count_metrics(e)
}

/// The entity's main metric family.
pub open spec fn main_group(e: EntityV) -> MetricGroupV {
    MetricGroupV { labels: entity_labels(e), metrics: main_metrics(e) }
}

/// A fixed numbering of the seven health states.
pub open spec fn health_index(h: Health) -> int {
    match h {
        Health::Online => 0,
        Health::Degraded => 1,
        Health::Faulted => 2,
        Health::Offline => 3,
        Health::Available => 4,
        Health::Unavailable => 5,
        Health::Removed => 6,
    }
}

/// The `state` label value of state number `k`.
pub open spec fn state_name(k: int) -> Seq<char> {
    if k == 0 {
        "online"@
    } else if k == 1 {
        "degraded"@
    } else if k == 2 {
        "faulted"@
    } else if k == 3 {
        "offline"@
    } else if k == 4 {
        "available"@
    } else if k == 5 {
        "unavailable"@
    } else {
        "removed"@
    }
}

/// 1 for the state the health value names, 0 for every other state.
pub open spec fn one_hot(h: Health, k: int) -> u64 {
    if health_index(h) == k {
        1u64
    } else {
        0u64
    }
}

/// The one-hot family of state number `k`: the entity's labels plus
/// `field_type=enum` and the state's name, and a single `health` counter.
pub open spec fn health_group(base: Seq<(Seq<char>, Seq<char>)>, h: Health, k: int) -> MetricGroupV {
    MetricGroupV {
        labels: base + seq![("field_type"@, "enum"@), ("state"@, state_name(k))],
        metrics: seq![("health"@, one_hot(h, k))],
    }
}

/// The seven one-hot families of a resolved health value, in state order.
pub open spec fn health_groups(base: Seq<(Seq<char>, Seq<char>)>, h: Health) -> Seq<MetricGroupV> {
    Seq::new(7, |k: int| health_group(base, h, k))
}

/// One-hot health invariant: of the seven state counters emitted for a
/// resolved health value, exactly one equals 1 — the counter of the state
/// the health value names — and the other six equal 0.
pub proof fn lemma_health_one_hot(base: Seq<(Seq<char>, Seq<char>)>, h: Health)
    ensures
        health_groups(base, h).len() == 7,
        0 <= health_index(h) < 7,
        forall|k: int|
            0 <= k < 7 ==> (#[trigger] health_groups(base, h)[k]).metrics == seq![
                ("health"@, one_hot(h, k)),
            ],
        forall|k: int| 0 <= k < 7 ==> (one_hot(h, k) == 1 <==> k == health_index(h)),
        forall|k: int| 0 <= k < 7 ==> (one_hot(h, k) == 0 <==> k != health_index(h)),
{
}

/// Every metric family of one entity: the seven one-hot health families
/// where health resolved, then the main family.
pub open spec fn entity_groups(e: EntityV) -> Seq<MetricGroupV> {
    (match e.health {
        Some(h) => health_groups(entity_labels(e), h),
        None => Seq::<MetricGroupV>::empty(),
    }) + seq![main_group(e)]
}

/// The metric families of an entity list, entity by entity in order.
pub open spec fn groups_of_entities(es: Seq<EntityV>) -> Seq<MetricGroupV>
    decreases es.len(),
{
    if es.len() == 0 {
        Seq::<MetricGroupV>::empty()
    } else {
        entity_groups(es[0]) + groups_of_entities(es.drop_first())
    }
}

fn clone_labels(v: &Vec<(String, String)>) -> (r: Vec<(String, String)>)
    ensures
        labels_view(r@) == labels_view(v@),
{
    let mut out: Vec<(String, String)> = Vec::new();
    let mut i: usize = 0;
    while i < v.len()
        invariant
            i <= v@.len(),
            labels_view(out@) == labels_view(v@).subrange(0, i as int),
        decreases v@.len() - i,
    {
        let ghost old_out = out@;
        out.push((v[i].0.clone(), v[i].1.clone()));
        proof {
            assert(labels_view(out@) =~~= labels_view(old_out).push(
                (v@[i as int].0@, v@[i as int].1@),
            ));
            assert(labels_view(out@) =~~= labels_view(v@).subrange(0, i + 1));
        }
        i = i + 1;
    }
    proof {
        assert(labels_view(v@).subrange(0, v@.len() as int) =~~= labels_view(v@));
    }
    out
}

/// Builds the label set of one entity.
fn build_entity_labels(e: &Entity) -> (r: Vec<(String, String)>)
    ensures
        labels_view(r@) == entity_labels(e@),
{
    let mut ls: Vec<(String, String)> = Vec::new();
    match e.kind {
        EntityKind::Pool => {
            ls.push((String::from_str("device_type"), String::from_str("pool")));
            ls.push((String::from_str("device_name"), e.name.clone()));
            ls.push((String::from_str("pool"), e.name.clone()));
        },
        EntityKind::Vdev => {
            ls.push((String::from_str("device_type"), String::from_str("vdev")));
            ls.push((String::from_str("device_name"), e.name.clone()));
        },
        EntityKind::Disk => {
            ls.push((String::from_str("device_type"), String::from_str("disk")));
            ls.push((String::from_str("device_name"), e.name.clone()));
            match &e.parent_vdev_name {
                Some(p) => {
                    ls.push((String::from_str("vdev"), p.clone()));
                },
                None => {},
            }
        },
    }
    proof {
        assert(labels_view(ls@) =~~= entity_labels(e@));
    }
    ls
}

/// Builds the seven one-hot health families over a base label set.
fn build_health_groups(base: &Vec<(String, String)>, h: &Health) -> (r: Vec<MetricGroup>)
    ensures
        groups_view(r@) == health_groups(labels_view(base@), *h),
{
    let hi: usize = match h {
        Health::Online => 0,
        Health::Degraded => 1,
        Health::Faulted => 2,
        Health::Offline => 3,
        Health::Available => 4,
        Health::Unavailable => 5,
        Health::Removed => 6,
    };
    proof {
        assert(hi as int == health_index(*h));
    }
    let mut out: Vec<MetricGroup> = Vec::new();
    let mut k: usize = 0;
    while k < 7
        invariant
            hi as int == health_index(*h),
            k <= 7,
            out@.len() == k,
            forall|j: int|
                0 <= j < k ==> groups_view(out@)[j] == health_group(labels_view(base@), *h, j),
        decreases 7 - k,
    {
        let mut ls = clone_labels(base);
        ls.push((String::from_str("field_type"), String::from_str("enum")));
        let state = if k == 0 {
            String::from_str("online")
        } else if k == 1 {
            String::from_str("degraded")
        } else if k == 2 {
            String::from_str("faulted")
        } else if k == 3 {
            String::from_str("offline")
        } else if k == 4 {
            String::from_str("available")
        } else if k == 5 {
            String::from_str("unavailable")
        } else {
            String::from_str("removed")
        };
        ls.push((String::from_str("state"), state));
        let value: u64 = if k == hi {
            1
        } else {
            0
        };
        let mut ms: Vec<(String, u64)> = Vec::new();
        ms.push((String::from_str("health"), value));
        let ghost old_out = out@;
        out.push(MetricGroup { labels: ls, metrics: ms });
        proof {
            assert(labels_view(ls@) =~~= labels_view(base@) + seq![
                ("field_type"@, "enum"@),
                ("state"@, state_name(k as int)),
            ]);
            assert(metrics_view(ms@) =~~= seq![("health"@, one_hot(*h, k as int))]);
            assert(groups_view(out@) =~~= groups_view(old_out).push(
                health_group(labels_view(base@), *h, k as int),
            ));
        }
        k = k + 1;
    }
    proof {
        assert(groups_view(out@) =~~= health_groups(labels_view(base@), *h));
    }
    out
}

/// Builds every metric family of one enriched entity.
pub fn build_entity_metrics(e: &Entity) -> (r: Vec<MetricGroup>)
    ensures
        groups_view(r@) == entity_groups(e@),
{
    let labels = build_entity_labels(e);
    let mut out: Vec<MetricGroup> = match &e.health {
        Some(h) => build_health_groups(&labels, h),
        None => Vec::new(),
    };
    let ghost health_part = groups_view(out@);
    let mut ms: Vec<(String, u64)> = Vec::new();
    if e.io_stats.capacity.is_some() && e.io_stats.available.is_some() {
        let c = match e.io_stats.capacity {
            Some(c) => c,
            None => 0,
        };
        let a = match e.io_stats.available {
            Some(a) => a,
            None => 0,
        };
        ms.push((String::from_str("capacity"), c));
        ms.push((String::from_str("available"), a));
    }
    ms.push((String::from_str("read_operations"), e.io_stats.read_op));
    ms.push((String::from_str("write_operations"), e.io_stats.write_op));
    ms.push((String::from_str("read_bandwidth"), e.io_stats.read_band));
    ms.push((String::from_str("write_bandwidth"), e.io_stats.write_band));
    match &e.error_stats {
        Some(s) => {
            ms.push((String::from_str("read_errors"), s.read));
            ms.push((String::from_str("write_errors"), s.write));
            ms.push((String::from_str("checksum_errors"), s.checksum));
        },
        None => {},
    }
    match e.disk_count {
        Some(c) => {
            ms.push((String::from_str("disk_count"), c));
        },
        None => {},
    }
    proof {
        assert(metrics_view(ms@) =~~= main_metrics(e@));
    }
    out.push(MetricGroup { labels, metrics: ms });
    proof {
        assert(groups_view(out@) =~~= health_part.push(main_group(e@)));
        assert(groups_view(out@) =~~= entity_groups(e@));
    }
    out
}

/// Builds the metric families of a whole entity list, in entity order.
pub fn build_all_metrics(entities: &Vec<Entity>) -> (r: Vec<MetricGroup>)
    ensures
        groups_view(r@) == groups_of_entities(ents_view(entities@)),
{
    let ghost ev = ents_view(entities@);
    let n = entities.len();
    let mut out: Vec<MetricGroup> = Vec::new();
    let mut i: usize = 0;
    proof {
        assert(ev.subrange(0, n as int) =~= ev);
    }
    while i < n
        invariant
            n == entities@.len(),
            ev == ents_view(entities@),
            i <= n,
            groups_view(out@) + groups_of_entities(ev.subrange(i as int, n as int))
                == groups_of_entities(ev),
        decreases n - i,
    {
        let ghost rest = ev.subrange(i as int, n as int);
        proof {
            assert(rest[0] == ev[i as int]);
            assert(rest.drop_first() =~= ev.subrange(i + 1, n as int));
        }
        let mut groups = build_entity_metrics(&entities[i]);
        let ghost old_out = out@;
        let ghost groups_v = groups_view(groups@);
        out.append(&mut groups);
        proof {
            assert(groups_view(out@) =~~= groups_view(old_out) + groups_v);
            assert(groups_view(out@) + groups_of_entities(ev.subrange(i + 1, n as int))
                =~~= groups_of_entities(ev));
        }
        i = i + 1;
    }
    proof {
        assert(ev.subrange(n as int, n as int) =~= Seq::<EntityV>::empty());
        assert(groups_view(out@) + Seq::<MetricGroupV>::empty() =~~= groups_view(out@));
    }
    out
}

} // verus!
