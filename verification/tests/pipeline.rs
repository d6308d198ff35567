use zpool_exporter::correlate::correlate;
use zpool_exporter::device::{Device, ParseError};
use zpool_exporter::metrics::{build_entity_metrics, MetricGroup};
use zpool_exporter::reconstruct::{reconstruct, Entity, EntityKind};
use zpool_exporter::scrape::scrape_pool;
use zpool_exporter::topology::{DiskTopology, ErrorStats, Health, PoolTopology, VdevTopology};

fn example_listing() -> String {
    [
        "tank\t1000\t4000\t10\t5\t1000\t500",
        "mirror-0\t1000\t4000\t10\t5\t1000\t500",
        "sda\t0\t0\t5\t2\t500\t200",
        "sdb\t0\t0\t5\t3\t500\t300",
    ]
    .join("\n")
}

fn example_topology() -> PoolTopology {
    PoolTopology {
        name: "tank".to_string(),
        health: Health::Online,
        error_stats: ErrorStats { read: 0, write: 0, checksum: 0 },
        vdevs: vec![VdevTopology {
            disks: vec![
                DiskTopology {
                    path: "/dev/sda1".to_string(),
                    health: Health::Online,
                    error_stats: ErrorStats { read: 1, write: 2, checksum: 3 },
                },
                DiskTopology {
                    path: "/dev/sdb1".to_string(),
                    health: Health::Degraded,
                    error_stats: ErrorStats { read: 4, write: 5, checksum: 6 },
                },
            ],
            error_stats: ErrorStats { read: 7, write: 8, checksum: 9 },
        }],
    }
}

fn label<'a>(g: &'a MetricGroup, key: &str) -> Option<&'a str> {
    g.labels.iter().find(|(k, _)| k == key).map(|(_, v)| v.as_str())
}

fn metric(g: &MetricGroup, name: &str) -> Option<u64> {
    g.metrics.iter().find(|(k, _)| k == name).map(|(_, v)| *v)
}

#[test]
fn example_rows_reconstruct_the_tree() {
    let devices = Device::parse_from_stdout(example_listing()).unwrap();
    let entities = reconstruct(&devices, &"tank".to_string());
    assert_eq!(entities.len(), 4);

    let pool = &entities[0];
    assert_eq!(pool.kind, EntityKind::Pool);
    assert_eq!(pool.name, "tank");
    assert_eq!(pool.disk_count, Some(2));
    assert_eq!(pool.io_stats.capacity, Some(1000));

    let sda = &entities[1];
    assert_eq!(sda.kind, EntityKind::Disk);
    assert_eq!(sda.name, "sda");
    assert_eq!(sda.parent_vdev_name, Some("mirror-0".to_string()));
    assert_eq!(sda.io_stats.capacity, None);
    assert_eq!(sda.io_stats.available, None);

    let sdb = &entities[2];
    assert_eq!(sdb.kind, EntityKind::Disk);
    assert_eq!(sdb.name, "sdb");
    assert_eq!(sdb.parent_vdev_name, Some("mirror-0".to_string()));
    assert_eq!(sdb.io_stats.capacity, None);
    assert_eq!(sdb.io_stats.available, None);

    let vdev = &entities[3];
    assert_eq!(vdev.kind, EntityKind::Vdev);
    assert_eq!(vdev.name, "mirror-0");
    assert_eq!(vdev.disk_count, Some(2));
}

#[test]
fn six_field_row_is_dropped_without_aborting() {
    let text = [
        "tank\t1000\t4000\t10\t5\t1000\t500",
        "mirror-0\t1000\t4000\t10\t5\t1000",
        "sda\t0\t0\t5\t2\t500\t200",
    ]
    .join("\n");
    let devices = Device::parse_from_stdout(text).unwrap();
    let entities = reconstruct(&devices, &"tank".to_string());
    assert!(entities.iter().all(|e| e.name != "mirror-0"));
    assert_eq!(entities.len(), 2);
    assert_eq!(entities[0].name, "tank");
    assert_eq!(entities[1].name, "sda");
    // No vdev header survived, so the disk's parentage stays absent.
    assert_eq!(entities[1].parent_vdev_name, None);
}

#[test]
fn disks_attach_to_the_preceding_vdev_header() {
    let text = [
        "mirror-0\t1000\t4000\t0\t0\t0\t0",
        "sda\t0\t0\t0\t0\t0\t0",
        "mirror-1\t1000\t4000\t0\t0\t0\t0",
        "sdb\t0\t0\t0\t0\t0\t0",
        "sdc\t0\t0\t0\t0\t0\t0",
    ]
    .join("\n");
    let devices = Device::parse_from_stdout(text).unwrap();
    let entities = reconstruct(&devices, &"tank".to_string());
    let parents: Vec<(String, Option<String>)> = entities
        .iter()
        .filter(|e| e.kind == EntityKind::Disk)
        .map(|e| (e.name.clone(), e.parent_vdev_name.clone()))
        .collect();
    assert_eq!(
        parents,
        vec![
            ("sda".to_string(), Some("mirror-0".to_string())),
            ("sdb".to_string(), Some("mirror-1".to_string())),
            ("sdc".to_string(), Some("mirror-1".to_string())),
        ]
    );
    let counts: Vec<(String, Option<u64>)> = entities
        .iter()
        .filter(|e| e.kind == EntityKind::Vdev)
        .map(|e| (e.name.clone(), e.disk_count))
        .collect();
    assert_eq!(
        counts,
        vec![("mirror-0".to_string(), Some(1)), ("mirror-1".to_string(), Some(2))]
    );
}

#[test]
fn correlation_resolves_disks_vdevs_and_the_pool() {
    let devices = Device::parse_from_stdout(example_listing()).unwrap();
    let entities = reconstruct(&devices, &"tank".to_string());
    let topo = example_topology();
    let enriched = correlate(&entities, &topo);

    let pool = &enriched[0];
    assert_eq!(pool.health, Some(Health::Online));
    assert_eq!(pool.error_stats, Some(ErrorStats { read: 0, write: 0, checksum: 0 }));

    let sda = &enriched[1];
    assert_eq!(sda.health, Some(Health::Online));
    assert_eq!(sda.error_stats, Some(ErrorStats { read: 1, write: 2, checksum: 3 }));

    let sdb = &enriched[2];
    assert_eq!(sdb.health, Some(Health::Degraded));
    assert_eq!(sdb.error_stats, Some(ErrorStats { read: 4, write: 5, checksum: 6 }));

    // The vdev inherits the error counters of the topology vdev that
    // supplied the most recently matched disk.
    let vdev = &enriched[3];
    assert_eq!(vdev.health, None);
    assert_eq!(vdev.error_stats, Some(ErrorStats { read: 7, write: 8, checksum: 9 }));
}

#[test]
fn unmatched_disk_keeps_absent_health_and_errors() {
    let text = "sdz\t0\t0\t0\t0\t0\t0".to_string();
    let devices = Device::parse_from_stdout(text).unwrap();
    let entities = reconstruct(&devices, &"tank".to_string());
    let enriched = correlate(&entities, &example_topology());
    assert_eq!(enriched.len(), 1);
    assert_eq!(enriched[0].health, None);
    assert_eq!(enriched[0].error_stats, None);
}

#[test]
fn health_expands_one_hot() {
    let e = Entity {
        kind: EntityKind::Disk,
        name: "sdb".to_string(),
        io_stats: zpool_exporter::device::IoStats::new(None, None, 5, 3, 500, 300),
        parent_vdev_name: Some("mirror-0".to_string()),
        health: Some(Health::Degraded),
        error_stats: None,
        disk_count: None,
    };
    let groups = build_entity_metrics(&e);
    // Seven one-hot health families, then the main family.
    assert_eq!(groups.len(), 8);
    let states = [
        "online", "degraded", "faulted", "offline", "available", "unavailable", "removed",
    ];
    let mut ones: u64 = 0;
    for (k, state) in states.iter().enumerate() {
        let g = &groups[k];
        assert_eq!(label(g, "state"), Some(*state));
        assert_eq!(label(g, "field_type"), Some("enum"));
        assert_eq!(label(g, "device_type"), Some("disk"));
        assert_eq!(label(g, "device_name"), Some("sdb"));
        assert_eq!(label(g, "vdev"), Some("mirror-0"));
        let v = metric(g, "health").unwrap();
        assert_eq!(v, if *state == "degraded" { 1 } else { 0 });
        ones += v;
    }
    assert_eq!(ones, 1);
}

#[test]
fn main_family_carries_the_io_error_and_count_metrics() {
    let e = Entity {
        kind: EntityKind::Vdev,
        name: "mirror-0".to_string(),
        io_stats: zpool_exporter::device::IoStats::new(Some(1000), Some(4000), 10, 5, 1000, 500),
        parent_vdev_name: None,
        health: None,
        error_stats: Some(ErrorStats { read: 7, write: 8, checksum: 9 }),
        disk_count: Some(2),
    };
    let groups = build_entity_metrics(&e);
    assert_eq!(groups.len(), 1);
    let g = &groups[0];
    assert_eq!(label(g, "device_type"), Some("vdev"));
    assert_eq!(label(g, "device_name"), Some("mirror-0"));
    assert_eq!(metric(g, "capacity"), Some(1000));
    assert_eq!(metric(g, "available"), Some(4000));
    assert_eq!(metric(g, "read_operations"), Some(10));
    assert_eq!(metric(g, "write_operations"), Some(5));
    assert_eq!(metric(g, "read_bandwidth"), Some(1000));
    assert_eq!(metric(g, "write_bandwidth"), Some(500));
    assert_eq!(metric(g, "read_errors"), Some(7));
    assert_eq!(metric(g, "write_errors"), Some(8));
    assert_eq!(metric(g, "checksum_errors"), Some(9));
    assert_eq!(metric(g, "disk_count"), Some(2));
}

#[test]
fn disk_level_family_has_no_capacity_metrics() {
    let devices = Device::parse_from_stdout(example_listing()).unwrap();
    let entities = reconstruct(&devices, &"tank".to_string());
    let groups = build_entity_metrics(&entities[1]);
    assert_eq!(groups.len(), 1);
    assert_eq!(metric(&groups[0], "capacity"), None);
    assert_eq!(metric(&groups[0], "available"), None);
    assert_eq!(metric(&groups[0], "read_operations"), Some(5));
}

#[test]
fn pool_family_carries_the_pool_label() {
    let topo = example_topology();
    let groups = scrape_pool(example_listing(), &topo).unwrap();
    // Pool: 7 one-hot + 1 main; each matched disk the same; the vdev,
    // without resolved health, only its main family.
    assert_eq!(groups.len(), 25);
    let pool_main = &groups[7];
    assert_eq!(label(pool_main, "device_type"), Some("pool"));
    assert_eq!(label(pool_main, "pool"), Some("tank"));
    assert_eq!(label(pool_main, "device_name"), Some("tank"));
    assert_eq!(metric(pool_main, "disk_count"), Some(2));
}

#[test]
fn numeric_failure_aborts_the_whole_scrape() {
    let text = [
        "tank\t1000\t4000\t10\t5\t1000\t500",
        "sda\t0\t0\tbad\t2\t500\t200",
    ]
    .join("\n");
    let r = scrape_pool(text, &example_topology());
    assert_eq!(r, Err(ParseError::NumericParseFailure));
}

#[test]
fn scrape_of_an_empty_listing_emits_nothing() {
    let groups = scrape_pool(String::new(), &example_topology()).unwrap();
    assert!(groups.is_empty());
}
