use plugind::disk::{disk_report, disk_usage_in, get_disk_usage};
use plugind::event::Event;
use plugind::state::SystemState;

fn shown(events: &Vec<Event>) -> Vec<(String, Option<String>)> {
    events.iter().map(|e| (e.name.clone(), e.data.clone())).collect()
}

fn with(name: &str, data: &str) -> (String, Option<String>) {
    (name.to_string(), Some(data.to_string()))
}

const HEAD: &str = "Mounted on 1B-blocks Used Avail Use%\n";

#[test]
fn the_table_is_parsed() {
    let report = format!(
        "{}/ 1000 900 100 90%\n/home 5 2 3 -\n/snap/x 1 1 1 1%\n/sys 1 1 1 1%\n/proc/y 1 1 1 1%\ntmpfs 1 1 1 1%\n/short 1 2 3\n/bad x 2 3 4%\n/ 2000 1 2 3%\n",
        HEAD
    );
    let disks = disk_usage_in(&report);
    assert_eq!(disks.len(), 2);
    let root = disks.get("/").unwrap();
    assert_eq!((root.total_bytes, root.used_bytes, root.available_bytes), (2000, 1, 2));
    assert_eq!(root.usage_percent, 3);
    assert_eq!(root.mount_point, "/");
    assert_eq!(disks.get("/home").unwrap().usage_percent, 0);
    assert_eq!(disks.name_at(0), "/");
    assert_eq!(disks.name_at(1), "/home");
    assert_eq!(get_disk_usage(None).len(), 0);
    assert_eq!(get_disk_usage(Some(report.into_bytes())).len(), 2);
    assert_eq!(disk_usage_in("").len(), 0);
    assert_eq!(disk_usage_in("/ 1 1 1 1%").len(), 0);
}

#[test]
fn little_space_is_announced_once() {
    let table = |percent: u32| disk_usage_in(&format!("{}/ 100 1 42 {}%\n", HEAD, percent));
    let mut s = SystemState::default();
    assert!(disk_report(&mut s, table(95)).is_empty());
    assert!(disk_report(&mut s, table(89)).is_empty());
    let data = "{\"available_bytes\":42,\"mount_point\":\"/\",\"usage_percent\":90}";
    assert_eq!(shown(&disk_report(&mut s, table(90))), vec![with("OnDiskSpaceLow", data)]);
    assert!(disk_report(&mut s, table(90)).is_empty());
    assert!(disk_report(&mut s, table(99)).is_empty());
    let kept = s.disk_usage.get("/").unwrap().usage_percent;
    assert_eq!(kept, 99);
}
