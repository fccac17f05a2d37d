use capacity_report::vec::Vec;
use capacity_report::{Report, Reportable};

#[test]
fn identifiers_render_as_lowercase_hex() {
    let mut reg = Report::new();
    let first = reg.create();
    assert_eq!(first.hex_string().as_str(), "0x0");
    let mut last = first;
    for _ in 0..255 {
        last = reg.create();
    }
    assert_eq!(last.hex_string().as_str(), "0xff");
    let mid = reg.get_snapshot(last).id;
    assert_eq!(mid.hex_string().as_str(), "0xff");
}

#[test]
fn default_names_differ_between_records() {
    let mut reg = Report::new();
    let a = reg.create();
    let b = reg.create();
    let name_a = reg.get_snapshot(a).instance_name;
    let name_b = reg.get_snapshot(b).instance_name;
    assert_eq!(name_a.as_str(), "Unnamed-0x0");
    assert_eq!(name_b.as_str(), "Unnamed-0x1");
    assert_ne!(name_a, name_b);
}

#[test]
fn get_line_item_reads_through_the_identifier() {
    let mut reg = Report::new();
    let v: Vec<u8> = Vec::new(&mut reg).with_name(&mut reg, "observed");
    let by_container = reg.get_line_item(&v);
    let by_id = reg.get_snapshot(v.id());
    assert_eq!(by_container, by_id);
    assert_eq!(by_container.instance_name.as_str(), "observed");
}

#[test]
fn duplicate_matches_the_original_record() {
    let mut reg = Report::new();
    let id = reg.create();
    reg.set_name(id, "copied");
    let snap = reg.get_snapshot(id);
    let copy = snap.duplicate();
    assert_eq!(copy, snap);
}
