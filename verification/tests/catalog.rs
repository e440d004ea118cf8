use audio_router::backend::{DeviceEntry, Mode};
use audio_router::catalog::{
    build_catalog, display_name, expand_into, make_entry, sort_by_name, unique_by_name, Endpoint,
    Flow,
};
use audio_router::order::{bytes_le, name_sorts_first};

fn endpoint(name: &str, id: Option<&str>, is_input: bool, is_output: bool) -> Endpoint {
    Endpoint { name: name.to_string(), id: id.map(|s| s.to_string()), is_input, is_output }
}

fn entry(name: &str, id: &str, mode: Mode) -> DeviceEntry {
    DeviceEntry {
        name: name.to_string(),
        device_id: Some(id.to_string()),
        mode,
        is_input: false,
        is_output: true,
    }
}

fn names(entries: &[DeviceEntry]) -> Vec<String> {
    entries.iter().map(|e| e.name.clone()).collect()
}

fn ids(entries: &[DeviceEntry]) -> Vec<String> {
    entries.iter().map(|e| e.device_id.clone().unwrap_or_default()).collect()
}

#[test]
fn display_name_prefers_the_friendly_name() {
    let id = "{0.0.0.00000000}.{guid}".to_string();
    assert_eq!(display_name(&id, Some("Speakers".to_string())), "Speakers");
    assert_eq!(display_name(&id, None), "{0.0.0.00000000}.{guid}");
    assert_eq!(display_name(&id, Some(String::new())), "");
}

#[test]
fn discovered_render_device_is_an_output() {
    let e = Endpoint::discovered("id-1".to_string(), Some("Speakers".to_string()), Flow::Render);
    assert_eq!(e.name, "Speakers");
    assert_eq!(e.id.as_deref(), Some("id-1"));
    assert!(e.is_output);
    assert!(!e.is_input);
}

#[test]
fn discovered_capture_device_is_an_input() {
    let e = Endpoint::discovered("id-2".to_string(), None, Flow::Capture);
    assert_eq!(e.name, "id-2");
    assert_eq!(e.id.as_deref(), Some("id-2"));
    assert!(e.is_input);
    assert!(!e.is_output);
}

#[test]
fn entries_are_decorated_with_their_mode() {
    let ep = endpoint("USB Mic", Some("mic-1"), true, false);
    let shared = make_entry(&ep, Mode::Shared);
    assert_eq!(shared.name, "USB Mic (SHARED)");
    assert_eq!(shared.mode, Mode::Shared);
    assert_eq!(shared.device_id.as_deref(), Some("mic-1"));
    assert!(shared.is_input);
    assert!(!shared.is_output);
    let exclusive = make_entry(&ep, Mode::Exclusive);
    assert_eq!(exclusive.name, "USB Mic (EXCLUSIVE)");
    assert_eq!(exclusive.mode, Mode::Exclusive);
    assert_eq!(exclusive.device_id.as_deref(), Some("mic-1"));
    assert!(exclusive.is_input);
    assert!(!exclusive.is_output);
}

#[test]
fn entry_of_a_device_without_identifier() {
    let ep = endpoint("Line", None, true, true);
    let e = make_entry(&ep, Mode::Shared);
    assert_eq!(e.device_id, None);
    assert!(e.is_input && e.is_output);
}

#[test]
fn expansion_puts_shared_before_exclusive() {
    let eps = vec![endpoint("B", Some("b"), false, true), endpoint("A", Some("a"), true, false)];
    let mut out = Vec::new();
    expand_into(&eps, &mut out);
    assert_eq!(names(&out), vec!["B (SHARED)", "B (EXCLUSIVE)", "A (SHARED)", "A (EXCLUSIVE)"]);
    assert_eq!(ids(&out), vec!["b", "b", "a", "a"]);
    expand_into(&eps, &mut out);
    assert_eq!(out.len(), 8);
    assert_eq!(out[4].name, "B (SHARED)");
}

#[test]
fn catalog_is_sorted_by_display_name() {
    let render = vec![endpoint("Speakers", Some("r1"), false, true)];
    let capture = vec![endpoint("Mic", Some("c1"), true, false)];
    let catalog = build_catalog(&render, &capture);
    assert_eq!(
        names(&catalog),
        vec!["Mic (EXCLUSIVE)", "Mic (SHARED)", "Speakers (EXCLUSIVE)", "Speakers (SHARED)"]
    );
    assert_eq!(ids(&catalog), vec!["c1", "c1", "r1", "r1"]);
    assert_eq!(catalog[0].mode, Mode::Exclusive);
    assert_eq!(catalog[1].mode, Mode::Shared);
    assert!(catalog[0].is_input && !catalog[0].is_output);
    assert!(catalog[3].is_output && !catalog[3].is_input);
}

#[test]
fn catalog_of_no_devices_is_empty() {
    let none: Vec<Endpoint> = Vec::new();
    assert!(build_catalog(&none, &none).is_empty());
}

#[test]
fn every_device_has_exactly_two_entries() {
    let render = vec![
        endpoint("Speakers", Some("r1"), false, true),
        endpoint("Headphones", Some("r2"), false, true),
        endpoint("HDMI", Some("r3"), false, true),
    ];
    let capture = vec![
        endpoint("Mic", Some("c1"), true, false),
        endpoint("Line In", Some("c2"), true, false),
    ];
    let catalog = build_catalog(&render, &capture);
    assert_eq!(catalog.len(), 2 * (render.len() + capture.len()));
    for ep in render.iter().chain(capture.iter()) {
        let own: Vec<&DeviceEntry> =
            catalog.iter().filter(|e| e.device_id == ep.id).collect();
        assert_eq!(own.len(), 2);
        assert_eq!(own.iter().filter(|e| e.mode == Mode::Shared).count(), 1);
        assert_eq!(own.iter().filter(|e| e.mode == Mode::Exclusive).count(), 1);
        for e in own {
            assert_eq!(e.is_input, ep.is_input);
            assert_eq!(e.is_output, ep.is_output);
            assert!(e.name.starts_with(ep.name.as_str()));
        }
    }
}

#[test]
fn paired_entries_need_not_be_adjacent() {
    // "Mic (SHARED)" sorts after "Mic (EXCLUSIVE) 2 (...)".
    let capture = vec![
        endpoint("Mic", Some("c1"), true, false),
        endpoint("Mic (EXCLUSIVE) 2", Some("c2"), true, false),
    ];
    let catalog = build_catalog(&Vec::new(), &capture);
    assert_eq!(
        names(&catalog),
        vec![
            "Mic (EXCLUSIVE)",
            "Mic (EXCLUSIVE) 2 (EXCLUSIVE)",
            "Mic (EXCLUSIVE) 2 (SHARED)",
            "Mic (SHARED)",
        ]
    );
    assert_eq!(ids(&catalog), vec!["c1", "c2", "c2", "c1"]);
}

#[test]
fn devices_of_one_name_are_all_listed() {
    let render = vec![endpoint("USB Audio", Some("r1"), false, true)];
    let capture = vec![endpoint("USB Audio", Some("c1"), true, false)];
    let catalog = build_catalog(&render, &capture);
    assert_eq!(
        names(&catalog),
        vec!["USB Audio (EXCLUSIVE)", "USB Audio (EXCLUSIVE)", "USB Audio (SHARED)", "USB Audio (SHARED)"]
    );
    // Entries of one name keep the order of discovery: render before capture.
    assert_eq!(ids(&catalog), vec!["r1", "c1", "r1", "c1"]);
}

#[test]
fn sort_keeps_equal_names_in_their_order() {
    let entries = vec![
        entry("b", "1", Mode::Shared),
        entry("a", "2", Mode::Shared),
        entry("b", "3", Mode::Shared),
        entry("a", "4", Mode::Shared),
        entry("b", "5", Mode::Shared),
        entry("a", "6", Mode::Shared),
    ];
    let sorted = sort_by_name(entries);
    assert_eq!(names(&sorted), vec!["a", "a", "a", "b", "b", "b"]);
    assert_eq!(ids(&sorted), vec!["2", "4", "6", "1", "3", "5"]);
}

#[test]
fn sort_orders_by_bytes() {
    let entries = vec![
        entry("zeta", "1", Mode::Shared),
        entry("Zeta", "2", Mode::Shared),
        entry("\u{e9}cole", "3", Mode::Shared),
        entry("alpha", "4", Mode::Shared),
        entry("", "5", Mode::Shared),
        entry("alp", "6", Mode::Shared),
        entry("Alpha 2", "7", Mode::Shared),
        entry("\u{65e5}\u{672c}", "8", Mode::Shared),
    ];
    let sorted = sort_by_name(entries);
    assert_eq!(
        names(&sorted),
        vec!["", "Alpha 2", "Zeta", "alp", "alpha", "zeta", "\u{e9}cole", "\u{65e5}\u{672c}"]
    );
}

#[test]
fn sort_agrees_with_the_standard_stable_sort() {
    let raw = [
        "Speakers", "Mic", "mic", "Mic ", "Headset (2)", "Headset", "HDMI", "Mic", "\u{c4}", "A",
        "a", "Z", "", "Headset", "10", "9", "HDMI 2", "Mic",
    ];
    let entries: Vec<DeviceEntry> = raw
        .iter()
        .enumerate()
        .map(|(i, n)| entry(n, &i.to_string(), Mode::Exclusive))
        .collect();
    let mut expected = entries.clone();
    expected.sort_by(|a, b| a.name.cmp(&b.name));
    let sorted = sort_by_name(entries);
    assert_eq!(names(&sorted), names(&expected));
    assert_eq!(ids(&sorted), ids(&expected));
}

#[test]
fn sort_of_one_and_of_none() {
    assert!(sort_by_name(Vec::new()).is_empty());
    let one = sort_by_name(vec![entry("x", "1", Mode::Shared)]);
    assert_eq!(names(&one), vec!["x"]);
}

#[test]
fn later_devices_of_a_name_are_dropped() {
    let eps = vec![
        endpoint("A", Some("1"), true, false),
        endpoint("B", Some("2"), true, false),
        endpoint("A", Some("3"), false, true),
        endpoint("C", None, true, true),
        endpoint("B", Some("5"), true, false),
        endpoint("A", Some("6"), true, false),
    ];
    let kept = unique_by_name(&eps);
    let got: Vec<(String, Option<String>)> =
        kept.iter().map(|e| (e.name.clone(), e.id.clone())).collect();
    assert_eq!(
        got,
        vec![
            ("A".to_string(), Some("1".to_string())),
            ("B".to_string(), Some("2".to_string())),
            ("C".to_string(), None),
        ]
    );
    assert!(kept[0].is_input && !kept[0].is_output);
}

#[test]
fn distinct_names_are_all_kept() {
    let eps = vec![endpoint("A", None, true, true), endpoint("a", None, true, true)];
    assert_eq!(unique_by_name(&eps).len(), 2);
    assert!(unique_by_name(&Vec::new()).is_empty());
}

#[test]
fn duplicate_copies_every_field() {
    let ep = endpoint("Mic", Some("id"), true, false);
    let copy = ep.duplicate();
    assert_eq!(copy.name, "Mic");
    assert_eq!(copy.id.as_deref(), Some("id"));
    assert!(copy.is_input && !copy.is_output);
    let e = entry("Out", "o", Mode::Exclusive);
    let c = e.duplicate();
    assert_eq!(c.name, "Out");
    assert_eq!(c.device_id.as_deref(), Some("o"));
    assert_eq!(c.mode, Mode::Exclusive);
    assert!(c.is_output && !c.is_input);
}

#[test]
fn names_are_ordered_like_str() {
    let samples = ["", "a", "A", "ab", "abc", "b", "\u{e9}", "z", "Mic (SHARED)", "Mic (EXCLUSIVE)"];
    for a in samples {
        for b in samples {
            assert_eq!(name_sorts_first(a, b), a <= b, "{:?} vs {:?}", a, b);
        }
    }
}

#[test]
fn bytes_are_ordered_lexicographically() {
    assert!(bytes_le(&[], &[]));
    assert!(bytes_le(&[], &[0]));
    assert!(!bytes_le(&[0], &[]));
    assert!(bytes_le(&[1, 2], &[1, 2]));
    assert!(bytes_le(&[1, 2], &[1, 2, 0]));
    assert!(!bytes_le(&[1, 2, 0], &[1, 2]));
    assert!(bytes_le(&[1, 2, 9], &[1, 3]));
    assert!(!bytes_le(&[200], &[100, 255]));
}
