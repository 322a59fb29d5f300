//! Texts, numbers, collections, JSON, time, addresses and metrics.
use k3rs::collections::{
    has_string, matches_selector, order_descending, sort_texts, union_of, Labels, SortedMap,
};
use k3rs::constants::{caps_for_component, nat64_prefix, DATA_DIR, DEFAULT_AGENT_API_PORT};
use k3rs::json::{
    array, parse_bytes, parse_text, strings_in, text, to_compact, to_pretty, Fields, Json,
};
use k3rs::keys::{
    join_path, key_in, key_of, key_of_resource, namespace_of_key, prefix_in, prefix_of_kind,
};
use k3rs::metrics::MetricsRegistry;
use k3rs::net::{cidrs_overlap, parse_cidr, parse_ipv4};
use k3rs::numbers::{hex, hex16, i64_to_string, parse_i64, parse_u32, parse_u64, u64_to_string};
use k3rs::split::{
    join, lines, piece_after, split_on, split_once, split_whitespace, tail_lines, take_before, trim,
};
use k3rs::text::{
    contains, ends_with, first_bytes, first_chars, starts_with, str_eq, str_lt, strip_prefix,
    trim_end_matches, trim_start_matches,
};
use k3rs::time::{
    compact_stamp, dashed_stamp, elapsed_minutes, now, rfc3339, time_at, time_in_json, whole_seconds,
};

fn strings(items: &[&str]) -> Vec<String> {
    items.iter().map(|s| s.to_string()).collect()
}

const SAMPLES: [&str; 12] = [
    "", " ", "a", "ab", "aab", "aXbXc", "XX", "é\u{2003}b\tc \n", "\r\n", "a\n\nb\r\nc", "abcabc", "Xab",
];

#[test]
fn texts_behave_as_those_of_std() {
    for s in SAMPLES {
        assert_eq!(trim(s), s.trim());
        assert_eq!(
            split_whitespace(s),
            s.split_whitespace().map(String::from).collect::<Vec<_>>()
        );
        assert_eq!(lines(s), s.lines().map(String::from).collect::<Vec<_>>());
        assert_eq!(split_on(s, 'X'), s.split('X').map(String::from).collect::<Vec<_>>());
        assert_eq!(
            split_once(s, 'X'),
            s.split_once('X').map(|(a, b)| (a.to_string(), b.to_string()))
        );
        assert_eq!(take_before(s, 'X'), s.split('X').next().unwrap());
        assert_eq!(piece_after(s, "X"), s.split("X").nth(1).map(String::from));
        assert_eq!(trim_start_matches(s, "a"), s.trim_start_matches("a"));
        assert_eq!(trim_end_matches(s, "c"), s.trim_end_matches("c"));
        assert_eq!(first_chars(s, 2), s.chars().take(2).collect::<String>());
        for t in SAMPLES {
            assert_eq!(str_eq(s, t), s == t);
            assert_eq!(str_lt(s, t), s < t);
            assert_eq!(starts_with(s, t), s.starts_with(t));
            assert_eq!(ends_with(s, t), s.ends_with(t));
            assert_eq!(contains(s, t), s.contains(t));
            assert_eq!(strip_prefix(s, t), s.strip_prefix(t).map(String::from));
        }
    }
    assert_eq!(first_bytes("abc", 2), Some("ab".to_string()));
    assert_eq!(first_bytes("abc", 9), Some("abc".to_string()));
    assert_eq!(first_bytes("aé", 2), None);
    assert_eq!(tail_lines("1\n2\n3", 2), strings(&["2", "3"]));
    assert_eq!(tail_lines("1", 5), strings(&["1"]));
    assert_eq!(join(&strings(&["a", "b", "c"]), ", "), "a, b, c");
    assert_eq!(join(&vec![], ", "), "");
}

#[test]
fn numbers_are_written_and_read() {
    for n in [0u64, 7, 10, 999, 1 << 40, u64::MAX] {
        assert_eq!(u64_to_string(n), n.to_string());
        assert_eq!(hex16(n), format!("{:016x}", n));
        assert_eq!(hex(n), format!("{:x}", n));
        assert_eq!(parse_u64(&n.to_string(), u64::MAX), Some(n));
    }
    for n in [0i64, -1, 42, i64::MIN, i64::MAX] {
        assert_eq!(i64_to_string(n), n.to_string());
        assert_eq!(parse_i64(&n.to_string()), Some(n));
    }
    for s in ["", "+", "-", "+5", "-0", "007", "4294967296", "1 ", "٣", "12a"] {
        assert_eq!(parse_u32(s), s.parse::<u32>().ok());
        assert_eq!(parse_i64(s), s.parse::<i64>().ok());
    }
    assert_eq!(parse_u64("256", 255), None);
}

#[test]
fn keys_name_kind_namespace_and_id() {
    assert_eq!(prefix_of_kind("nodes"), "/registry/nodes/");
    assert_eq!(key_of("nodes", "a"), "/registry/nodes/a");
    assert_eq!(prefix_in("pods", "default"), "/registry/pods/default/");
    assert_eq!(key_in("pods", "default", "p"), "/registry/pods/default/p");
    assert_eq!(key_of_resource("services", "a", "n", "i"), "/registry/services/a/n");
    assert_eq!(key_of_resource("jobs", "a", "n", "i"), "/registry/jobs/a/i");
    assert!(key_in("pods", "default", "p").starts_with(&prefix_in("pods", "default")));
    assert_eq!(
        namespace_of_key("/registry/namespaces/default"),
        Some("default".to_string())
    );
    assert_eq!(namespace_of_key("/registry/namespaces/"), None);
    assert_eq!(namespace_of_key("/registry/pods/default/p"), None);
    assert_eq!(join_path("/a", "b"), "/a/b");
    assert_eq!(join_path("/a/", "b"), "/a/b");
    assert_eq!(join_path("/a", "/b"), "/b");
}

#[test]
fn addresses_and_ranges() {
    assert_eq!(parse_ipv4("10.1.2.3"), Some(0x0a01_0203));
    assert_eq!(parse_ipv4("255.255.255.255"), Some(u32::MAX));
    for s in ["", "1.2.3", "1.2.3.4.5", "256.1.1.1", "01.2.3.4", "1.2.3.a", " 1.2.3.4"] {
        assert_eq!(parse_ipv4(s), None, "{}", s);
    }
    assert!(parse_cidr("10.0.0.0/8").is_some());
    assert!(parse_cidr("10.0.0.0/33").is_none());
    assert!(parse_cidr("10.0.0.0").is_none());
    assert!(cidrs_overlap("10.0.0.0/8", "10.1.0.0/16"));
    assert!(cidrs_overlap("10.1.0.0/16", "10.0.0.0/8"));
    assert!(!cidrs_overlap("10.0.0.0/16", "10.1.0.0/16"));
    assert!(cidrs_overlap("0.0.0.0/0", "192.168.0.0/24"));
    assert!(!cidrs_overlap("nonsense", "10.1.0.0/16"));
}

#[test]
fn maps_keep_one_value_per_key() {
    let mut l = Labels::new();
    l.insert("a".to_string(), "1".to_string());
    l.insert("b".to_string(), "2".to_string());
    l.insert("a".to_string(), "3".to_string());
    assert_eq!(l.len(), 2);
    assert_eq!(l.get("a"), Some(&"3".to_string()));
    assert_eq!(l.remove("a"), Some("3".to_string()));
    assert!(!l.contains_key("a"));
    assert_eq!(l.remove("a"), None);
    let mut s: Labels = Labels::new();
    assert!(matches_selector(&l, &s));
    s.insert("b".to_string(), "2".to_string());
    assert!(matches_selector(&l, &s));
    s.insert("c".to_string(), "2".to_string());
    assert!(!matches_selector(&l, &s));
    let mut m: SortedMap<String> = SortedMap::new();
    for k in ["b", "c", "a", "b"] {
        m.insert(k.to_string(), format!("v{}", k));
    }
    assert_eq!(m.len(), 3);
    let keys: Vec<&str> = (0..3).map(|i| m.at(i).0.as_str()).collect();
    assert_eq!(keys, vec!["a", "b", "c"]);
    assert_eq!(m.get("c"), Some(&"vc".to_string()));
}

#[test]
fn lists_are_ordered_and_joined() {
    assert_eq!(order_descending(&vec![3, 9, 3, 5]), vec![1, 3, 0, 2]);
    assert_eq!(sort_texts(&strings(&["b", "a", "é", "Z"])), strings(&["Z", "a", "b", "é"]));
    assert!(has_string(&strings(&["a", "b"]), "b"));
    assert_eq!(
        union_of(strings(&["a", "b"]), &strings(&["b", "c", "c"])),
        strings(&["a", "b", "c"])
    );
}

#[test]
fn json_is_read_and_written() {
    let j = parse_text(r#"{"a":[1,-2,"x",null,true],"b":{"c":1.5}}"#).unwrap();
    assert_eq!(strings_in(j.get("a")), strings(&["x"]));
    match j.get("b").unwrap().get("c") {
        Some(Json::Real(t)) => assert_eq!(t, "1.5"),
        _ => panic!("a fraction"),
    }
    assert!(parse_text("{").is_none());
    assert!(parse_bytes(&[0xff]).is_none());
    let made = Fields::new()
        .with("z", text("q\"\n"))
        .with("n", Json::UInt(u64::MAX))
        .with("m", Json::Int(-5))
        .with("l", array(vec![Json::Null, Json::Bool(false)]))
        .object();
    let compact = to_compact(made);
    assert_eq!(
        compact,
        "{\"l\":[null,false],\"m\":-5,\"n\":18446744073709551615,\"z\":\"q\\\"\\n\"}"
    );
    let again = parse_text(&compact).unwrap();
    assert_eq!(again.get_str("z"), Some(&"q\"\n".to_string()));
    let pretty = to_pretty(Fields::new().with("a", Json::UInt(1)).object());
    assert_eq!(pretty, "{\n  \"a\": 1\n}");
}

#[test]
fn points_in_time_are_written() {
    let t = 1_700_000_000_123_456_789i128;
    assert_eq!(dashed_stamp(t), "20231114-221320");
    assert_eq!(compact_stamp(t), "20231114221320");
    assert_eq!(rfc3339(t), "2023-11-14T22:13:20.123456789+00:00");
    assert_eq!(time_in_json(t), "2023-11-14T22:13:20.123456789Z");
    assert_eq!(rfc3339(-1), "1969-12-31T23:59:59.999999999+00:00");
    let at = chrono::DateTime::from_timestamp(1_700_000_000, 123_456_789).unwrap();
    assert_eq!(rfc3339(t), at.to_rfc3339());
    assert_eq!(
        serde_json::to_string(&at).unwrap(),
        format!("\"{}\"", time_in_json(t))
    );
    let last = chrono::DateTime::<chrono::Utc>::MAX_UTC;
    let first = chrono::DateTime::<chrono::Utc>::MIN_UTC;
    assert_eq!(last.timestamp(), 8_210_266_876_799);
    assert_eq!(first.timestamp(), -8_334_601_228_800);
    assert_eq!(
        rfc3339(8_210_266_876_799 * 1_000_000_000 + 999_999_999),
        last.to_rfc3339()
    );
    assert_eq!(rfc3339(-8_334_601_228_800 * 1_000_000_000), first.to_rfc3339());
    assert_eq!(elapsed_minutes(0, 119_999_999_999), 1);
    assert_eq!(time_at(1_700_000_000, 5), 1_700_000_000_000_000_005);
    assert_eq!(time_at(-1, 999_999_999), -1);
    assert_eq!(whole_seconds(time_at(-1, 999_999_999)), -1);
    let a = now();
    let b = now();
    assert!(a > 1_600_000_000_000_000_000 && b >= a - 1_000_000_000_000);
}

#[test]
fn metrics_are_rendered_in_order() {
    let mut m = MetricsRegistry::new();
    m.register_gauge("g", "A gauge");
    m.register_counter("b_total", "Second");
    m.register_counter("a_total", "First");
    m.counter_inc("a_total");
    m.counter_add("a_total", 4);
    m.counter_inc("missing");
    m.gauge_set("g", -3);
    m.gauge_inc("g");
    m.gauge_dec("g");
    m.gauge_dec("g");
    assert_eq!(
        m.render(),
        "# HELP a_total First\n# TYPE a_total counter\na_total 5\n\
         # HELP b_total Second\n# TYPE b_total counter\nb_total 0\n\
         # HELP g A gauge\n# TYPE g gauge\ng -4\n"
    );
    m.register_counter("a_total", "First");
    let mut d = MetricsRegistry::default();
    assert_eq!(d.render(), "");
    d.register_counter("n", "wraps");
    d.counter_add("n", u64::MAX);
    d.counter_inc("n");
    assert!(d.render().ends_with("\nn 0\n"));
}

#[test]
fn metrics_stay_between_renderings() {
    let mut m = MetricsRegistry::new();
    m.register_counter("b", "B");
    m.register_counter("d", "D");
    m.register_gauge("g", "G");
    m.counter_add("b", 3);
    let first = m.render();
    m.register_counter("c", "C");
    m.register_counter("b", "another");
    m.register_gauge("a", "A");
    m.counter_inc("d");
    m.gauge_set("g", -1);
    let second = m.render();
    let heads = |text: &str| -> Vec<String> {
        text.lines().filter(|l| l.starts_with('#')).map(|l| l.to_string()).collect()
    };
    let later = heads(&second);
    let mut at: usize = 0;
    for line in heads(&first) {
        let place = later.iter().position(|l| *l == line).unwrap();
        assert!(place >= at);
        at = place;
    }
    assert!(second.contains("\nb 3\n") && second.contains("\nd 1\n"));
}

#[test]
fn constants_of_the_platform() {
    assert_eq!(DATA_DIR, "/var/lib/k3rs");
    assert_eq!(DEFAULT_AGENT_API_PORT, 10250);
    assert_eq!(nat64_prefix()[0], 0x00);
    assert_eq!(nat64_prefix()[1], 0x64);
    assert!(caps_for_component("nothing").is_empty());
}
