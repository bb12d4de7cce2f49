use trisig::request::{answer, light_color, parse_query, Reading};
use trisig::server::{port_after_failure, ServerInfo, BASE_PORT, MAX_TRIES};

#[test]
fn port_search_moves_on() {
    assert_eq!(port_after_failure(BASE_PORT), Some(BASE_PORT + 1));
    assert_eq!(port_after_failure(BASE_PORT + 98), Some(BASE_PORT + 99));
    assert_eq!(port_after_failure(BASE_PORT + 99), None);
}

#[test]
fn port_search_tries_a_hundred_ports_then_gives_up() {
    let mut tried = vec![BASE_PORT];
    let mut port = BASE_PORT;
    while let Some(next) = port_after_failure(port) {
        tried.push(next);
        port = next;
    }
    assert_eq!(tried.len(), MAX_TRIES as usize);
    assert_eq!(tried, (53789u16..53889).collect::<Vec<_>>());
}

#[test]
fn server_info_addresses() {
    let info = ServerInfo::new(53790, Some("192.168.1.20".to_string()));
    assert_eq!(info.port, 53790);
    assert_eq!(info.lan_ip, "192.168.1.20");
    assert_eq!(info.lan_url(), "http://192.168.1.20:53790");
    assert_eq!(info.local_url(), "http://127.0.0.1:53790");
    assert_eq!(info.lan_label(), "局域网  http://192.168.1.20:53790");
    assert_eq!(info.local_label(), "本地 http://127.0.0.1:53790");
}

#[test]
fn server_info_without_detected_address_uses_loopback() {
    let info = ServerInfo::new(53789, None);
    assert_eq!(info.lan_ip, "127.0.0.1");
    assert_eq!(info.lan_url(), "http://127.0.0.1:53789");
}

#[test]
fn query_values_are_read() {
    let q = parse_query("/?color=green&interval=0");
    assert_eq!(q.color.as_deref(), Some("green"));
    assert_eq!(q.interval.as_deref(), Some("0"));
    assert_eq!(q.transparency, None);
}

#[test]
fn query_last_value_wins() {
    let q = parse_query("/signal?color=red&color=yellow&transparency=0.5&transparency=x");
    assert_eq!(q.color.as_deref(), Some("yellow"));
    assert_eq!(q.transparency.as_deref(), Some("x"));
}

#[test]
fn query_edge_cases() {
    let q = parse_query("/color=red");
    assert_eq!(q.color, None);
    let q = parse_query("/?");
    assert_eq!(q.color, None);
    let q = parse_query("/?color&interval=5&&=3&unknown=1");
    assert_eq!(q.color, None);
    assert_eq!(q.interval.as_deref(), Some("5"));
    let q = parse_query("/?color=a=b?c&interval=");
    assert_eq!(q.color.as_deref(), Some("a=b?c"));
    assert_eq!(q.interval.as_deref(), Some(""));
    let q = parse_query("/a?b?color=red");
    assert_eq!(q.color, None);
    let q = parse_query("?color=%E7%BA%A2");
    assert_eq!(q.color.as_deref(), Some("%E7%BA%A2"));
}

fn reading(text: &str, in_range: bool) -> Option<Reading> {
    Some(Reading { text: text.to_string(), in_range })
}

#[test]
fn light_colors() {
    assert!(light_color("red") && light_color("yellow") && light_color("green"));
    assert!(!light_color("blue") && !light_color("Red") && !light_color(""));
}

#[test]
fn answer_refuses_other_methods() {
    let r = answer(false, &Some("red".to_string()), &reading("0", true), &None);
    assert_eq!(r.status, 405);
    assert_eq!(r.body, "method not allowed");
    assert!(!r.emit_light && !r.emit_transparency);
}

#[test]
fn answer_switches_the_lamp() {
    let r = answer(true, &Some("red".to_string()), &reading("500", true), &None);
    assert_eq!(r.status, 200);
    assert_eq!(r.body, "ok color=red interval=500\n");
    assert!(r.emit_light && !r.emit_transparency);
}

#[test]
fn answer_reports_both() {
    let r = answer(true, &Some("green".to_string()), &reading("0", true), &reading("0.5", true));
    assert_eq!(r.status, 200);
    assert_eq!(r.body, "ok color=green interval=0, transparency=0.5\n");
    assert!(r.emit_light && r.emit_transparency);
}

#[test]
fn answer_transparency_only() {
    let r = answer(true, &Some("blue".to_string()), &reading("0", true), &reading("1", true));
    assert_eq!(r.status, 200);
    assert_eq!(r.body, "ok transparency=1\n");
    assert!(!r.emit_light && r.emit_transparency);
}

#[test]
fn answer_usage_when_nothing_accepted() {
    let usage = "usage: GET /?color={red|yellow|green}&interval={ms, 0=solid}&transparency={0.0-1.0}\n";
    let r = answer(true, &None, &None, &None);
    assert_eq!(r.status, 400);
    assert_eq!(r.body, usage);
    let r = answer(true, &Some("red".to_string()), &reading("-1", false), &reading("2", false));
    assert_eq!(r.status, 400);
    assert_eq!(r.body, usage);
    let r = answer(true, &Some("red".to_string()), &None, &None);
    assert_eq!(r.status, 400);
    assert!(!r.emit_light && !r.emit_transparency);
}
