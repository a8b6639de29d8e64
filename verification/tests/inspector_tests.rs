use netpolicy::ebpf::{EbpfError, EbpfInspector};
use netpolicy::inspector::{
    pick_connection, rtt_candidates, split_addr, ConnectionTarget, RealInspector, SystemInspector,
};

fn first_rtt(text: &str) -> Option<u32> {
    for field in rtt_candidates(text) {
        if let Ok(ms) = field.parse::<f32>() {
            return Some(ms.round() as u32);
        }
    }
    None
}

#[test]
fn ebpf_support_check_returns_bool() {
    let _ = EbpfInspector::is_supported();
}

#[test]
fn ebpf_try_new_follows_support() {
    let supported = EbpfInspector::is_supported();
    match EbpfInspector::try_new(Some("eth0".to_string())) {
        Ok(inspector) => {
            assert!(supported);
            assert_eq!(inspector.interface, Some("eth0".to_string()));
        }
        Err(EbpfError::Unsupported(message)) => {
            assert!(!supported);
            assert_eq!(message, "ebpf not supported on this system");
        }
    }
}

#[test]
fn ebpf_with_support_both_ways() {
    let ok = EbpfInspector::with_support(None, true).expect("supported");
    assert_eq!(ok.interface, None);
    match EbpfInspector::with_support(Some("lo".to_string()), false) {
        Err(EbpfError::Unsupported(message)) => {
            assert_eq!(message, "ebpf not supported on this system")
        }
        Ok(_) => panic!("expected Unsupported"),
    }
}

#[test]
fn parse_rtt_from_ss_extracts_value() {
    let sample = "ESTAB 0 0 1.1.1.1:443 2.2.2.2:55555 cubic rtt:12.3/3.4";
    let rtt = first_rtt(sample).expect("rtt");
    assert_eq!(rtt, 12);
}

#[test]
fn rtt_candidates_lists_fields_in_order() {
    let text = "no field here\n  a rtt: 7.5 /1 rtt:9/2\nrtt:abc\r\nrtt:40";
    assert_eq!(
        rtt_candidates(text),
        vec!["7.5".to_string(), "abc".to_string(), "40".to_string()]
    );
    assert_eq!(first_rtt(text), Some(8));
    assert_eq!(rtt_candidates(""), Vec::<String>::new());
    assert_eq!(rtt_candidates("rtt:"), vec!["".to_string()]);
    assert_eq!(first_rtt("rtt:\nrtt:x"), None);
}

#[test]
fn split_addr_parses_host_and_port() {
    let (host, port) = split_addr("10.0.0.1:443").expect("addr");
    assert_eq!(host, "10.0.0.1");
    assert_eq!(port, 443);
}

#[test]
fn split_addr_edge_cases() {
    assert_eq!(split_addr(" [::1]:8080 "), Some(("::1]".to_string(), 8080)));
    assert_eq!(split_addr("[fe80::1:22]"), Some(("fe80::1".to_string(), 22)));
    assert_eq!(split_addr("host"), None);
    assert_eq!(split_addr("host:"), None);
    assert_eq!(split_addr("host:65536"), None);
    assert_eq!(split_addr("host:+80"), Some(("host".to_string(), 80)));
    assert_eq!(split_addr(":1"), Some(("".to_string(), 1)));
    assert_eq!(split_addr("a:b:0"), Some(("a:b".to_string(), 0)));
}

#[test]
fn inspector_builders_set_one_field() {
    let target = ConnectionTarget { ip: "1.2.3.4".to_string(), port: 443, protocol: "tcp".to_string() };
    let real = RealInspector::new(target, None);
    assert_eq!(real.ss_path, "ss");
    assert_eq!(real.sni_map_path, None);
    let real = real.with_sni_map("/tmp/map.json".to_string()).with_ss_path("/bin/ss".to_string());
    assert_eq!(real.sni_map_path, Some("/tmp/map.json".to_string()));
    assert_eq!(real.ss_path, "/bin/ss");
    assert_eq!(real.target.ip, "1.2.3.4");
    assert_eq!(real.target.port, 443);

    let system = SystemInspector::new("udp", Some("m".to_string()));
    assert_eq!(system.protocol, "udp");
    assert_eq!(system.prefer_port, None);
    assert_eq!(system.sni_map_path, Some("m".to_string()));
    assert_eq!(system.ss_path, "ss");
    let system = system.with_port(53).with_sni_map("n".to_string()).with_ss_path("s".to_string());
    assert_eq!(system.prefer_port, Some(53));
    assert_eq!(system.sni_map_path, Some("n".to_string()));
    assert_eq!(system.ss_path, "s");
    assert_eq!(system.protocol, "udp");
}

#[test]
fn pick_connection_from_listing() {
    let listing = "\nESTAB 0 0 10.0.0.2:51000 1.1.1.1:443 cubic rtt:12.3/3.4\n\t rtt:99\nESTAB 0 0 10.0.0.2:22 2.2.2.2:6000\n";
    let (target, line) = pick_connection(listing, "tcp", None).expect("first line");
    assert_eq!(target.ip, "1.1.1.1");
    assert_eq!(target.port, 443);
    assert_eq!(target.protocol, "tcp");
    assert_eq!(line, "ESTAB 0 0 10.0.0.2:51000 1.1.1.1:443 cubic rtt:12.3/3.4");
    assert_eq!(first_rtt(&line), Some(12));
    let (target, line) = pick_connection(listing, "udp", Some(22)).expect("local port");
    assert_eq!(target.ip, "2.2.2.2");
    assert_eq!(target.port, 6000);
    assert_eq!(target.protocol, "udp");
    assert_eq!(first_rtt(&line), None);
    let (target, _) = pick_connection(listing, "tcp", Some(443)).expect("peer port");
    assert_eq!(target.port, 443);
    assert!(pick_connection(listing, "tcp", Some(1)).is_none());
    assert!(pick_connection("", "tcp", None).is_none());
    let header = "State Recv-Q Send-Q Local Address:Port Peer Address:Port\nESTAB 0 0 10.0.0.2:51000 1.1.1.1:443";
    assert!(pick_connection(header, "tcp", None).is_none());
    let short = "a b c d\nESTAB 0 0 [::1]:5 [::2]:6";
    let (target, _) = pick_connection(short, "tcp", None).expect("bracketed");
    assert_eq!(target.ip, "::2]");
    assert_eq!(target.port, 6);
}
