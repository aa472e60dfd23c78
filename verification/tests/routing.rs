use nexusgate::static_files::content_type;
use nexusgate::proxy::{
    filter_request_headers, from_hex, is_hop_by_hop, percent_decode_vec, percent_encoding_decode,
    server_id_from_headers, server_id_from_uri, split_pair, split_query, strip_server_query,
    urlencoding_decode,
};
use nexusgate::static_files::{normalize_path, spa_candidates};

#[test]
fn hex_digits() {
    assert_eq!(from_hex(b'0'), Some(0));
    assert_eq!(from_hex(b'9'), Some(9));
    assert_eq!(from_hex(b'a'), Some(10));
    assert_eq!(from_hex(b'F'), Some(15));
    assert_eq!(from_hex(b'g'), None);
    assert_eq!(from_hex(b'%'), None);
}

#[test]
fn percent_decoding_bytes() {
    assert_eq!(percent_decode_vec(b"a%41+b"), b"aA b".to_vec());
    assert_eq!(percent_decode_vec(b"%zz%4"), b"%zz%4".to_vec());
    assert_eq!(percent_decode_vec(b"%2f%2F"), b"//".to_vec());
    assert_eq!(percent_decode_vec(b""), Vec::<u8>::new());
}

#[test]
fn percent_decoding_text() {
    assert_eq!(percent_encoding_decode("a%41+b"), "aA b");
    assert_eq!(percent_encoding_decode("%E4%BD%A0%E5%A5%BD"), "你好");
    // An invalid UTF-8 byte is replaced.
    assert_eq!(percent_encoding_decode("x%FFy"), "x\u{FFFD}y");
    assert_eq!(urlencoding_decode("node%201"), "node 1");
}

#[test]
fn text_without_escapes_is_unchanged() {
    assert_eq!(percent_encoding_decode("plain-text_1.2"), "plain-text_1.2");
}

#[test]
fn server_from_query() {
    assert_eq!(server_id_from_uri(Some("server=abc&x=1")), Some("abc".to_string()));
    assert_eq!(server_id_from_uri(Some("x=1&server=node%2D2")), Some("node-2".to_string()));
    assert_eq!(server_id_from_uri(Some("server=&server=b")), Some("b".to_string()));
    assert_eq!(server_id_from_uri(Some("servers=a")), None);
    assert_eq!(server_id_from_uri(Some("server")), None);
    assert_eq!(server_id_from_uri(Some("")), None);
    assert_eq!(server_id_from_uri(None), None);
    assert_eq!(server_id_from_uri(Some("server=a=b")), Some("a=b".to_string()));
}

#[test]
fn server_from_header() {
    assert_eq!(server_id_from_headers(Some("  node-1 ")), Some("node-1".to_string()));
    assert_eq!(server_id_from_headers(Some("   ")), None);
    assert_eq!(server_id_from_headers(None), None);
}

#[test]
fn strip_routing_parameter() {
    assert_eq!(strip_server_query("/api/nodes?server=a&page=2"), "/api/nodes?page=2");
    assert_eq!(strip_server_query("/api/nodes?server=a"), "/api/nodes");
    assert_eq!(strip_server_query("/api/nodes?a=1&&server&b=2"), "/api/nodes?a=1&b=2");
    assert_eq!(strip_server_query("/api/nodes"), "/api/nodes");
    assert_eq!(strip_server_query("/x?"), "/x");
    assert_eq!(strip_server_query("/x?servers=1"), "/x?servers=1");
}

#[test]
fn strip_twice_is_strip_once() {
    for s in ["/a?server=x&q=1&&server=y", "/b?k=v", "/c", "/d?server"] {
        let once = strip_server_query(s);
        assert_eq!(strip_server_query(&once), once);
    }
}

#[test]
fn hop_by_hop_headers() {
    assert!(is_hop_by_hop("Connection"));
    assert!(is_hop_by_hop("X-Nexus-Server"));
    assert!(is_hop_by_hop("content-length"));
    assert!(!is_hop_by_hop("authorization"));
    assert!(!is_hop_by_hop("content-type"));
}

#[test]
fn request_headers_filtered_in_order() {
    let hs = vec![
        ("Host".to_string(), 1),
        ("Authorization".to_string(), 2),
        ("Upgrade".to_string(), 3),
        ("Accept".to_string(), 4),
    ];
    let out = filter_request_headers(hs);
    assert_eq!(out, vec![("Authorization".to_string(), 2), ("Accept".to_string(), 4)]);
}

#[test]
fn query_pieces_and_pairs() {
    let q: Vec<char> = "a=1&&b".chars().collect();
    let ps = split_query(&q);
    let texts: Vec<String> = ps.iter().map(|p| p.iter().collect()).collect();
    assert_eq!(texts, vec!["a=1".to_string(), String::new(), "b".to_string()]);
    let p: Vec<char> = "k=v=w".chars().collect();
    let (k, v) = split_pair(&p);
    assert_eq!(k.iter().collect::<String>(), "k");
    assert_eq!(v.iter().collect::<String>(), "v=w");
}

#[test]
fn static_paths() {
    assert_eq!(normalize_path("/"), "index.html");
    assert_eq!(normalize_path("//assets/app.js"), "assets/app.js");
    assert_eq!(
        spa_candidates("/dashboard/"),
        vec!["dashboard/".to_string(), "dashboard/index.html".to_string(), "index.html".to_string()]
    );
    assert_eq!(
        spa_candidates("/"),
        vec!["index.html".to_string(), "index.html/index.html".to_string(), "index.html".to_string()]
    );
}

#[test]
fn stripped_path_selects_no_server() {
    for s in ["/a?server=x&q=1", "/b?q=1&server=y&server=z", "/c?server=&k=v"] {
        let out = strip_server_query(s);
        let query = out.split_once('?').map(|(_, q)| q);
        assert_eq!(server_id_from_uri(query), None);
    }
}

#[test]
fn plain_ids_decode_to_themselves() {
    assert_eq!(percent_encoding_decode("nope"), "nope");
    assert_eq!(percent_encoding_decode("%41a%20b+c%zz%4"), "Aa b c%zz%4");
    assert_eq!(server_id_from_uri(Some("server=a")), Some("a".to_string()));
}

#[test]
fn content_types() {
    assert_eq!(content_type("index.html"), "text/html");
    assert_eq!(content_type("assets/app.js"), "text/javascript");
    assert_eq!(content_type("blob"), "application/octet-stream");
}
