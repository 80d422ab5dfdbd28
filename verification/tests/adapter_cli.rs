use pqcas::backend::{client_failed, launch_failed, timed_out};
use pqcas::adapter::{check_probe_request, split_list, Backend, Config};
use pqcas::backend::{
    alert_description, attach_capture, boringssl_args, byte_counts, client_hello, command_args,
    connect_arg, default_cipher_suites, first_error_line, http_request_line, mock, openssl_args,
    parse_alert, parse_boringssl, parse_http, parse_openssl, parse_openssl_certs, parse_output,
    parse_wolfssl, sni, transcript, value_after, wolfssl_args,
};
use pqcas::proto::{Diagnostics, Direction, ProbeRequest, ProbeResponse, Stage, Target};

fn request(groups: &[&str], sigs: &[&str]) -> ProbeRequest {
    let mut req = ProbeRequest::new(Target {
        host: "tls-good".into(),
        port: 11000,
        sni: None,
        http_path: Some("/".into()),
    });
    req.kem_groups = groups.iter().map(|s| s.to_string()).collect();
    req.sig_algs = sigs.iter().map(|s| s.to_string()).collect();
    req
}

fn config(groups: &str) -> Config {
    Config {
        backend: "mock".into(),
        name: Some("openssl".into()),
        bind: "0".into(),
        client_bin: "openssl".into(),
        kem_groups: groups.into(),
        sig_algs: "mldsa65".into(),
        version: "test".into(),
        workdir: None,
    }
}

const OPENSSL_SUCCESS: &str = "\
CONNECTED(00000003)
Certificate chain
 0 s:CN=lab.example i:CN=pqcas-lab-ca
---
SSL handshake has read 4567 bytes and written 1234 bytes
New, TLSv1.3, Cipher is TLS_AES_256_GCM_SHA384
Negotiated TLS1.3 group: X25519MLKEM768
Peer signature type: mldsa65
SSL-Session:
    Protocol  : TLSv1.3
    Cipher    : TLS_AES_256_GCM_SHA384
HTTP/1.1 200 OK
Server: nginx/1.28.1
Content-Type: application/json

{}
";

#[test]
fn openssl_args_pin_groups_and_sigalgs() {
    let args = openssl_args(&request(&["X25519MLKEM768"], &["mldsa65"]));
    let joined = args.join(" ");
    assert!(joined.contains("-groups X25519MLKEM768"), "{joined}");
    assert!(joined.contains("-sigalgs mldsa65"), "{joined}");
    assert!(joined.contains("-connect tls-good:11000"), "{joined}");
}

#[test]
fn openssl_success_output_is_parsed() {
    let response =
        parse_openssl("openssl", &request(&["X25519MLKEM768"], &["mldsa65"]), OPENSSL_SUCCESS, "");
    assert!(response.handshake_success);
    assert_eq!(response.negotiated.group.as_deref(), Some("X25519MLKEM768"));
    assert_eq!(response.negotiated.cipher_suite.as_deref(), Some("TLS_AES_256_GCM_SHA384"));
    assert_eq!(response.failed_stage, Stage::Complete);
    assert_eq!(response.http.as_ref().unwrap().status, 200);
    assert_eq!(response.evidence.bytes_sent, 1234);
    assert_eq!(response.evidence.bytes_received, 4567);
    assert_eq!(response.cert_chain.len(), 1);
}

#[test]
fn openssl_alert_number_becomes_a_name() {
    let stderr = "40D0F3:error:0A000410:SSL routines:ssl3_read_bytes:sslv3 alert handshake failure:ssl/record/rec_layer_s3.c:907:SSL alert number 40";
    let response =
        parse_openssl("openssl", &request(&["P-256"], &["mldsa44"]), "CONNECTED(3)\n", stderr);
    assert!(!response.handshake_success);
    assert_eq!(response.alert.as_ref().unwrap().description, "handshake_failure");
    assert_eq!(response.failed_stage, Stage::TlsHandshake);
    assert_eq!(response.messages[1].kind, "Alert");
}

#[test]
fn mock_matches_the_lab_targets() {
    let config = config("X25519MLKEM768,MLKEM768");
    let ok = mock(&config, &request(&["X25519MLKEM768"], &["mldsa65"]));
    assert!(ok.handshake_success);
    assert_eq!(ok.evidence.bytes_sent, 9240);

    let unknown_group = mock(&config, &request(&["mceliece460896"], &["mldsa65"]));
    assert!(!unknown_group.handshake_success);

    let mut vuln = request(&["X25519MLKEM768"], &["mldsa65"]);
    vuln.target.host = "tls-vuln".into();
    vuln.target.port = 8888;
    let broken = mock(&config, &vuln);
    assert_eq!(broken.error_summary.as_deref(), Some("InvalidTag:"));
}

#[test]
fn http_block_parsing_stops_at_the_blank_line() {
    let http = parse_http("HTTP/1.1 404 Not Found\r\nServer: nginx/1.28.1\r\n\r\nbody here").unwrap();
    assert_eq!(http.status, 404);
    assert_eq!(http.headers.len(), 1);
    assert_eq!(http.body_excerpt.as_deref(), Some("body here"));
}

#[test]
fn capability_lists_tolerate_spacing_and_blanks() {
    assert_eq!(split_list(" a, b ,,c "), vec!["a", "b", "c"]);
    assert!(split_list("").is_empty());
}

#[test]
fn backend_names_parse_and_unknown_ones_are_refused() {
    assert_eq!(Backend::parse("openssl"), Ok(Backend::OpenSsl));
    assert_eq!(Backend::parse("boringssl"), Ok(Backend::BoringSsl));
    assert_eq!(Backend::parse("wolfssl"), Ok(Backend::WolfSsl));
    assert_eq!(Backend::parse("mock"), Ok(Backend::Mock));
    assert_eq!(Backend::parse("gnutls"), Err("unknown backend gnutls".to_string()));
}

#[test]
fn capabilities_use_the_backend_name_when_no_name_is_given() {
    let mut c = config(" X25519MLKEM768 , ,MLKEM768");
    c.name = None;
    let caps = c.capabilities();
    assert_eq!(caps.adapter, "mock");
    assert_eq!(caps.version, "test");
    assert_eq!(caps.kem_groups, vec!["X25519MLKEM768", "MLKEM768"]);
    assert_eq!(caps.sig_algs, vec!["mldsa65"]);
    assert_eq!(caps.tls_versions, vec!["TLSv1.3", "TLSv1.2"]);
    assert_eq!(config("").adapter_name(), "openssl");
}

#[test]
fn blank_target_host_is_refused() {
    let mut req = request(&[], &[]);
    assert_eq!(check_probe_request(&req), Ok(()));
    req.target.host = "   ".into();
    assert_eq!(check_probe_request(&req), Err("target host is required".to_string()));
}

#[test]
fn request_line_and_connect_target_follow_the_request() {
    let mut req = request(&[], &[]);
    assert_eq!(connect_arg(&req), "tls-good:11000");
    assert_eq!(sni(&req), "tls-good");
    assert_eq!(
        http_request_line(&req),
        "GET / HTTP/1.1\r\nHost: tls-good\r\nUser-Agent: pqcas-probe\r\nConnection: close\r\nAccept: */*\r\n\r\n"
    );
    req.target.sni = Some("lab.example".into());
    req.target.http_path = None;
    assert_eq!(sni(&req), "lab.example");
    assert_eq!(
        http_request_line(&req),
        "GET / HTTP/1.1\r\nHost: lab.example\r\nUser-Agent: pqcas-probe\r\nConnection: close\r\nAccept: */*\r\n\r\n"
    );
}

#[test]
fn each_stack_gets_its_own_command_line() {
    let mut req = request(&["X25519MLKEM768", "MLKEM768"], &["mldsa65", "mldsa44"]);
    req.tls_versions = vec!["TLSv1.3".into()];
    assert_eq!(
        openssl_args(&req),
        vec![
            "s_client", "-connect", "tls-good:11000", "-servername", "tls-good", "-showcerts",
            "-verify_return_error", "-ign_eof", "-tls1_3", "-groups", "X25519MLKEM768:MLKEM768",
            "-sigalgs", "mldsa65:mldsa44",
        ]
    );
    assert_eq!(
        boringssl_args(&req),
        vec![
            "client", "-connect", "tls-good:11000", "-server-name", "tls-good", "-curves",
            "X25519MLKEM768:MLKEM768",
        ]
    );
    assert_eq!(
        wolfssl_args(&req),
        vec![
            "-h", "tls-good", "-p", "11000", "-v", "4", "-S", "tls-good", "-d", "--pqc",
            "X25519MLKEM768",
        ]
    );
    assert_eq!(command_args(Backend::WolfSsl, &req), wolfssl_args(&req));
    let bare = request(&[], &[]);
    assert_eq!(
        openssl_args(&bare),
        vec![
            "s_client", "-connect", "tls-good:11000", "-servername", "tls-good", "-showcerts",
            "-verify_return_error", "-ign_eof",
        ]
    );
    assert_eq!(wolfssl_args(&bare).len(), 9);
}

#[test]
fn client_hello_lists_what_was_offered() {
    let req = request(&["X25519MLKEM768"], &["mldsa65"]);
    let hello = client_hello(&req);
    assert_eq!(hello.index, 0);
    assert_eq!(hello.direction, Direction::Outbound);
    assert_eq!(hello.kind, "ClientHello");
    assert_eq!(hello.fields.len(), 4);
    assert_eq!(hello.fields[0].label, "Offered Groups");
    assert_eq!(hello.fields[0].values, vec!["X25519MLKEM768"]);
    assert_eq!(hello.fields[3].label, "Cipher Suites Offered");
    assert_eq!(hello.fields[3].values, default_cipher_suites());
    assert_eq!(default_cipher_suites().len(), 7);
    assert_eq!(default_cipher_suites()[0], "TLS_AES_128_GCM_SHA256");
}

#[test]
fn alert_numbers_map_to_rfc_names() {
    assert_eq!(alert_description(0), "close_notify");
    assert_eq!(alert_description(40), "handshake_failure");
    assert_eq!(alert_description(112), "unrecognized_name");
    assert_eq!(alert_description(999), "unknown");
    let named = parse_alert("error: tlsv1 alert protocol_version").unwrap();
    assert_eq!(named.level, "fatal");
    assert_eq!(named.description, "protocol_version");
    assert_eq!(parse_alert("SSL alert number 70 here").unwrap().description, "protocol_version");
    assert!(parse_alert("SSL alert number x").is_none());
    assert!(parse_alert("all quiet").is_none());
}

#[test]
fn small_readers_pick_the_right_line() {
    assert_eq!(value_after("a: \nb: two \n", ": ").as_deref(), Some("two"));
    assert_eq!(value_after("nothing", ": "), None);
    assert_eq!(byte_counts("x\nSSL handshake has read 10 bytes and written 20 bytes\n"), (20, 10));
    assert_eq!(byte_counts("no counts"), (0, 0));
    assert_eq!(
        first_error_line("fine\n  Some ERROR happened  \nlater error").as_deref(),
        Some("Some ERROR happened")
    );
    assert_eq!(first_error_line("all good"), None);
    let certs = parse_openssl_certs(" 0 s:CN=a i:CN=b\n1 s:CN=c\nx s:CN=d\n");
    assert_eq!(certs.len(), 2);
    assert_eq!(certs[0].subject, "CN=a");
    assert_eq!(certs[0].issuer, "CN=b");
    assert_eq!(certs[1].subject, "CN=c");
    assert_eq!(certs[1].issuer, "");
}

#[test]
fn unicode_digits_start_a_certificate_line() {
    // `char::is_numeric` accepts more than ASCII digits.
    let certs = parse_openssl_certs("\u{0663} s:CN=arabic-indic\n");
    assert_eq!(certs.len(), 1);
    assert_eq!(certs[0].subject, "CN=arabic-indic");
}

#[test]
fn http_body_is_cut_at_512_chars() {
    let body = "x".repeat(600);
    let text = format!("junk HTTP/1.0 302 Found\nLocation: /a\n\n{body}\nmore");
    let http = parse_http(&text).unwrap();
    assert_eq!(http.status, 302);
    assert_eq!(http.headers[0].label, "Location");
    assert_eq!(http.headers[0].values, vec!["/a"]);
    assert_eq!(http.body_excerpt.unwrap().chars().count(), 512);
    assert!(parse_http("HTTP/1.1 abc").is_none());
    assert!(parse_http("no http here").is_none());
    assert!(parse_http("HTTP/1.1 204 No Content\n\n  ").unwrap().body_excerpt.is_none());
}

#[test]
fn openssl_success_without_http_stops_at_the_request() {
    let stdout = "New, TLSv1.3, Cipher is TLS_AES_128_GCM_SHA256\nServer Temp Key: X25519, 253 bits\n";
    let response = parse_openssl("a", &request(&["x25519"], &[]), stdout, "");
    assert!(response.handshake_success);
    assert_eq!(response.negotiated.tls_version.as_deref(), Some("TLSv1.3"));
    assert_eq!(response.negotiated.group.as_deref(), Some("X25519, 253 bits"));
    assert_eq!(response.failed_stage, Stage::HttpRequest);
    assert_eq!(response.messages[1].kind, "ServerHello");
    assert!(response.error_summary.is_none());
    match &response.diagnostics {
        Diagnostics::Offered { offered_groups, offered_sig_algs } => {
            assert_eq!(offered_groups, &vec!["x25519".to_string()]);
            assert!(offered_sig_algs.is_empty());
        }
        _ => panic!("diagnostics should list the offer"),
    }
}

#[test]
fn null_cipher_is_not_a_handshake() {
    let stdout = "New, (NONE), Cipher is (NONE)\n    Protocol  : TLSv1.3\n    Cipher    : 0000\n";
    let response = parse_openssl("a", &request(&[], &[]), stdout, "handshake failed");
    assert!(!response.handshake_success);
    assert_eq!(response.error_summary.as_deref(), Some("handshake failed"));
}

#[test]
fn boringssl_and_wolfssl_outputs_are_parsed() {
    let req = request(&["X25519MLKEM768"], &[]);
    let b = parse_boringssl(
        "boringssl",
        &req,
        "Connected.\n  Version: TLSv1.3\n  Cipher: TLS_AES_128_GCM_SHA256\n  ECDHE curve: X25519MLKEM768\n",
        "",
    );
    assert!(b.handshake_success);
    assert_eq!(b.negotiated.group.as_deref(), Some("X25519MLKEM768"));
    assert_eq!(b.evidence.bytes_sent, 0);
    let w = parse_wolfssl(
        "wolfssl",
        &req,
        "SSL version is TLSv1.3\nSSL cipher suite is TLS_AES_256_GCM_SHA384\nSSL curve name is X25519MLKEM768\n",
        "",
    );
    assert!(w.handshake_success);
    assert_eq!(w.negotiated.tls_version.as_deref(), Some("TLSv1.3"));
    assert!(w.negotiated.cert_verify_sig_alg.is_none());
    let failed = parse_output(Backend::WolfSsl, "wolfssl", &req, "", "err -313 alert bad_record_mac");
    assert!(!failed.handshake_success);
    assert_eq!(failed.alert.unwrap().description, "bad_record_mac");
}

#[test]
fn mock_names_the_missing_side() {
    let config = config("X25519MLKEM768");
    let no_sig = mock(&config, &request(&["x25519mlkem768"], &["rsa_pss"]));
    assert!(!no_sig.handshake_success);
    assert_eq!(no_sig.error_summary.as_deref(), Some("no shared signature algorithm"));
    assert_eq!(no_sig.alert.unwrap().description, "handshake_failure");
    let no_group = mock(&config, &request(&["P-256"], &[]));
    assert_eq!(no_group.error_summary.as_deref(), Some("no shared group"));
    let ok = mock(&config, &request(&["x25519mlkem768"], &[]));
    assert!(ok.handshake_success);
    assert_eq!(ok.negotiated.group.as_deref(), Some("x25519mlkem768"));
    assert_eq!(ok.negotiated.cert_verify_sig_alg.as_deref(), Some("ecdsa_secp256r1_sha256"));
    assert_eq!(ok.cert_chain[0].subject, "CN=tls-good");
    assert_eq!(ok.http.unwrap().body_excerpt.as_deref(), Some("{\"mock\":true}"));
    assert_eq!(ok.evidence.bytes_received, 1658);
    assert_eq!(ok.failed_stage, Stage::Complete);
}

#[test]
fn capture_is_the_base64_of_the_transcript() {
    let args = vec!["s_client".to_string(), "-connect".to_string()];
    let t = transcript("openssl", &args, "out", "err");
    assert_eq!(t, "$ openssl s_client -connect\n--- stdout ---\nout\n--- stderr ---\nerr");
    let mut response = ProbeResponse::failure("a".into(), Stage::Tcp, "x".into());
    attach_capture(&mut response, "hello");
    assert_eq!(response.evidence.uds_dump_b64.as_deref(), Some("aGVsbG8="));
    assert_eq!(response.error_summary.as_deref(), Some("x"));
}

#[test]
fn new_requests_carry_the_default_versions_and_timeout() {
    let req = ProbeRequest::new(Target { host: "example.test".into(), port: 443, sni: None, http_path: None });
    assert_eq!(req.timeout_ms, 15000);
    assert_eq!(req.tls_versions, vec!["TLSv1.3", "TLSv1.2"]);
    assert!(req.kem_groups.is_empty() && req.sig_algs.is_empty() && req.cipher_suites.is_empty());
    assert!(!req.capture.raw_records && !req.capture.keylog);
    assert_eq!(pqcas::proto::default_timeout_ms(), 15000);
}

#[test]
fn stages_have_snake_case_names() {
    assert_eq!(Stage::Dns.as_str(), "dns");
    assert_eq!(Stage::Tcp.as_str(), "tcp");
    assert_eq!(Stage::TlsHandshake.as_str(), "tls_handshake");
    assert_eq!(Stage::HttpRequest.as_str(), "http_request");
    assert_eq!(Stage::Complete.as_str(), "complete");
}

#[test]
fn numbers_are_read_as_str_parse_reads_them() {
    // A leading `+` is accepted; anything else that is not a digit is not a number.
    assert_eq!(byte_counts("SSL handshake has read +7 bytes and written 3 bytes"), (3, 7));
    assert_eq!(byte_counts("SSL handshake has read 7 bytes and written -3 bytes"), (0, 0));
    assert_eq!(parse_alert("SSL alert number +40").unwrap().description, "handshake_failure");
    assert!(parse_alert("SSL alert number 70000").is_none());
    assert_eq!(parse_http("HTTP/1.1 +200 OK").unwrap().status, 200);
}

#[test]
fn runs_without_client_output_fail_with_a_reason() {
    let r = launch_failed("openssl".into(), "/usr/bin/openssl", "No such file or directory");
    assert_eq!(r.failed_stage, Stage::Tcp);
    assert_eq!(r.error_summary.as_deref(), Some("cannot launch /usr/bin/openssl: No such file or directory"));
    let t = timed_out("openssl".into(), 15000);
    assert_eq!(t.failed_stage, Stage::TlsHandshake);
    assert_eq!(t.error_summary.as_deref(), Some("timed out after 15000 ms"));
    assert!(!t.handshake_success && t.messages.is_empty());
    assert_eq!(client_failed("a".into(), "broken pipe").error_summary.as_deref(), Some("client failed: broken pipe"));
}
