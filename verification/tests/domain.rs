use pqcas::domain::classify;
use pqcas::params::{all_parameter_sets, lookup, ml_dsa_44, ml_dsa_65, ml_dsa_87};
use pqcas::proto::{Capabilities, ProbeResponse, Stage};
use pqcas::status::{
    Capability, ExecStatus, KemRunMode, ReportStatus, ResultStatus, TaskStatus,
};

fn caps() -> Capabilities {
    Capabilities {
        adapter: "openssl".into(),
        version: "3.5.0".into(),
        kem_groups: vec!["X25519MLKEM768".into()],
        sig_algs: vec!["mldsa65".into()],
        tls_versions: vec!["TLSv1.3".into()],
    }
}

#[test]
fn algorithms_the_adapter_never_heard_of_are_unsupported() {
    let response = ProbeResponse::failure("openssl".into(), Stage::TlsHandshake, "no shared group".into());
    let status = classify(&response, &["mceliece460896".to_string()], &caps());
    assert_eq!(status, ResultStatus::Unsupported);
}

#[test]
fn known_algorithm_that_fails_is_a_real_failure() {
    let response =
        ProbeResponse::failure("openssl".into(), Stage::TlsHandshake, "handshake_failure".into());
    let status = classify(&response, &["X25519MLKEM768".to_string()], &caps());
    assert_eq!(status, ResultStatus::Failed);
}

#[test]
fn known_algorithm_that_succeeds_passes_and_outcome_never_makes_unsupported() {
    let mut response = ProbeResponse::failure("openssl".into(), Stage::Complete, "".into());
    response.handshake_success = true;
    let offered = ["mceliece460896".to_string(), "mldsa65".to_string()];
    assert_eq!(classify(&response, &offered, &caps()), ResultStatus::Passed);
    // Unsupported is decided by the offer alone, whatever the handshake did.
    let unknown = ["mceliece460896".to_string()];
    assert_eq!(classify(&response, &unknown, &caps()), ResultStatus::Unsupported);
    // Nothing offered: nothing the adapter knows was offered.
    assert_eq!(classify(&response, &[], &caps()), ResultStatus::Unsupported);
}

#[test]
fn sizes_match_fips204() {
    assert_eq!(lookup("ML-DSA-65").unwrap().pk_len, 1952);
    assert_eq!(lookup("ml-dsa-87").unwrap().sig_len, 4627);
    assert!(lookup("ML-KEM-768").is_none());
}

#[test]
fn every_parameter_set_is_found_by_its_own_name() {
    for p in all_parameter_sets() {
        assert_eq!(lookup(p.name), Some(p));
        assert_eq!(lookup(&p.name.to_ascii_lowercase()), Some(p));
    }
    assert_eq!(ml_dsa_44().sk_len, 2560);
    assert_eq!(ml_dsa_65().sig_len, 3309);
    assert_eq!(ml_dsa_87().pk_len, 2592);
    assert_eq!(ml_dsa_44().seed_len, 32);
    assert!(lookup("ML-DSA-6").is_none());
    assert!(lookup("").is_none());
}

#[test]
fn capability_maps_to_acvp_spelling() {
    assert_eq!(Capability::SigGen.acvp_mode(), "sigGen");
    assert_eq!(Capability::from_acvp_mode("sigVer"), Some(Capability::SigVer));
    assert_eq!(Capability::from_acvp_mode("nope"), None);
}

#[test]
fn statuses_round_trip_through_strings() {
    for status in [ResultStatus::Passed, ResultStatus::Unsupported, ResultStatus::Disabled] {
        assert_eq!(status.as_str().parse::<ResultStatus>().unwrap(), status);
    }
}

#[test]
fn every_vocabulary_round_trips_and_refuses_strangers() {
    for s in [
        TaskStatus::Pending,
        TaskStatus::Running,
        TaskStatus::Finished,
        TaskStatus::Failed,
        TaskStatus::Cancelled,
    ] {
        assert_eq!(TaskStatus::from_wire(s.as_str()), Ok(s));
    }
    for s in [ExecStatus::Queued, ExecStatus::Running, ExecStatus::Finished, ExecStatus::Error] {
        assert_eq!(s.as_str().parse::<ExecStatus>(), Ok(s));
    }
    for s in [ReportStatus::Missing, ReportStatus::Partial, ReportStatus::Complete] {
        assert_eq!(ReportStatus::from_wire(s.as_str()), Ok(s));
    }
    for s in [KemRunMode::GroupCompat, KemRunMode::LibraryCompat, KemRunMode::Priority] {
        assert_eq!(KemRunMode::from_wire(s.as_str()), Ok(s));
    }
    for c in [Capability::KeyGen, Capability::SigGen, Capability::SigVer] {
        assert_eq!(Capability::from_wire(c.as_str()), Ok(c));
        assert_eq!(Capability::from_acvp_mode(c.acvp_mode()), Some(c));
    }
    assert_eq!(ResultStatus::Pending.as_str(), "pending");
    assert_eq!(ReportStatus::Partial.as_str(), "partial");
    assert_eq!(KemRunMode::GroupCompat.as_str(), "group_compat");
    assert_eq!(Capability::KeyGen.as_str(), "key_gen");
    assert_eq!(Capability::KeyGen.acvp_mode(), "keyGen");
    assert_eq!(
        "Passed".parse::<ResultStatus>(),
        Err("unknown ResultStatus: Passed".to_string())
    );
    assert_eq!(TaskStatus::from_wire("done"), Err("unknown TaskStatus: done".to_string()));
    assert_eq!(ExecStatus::from_wire(""), Err("unknown ExecStatus: ".to_string()));
    assert_eq!(ReportStatus::from_wire("x"), Err("unknown ReportStatus: x".to_string()));
    assert_eq!(KemRunMode::from_wire("y"), Err("unknown KemRunMode: y".to_string()));
    assert_eq!(Capability::from_wire("sigGen"), Err("unknown Capability: sigGen".to_string()));
    assert_eq!(Capability::from_acvp_mode("sig_gen"), None);
}
