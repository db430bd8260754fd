use flasherd::service::FlasherdService;
use flasherd::service::INITIAL_SESSION_ID;
use flasherd::service::parse_id_prefix;
use flasherd::service::upload_file_name;

fn service_from(names: &[&[u8]]) -> Result<FlasherdService, flasherd::service::StartupError> {
    let owned: Vec<Vec<u8>> = names.iter().map(|n| n.to_vec()).collect();
    FlasherdService::new(b"/data/flasherd".to_vec(), &owned)
}

#[test]
fn file_name_is_id_underscore_name() {
    assert_eq!(upload_file_name(7, &b"tool.bin".to_vec()), b"7_tool.bin");
    assert_eq!(upload_file_name(0, &b"x".to_vec()), b"0_x");
    assert_eq!(
        upload_file_name(1204, &b"a_b".to_vec()),
        b"1204_a_b".to_vec()
    );
    assert_eq!(upload_file_name(u64::MAX, &b"".to_vec()), b"18446744073709551615_");
}

#[test]
fn prefix_parses_back_from_built_names() {
    assert_eq!(parse_id_prefix(&upload_file_name(67, &b"t".to_vec())), Some(67));
    assert_eq!(
        parse_id_prefix(&upload_file_name(u64::MAX, &b"t_x".to_vec())),
        Some(u64::MAX)
    );
}

#[test]
fn malformed_names_do_not_parse() {
    assert_eq!(parse_id_prefix(&b"tool".to_vec()), None);
    assert_eq!(parse_id_prefix(&b"_tool".to_vec()), None);
    assert_eq!(parse_id_prefix(&b"a7_tool".to_vec()), None);
    assert_eq!(parse_id_prefix(&b"7a_tool".to_vec()), None);
    assert_eq!(parse_id_prefix(&b"".to_vec()), None);
    assert_eq!(parse_id_prefix(&b"18446744073709551616_x".to_vec()), None);
    assert_eq!(parse_id_prefix(&b"99999999999999999999999_x".to_vec()), None);
}

#[test]
fn ids_within_one_lifetime_strictly_increase() {
    let mut svc = service_from(&[]).unwrap();
    let a = svc.allocate_session_id();
    let b = svc.allocate_session_id();
    let c = svc.allocate_session_id();
    assert_eq!(a, INITIAL_SESSION_ID);
    assert!(a < b && b < c);
    assert_eq!(b, a + 1);
    assert_eq!(c, b + 1);
}

#[test]
fn seed_exceeds_small_persisted_prefixes() {
    let mut svc = service_from(&[b"12_tool.bin", b"3_x", b"50_y"]).unwrap();
    let first = svc.allocate_session_id();
    assert!(first > 12 && first > 3 && first > 50);
    assert_eq!(first, INITIAL_SESSION_ID);
}

#[test]
fn first_id_after_restart_exceeds_every_persisted_prefix() {
    let mut svc = service_from(&[b"1000_tool.bin", b"999_x"]).unwrap();
    let first = svc.allocate_session_id();
    assert_eq!(first, 1001);
    let second = svc.allocate_session_id();
    assert_eq!(second, 1002);
}

#[test]
fn a_prefix_at_the_initial_id_is_still_exceeded() {
    let mut svc = service_from(&[b"66_a"]).unwrap();
    assert_eq!(svc.allocate_session_id(), INITIAL_SESSION_ID);
    let mut svc = service_from(&[b"67_a"]).unwrap();
    assert_eq!(svc.allocate_session_id(), INITIAL_SESSION_ID + 1);
}

#[test]
fn a_prefix_at_the_top_of_the_id_space_fails_startup() {
    assert!(matches!(
        service_from(&[b"18446744073709551615_x"]),
        Err(flasherd::service::StartupError::IdSpaceExhausted)
    ));
}

#[test]
fn malformed_entry_fails_startup() {
    assert!(service_from(&[b"12_tool.bin", b"nodelimiter"]).is_err());
    assert!(service_from(&[b"_tool"]).is_err());
    assert!(service_from(&[b"x7_t"]).is_err());
}
