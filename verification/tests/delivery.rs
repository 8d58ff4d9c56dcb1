use userapputil::uploader::{
    filter_selects, find_characteristic, find_service, target_uuids, Advertisement, DeviceFilter,
    GattCharacteristic, GattService, UploadAction, UploadEvent, UploadState, Uploader,
};

const SVC: u128 = 0xa2773100_e035_13ae_4647_0e0437dd272a;
const CHR: u128 = 0xa2773101_e035_13ae_4647_0e0437dd272a;

fn named(name: &str, mac: u64) -> Advertisement {
    Advertisement { name: Some(String::from(name)), mac }
}

#[test]
fn fixed_uuids_parse_to_expected_values() {
    assert_eq!(target_uuids(), Some((SVC, CHR)));
}

#[test]
fn selector_with_both_fields_absent_is_refused() {
    assert!(DeviceFilter::new(None, None).is_none());
    assert!(DeviceFilter::new(Some(String::from("led-badge")), None).is_some());
    assert!(DeviceFilter::new(None, Some(0x0102030405)).is_some());
}

#[test]
fn name_only_filter_matches_any_address() {
    let f = DeviceFilter::new(Some(String::from("led-badge")), None).unwrap();
    assert!(filter_selects(&f, &named("led-badge", 1)));
    assert!(filter_selects(&f, &named("led-badge", 0xFFFFFFFFFFFF)));
    assert!(!filter_selects(&f, &named("other", 1)));
}

#[test]
fn address_only_filter_matches_any_name() {
    let f = DeviceFilter::new(None, Some(42)).unwrap();
    assert!(filter_selects(&f, &named("whatever", 42)));
    assert!(filter_selects(&f, &named("something-else", 42)));
    assert!(!filter_selects(&f, &named("whatever", 43)));
}

#[test]
fn both_fields_must_match_when_present() {
    let f = DeviceFilter::new(Some(String::from("led-badge")), Some(42)).unwrap();
    assert!(filter_selects(&f, &named("led-badge", 42)));
    assert!(!filter_selects(&f, &named("led-badge", 43)));
    assert!(!filter_selects(&f, &named("other", 42)));
}

#[test]
fn unnamed_peripheral_never_matches() {
    let f = DeviceFilter::new(None, Some(42)).unwrap();
    assert!(!filter_selects(&f, &Advertisement { name: None, mac: 42 }));
}

#[test]
fn service_lookup_finds_first_match() {
    let services = vec![
        GattService { uuid: 1, characteristics: vec![] },
        GattService { uuid: SVC, characteristics: vec![GattCharacteristic { uuid: CHR }] },
        GattService { uuid: SVC, characteristics: vec![] },
    ];
    assert_eq!(find_service(&services, SVC), Some(1));
    assert_eq!(find_service(&services, 7), None);
    assert_eq!(find_characteristic(&services[1], CHR), Some(0));
    assert_eq!(find_characteristic(&services[1], 7), None);
}

fn uploader() -> Uploader {
    Uploader {
        filter: DeviceFilter::new(Some(String::from("led-badge")), None).unwrap(),
        n_adapters: 1,
        n_writes: 2,
        svc_uuid: SVC,
        chr_uuid: CHR,
    }
}

fn target_services() -> Vec<GattService> {
    vec![GattService { uuid: SVC, characteristics: vec![GattCharacteristic { uuid: CHR }] }]
}

#[test]
fn no_adapters_reports_failure_at_once() {
    let u = Uploader { n_adapters: 0, ..uploader() };
    assert_eq!(
        u.start(),
        (UploadState::Done { success: false }, UploadAction::Report { success: false })
    );
}

#[test]
fn full_delivery_reaches_success() {
    let u = uploader();
    let (s, a) = u.start();
    assert_eq!(a, UploadAction::Scan { adapter: 0 });

    let (s, a) = u.step(s, &UploadEvent::Scanned { n_peripherals: 1 });
    assert_eq!(a, UploadAction::ReadAdvertisement { adapter: 0, peripheral: 0 });

    let (s, a) = u.step(s, &UploadEvent::Advertised { adv: named("led-badge", 9) });
    assert_eq!(a, UploadAction::Connect { adapter: 0, peripheral: 0 });

    let (s, a) = u.step(s, &UploadEvent::Connected { ok: true });
    assert_eq!(a, UploadAction::DiscoverServices { adapter: 0, peripheral: 0 });

    let (s, a) = u.step(s, &UploadEvent::Discovered { services: Some(target_services()) });
    assert_eq!(
        a,
        UploadAction::WriteInstruction { adapter: 0, peripheral: 0, svc: 0, chr: 0, index: 0 }
    );

    let (s, a) = u.step(s, &UploadEvent::Written { ok: true });
    assert_eq!(
        a,
        UploadAction::WriteInstruction { adapter: 0, peripheral: 0, svc: 0, chr: 0, index: 1 }
    );

    let (s, a) = u.step(s, &UploadEvent::Written { ok: true });
    assert_eq!(a, UploadAction::Disconnect { adapter: 0, peripheral: 0 });

    let (s, a) = u.step(s, &UploadEvent::Disconnected);
    assert_eq!(s, UploadState::Done { success: true });
    assert_eq!(a, UploadAction::Report { success: true });
}

#[test]
fn missing_service_moves_to_next_candidate() {
    let u = uploader();
    let (s, _) = u.start();
    let (s, _) = u.step(s, &UploadEvent::Scanned { n_peripherals: 2 });
    let (s, _) = u.step(s, &UploadEvent::Advertised { adv: named("led-badge", 9) });
    let (s, _) = u.step(s, &UploadEvent::Connected { ok: true });
    let other = vec![GattService { uuid: 77, characteristics: vec![] }];
    let (s, a) = u.step(s, &UploadEvent::Discovered { services: Some(other) });
    assert_eq!(a, UploadAction::Disconnect { adapter: 0, peripheral: 0 });
    // Cleanup after a non-match continues with the next peripheral.
    let (s, a) = u.step(s, &UploadEvent::Disconnected);
    assert_eq!(s, UploadState::Considering { adapter: 0, peripheral: 1, n_peripherals: 2 });
    assert_eq!(a, UploadAction::ReadAdvertisement { adapter: 0, peripheral: 1 });
}

#[test]
fn write_failure_cleans_up_and_exhaustion_fails_the_run() {
    let u = uploader();
    let (s, _) = u.start();
    let (s, _) = u.step(s, &UploadEvent::Scanned { n_peripherals: 1 });
    let (s, _) = u.step(s, &UploadEvent::Advertised { adv: named("led-badge", 9) });
    let (s, _) = u.step(s, &UploadEvent::Connected { ok: true });
    let (s, _) = u.step(s, &UploadEvent::Discovered { services: Some(target_services()) });
    let (s, a) = u.step(s, &UploadEvent::Written { ok: false });
    assert_eq!(a, UploadAction::Disconnect { adapter: 0, peripheral: 0 });
    let (s, a) = u.step(s, &UploadEvent::Disconnected);
    // The only peripheral on the only adapter failed: the run is over.
    assert_eq!(s, UploadState::Done { success: false });
    assert_eq!(a, UploadAction::Report { success: false });
}

#[test]
fn non_matching_peripheral_is_skipped() {
    let u = uploader();
    let (s, _) = u.start();
    let (s, _) = u.step(s, &UploadEvent::Scanned { n_peripherals: 2 });
    let (s, a) = u.step(s, &UploadEvent::Advertised { adv: named("other", 9) });
    assert_eq!(a, UploadAction::ReadAdvertisement { adapter: 0, peripheral: 1 });
    let (s, a) = u.step(s, &UploadEvent::Advertised { adv: Advertisement { name: None, mac: 9 } });
    // No further peripherals and no further adapters: failure.
    assert_eq!(s, UploadState::Done { success: false });
    assert_eq!(a, UploadAction::Report { success: false });
}

#[test]
fn failed_connection_is_non_fatal() {
    let u = uploader();
    let (s, _) = u.start();
    let (s, _) = u.step(s, &UploadEvent::Scanned { n_peripherals: 1 });
    let (s, _) = u.step(s, &UploadEvent::Advertised { adv: named("led-badge", 9) });
    let (s, a) = u.step(s, &UploadEvent::Connected { ok: false });
    assert_eq!(a, UploadAction::Disconnect { adapter: 0, peripheral: 0 });
    let (s, a) = u.step(s, &UploadEvent::Disconnected);
    assert_eq!(s, UploadState::Done { success: false });
    assert_eq!(a, UploadAction::Report { success: false });
}
