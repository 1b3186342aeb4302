use tonneli::cologne;
use tonneli::date::Date;
use tonneli::date::DateRange;
use tonneli::model::AddressId;
use tonneli::model::CityId;
use tonneli::nuremberg;
use tonneli::plugin::PluginRegistry;
use tonneli::ports::AddressSearch;
use tonneli::ports::PortError;
use tonneli::service::ScheduleSession;
use tonneli::service::SearchSession;
use tonneli::service::TonneliService;

fn service() -> TonneliService {
    let registry = PluginRegistry::new(vec![cologne::plugin(), nuremberg::plugin()]);
    TonneliService::new(registry)
}

fn range() -> DateRange {
    DateRange {
        start: Date { year: 2024, month: 12, day: 15 },
        end: Date { year: 2025, month: 1, day: 15 },
    }
}

#[test]
fn registry_resolves_registered_cities() {
    let registry = PluginRegistry::new(vec![cologne::plugin(), nuremberg::plugin()]);
    let plugin = registry.plugin(&CityId(String::from("cologne"))).unwrap();
    assert_eq!(plugin.meta.id.0, "cologne");
    let plugin = registry.plugin(&CityId(String::from("nuremberg"))).unwrap();
    assert_eq!(plugin.meta.id.0, "nuremberg");
}

#[test]
fn registry_rejects_unknown_cities() {
    let registry = PluginRegistry::new(vec![cologne::plugin(), nuremberg::plugin()]);
    match registry.plugin(&CityId(String::from("berlin"))) {
        Err(PortError::UnsupportedCity) => {}
        _ => panic!("expected an unsupported city error"),
    }
    match registry.plugin(&CityId(String::new())) {
        Err(PortError::UnsupportedCity) => {}
        _ => panic!("expected an unsupported city error"),
    }
}

#[test]
fn registry_lists_cities_in_registration_order() {
    let registry = PluginRegistry::new(vec![cologne::plugin(), nuremberg::plugin()]);
    let cities = registry.cities();
    assert_eq!(cities.len(), 2);
    assert_eq!(cities[0].id.0, "cologne");
    assert_eq!(cities[0].name, "Köln");
    assert_eq!(cities[1].id.0, "nuremberg");
    assert_eq!(cities[1].name, "Nürnberg");
}

#[test]
fn registry_duplicate_registration_replaces() {
    let registry = PluginRegistry::new(vec![
        cologne::plugin(),
        nuremberg::plugin(),
        cologne::plugin(),
    ]);
    assert_eq!(registry.cities().len(), 2);
}

#[test]
fn service_lists_cities() {
    let cities = service().cities();
    assert_eq!(cities.len(), 2);
    assert_eq!(cities[0].0 .0, "cologne");
    assert_eq!(cities[0].1, "Köln");
}

#[test]
fn service_search_unsupported_city() {
    let q = AddressSearch::new(String::from("Hauptstraße"), None);
    match service().search_addresses(&CityId(String::from("berlin")), &q, 5, 2024) {
        Err(PortError::UnsupportedCity) => {}
        _ => panic!("expected an unsupported city error"),
    }
}

#[test]
fn service_search_short_circuits_for_any_city() {
    let svc = service();
    for city in ["cologne", "nuremberg"] {
        let q = AddressSearch::new(String::from("  "), None);
        match svc.search_addresses(&CityId(String::from(city)), &q, 5, 2024) {
            Ok(SearchSession::Done(v)) => assert!(v.is_empty()),
            _ => panic!("expected an immediately finished search"),
        }
        let q = AddressSearch::new(String::from("Hauptstraße"), None);
        match svc.search_addresses(&CityId(String::from(city)), &q, 0, 2024) {
            Ok(SearchSession::Done(v)) => assert!(v.is_empty()),
            _ => panic!("expected an immediately finished search"),
        }
    }
}

#[test]
fn service_search_routes_to_provider() {
    let svc = service();
    let q = AddressSearch::new(String::from("Hauptstraße"), Some(String::from("10")));
    match svc.search_addresses(&CityId(String::from("cologne")), &q, 5, 2024) {
        Ok(SearchSession::Cologne(cs)) => {
            assert_eq!(cs.limit, 5);
            assert_eq!(cs.query.street_name, "Hauptstraße");
        }
        _ => panic!("expected a Cologne session"),
    }
    match svc.search_addresses(&CityId(String::from("nuremberg")), &q, 5, 2024) {
        Ok(SearchSession::Nuremberg(ns)) => {
            assert_eq!(ns.limit, 5);
            assert_eq!(ns.query_lower, "hauptstraße");
            assert_eq!(ns.house_filter.as_deref(), Some("10"));
        }
        _ => panic!("expected a Nuremberg session"),
    }
}

#[test]
fn service_schedule_unsupported_city() {
    let id = AddressId(String::from("1:2:"));
    match service().schedule_for(&CityId(String::from("berlin")), &id, range()) {
        Err(PortError::UnsupportedCity) => {}
        _ => panic!("expected an unsupported city error"),
    }
}

#[test]
fn service_schedule_invalid_address_id() {
    let svc = service();
    let foreign = AddressId(String::from("not-a-number"));
    match svc.schedule_for(&CityId(String::from("nuremberg")), &foreign, range()) {
        Err(PortError::InvalidAddressId) => {}
        _ => panic!("expected an invalid address id error"),
    }
    let foreign = AddressId(String::from("6756817"));
    match svc.schedule_for(&CityId(String::from("cologne")), &foreign, range()) {
        Err(PortError::InvalidAddressId) => {}
        _ => panic!("expected an invalid address id error"),
    }
}

#[test]
fn service_schedule_routes_to_provider() {
    let svc = service();
    let id = AddressId(String::from("123:10:A"));
    match svc.schedule_for(&CityId(String::from("cologne")), &id, range()) {
        Ok(ScheduleSession::Cologne(cs)) => assert_eq!(cs.key.street_code, "123"),
        _ => panic!("expected a Cologne session"),
    }
    let id = AddressId(String::from("6756817"));
    match svc.schedule_for(&CityId(String::from("nuremberg")), &id, range()) {
        Ok(ScheduleSession::Nuremberg(ns)) => assert_eq!(ns.house_id, 6756817),
        _ => panic!("expected a Nuremberg session"),
    }
}
