use tonneli::cologne;
use tonneli::date::Date;
use tonneli::date::DateRange;
use tonneli::model::Fraction;
use tonneli::nuremberg;
use tonneli::ports::AddressSearch;
use tonneli::ports::PortError;

fn range(sy: i32, sm: u32, sd: u32, ey: i32, em: u32, ed: u32) -> DateRange {
    DateRange {
        start: Date { year: sy, month: sm, day: sd },
        end: Date { year: ey, month: em, day: ed },
    }
}

fn street_entry(code: &str, number: &str, addition: &str, name: &str) -> cologne::StreetEntry {
    cologne::StreetEntry {
        street_name: String::from(name),
        building_number: String::from(number),
        building_number_addition: String::from(addition),
        street_code: String::from(code),
        user_street_name: String::new(),
        user_building_number: String::new(),
    }
}

fn calendar_entry(year: i32, month: u32, day: u32, typ: &str) -> cologne::CalendarEntry {
    cologne::CalendarEntry { day, month, year, typ: String::from(typ) }
}

#[test]
fn cologne_fraction_mapping_scenario() {
    let (fraction, note) = cologne::map_awb_type("brown");
    assert_eq!(fraction, Fraction::Organic);
    assert_eq!(note, "Bioabfall");
    let (fraction, note) = cologne::map_awb_type("xyz");
    assert_eq!(fraction, Fraction::Other(String::from("xyz")));
    assert_eq!(note, "Fraktion xyz");
}

#[test]
fn cologne_fraction_mapping_is_case_insensitive() {
    let (fraction, note) = cologne::map_awb_type("BROWN");
    assert_eq!(fraction, Fraction::Organic);
    assert_eq!(note, "Bioabfall");
    let (fraction, _) = cologne::map_awb_type("Grey");
    assert_eq!(fraction, Fraction::Residual);
    let (fraction, _) = cologne::map_awb_type("blue");
    assert_eq!(fraction, Fraction::Paper);
    let (fraction, _) = cologne::map_awb_type("Wertstoff");
    assert_eq!(fraction, Fraction::Plastic);
}

#[test]
fn cologne_search_short_circuits() {
    let q = AddressSearch::new(String::from("  "), None);
    assert!(cologne::CologneSearch::begin(&q, 5).is_none());
    let q = AddressSearch::new(String::from("Hauptstraße"), None);
    assert!(cologne::CologneSearch::begin(&q, 0).is_none());
    assert!(cologne::CologneSearch::begin(&q, 5).is_some());
}

#[test]
fn cologne_search_scenario() {
    let q = AddressSearch::new(String::from(" Hauptstraße "), Some(String::from(" 10 ")));
    let session = cologne::CologneSearch::begin(&q, 5).unwrap();
    assert_eq!(session.query.street_name, "Hauptstraße");
    assert_eq!(session.query.building_number, "10");
    let mut entries = Vec::new();
    for i in 0..7 {
        entries.push(street_entry(&format!("c{i}"), "10", "", "Hauptstraße"));
    }
    let addresses = session.finish(entries);
    assert_eq!(addresses.len(), 5);
    for addr in &addresses {
        assert_eq!(addr.city.0, "cologne");
        assert!(addr.label.contains("Hauptstraße"));
        assert!(addr.label.contains("10"));
    }
    assert_eq!(addresses[0].id.0, "c0:10:");
    assert_eq!(addresses[0].street, "Hauptstraße");
    assert_eq!(addresses[0].house_number, "10");
}

#[test]
fn cologne_search_prefers_user_names() {
    let mut entry = street_entry("77", "4", "A", "HAUPTSTR.");
    entry.user_street_name = String::from("Hauptstraße");
    entry.user_building_number = String::from("4 A");
    let q = AddressSearch::new(String::from("Haupt"), None);
    let session = cologne::CologneSearch::begin(&q, 10).unwrap();
    let addresses = session.finish(vec![entry]);
    assert_eq!(addresses.len(), 1);
    assert_eq!(addresses[0].label, "Hauptstraße 4 A");
    assert_eq!(addresses[0].id.0, "77:4:A");
}

#[test]
fn cologne_address_id_decoding() {
    let r = range(2024, 1, 1, 2024, 12, 31);
    let bad = tonneli::model::AddressId(String::from("no colon here"));
    match cologne::CologneSchedule::begin(&bad, r) {
        Err(PortError::InvalidAddressId) => {}
        _ => panic!("expected an invalid address id error"),
    }
    let good = tonneli::model::AddressId(String::from("123:10:A"));
    let session = cologne::CologneSchedule::begin(&good, r).unwrap();
    assert_eq!(session.key.street_code, "123");
    assert_eq!(session.key.building_number, "10");
    assert_eq!(session.key.addition, "A");
    let two = tonneli::model::AddressId(String::from("123:10"));
    let session = cologne::CologneSchedule::begin(&two, r).unwrap();
    assert_eq!(session.key.addition, "");
}

#[test]
fn cologne_window_within_one_year() {
    let r = range(2024, 3, 5, 2024, 7, 20);
    let id = tonneli::model::AddressId(String::from("1:2:"));
    let session = cologne::CologneSchedule::begin(&id, r).unwrap();
    let q = session.request();
    assert_eq!((q.start_year, q.end_year), (2024, 2024));
    assert_eq!((q.start_month, q.end_month), (3, 7));
}

#[test]
fn cologne_window_spanning_years() {
    let r = range(2024, 12, 15, 2025, 1, 15);
    let id = tonneli::model::AddressId(String::from("1:2:"));
    let session = cologne::CologneSchedule::begin(&id, r).unwrap();
    let q = session.request();
    assert_eq!((q.start_year, q.end_year), (2024, 2025));
    assert_eq!((q.start_month, q.end_month), (1, 12));
}

#[test]
fn cologne_schedule_filters_and_sorts() {
    let r = range(2024, 12, 15, 2025, 1, 15);
    let id = tonneli::model::AddressId(String::from("1:2:"));
    let session = cologne::CologneSchedule::begin(&id, r).unwrap();
    let entries = vec![
        calendar_entry(2025, 1, 10, "brown"),
        calendar_entry(2024, 11, 3, "grey"),
        calendar_entry(2024, 12, 24, "blue"),
        calendar_entry(2025, 2, 1, "grey"),
        calendar_entry(2024, 12, 15, "grey"),
        calendar_entry(2025, 1, 15, "wertstoff"),
    ];
    let events = session.finish(entries).unwrap();
    let dates: Vec<(i32, u32, u32)> =
        events.iter().map(|e| (e.date.year, e.date.month, e.date.day)).collect();
    assert_eq!(
        dates,
        vec![(2024, 12, 15), (2024, 12, 24), (2025, 1, 10), (2025, 1, 15)]
    );
    assert_eq!(events[0].fraction, Fraction::Residual);
    assert_eq!(events[1].fraction, Fraction::Paper);
    assert_eq!(events[2].fraction, Fraction::Organic);
    assert_eq!(events[3].fraction, Fraction::Plastic);
    assert_eq!(events[2].note.as_deref(), Some("Bioabfall"));
}

#[test]
fn cologne_schedule_rejects_impossible_dates() {
    let r = range(2024, 1, 1, 2024, 12, 31);
    let id = tonneli::model::AddressId(String::from("1:2:"));
    let session = cologne::CologneSchedule::begin(&id, r).unwrap();
    let entries = vec![calendar_entry(2024, 2, 30, "grey")];
    match session.finish(entries) {
        Err(PortError::Internal(m)) => assert_eq!(m, "Invalid date in AWB calendar"),
        _ => panic!("expected an internal error"),
    }
}

#[test]
fn nuremberg_fraction_mapping() {
    assert_eq!(nuremberg::map_fraction("Restmüll"), Fraction::Residual);
    assert_eq!(nuremberg::map_fraction("Biotonne"), Fraction::Organic);
    assert_eq!(nuremberg::map_fraction("Papier / Pappe"), Fraction::Paper);
    assert_eq!(nuremberg::map_fraction("Gelbe Tonne"), Fraction::Plastic);
    assert_eq!(nuremberg::map_fraction("LVP"), Fraction::Plastic);
    assert_eq!(nuremberg::map_fraction("Altglas"), Fraction::Glass);
    assert_eq!(nuremberg::map_fraction("Metallschrott"), Fraction::Metal);
    assert_eq!(
        nuremberg::map_fraction("Tannenbaum"),
        Fraction::Other(String::from("Tannenbaum"))
    );
}

#[test]
fn nuremberg_search_flow() {
    let q = AddressSearch::new(String::from(" haupt "), Some(String::from("1")));
    let mut session = nuremberg::NurembergSearch::begin(&q, 3, 2024).unwrap();
    assert_eq!(session.year, 2024);
    session.on_streets(vec![
        nuremberg::StreetRec { id: 1, name: String::from("Hauptstraße") },
        nuremberg::StreetRec { id: 2, name: String::from("Marktplatz") },
        nuremberg::StreetRec { id: 3, name: String::from("Am Hauptbahnhof") },
    ]);
    assert_eq!(session.next_street(), Some(1));
    session.on_detail(vec![
        nuremberg::HouseRec { id: 11, number: String::from("2") },
        nuremberg::HouseRec { id: 12, number: String::from("12") },
        nuremberg::HouseRec { id: 13, number: String::from("1") },
    ]);
    assert_eq!(session.next_street(), Some(3));
    session.on_detail(vec![nuremberg::HouseRec { id: 31, number: String::from("10") }]);
    assert_eq!(session.next_street(), None);
    let addresses = session.finish();
    assert_eq!(addresses.len(), 3);
    assert_eq!(addresses[0].label, "Hauptstraße 1");
    assert_eq!(addresses[0].id.0, "13");
    assert_eq!(addresses[1].label, "Hauptstraße 12");
    assert_eq!(addresses[2].label, "Am Hauptbahnhof 10");
    for addr in &addresses {
        assert_eq!(addr.city.0, "nuremberg");
    }
}

#[test]
fn nuremberg_search_respects_limit() {
    let q = AddressSearch::new(String::from("haupt"), None);
    let mut session = nuremberg::NurembergSearch::begin(&q, 2, 2024).unwrap();
    session.on_streets(vec![nuremberg::StreetRec { id: 1, name: String::from("Hauptstraße") }]);
    assert_eq!(session.next_street(), Some(1));
    session.on_detail(vec![
        nuremberg::HouseRec { id: 11, number: String::from("3") },
        nuremberg::HouseRec { id: 12, number: String::from("1") },
        nuremberg::HouseRec { id: 13, number: String::from("2") },
    ]);
    assert_eq!(session.next_street(), None);
    let addresses = session.finish();
    assert_eq!(addresses.len(), 2);
    assert_eq!(addresses[0].house_number, "1");
    assert_eq!(addresses[1].house_number, "2");
}

#[test]
fn nuremberg_search_short_circuits() {
    let q = AddressSearch::new(String::from("  "), None);
    assert!(nuremberg::NurembergSearch::begin(&q, 5, 2024).is_none());
    let q = AddressSearch::new(String::from("haupt"), None);
    assert!(nuremberg::NurembergSearch::begin(&q, 0, 2024).is_none());
}

#[test]
fn nuremberg_address_id_decoding() {
    let r = range(2024, 1, 1, 2024, 12, 31);
    let bad = tonneli::model::AddressId(String::from("abc"));
    match nuremberg::NurembergSchedule::begin(&bad, r) {
        Err(PortError::InvalidAddressId) => {}
        _ => panic!("expected an invalid address id error"),
    }
    let overflow = tonneli::model::AddressId(String::from("99999999999"));
    assert!(nuremberg::NurembergSchedule::begin(&overflow, r).is_err());
    let good = tonneli::model::AddressId(String::from("6756817"));
    let session = nuremberg::NurembergSchedule::begin(&good, r).unwrap();
    assert_eq!(session.house_id, 6756817);
}

#[test]
fn nuremberg_schedule_translation() {
    let r = range(2024, 12, 15, 2025, 1, 15);
    let id = tonneli::model::AddressId(String::from("42"));
    let session = nuremberg::NurembergSchedule::begin(&id, r).unwrap();
    let fractions = vec![
        nuremberg::FractionRec { id: 1, name: String::from("Restmüll") },
        nuremberg::FractionRec { id: 2, name: String::from("Biotonne") },
    ];
    assert_eq!(session.fraction_ids(&fractions), vec![1, 2]);
    let pickups = vec![
        nuremberg::PickupRec { date: String::from("2025-01-10"), fraction_id: Some(2) },
        nuremberg::PickupRec { date: String::from("2024-12-20"), fraction_id: Some(1) },
        nuremberg::PickupRec { date: String::from("2024-11-01"), fraction_id: Some(1) },
        nuremberg::PickupRec { date: String::from("2024-12-24"), fraction_id: None },
        nuremberg::PickupRec { date: String::from("2025-01-05"), fraction_id: Some(99) },
    ];
    let events = session.finish(pickups, &fractions).unwrap();
    assert_eq!(events.len(), 4);
    assert_eq!(
        (events[0].date.year, events[0].date.month, events[0].date.day),
        (2024, 12, 20)
    );
    assert_eq!(events[0].fraction, Fraction::Residual);
    assert_eq!(events[0].note.as_deref(), Some("Restmüll"));
    assert_eq!(events[1].fraction, Fraction::Other(String::from("Unknown fraction")));
    assert_eq!(events[1].note, None);
    assert_eq!(events[2].fraction, Fraction::Other(String::from("Fraction 99")));
    assert_eq!(events[3].fraction, Fraction::Organic);
}

#[test]
fn nuremberg_schedule_rejects_malformed_dates() {
    let r = range(2024, 1, 1, 2024, 12, 31);
    let id = tonneli::model::AddressId(String::from("42"));
    let session = nuremberg::NurembergSchedule::begin(&id, r).unwrap();
    let pickups = vec![nuremberg::PickupRec { date: String::from("24-1-1"), fraction_id: None }];
    match session.finish(pickups, &Vec::new()) {
        Err(PortError::Parse(m)) => assert_eq!(m, "24-1-1"),
        _ => panic!("expected a parse error"),
    }
}

#[test]
fn nuremberg_duplicate_fraction_ids_last_wins() {
    let r = range(2024, 1, 1, 2024, 12, 31);
    let id = tonneli::model::AddressId(String::from("42"));
    let session = nuremberg::NurembergSchedule::begin(&id, r).unwrap();
    let fractions = vec![
        nuremberg::FractionRec { id: 1, name: String::from("Altglas") },
        nuremberg::FractionRec { id: 1, name: String::from("Restmüll") },
    ];
    let pickups = vec![nuremberg::PickupRec {
        date: String::from("2024-06-01"),
        fraction_id: Some(1),
    }];
    let events = session.finish(pickups, &fractions).unwrap();
    assert_eq!(events[0].fraction, Fraction::Residual);
    assert_eq!(events[0].note.as_deref(), Some("Restmüll"));
}

#[test]
fn cologne_issued_ids_round_trip() {
    let q = AddressSearch::new(String::from("Hauptstraße"), Some(String::from("10")));
    let session = cologne::CologneSearch::begin(&q, 5).unwrap();
    let addresses = session.finish(vec![street_entry("123", "10", "A", "Hauptstraße")]);
    let r = range(2024, 1, 1, 2024, 12, 31);
    let schedule = cologne::CologneSchedule::begin(&addresses[0].id, r).unwrap();
    assert_eq!(schedule.key.street_code, "123");
    assert_eq!(schedule.key.building_number, "10");
    assert_eq!(schedule.key.addition, "A");
}

#[test]
fn nuremberg_issued_ids_round_trip() {
    let q = AddressSearch::new(String::from("haupt"), None);
    let mut session = nuremberg::NurembergSearch::begin(&q, 5, 2024).unwrap();
    session.on_streets(vec![nuremberg::StreetRec { id: 1, name: String::from("Hauptstraße") }]);
    assert_eq!(session.next_street(), Some(1));
    session.on_detail(vec![nuremberg::HouseRec { id: 4711, number: String::from("10") }]);
    let addresses = session.finish();
    let r = range(2024, 1, 1, 2024, 12, 31);
    let schedule = nuremberg::NurembergSchedule::begin(&addresses[0].id, r).unwrap();
    assert_eq!(schedule.house_id, 4711);
}

#[test]
fn provider_metadata() {
    let c = cologne::city_meta();
    assert_eq!(c.id.0, "cologne");
    assert_eq!(c.name, "Köln");
    let n = nuremberg::city_meta();
    assert_eq!(n.id.0, "nuremberg");
    assert_eq!(n.name, "Nürnberg");
}
