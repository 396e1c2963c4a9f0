use ha_mitaffald::dates::Date;
use ha_mitaffald::homeassistant::{CreatedState, HADevice, MqttMessage};
use ha_mitaffald::mitaffald::{containers_from_stands, Container, FetchError, PlannedLoad, StandData};
use ha_mitaffald::{SyncError, SyncPass};

fn date(year: u32, month: u32, day: u32) -> Date {
    Date::new(year, month, day).expect("valid date")
}

#[test]
fn partial_failure_keeps_reporting() {
    let device: HADevice<CreatedState> = HADevice::default();
    let mut device = device.initialize(2).ok().expect("announced");

    let names = ["Restaffald", "Glas", "Metal", "Pap", "Papir"];
    let mut raw: Vec<Container> = Vec::new();
    for name in names.iter() {
        raw.push(Container::new(name.to_string(), date(2024, 8, 4)));
    }

    let mut pass = SyncPass::new(raw);
    assert_eq!(pass.entry_count(), 5);

    let mut reported: Vec<String> = Vec::new();
    let mut index = 0;
    while let Some(entry) = pass.current() {
        let entry = entry.clone();
        let messages = device.report_messages(&entry, "ts");
        // entity report number three fails entirely; the rest go through
        let delivered = if index == 2 { 0 } else { messages.len() };
        reported.push(entry.name.clone());
        let outcome = pass.advance(&mut device, delivered);
        assert_eq!(outcome.is_err(), index == 2);
        index += 1;
    }

    // the failed report did not block the remaining entities
    assert_eq!(reported, vec!["Restaffald", "Glas", "Metal", "Pap", "Papir"]);

    match pass.finish(true) {
        Err(SyncError::Partial {
            failed_entities: 1,
            succeeded_entities: 4,
            termination_failed: false,
        }) => {}
        other => panic!("expected a partial-success aggregate, got {:?}", other),
    }
}

#[test]
fn clean_pass_succeeds() {
    let device: HADevice<CreatedState> = HADevice::default();
    let mut device = device.initialize(2).ok().expect("announced");
    let raw = vec![Container::new("Glas".to_string(), date(2024, 4, 18))];
    let mut pass = SyncPass::new(raw);
    while let Some(entry) = pass.current() {
        let entry = entry.clone();
        let messages = device.report_messages(&entry, "ts");
        let delivered = messages.len();
        pass.advance(&mut device, delivered).expect("delivered");
    }
    assert!(pass.finish(true).is_ok());
}

#[test]
fn failed_termination_is_surfaced() {
    let raw: Vec<Container> = Vec::new();
    let pass = SyncPass::new(raw);
    match pass.finish(false) {
        Err(error @ SyncError::Partial {
            failed_entities: 0,
            succeeded_entities: 0,
            termination_failed: true,
        }) => {
            assert_eq!(error.describe(), "Failed to terminate the broker session");
        }
        other => panic!("expected a termination failure, got {:?}", other),
    }
}

#[test]
fn aggregate_messages() {
    let acquisition = SyncError::Acquisition(FetchError::NoData);
    assert_eq!(acquisition.describe(), "No data found");
    let partial = SyncError::Partial {
        failed_entities: 2,
        succeeded_entities: 3,
        termination_failed: false,
    };
    assert_eq!(partial.describe(), "Failed to report all containers");
}

#[test]
fn full_pass_over_a_fixture() {
    // the fixture: one stand, two planned loads, two fractions
    let stands = vec![StandData {
        stand_id: "123".to_string(),
        stand_name: "Kongevejen 100".to_string(),
        planned_loads: vec![
            PlannedLoad {
                date: date(2024, 8, 4),
                fractions: vec!["Restaffald".to_string()],
            },
            PlannedLoad {
                date: date(2024, 4, 18),
                fractions: vec!["Glas".to_string()],
            },
        ],
    }];

    let mut broker: Vec<MqttMessage> = Vec::new();

    let device: HADevice<CreatedState> = HADevice::default();
    let announcement = device.initialize_messages();
    let delivered = announcement.len();
    for message in announcement {
        broker.push(message);
    }
    let mut device = device.initialize(delivered).ok().expect("announced");

    let containers = containers_from_stands(Ok(stands)).expect("schedule acquired");
    let mut pass = SyncPass::new(containers);
    while let Some(entry) = pass.current() {
        let entry = entry.clone();
        let messages = device.report_messages(&entry, "2024-04-01T08:30:00.000+02:00");
        let delivered = messages.len();
        for message in messages {
            broker.push(message);
        }
        pass.advance(&mut device, delivered).expect("delivered");
    }
    assert!(pass.finish(true).is_ok());

    let availability = broker
        .iter()
        .filter(|m| m.topic == "garbage_bin/availability")
        .count();
    let configs: Vec<&MqttMessage> = broker
        .iter()
        .filter(|m| m.topic.ends_with("/config") && m.topic != "homeassistant/sensor/ha_affaldvarme_device/config")
        .collect();
    let states: Vec<&MqttMessage> = broker
        .iter()
        .filter(|m| m.topic.ends_with("/status"))
        .collect();

    assert_eq!(availability, 1);
    assert_eq!(configs.len(), 2);
    assert_eq!(states.len(), 2);
    assert_eq!(states[0].topic, "garbage_bin/Restaffald/status");
    assert!(states[0].payload.contains("\"next_empty\":\"2024-08-04\""));
    assert_eq!(states[1].topic, "garbage_bin/Glas/status");
    assert!(states[1].payload.contains("\"next_empty\":\"2024-04-18\""));
}
