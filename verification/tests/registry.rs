use ha_mitaffald::dates::Date;
use ha_mitaffald::homeassistant::{last_will_message, CreatedState, HADevice, HASensor};
use ha_mitaffald::mitaffald::Container;
use ha_mitaffald::text::{json_escape, sanitize};

fn date(year: u32, month: u32, day: u32) -> Date {
    Date::new(year, month, day).expect("valid date")
}

#[test]
fn sanitization_replaces_non_alphanumerics() {
    let container = Container::new("Mad- og drikkekartoner".to_string(), date(2024, 4, 18));
    assert_eq!(
        HASensor::generate_sensor_id(&container),
        "Mad__og_drikkekartoner"
    );
    assert_eq!(sanitize("Restaffald"), "Restaffald");
    assert_eq!(sanitize("a b/c.d"), "a_b_c_d");
    assert_eq!(sanitize(""), "");
}

#[test]
fn json_escaping() {
    assert_eq!(json_escape("plain"), "plain");
    assert_eq!(json_escape("A\"B\\C"), "A\\\"B\\\\C");
}

#[test]
fn device_announcement_messages() {
    let device: HADevice<CreatedState> = HADevice::default();
    let messages = device.initialize_messages();
    assert_eq!(messages.len(), 2);
    assert_eq!(
        messages[0].topic,
        "homeassistant/sensor/ha_affaldvarme_device/config"
    );
    assert!(messages[0].retain);
    assert!(messages[0].payload.contains("\"unique_id\":\"ha_affaldvarme_device\""));
    assert_eq!(messages[1].topic, "garbage_bin/availability");
    assert_eq!(messages[1].payload, "online");
    assert!(messages[1].retain);
}

#[test]
fn device_announcement_commits_only_when_delivered() {
    let device: HADevice<CreatedState> = HADevice::default();
    let device = device.initialize(0).err().expect("nothing delivered");
    let device = device.initialize(1).err().expect("availability missing");
    assert!(device.initialize(2).is_ok());
}

#[test]
fn last_will_goes_offline_retained() {
    let will = last_will_message();
    assert_eq!(will.topic, "garbage_bin/availability");
    assert_eq!(will.payload, "offline");
    assert!(will.retain);
}

#[test]
fn report_twice_publishes_config_once() {
    let device: HADevice<CreatedState> = HADevice::default();
    let mut device = device.initialize(2).ok().expect("announced");

    let container = Container::new("Restaffald".to_string(), date(2024, 8, 4));
    let timestamp = "2024-08-01T10:00:00.000+02:00";

    let first = device.report_messages(&container, timestamp);
    assert_eq!(first.len(), 2);
    assert_eq!(
        first[0].topic,
        "homeassistant/sensor/ha_affaldvarme_Restaffald/config"
    );
    assert!(!first[0].retain);
    assert_eq!(first[1].topic, "garbage_bin/Restaffald/status");
    assert!(!first[1].retain);
    device.report(&container, 2).expect("both delivered");

    let second = device.report_messages(&container, timestamp);
    assert_eq!(second.len(), 1);
    assert_eq!(second[0].topic, "garbage_bin/Restaffald/status");
    device.report(&container, 1).expect("state delivered");

    let config_messages = first
        .iter()
        .chain(second.iter())
        .filter(|m| m.topic.ends_with("/config"))
        .count();
    let state_messages = first
        .iter()
        .chain(second.iter())
        .filter(|m| m.topic.ends_with("/status"))
        .count();
    assert_eq!(config_messages, 1);
    assert_eq!(state_messages, 2);
    for message in first.iter().chain(second.iter()) {
        assert_ne!(message.topic, "garbage_bin/availability");
    }
}

#[test]
fn state_payload_carries_name_date_and_timestamp() {
    let device: HADevice<CreatedState> = HADevice::default();
    let device = device.initialize(2).ok().expect("announced");
    let container = Container::new("Glas".to_string(), date(2024, 4, 18));
    let messages = device.report_messages(&container, "2024-04-01T08:30:00.000+02:00");
    assert_eq!(
        messages[1].payload,
        "{\"name\":\"Glas\",\"next_empty\":\"2024-04-18\",\"last_update\":\"2024-04-01T08:30:00.000+02:00\"}"
    );
}

#[test]
fn discovery_config_payload_is_exact() {
    let device: HADevice<CreatedState> = HADevice::default();
    let device = device.initialize(2).ok().expect("announced");
    let container = Container::new("Mad- og drikkekartoner".to_string(), date(2024, 4, 18));
    let messages = device.report_messages(&container, "ts");
    assert_eq!(
        messages[0].topic,
        "homeassistant/sensor/ha_affaldvarme_Mad__og_drikkekartoner/config"
    );
    let expected = "{\"object_id\":\"ha_affaldvarme_Mad__og_drikkekartoner\",\"unique_id\":\"ha_affaldvarme_Mad__og_drikkekartoner\",\"name\":\"Mad- og drikkekartoner\",\"state_topic\":\"garbage_bin/Mad__og_drikkekartoner/status\",\"json_attributes_topic\":\"garbage_bin/Mad__og_drikkekartoner/status\",\"value_template\":\"{{ (strptime(value_json.next_empty, '%Y-%m-%d').date() - now().date()).days }}\",\"availability_topic\":\"garbage_bin/availability\",\"payload_available\":\"online\",\"payload_not_available\":\"offline\",\"unit_of_measurement\":\"days\",\"device\":{\"identifiers\":[\"ha_affaldvarme\"]},\"icon\":\"mdi:recycle\"}";
    assert_eq!(messages[0].payload, expected);
}

#[test]
fn failed_state_publish_does_not_repeat_config() {
    let device: HADevice<CreatedState> = HADevice::default();
    let mut device = device.initialize(2).ok().expect("announced");
    let container = Container::new("Pap".to_string(), date(2024, 5, 9));

    let first = device.report_messages(&container, "ts");
    assert_eq!(first.len(), 2);
    // the configuration went out, the state publish failed
    let error = device.report(&container, 1).expect_err("state failed");
    assert_eq!(error.entity, "Pap");

    // the registration is committed: the retry publishes the state alone
    let retry = device.report_messages(&container, "ts");
    assert_eq!(retry.len(), 1);
    assert_eq!(retry[0].topic, "garbage_bin/Pap/status");
}

#[test]
fn failed_config_publish_keeps_the_key_unregistered() {
    let device: HADevice<CreatedState> = HADevice::default();
    let mut device = device.initialize(2).ok().expect("announced");
    let container = Container::new("Metal".to_string(), date(2024, 4, 18));

    device.report(&container, 0).expect_err("nothing delivered");

    // the configuration never went out, so the next report carries it again
    let retry = device.report_messages(&container, "ts");
    assert_eq!(retry.len(), 2);
    assert_eq!(
        retry[0].topic,
        "homeassistant/sensor/ha_affaldvarme_Metal/config"
    );
}

#[test]
fn report_messages_now_stamps_a_timestamp() {
    let device: HADevice<CreatedState> = HADevice::default();
    let device = device.initialize(2).ok().expect("announced");
    let container = Container::new("Papir".to_string(), date(2024, 5, 9));
    let messages = device.report_messages_now(&container);
    assert_eq!(messages.len(), 2);
    let payload = &messages[1].payload;
    assert!(payload.starts_with("{\"name\":\"Papir\",\"next_empty\":\"2024-05-09\",\"last_update\":\""));
    assert!(payload.ends_with("\"}"));
    // the clock yields a timestamp with at least a full date in it
    let prefix_len = "{\"name\":\"Papir\",\"next_empty\":\"2024-05-09\",\"last_update\":\"".len();
    assert!(payload.len() >= prefix_len + "\"}".len() + 10);
}
