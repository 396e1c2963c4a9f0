//! The discovery registry: decides what must be published to the broker so
//! that every waste fraction appears as one auto-discovered sensor.
//!
//! The registry owns the per-entity registration state and the once-only
//! device announcement, and it computes the exact messages of every step.
//! Carrying those messages to the broker is the caller's job: the caller
//! publishes them in order and reports back how many went through, and the
//! registry commits the matching state transition.

use vstd::prelude::*;

use crate::dates::{spec_format_ymd, Date};
use crate::mitaffald::Container;
use crate::text::{json_escape, json_escaped, sanitize, sanitized};

verus! {

/// One message for the broker: where, what, and whether the broker keeps it.
#[derive(Debug)]
pub struct MqttMessage {
    pub topic: String,
    pub payload: String,
    pub retain: bool,
}

/// The mathematical shadow of a message: topic and payload as character
/// sequences.
pub struct MessageModel {
    pub topic: Seq<char>,
    pub payload: Seq<char>,
    pub retain: bool,
}

impl View for MqttMessage {
    type V = MessageModel;

    open spec fn view(&self) -> MessageModel {
        MessageModel { topic: self.topic@, payload: self.payload@, retain: self.retain }
    }
}

/// The models of a message list, in order.
pub open spec fn models(msgs: Seq<MqttMessage>) -> Seq<MessageModel> {
    msgs.map_values(|m: MqttMessage| m@)
}

/// The shared availability topic of the whole device.
pub open spec fn spec_availability_topic() -> Seq<char> {
    "garbage_bin/availability"@
}

/// The discovery-configuration topic of one sensor.
pub open spec fn spec_config_topic(id: Seq<char>) -> Seq<char> {
    "homeassistant/sensor/ha_affaldvarme_"@ + id + "/config"@
}

/// The state topic of one sensor.
pub open spec fn spec_state_topic(id: Seq<char>) -> Seq<char> {
    "garbage_bin/"@ + id + "/status"@
}

fn availability_topic() -> (r: String)
    ensures
        r@ == spec_availability_topic(),
{
    String::from_str("garbage_bin/availability")
}

fn config_topic(id: &str) -> (r: String)
    ensures
        r@ == spec_config_topic(id@),
{
    let mut s = String::from_str("homeassistant/sensor/ha_affaldvarme_");
    s.append(id);
    s.append("/config");
    assert(s@ =~= spec_config_topic(id@));
    s
}

fn state_topic(id: &str) -> (r: String)
    ensures
        r@ == spec_state_topic(id@),
{
    let mut s = String::from_str("garbage_bin/");
    s.append(id);
    s.append("/status");
    assert(s@ =~= spec_state_topic(id@));
    s
}

/// The state payload of one report: entity name, due date as `YYYY-MM-DD`
/// and the timestamp of the report.
pub open spec fn spec_state_payload(name: Seq<char>, date: Date, ts: Seq<char>) -> Seq<char> {
    "{\"name\":\""@ + json_escaped(name) + "\",\"next_empty\":\""@ + spec_format_ymd(date)
        + "\",\"last_update\":\""@ + json_escaped(ts) + "\"}"@
}

fn state_payload(name: &str, date: &Date, ts: &str) -> (r: String)
    requires
        date.wf(),
    ensures
        r@ == spec_state_payload(name@, *date, ts@),
{
    let mut s = String::from_str("{\"name\":\"");
    s.append(json_escape(name).as_str());
    s.append("\",\"next_empty\":\"");
    s.append(date.format_ymd().as_str());
    s.append("\",\"last_update\":\"");
    s.append(json_escape(ts).as_str());
    s.append("\"}");
    assert(s@ =~= spec_state_payload(name@, *date, ts@));
    s
}

/// The discovery-configuration payload of one sensor: stable ids derived
/// from the sanitized key, the human-readable name, the state topic, the
/// days-until-due value template, the shared availability topic and device
/// identity, the unit and the icon.
pub open spec fn spec_sensor_config_payload(id: Seq<char>, name: Seq<char>) -> Seq<char> {
    "{\"object_id\":\"ha_affaldvarme_"@ + id + "\",\"unique_id\":\"ha_affaldvarme_"@ + id
        + "\",\"name\":\""@ + json_escaped(name) + "\",\"state_topic\":\""@ + spec_state_topic(id)
        + "\",\"json_attributes_topic\":\""@ + spec_state_topic(id)
        + "\",\"value_template\":\"{{ (strptime(value_json.next_empty, '%Y-%m-%d').date() - now().date()).days }}\",\"availability_topic\":\"garbage_bin/availability\",\"payload_available\":\"online\",\"payload_not_available\":\"offline\",\"unit_of_measurement\":\"days\",\"device\":{\"identifiers\":[\"ha_affaldvarme\"]},\"icon\":\"mdi:recycle\"}"@
}

fn sensor_config_payload(id: &str, name: &str) -> (r: String)
    ensures
        r@ == spec_sensor_config_payload(id@, name@),
{
    let mut s = String::from_str("{\"object_id\":\"ha_affaldvarme_");
    s.append(id);
    s.append("\",\"unique_id\":\"ha_affaldvarme_");
    s.append(id);
    s.append("\",\"name\":\"");
    s.append(json_escape(name).as_str());
    s.append("\",\"state_topic\":\"");
    s.append(state_topic(id).as_str());
    s.append("\",\"json_attributes_topic\":\"");
    s.append(state_topic(id).as_str());
    s.append(
        "\",\"value_template\":\"{{ (strptime(value_json.next_empty, '%Y-%m-%d').date() - now().date()).days }}\",\"availability_topic\":\"garbage_bin/availability\",\"payload_available\":\"online\",\"payload_not_available\":\"offline\",\"unit_of_measurement\":\"days\",\"device\":{\"identifiers\":[\"ha_affaldvarme\"]},\"icon\":\"mdi:recycle\"}",
    );
    assert(s@ =~= spec_sensor_config_payload(id@, name@));
    s
}

/// The one-time configuration payload of the owning device itself.
pub open spec fn spec_device_config_payload() -> Seq<char> {
    "{\"unique_id\":\"ha_affaldvarme_device\",\"name\":\"Affaldvarme Device\",\"state_topic\":\"garbage_bin/availability\",\"availability_topic\":\"garbage_bin/availability\",\"payload_available\":\"online\",\"payload_not_available\":\"offline\",\"device\":{\"identifiers\":[\"ha_affaldvarme\"],\"name\":\"Affaldvarme integration\",\"sw_version\":\"1.0\",\"model\":\"Standard\",\"manufacturer\":\"Your humble rust developer\"}}"@
}

/// The device-configuration message of the one-time announcement, retained.
pub open spec fn spec_device_config_model() -> MessageModel {
    MessageModel {
        topic: "homeassistant/sensor/ha_affaldvarme_device/config"@,
        payload: spec_device_config_payload(),
        retain: true,
    }
}

/// The "device is online" availability message, retained.
pub open spec fn spec_availability_online_model() -> MessageModel {
    MessageModel { topic: spec_availability_topic(), payload: "online"@, retain: true }
}

/// The "device is offline" message left with the broker as the last will.
pub open spec fn spec_availability_offline_model() -> MessageModel {
    MessageModel { topic: spec_availability_topic(), payload: "offline"@, retain: true }
}

/// The discovery-configuration message of one sensor, not retained.
pub open spec fn spec_config_model(id: Seq<char>, name: Seq<char>) -> MessageModel {
    MessageModel {
        topic: spec_config_topic(id),
        payload: spec_sensor_config_payload(id, name),
        retain: false,
    }
}

/// The state message of one report, not retained.
pub open spec fn spec_state_model(id: Seq<char>, name: Seq<char>, date: Date, ts: Seq<char>)
    -> MessageModel {
    MessageModel {
        topic: spec_state_topic(id),
        payload: spec_state_payload(name, date, ts),
        retain: false,
    }
}

/// The message the broker publishes on an unclean disconnect: the device
/// goes unavailable.
pub fn last_will_message() -> (r: MqttMessage)
    ensures
        r@ == spec_availability_offline_model(),
{
    MqttMessage {
        topic: availability_topic(),
        payload: String::from_str("offline"),
        retain: true,
    }
}

/// A publish failure scoped to one entity: the pass goes on with the
/// remaining entities.
#[derive(Debug)]
pub struct EntityReportError {
    pub entity: String,
}

/// Per-entity registration state: the sanitized key, the two topics derived
/// from it, and whether the discovery configuration has been published.
pub struct HASensor {
    container_id: String,
    configure_topic: String,
    state_topic: String,
    is_initialized: bool,
}

impl HASensor {
    /// The sanitized entity key the sensor is registered under.
    pub closed spec fn id(self) -> Seq<char> {
        self.container_id@
    }

    /// Whether the discovery configuration has been published.
    pub closed spec fn registered(self) -> bool {
        self.is_initialized
    }

    /// The record's topics are the ones derived from its key.
    pub closed spec fn wf(self) -> bool {
        self.configure_topic@ == spec_config_topic(self.container_id@) && self.state_topic@
            == spec_state_topic(self.container_id@)
    }

    /// The sanitized key of a pickup entry: its fraction name with every
    /// non-alphanumeric character replaced by an underscore.
    pub fn generate_sensor_id(container: &Container) -> (r: String)
        ensures
            r@ == sanitized(container.name@),
    {
        sanitize(container.name.as_str())
    }

    /// A fresh, unregistered record for the entry's key.
    pub fn new(container: &Container) -> (r: Self)
        ensures
            r.wf(),
            !r.registered(),
            r.id() == sanitized(container.name@),
    {
        let container_id = Self::generate_sensor_id(container);
        let configure_topic = config_topic(container_id.as_str());
        let sensor_state_topic = state_topic(container_id.as_str());
        HASensor {
            configure_topic,
            state_topic: sensor_state_topic,
            is_initialized: false,
            container_id,
        }
    }
}

/// Marks a registry whose device announcement has not gone out yet; sensors
/// cannot be registered before it.
pub struct CreatedState;

/// Holds the sensor records once the device announcement has gone out.
pub struct InitializedState {
    sensors: Vec<HASensor>,
}

/// The discovery registry.  Its type parameter is its lifecycle state: a
/// `CreatedState` registry can only perform the one-time device
/// announcement, an `InitializedState` registry only per-entity reports, so
/// the announcement can neither be skipped nor repeated.
pub struct HADevice<T> {
    state: T,
}

impl HADevice<CreatedState> {
    /// The one value of the unannounced registry.
    pub closed spec fn spec_default() -> HADevice<CreatedState> {
        HADevice { state: CreatedState }
    }
}

impl Default for HADevice<CreatedState> {
    /// A registry that has not announced the device yet.
    fn default() -> (r: Self)
        ensures
            r == HADevice::<CreatedState>::spec_default(),
    {
        HADevice { state: CreatedState }
    }
}

/// The messages of one report, in publish order: the discovery configuration
/// first when the key is not yet registered, then always the state payload.
pub open spec fn spec_report_models(
    registered: bool,
    id: Seq<char>,
    name: Seq<char>,
    date: Date,
    ts: Seq<char>,
) -> Seq<MessageModel> {
    if registered {
        seq![spec_state_model(id, name, date, ts)]
    } else {
        seq![spec_config_model(id, name), spec_state_model(id, name, date, ts)]
    }
}

/// First record carrying `id`, by linear scan.
fn find_sensor(sensors: &Vec<HASensor>, id: &String) -> (r: Option<usize>)
    ensures
        r is Some ==> 0 <= r->Some_0 < sensors@.len() && sensors@[r->Some_0 as int].id() == id@,
        r is None ==> forall|i: int|
            0 <= i < sensors@.len() ==> (#[trigger] sensors@[i]).id() != id@,
{
    let n = sensors.len();
    let mut j: usize = 0;
    while j < n
        invariant
            n == sensors@.len(),
            j <= n,
            forall|i: int| 0 <= i < j ==> (#[trigger] sensors@[i]).id() != id@,
        decreases n - j,
    {
        if sensors[j].container_id == *id {
            return Some(j);
        }
        j = j + 1;
    }
    None
}

impl HADevice<CreatedState> {
    /// The two messages of the one-time device announcement, in publish
    /// order: the device's own retained configuration, then the retained
    /// "online" availability signal.
    pub fn initialize_messages(&self) -> (r: Vec<MqttMessage>)
        ensures
            models(r@) == seq![spec_device_config_model(), spec_availability_online_model()],
    {
        let mut out: Vec<MqttMessage> = Vec::new();
        out.push(
            MqttMessage {
                topic: String::from_str("homeassistant/sensor/ha_affaldvarme_device/config"),
                payload: String::from_str(
                    "{\"unique_id\":\"ha_affaldvarme_device\",\"name\":\"Affaldvarme Device\",\"state_topic\":\"garbage_bin/availability\",\"availability_topic\":\"garbage_bin/availability\",\"payload_available\":\"online\",\"payload_not_available\":\"offline\",\"device\":{\"identifiers\":[\"ha_affaldvarme\"],\"name\":\"Affaldvarme integration\",\"sw_version\":\"1.0\",\"model\":\"Standard\",\"manufacturer\":\"Your humble rust developer\"}}",
                ),
                retain: true,
            },
        );
        out.push(
            MqttMessage {
                topic: availability_topic(),
                payload: String::from_str("online"),
                retain: true,
            },
        );
        proof {
            assert(models(out@) =~~= seq![
                spec_device_config_model(),
                spec_availability_online_model(),
            ]);
        }
        out
    }

    /// Commits the announcement: with both messages delivered the registry
    /// may register sensors, starting with no record; otherwise the caller
    /// keeps the unannounced registry and may try the announcement again.
    pub fn initialize(self, delivered: usize) -> (r: Result<
        HADevice<InitializedState>,
        HADevice<CreatedState>,
    >)
        ensures
            r is Ok <==> delivered >= 2,
            r is Ok ==> r->Ok_0.wf(),
            r is Ok ==> forall|id: Seq<char>| !(#[trigger] r->Ok_0.has_record(id)),
    {
        if delivered >= 2 {
            Ok(HADevice { state: InitializedState { sensors: Vec::new() } })
        } else {
            Err(self)
        }
    }
}

impl HADevice<InitializedState> {
    /// The sensor records, in order of first sight.
    pub closed spec fn sensors(self) -> Seq<HASensor> {
        self.state.sensors@
    }

    /// Registry invariant: every record is well formed and the keys are
    /// distinct.
    pub closed spec fn wf(self) -> bool {
        &&& forall|i: int| 0 <= i < self.sensors().len() ==> (#[trigger] self.sensors()[i]).wf()
        &&& forall|i: int, j: int|
            0 <= i < j < self.sensors().len() ==> self.sensors()[i].id() != self.sensors()[j].id()
    }

    /// Whether a record exists for the sanitized key.
    pub open spec fn has_record(self, id: Seq<char>) -> bool {
        exists|i: int| 0 <= i < self.sensors().len() && (#[trigger] self.sensors()[i]).id() == id
    }

    /// Whether the key's discovery configuration has been published.
    pub open spec fn registered(self, id: Seq<char>) -> bool {
        exists|i: int|
            0 <= i < self.sensors().len() && (#[trigger] self.sensors()[i]).id() == id
                && self.sensors()[i].registered()
    }

    /// How many messages the next report of the key publishes.
    pub open spec fn pending_message_count(self, id: Seq<char>) -> int {
        if self.registered(id) {
            1
        } else {
            2
        }
    }

    /// With distinct keys, the record found for a key decides registration.
    proof fn lemma_registered_at(self, id: Seq<char>, j: int)
        requires
            self.wf(),
            0 <= j < self.sensors().len(),
            self.sensors()[j].id() == id,
        ensures
            self.registered(id) == self.sensors()[j].registered(),
    {
        if self.sensors()[j].registered() {
            assert(self.registered(id));
        } else if self.registered(id) {
            let k = choose|k: int|
                0 <= k < self.sensors().len() && (#[trigger] self.sensors()[k]).id() == id
                    && self.sensors()[k].registered();
            if k < j {
                assert(self.sensors()[k].id() != self.sensors()[j].id());
            } else if k > j {
                assert(self.sensors()[j].id() != self.sensors()[k].id());
            }
            assert(false);
        }
    }

    /// Whether the entry's key is registered, by scanning the records.
    fn is_registered_key(&self, id: &String) -> (r: bool)
        requires
            self.wf(),
        ensures
            r == self.registered(id@),
    {
        match find_sensor(&self.state.sensors, id) {
            Some(j) => {
                let r = self.state.sensors[j].is_initialized;
                proof {
                    self.lemma_registered_at(id@, j as int);
                }
                r
            },
            None => {
                proof {
                    if self.registered(id@) {
                        let k = choose|k: int|
                            0 <= k < self.sensors().len() && (#[trigger] self.sensors()[k]).id()
                                == id@ && self.sensors()[k].registered();
                        assert(self.sensors()[k].id() != id@);
                    }
                }
                false
            },
        }
    }

    /// The messages one report of this entry publishes, in order.
    pub fn report_messages(&self, container: &Container, timestamp: &str) -> (r: Vec<MqttMessage>)
        requires
            self.wf(),
            container.date.wf(),
        ensures
            models(r@) == spec_report_models(
                self.registered(sanitized(container.name@)),
                sanitized(container.name@),
                container.name@,
                container.date,
                timestamp@,
            ),
    {
        let id = HASensor::generate_sensor_id(container);
        let registered = self.is_registered_key(&id);
        let mut out: Vec<MqttMessage> = Vec::new();
        if !registered {
            out.push(
                MqttMessage {
                    topic: config_topic(id.as_str()),
                    payload: sensor_config_payload(id.as_str(), container.name.as_str()),
                    retain: false,
                },
            );
        }
        out.push(
            MqttMessage {
                topic: state_topic(id.as_str()),
                payload: state_payload(container.name.as_str(), &container.date, timestamp),
                retain: false,
            },
        );
        proof {
            assert(models(out@) =~~= spec_report_models(
                self.registered(sanitized(container.name@)),
                sanitized(container.name@),
                container.name@,
                container.date,
                timestamp@,
            ));
        }
        out
    }

    /// Commits one report of this entry after its messages were carried out:
    /// `delivered` of them, counted from the front, went through.  The record
    /// is created on first sight of the key; the registration is committed as
    /// soon as the configuration message is out and is never rolled back, so
    /// a later failure cannot make the configuration repeat.  The report
    /// succeeds only when every message went through; no other key changes.
    pub fn report(&mut self, container: &Container, delivered: usize) -> (r: Result<
        (),
        EntityReportError,
    >)
        requires
            old(self).wf(),
            delivered <= old(self).pending_message_count(sanitized(container.name@)),
        ensures
            final(self).wf(),
            final(self).has_record(sanitized(container.name@)),
            final(self).registered(sanitized(container.name@)) == (old(self).registered(
                sanitized(container.name@),
            ) || delivered >= 1),
            forall|other: Seq<char>|
                other != sanitized(container.name@) ==> final(self).registered(other) == old(
                    self,
                ).registered(other),
            forall|other: Seq<char>|
                other != sanitized(container.name@) ==> final(self).has_record(other) == old(
                    self,
                ).has_record(other),
            r is Ok <==> delivered == old(self).pending_message_count(sanitized(container.name@)),
            r is Err ==> r->Err_0.entity@ == container.name@,
    {
        let id = HASensor::generate_sensor_id(container);
        let ghost pre = *self;
        let idx: usize;
        match find_sensor(&self.state.sensors, &id) {
            Some(j) => {
                idx = j;
            },
            None => {
                idx = self.state.sensors.len();
                self.state.sensors.push(HASensor::new(container));
                proof {
                    assert(forall|i: int|
                        0 <= i < pre.sensors().len() ==> self.sensors()[i] == pre.sensors()[i]);
                }
            },
        }
        proof {
            self.lemma_registered_at(id@, idx as int);
            if idx < pre.sensors().len() {
                pre.lemma_registered_at(id@, idx as int);
            } else {
                if pre.registered(id@) {
                    let k = choose|k: int|
                        0 <= k < pre.sensors().len() && (#[trigger] pre.sensors()[k]).id() == id@
                            && pre.sensors()[k].registered();
                    assert(pre.sensors()[k].id() != id@);
                }
            }
        }
        let was_registered = self.state.sensors[idx].is_initialized;
        let expected: usize = if was_registered {
            1
        } else {
            2
        };
        let ghost mid = *self;
        if !was_registered && delivered >= 1 {
            self.state.sensors[idx].is_initialized = true;
            proof {
                assert(forall|i: int|
                    0 <= i < mid.sensors().len() && i != idx as int ==> self.sensors()[i]
                        == mid.sensors()[i]);
                assert(self.sensors()[idx as int].id() == mid.sensors()[idx as int].id());
                assert(self.sensors()[idx as int].wf());
            }
        }
        proof {
            self.lemma_registered_at(id@, idx as int);
        }
        if delivered == expected {
            Ok(())
        } else {
            Err(EntityReportError { entity: container.name.clone() })
        }
    }

    /// The messages of one report stamped with the clock's current time:
    /// whatever the clock yields, they are exactly the messages of a report
    /// with some timestamp.
    pub fn report_messages_now(&self, container: &Container) -> (r: Vec<MqttMessage>)
        requires
            self.wf(),
            container.date.wf(),
        ensures
            exists|ts: Seq<char>|
                models(r@) == spec_report_models(
                    self.registered(sanitized(container.name@)),
                    sanitized(container.name@),
                    container.name@,
                    container.date,
                    ts,
                ),
    {
        let ts = now_rfc3339();
        let r = self.report_messages(container, ts.as_str());
        proof {
            assert(models(r@) == spec_report_models(
                self.registered(sanitized(container.name@)),
                sanitized(container.name@),
                container.name@,
                container.date,
                ts@,
            ));
        }
        r
    }
}

/// Relies on `chrono::Local::now` and `DateTime::to_rfc3339` of chrono: a
/// timezone-aware timestamp for the moment of the call.  Nothing is assumed
/// of its value.
#[verifier::external_body]
fn now_rfc3339() -> String {
    chrono::Local::now().to_rfc3339()
}

/// Law: reporting is idempotent per entity key and never touches the device
/// availability signal.  The first report of a key publishes exactly its
/// discovery configuration followed by its state; a report of a registered
/// key publishes exactly its state; the three topics involved are pairwise
/// distinct, so two reports of one key publish one configuration message and
/// two state messages, and no report message is ever addressed to the
/// availability topic, which only the one-time device announcement
/// publishes.
pub proof fn lemma_report_publishes_config_once(
    id: Seq<char>,
    name: Seq<char>,
    date1: Date,
    date2: Date,
    ts1: Seq<char>,
    ts2: Seq<char>,
)
    ensures
        spec_report_models(false, id, name, date1, ts1) == seq![
            spec_config_model(id, name),
            spec_state_model(id, name, date1, ts1),
        ],
        spec_report_models(true, id, name, date2, ts2) == seq![
            spec_state_model(id, name, date2, ts2),
        ],
        spec_state_topic(id) != spec_config_topic(id),
        spec_state_topic(id) != spec_availability_topic(),
        spec_config_topic(id) != spec_availability_topic(),
        spec_device_config_model().topic != spec_availability_topic(),
        forall|reg: bool, date: Date, ts: Seq<char>, j: int|
            0 <= j < spec_report_models(reg, id, name, date, ts).len() ==> (
            #[trigger] spec_report_models(reg, id, name, date, ts)[j]).topic
                != spec_availability_topic(),
{
    reveal_strlit("homeassistant/sensor/ha_affaldvarme_");
    reveal_strlit("garbage_bin/");
    reveal_strlit("/config");
    reveal_strlit("/status");
    reveal_strlit("garbage_bin/availability");
    reveal_strlit("homeassistant/sensor/ha_affaldvarme_device/config");
    assert(spec_device_config_model().topic.len() == 49);
    assert(spec_config_topic(id).len() == 43 + id.len());
    assert(spec_state_topic(id).len() == 19 + id.len());
    assert(spec_availability_topic().len() == 24);
    if spec_state_topic(id) == spec_availability_topic() {
        assert(id.len() == 5);
        assert(spec_state_topic(id)[17] == "/status"@[0]);
        assert(false);
    }
}

} // verus!
