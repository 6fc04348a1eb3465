use vstd::prelude::*;

use crate::atlas::{AtlasCommand, ProbeReading, Decimal, MAX_COMMAND_LEN};

verus! {

/// Ticks to wait after the last setup command before the first sample.
pub const SETTLE_TICKS: u64 = 5000;

/// Ticks between a sample command and the read of its response.
pub const RESPONSE_WAIT_TICKS: u64 = 1000;

/// Ticks between a completed read and the next sample command.
pub const SAMPLE_PERIOD_TICKS: u64 = 5000;

/// What a sensor waits to do next.
#[derive(Clone, Copy, Debug, PartialEq, Eq, Structural)]
pub enum PendingAction {
    /// Still sending setup commands; `command_index` is the next one.
    Startup { command_index: usize },
    /// Waiting until `deadline` to send the sample command.
    Sample { deadline: u64 },
    /// Waiting until `deadline` to read the response to a sample command.
    Receive { deadline: u64 },
}

impl Default for PendingAction {
    fn default() -> (r: PendingAction)
        ensures
            r == (PendingAction::Startup { command_index: 0 }),
    {
        PendingAction::Startup { command_index: 0 }
    }
}

/// The one operation the scheduler has put on the bus and not yet finished.
#[derive(Clone, Copy, Debug, PartialEq, Eq, Structural)]
pub struct PendingOperation {
    pub sensor: usize,
    pub operation: PendingAction,
}

/// `t + d` on the tick clock, held at the clock's last tick.
pub open spec fn later(t: u64, d: u64) -> u64 {
    if t + d > u64::MAX {
        u64::MAX
    } else {
        (t + d) as u64
    }
}

/// The deadline an action waits for; a startup action waits for nothing.
pub open spec fn deadline_of(a: PendingAction) -> u64 {
    match a {
        PendingAction::Startup { .. } => 0,
        PendingAction::Sample { deadline } => deadline,
        PendingAction::Receive { deadline } => deadline,
    }
}

pub open spec fn has_startup(actions: Seq<PendingAction>) -> bool {
    exists|j: int| 0 <= j < actions.len() && #[trigger] actions[j] is Startup
}

/// Sensor `k` is the one the scheduler picks next: the first sensor still in
/// startup if there is one, else the earliest deadline, the first of equal ones.
pub open spec fn selects(actions: Seq<PendingAction>, k: int) -> bool {
    &&& 0 <= k < actions.len()
    &&& if has_startup(actions) {
        &&& actions[k] is Startup
        &&& forall|j: int| 0 <= j < k ==> !(#[trigger] actions[j] is Startup)
    } else {
        &&& forall|j: int|
            0 <= j < actions.len() ==> deadline_of(actions[k]) <= deadline_of(#[trigger] actions[j])
        &&& forall|j: int| 0 <= j < k ==> deadline_of(actions[k]) < deadline_of(#[trigger] actions[j])
    }
}

/// The sensor the scheduler picks next, if there is any sensor.
pub open spec fn selection(actions: Seq<PendingAction>) -> Option<int> {
    if exists|k: int| selects(actions, k) {
        Some(choose|k: int| selects(actions, k))
    } else {
        None
    }
}

/// At most one sensor meets the selection rule.
pub proof fn lemma_selection_unique(actions: Seq<PendingAction>, a: int, b: int)
    requires
        selects(actions, a),
        selects(actions, b),
    ensures
        a == b,
{
    if a < b {
        if has_startup(actions) {
            assert(!(actions[a] is Startup));
        } else {
            assert(deadline_of(actions[b]) < deadline_of(actions[a]));
        }
    } else if b < a {
        if has_startup(actions) {
            assert(!(actions[b] is Startup));
        } else {
            assert(deadline_of(actions[a]) < deadline_of(actions[b]));
        }
    }
}

/// Setup preempts sampling: whenever some sensor is still in startup, the
/// scheduler picks a sensor in startup, the first one, whatever the deadlines.
pub proof fn lemma_startup_preempts(actions: Seq<PendingAction>)
    requires
        has_startup(actions),
    ensures
        selection(actions) matches Some(k) && actions[k] is Startup && forall|j: int|
            0 <= j < k ==> !(#[trigger] actions[j] is Startup),
{
    let j = choose|j: int| 0 <= j < actions.len() && #[trigger] actions[j] is Startup;
    lemma_selection_exists(actions);
    let k = selection(actions)->Some_0;
    assert(selects(actions, k));
}

/// Earliest deadline first: with no sensor in startup, the scheduler picks a
/// sensor whose deadline no other sensor's undercuts, and of sensors with that
/// deadline the first.
pub proof fn lemma_earliest_deadline_first(actions: Seq<PendingAction>)
    requires
        actions.len() > 0,
        !has_startup(actions),
    ensures
        selection(actions) matches Some(k) && (forall|j: int|
            0 <= j < actions.len() ==> deadline_of(actions[k]) <= deadline_of(
                #[trigger] actions[j],
            )) && (forall|j: int|
            0 <= j < actions.len() && deadline_of(#[trigger] actions[j]) == deadline_of(actions[k])
                ==> k <= j),
{
    lemma_selection_exists(actions);
    let k = selection(actions)->Some_0;
    assert(selects(actions, k));
}

/// Some sensor meets the selection rule whenever there is a sensor.
pub proof fn lemma_selection_exists(actions: Seq<PendingAction>)
    ensures
        selection(actions) is Some <==> actions.len() > 0,
        selection(actions) matches Some(k) ==> selects(actions, k),
{
    if actions.len() > 0 {
        let w = selected_prefix(actions, actions.len() as int);
        assert(actions.subrange(0, actions.len() as int) =~= actions);
        assert(selects(actions, w));
    }
}

/// The pick among the first `n` sensors, built one sensor at a time.
proof fn selected_prefix(actions: Seq<PendingAction>, n: int) -> (k: int)
    requires
        0 < n <= actions.len(),
    ensures
        selects(actions.subrange(0, n), k),
    decreases n,
{
    let p = actions.subrange(0, n);
    if n == 1 {
        if has_startup(p) {
            let j = choose|j: int| 0 <= j < p.len() && #[trigger] p[j] is Startup;
            assert(j == 0);
        }
        0
    } else {
        let k0 = selected_prefix(actions, n - 1);
        let q = actions.subrange(0, n - 1);
        assert forall|j: int| 0 <= j < n - 1 implies #[trigger] q[j] == p[j] by {}
        let last = p[n - 1];
        if has_startup(q) {
            let j = choose|j: int| 0 <= j < q.len() && #[trigger] q[j] is Startup;
            assert(p[j] is Startup);
            k0
        } else if last is Startup {
            assert forall|j: int| 0 <= j < n - 1 implies !(#[trigger] p[j] is Startup) by {
                assert(!(q[j] is Startup));
            }
            n - 1
        } else {
            assert forall|j: int| 0 <= j < n implies !(#[trigger] p[j] is Startup) by {
                if j < n - 1 {
                    assert(!(q[j] is Startup));
                }
            }
            if deadline_of(last) < deadline_of(q[k0]) {
                n - 1
            } else {
                k0
            }
        }
    }
}

/// What the scheduler needs of a probe on the shared bus.
pub trait AtlasSensor {
    spec fn spec_address(&self) -> u32;

    spec fn spec_sample_command(&self) -> Seq<u8>;

    spec fn spec_setup_commands(&self) -> Seq<Seq<u8>>;

    spec fn spec_action(&self) -> PendingAction;

    /// The last reading the sensor recorded, if any.
    spec fn spec_last_reading(&self) -> Option<Decimal>;

    /// The sensor's bus address.
    fn address(&self) -> (r: u32)
        ensures
            r == self.spec_address(),
    ;

    /// The command that makes the sensor take a sample.
    fn sample_command(&self) -> (r: Vec<u8>)
        ensures
            r@ == self.spec_sample_command(),
            r@.len() <= MAX_COMMAND_LEN,
    ;

    /// The commands that configure the sensor, in the order they are sent.
    fn setup_commands(&self) -> (r: Vec<Vec<u8>>)
        ensures
            r@.len() == self.spec_setup_commands().len(),
            forall|i: int|
                0 <= i < r@.len() ==> (#[trigger] r@[i])@ == self.spec_setup_commands()[i]
                    && r@[i]@.len() <= MAX_COMMAND_LEN,
    ;

    /// What the sensor waits to do next.
    fn pending_action(&self) -> (r: PendingAction)
        ensures
            r == self.spec_action(),
    ;

    fn set_pending_action(&mut self, action: PendingAction)
        ensures
            final(self).spec_action() == action,
            final(self).spec_address() == old(self).spec_address(),
            final(self).spec_sample_command() == old(self).spec_sample_command(),
            final(self).spec_setup_commands() == old(self).spec_setup_commands(),
            final(self).spec_last_reading() == old(self).spec_last_reading(),
    ;

    /// Records a reading that the sensor reported.
    fn handle_response(&mut self, reading: ProbeReading)
        ensures
            final(self).spec_last_reading() == Some(reading.value),
            final(self).spec_action() == old(self).spec_action(),
            final(self).spec_address() == old(self).spec_address(),
            final(self).spec_sample_command() == old(self).spec_sample_command(),
            final(self).spec_setup_commands() == old(self).spec_setup_commands(),
    ;
}

/// The dissolved-oxygen probe.
pub struct OxygenSensor {
    pub last_reading: Option<Decimal>,
    pub action: PendingAction,
}

impl OxygenSensor {
    pub fn new() -> (r: OxygenSensor)
        ensures
            r.last_reading is None,
            r.action == (PendingAction::Startup { command_index: 0 }),
    {
        OxygenSensor { last_reading: None, action: PendingAction::Startup { command_index: 0 } }
    }
}

impl AtlasSensor for OxygenSensor {
    open spec fn spec_address(&self) -> u32 {
        0x6C
    }

    open spec fn spec_sample_command(&self) -> Seq<u8> {
        seq![0x52]  // "R"
    }

    open spec fn spec_setup_commands(&self) -> Seq<Seq<u8>> {
        seq![]
    }

    open spec fn spec_action(&self) -> PendingAction {
        self.action
    }

    open spec fn spec_last_reading(&self) -> Option<Decimal> {
        self.last_reading
    }

    fn address(&self) -> (r: u32) {
        0x6C
    }

    fn sample_command(&self) -> (r: Vec<u8>) {
        let r = vec![0x52];
        assert(r@ =~= seq![0x52u8]);
        r
    }

    fn setup_commands(&self) -> (r: Vec<Vec<u8>>) {
        let r: Vec<Vec<u8>> = Vec::new();
        assert(r@ =~= seq![]);
        r
    }

    fn pending_action(&self) -> (r: PendingAction) {
        self.action
    }

    fn set_pending_action(&mut self, action: PendingAction) {
        self.action = action;
    }

    fn handle_response(&mut self, reading: ProbeReading) {
        self.last_reading = Some(reading.value);
    }
}

/// The humidity and temperature probe.
pub struct HumiditySensor {
    pub last_humidity: Option<Decimal>,
    pub last_temperature: Option<Decimal>,
    pub action: PendingAction,
}

impl HumiditySensor {
    pub fn new() -> (r: HumiditySensor)
        ensures
            r.last_humidity is None,
            r.last_temperature is None,
            r.action == (PendingAction::Startup { command_index: 0 }),
    {
        HumiditySensor {
            last_humidity: None,
            last_temperature: None,
            action: PendingAction::Startup { command_index: 0 },
        }
    }
}

impl AtlasSensor for HumiditySensor {
    open spec fn spec_address(&self) -> u32 {
        0x6F
    }

    open spec fn spec_sample_command(&self) -> Seq<u8> {
        seq![0x52]  // "R"
    }

    open spec fn spec_setup_commands(&self) -> Seq<Seq<u8>> {
        seq![
            seq![0x4F, 0x2C, 0x54, 0x2C, 0x31],  // "O,T,1"
            seq![0x4F, 0x2C, 0x48, 0x55, 0x4D, 0x2C, 0x31],  // "O,HUM,1"
        ]
    }

    open spec fn spec_action(&self) -> PendingAction {
        self.action
    }

    open spec fn spec_last_reading(&self) -> Option<Decimal> {
        self.last_humidity
    }

    fn address(&self) -> (r: u32) {
        0x6F
    }

    fn sample_command(&self) -> (r: Vec<u8>) {
        let r = vec![0x52];
        assert(r@ =~= seq![0x52u8]);
        r
    }

    fn setup_commands(&self) -> (r: Vec<Vec<u8>>) {
        let temperature = vec![0x4F, 0x2C, 0x54, 0x2C, 0x31];
        let humidity = vec![0x4F, 0x2C, 0x48, 0x55, 0x4D, 0x2C, 0x31];
        assert(temperature@ =~= seq![0x4Fu8, 0x2C, 0x54, 0x2C, 0x31]);
        assert(humidity@ =~= seq![0x4Fu8, 0x2C, 0x48, 0x55, 0x4D, 0x2C, 0x31]);
        let r = vec![temperature, humidity];
        assert(r@[0]@ == self.spec_setup_commands()[0]);
        assert(r@[1]@ == self.spec_setup_commands()[1]);
        r
    }

    fn pending_action(&self) -> (r: PendingAction) {
        self.action
    }

    fn set_pending_action(&mut self, action: PendingAction) {
        self.action = action;
    }

    fn handle_response(&mut self, reading: ProbeReading) {
        self.last_humidity = Some(reading.value);
    }
}

/// Any probe of the chamber, so that one collection can hold them all.
pub enum ChamberSensor {
    Oxygen(OxygenSensor),
    Humidity(HumiditySensor),
}

impl AtlasSensor for ChamberSensor {
    open spec fn spec_address(&self) -> u32 {
        match self {
            ChamberSensor::Oxygen(s) => s.spec_address(),
            ChamberSensor::Humidity(s) => s.spec_address(),
        }
    }

    open spec fn spec_sample_command(&self) -> Seq<u8> {
        match self {
            ChamberSensor::Oxygen(s) => s.spec_sample_command(),
            ChamberSensor::Humidity(s) => s.spec_sample_command(),
        }
    }

    open spec fn spec_setup_commands(&self) -> Seq<Seq<u8>> {
        match self {
            ChamberSensor::Oxygen(s) => s.spec_setup_commands(),
            ChamberSensor::Humidity(s) => s.spec_setup_commands(),
        }
    }

    open spec fn spec_action(&self) -> PendingAction {
        match self {
            ChamberSensor::Oxygen(s) => s.spec_action(),
            ChamberSensor::Humidity(s) => s.spec_action(),
        }
    }

    open spec fn spec_last_reading(&self) -> Option<Decimal> {
        match self {
            ChamberSensor::Oxygen(s) => s.spec_last_reading(),
            ChamberSensor::Humidity(s) => s.spec_last_reading(),
        }
    }

    fn address(&self) -> (r: u32) {
        match self {
            ChamberSensor::Oxygen(s) => s.address(),
            ChamberSensor::Humidity(s) => s.address(),
        }
    }

    fn sample_command(&self) -> (r: Vec<u8>) {
        match self {
            ChamberSensor::Oxygen(s) => s.sample_command(),
            ChamberSensor::Humidity(s) => s.sample_command(),
        }
    }

    fn setup_commands(&self) -> (r: Vec<Vec<u8>>) {
        match self {
            ChamberSensor::Oxygen(s) => s.setup_commands(),
            ChamberSensor::Humidity(s) => s.setup_commands(),
        }
    }

    fn pending_action(&self) -> (r: PendingAction) {
        match self {
            ChamberSensor::Oxygen(s) => s.pending_action(),
            ChamberSensor::Humidity(s) => s.pending_action(),
        }
    }

    fn set_pending_action(&mut self, action: PendingAction) {
        match self {
            ChamberSensor::Oxygen(s) => s.set_pending_action(action),
            ChamberSensor::Humidity(s) => s.set_pending_action(action),
        }
    }

    fn handle_response(&mut self, reading: ProbeReading) {
        match self {
            ChamberSensor::Oxygen(s) => s.handle_response(reading),
            ChamberSensor::Humidity(s) => s.handle_response(reading),
        }
    }
}

} // verus!
