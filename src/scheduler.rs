use vstd::prelude::*;

use crate::atlas::{parse_probe_response, reading_of, AtlasCommand, ProbeReading, ProtocolError};
use crate::sensors::{
    deadline_of, later, lemma_selection_exists, lemma_selection_unique, selection, selects, AtlasSensor,
    PendingAction, PendingOperation, RESPONSE_WAIT_TICKS, SAMPLE_PERIOD_TICKS, SETTLE_TICKS,
};

verus! {

/// What the caller is to do on the bus after a scheduling pass.
pub enum BusRequest {
    /// Write this command, then report with `complete_write` or `abort_operation`.
    Write(AtlasCommand),
    /// Read the response of the sensor at `address`, then report with
    /// `complete_read` or `abort_operation`.
    Read { address: u32 },
    /// Nothing is due before `until`.
    Wait { until: u64 },
    /// Nothing to put on the bus on this pass.
    Idle,
    /// An operation is still in flight; finish it first.
    Busy,
}

/// The probes on one bus, and the one operation in flight on it, if any.
pub struct AtlasScientificSensors<S: AtlasSensor> {
    pub sensors: Vec<S>,
    pub current_operation: Option<PendingOperation>,
}

/// Two sensor lists that differ at most in what each sensor waits to do.
pub open spec fn same_probes<S: AtlasSensor>(a: Seq<S>, b: Seq<S>) -> bool {
    &&& a.len() == b.len()
    &&& forall|j: int|
        0 <= j < a.len() ==> {
            &&& (#[trigger] a[j]).spec_address() == b[j].spec_address()
            &&& a[j].spec_sample_command() == b[j].spec_sample_command()
            &&& a[j].spec_setup_commands() == b[j].spec_setup_commands()
        }
}

/// Two sensor lists whose sensors hold the same recorded readings.
pub open spec fn same_readings<S: AtlasSensor>(a: Seq<S>, b: Seq<S>) -> bool {
    &&& a.len() == b.len()
    &&& forall|j: int|
        0 <= j < a.len() ==> (#[trigger] a[j]).spec_last_reading() == b[j].spec_last_reading()
}

/// What a sensor waits for once the write of its current operation went through.
pub open spec fn after_write(a: PendingAction, setup_count: nat, now: u64) -> PendingAction {
    match a {
        PendingAction::Startup { command_index } => if command_index + 1 < setup_count {
            PendingAction::Startup { command_index: (command_index + 1) as usize }
        } else {
            PendingAction::Sample { deadline: later(now, SETTLE_TICKS) }
        },
        PendingAction::Sample { deadline } => PendingAction::Receive {
            deadline: later(deadline, RESPONSE_WAIT_TICKS),
        },
        PendingAction::Receive { deadline } => PendingAction::Receive { deadline },
    }
}

impl<S: AtlasSensor> AtlasScientificSensors<S> {
    /// What each sensor waits to do, in collection order.
    pub open spec fn actions(self) -> Seq<PendingAction> {
        self.sensors@.map_values(|s: S| s.spec_action())
    }

    /// The operation in flight, if any, belongs to a sensor of the collection
    /// and is what that sensor waits to do.
    pub open spec fn wf(self) -> bool {
        self.current_operation matches Some(op) ==> {
            &&& op.sensor < self.sensors@.len()
            &&& self.sensors@[op.sensor as int].spec_action() == op.operation
        }
    }

    /// A collection with nothing in flight.
    pub fn new(sensors: Vec<S>) -> (r: Self)
        ensures
            r.sensors@ == sensors@,
            r.current_operation is None,
            r.wf(),
    {
        AtlasScientificSensors { sensors, current_operation: None }
    }

    /// The sensor to serve next: the first one in startup if any, else the
    /// earliest deadline, the first of equal ones.
    pub fn select_next(&self) -> (r: Option<usize>)
        ensures
            r matches Some(k) ==> k as int == selection(self.actions())->Some_0,
            r is Some <==> selection(self.actions()) is Some,
    {
        let ghost actions = self.actions();
        let n = self.sensors.len();
        let mut best: Option<usize> = None;
        let mut best_deadline: u64 = 0;
        let mut i: usize = 0;
        while i < n
            invariant
                n == self.sensors@.len() == actions.len(),
                actions == self.actions(),
                i <= n,
                forall|j: int| 0 <= j < i ==> !(#[trigger] actions[j] is Startup),
                i == 0 <==> best is None,
                best matches Some(k) ==> {
                    &&& k < i
                    &&& best_deadline == deadline_of(actions[k as int])
                    &&& selects(actions.subrange(0, i as int), k as int)
                },
            decreases n - i,
        {
            let action = self.sensors[i].pending_action();
            assert(action == actions[i as int]);
            let ghost p = actions.subrange(0, i + 1);
            let ghost q = actions.subrange(0, i as int);
            assert forall|j: int| 0 <= j < i implies #[trigger] q[j] == p[j] by {}
            match action {
                PendingAction::Startup { .. } => {
                    proof {
                        assert(selects(actions, i as int)) by {
                            assert(crate::sensors::has_startup(actions)) by {
                                assert(actions[i as int] is Startup);
                            }
                        }
                        lemma_selection_exists(actions);
                        lemma_selection_unique(actions, i as int, selection(actions)->Some_0);
                    }
                    return Some(i);
                },
                PendingAction::Sample { deadline } | PendingAction::Receive { deadline } => {
                    proof {
                        assert forall|j: int| 0 <= j <= i implies !(#[trigger] p[j] is Startup) by {
                            if j < i {
                                assert(q[j] == actions[j]);
                            }
                        }
                    }
                    let take = match best {
                        None => true,
                        Some(_) => deadline < best_deadline,
                    };
                    if take {
                        best = Some(i);
                        best_deadline = deadline;
                    }
                    proof {
                        let k = best->Some_0;
                        assert(selects(p, k as int));
                    }
                },
            }
            i = i + 1;
        }
        proof {
            assert(actions.subrange(0, n as int) =~= actions);
            lemma_selection_exists(actions);
            if let Some(k) = best {
                lemma_selection_unique(actions, k as int, selection(actions)->Some_0);
            }
        }
        best
    }

    /// What one scheduling pass at time `now` does to `self`, giving `r` and `next`.
    pub open spec fn polled(self, now: u64, r: BusRequest, next: Self) -> bool {
        match self.current_operation {
            Some(_) => {
                &&& r is Busy
                &&& next.actions() == self.actions()
                &&& next.current_operation == self.current_operation
            },
            None => match selection(self.actions()) {
                None => {
                    &&& r is Idle
                    &&& next.actions() == self.actions()
                    &&& next.current_operation is None
                },
                Some(k) => {
                    let s = self.sensors@[k];
                    let a = s.spec_action();
                    let started = Some(PendingOperation { sensor: k as usize, operation: a });
                    let unchanged = next.actions() == self.actions() && next.current_operation
                        is None;
                    match a {
                        PendingAction::Startup { command_index } => {
                            if command_index < s.spec_setup_commands().len() {
                                &&& r matches BusRequest::Write(c) && c.address == s.spec_address() as usize
                                    && c@ == s.spec_setup_commands()[command_index as int]
                                &&& next.actions() == self.actions()
                                &&& next.current_operation == started
                            } else {
                                &&& r is Idle
                                &&& next.actions() == self.actions().update(
                                    k,
                                    PendingAction::Sample { deadline: later(now, SETTLE_TICKS) },
                                )
                                &&& next.current_operation is None
                            }
                        },
                        PendingAction::Sample { deadline } => {
                            if now < deadline {
                                r matches BusRequest::Wait { until } && until == deadline
                                    && unchanged
                            } else {
                                &&& r matches BusRequest::Write(c) && c.address == s.spec_address() as usize
                                    && c@ == s.spec_sample_command()
                                &&& next.actions() == self.actions()
                                &&& next.current_operation == started
                            }
                        },
                        PendingAction::Receive { deadline } => {
                            if now < deadline {
                                r matches BusRequest::Wait { until } && until == deadline
                                    && unchanged
                            } else {
                                &&& r matches BusRequest::Read { address } && address
                                    == s.spec_address()
                                &&& next.actions() == self.actions()
                                &&& next.current_operation == started
                            }
                        },
                    }
                },
            },
        }
    }

    /// One scheduling pass: picks the next operation and says what to put on
    /// the bus. While an operation is in flight no other one starts.
    pub fn poll(&mut self, now: u64) -> (r: BusRequest)
        requires
            old(self).wf(),
        ensures
            final(self).wf(),
            same_probes(old(self).sensors@, final(self).sensors@),
            same_readings(old(self).sensors@, final(self).sensors@),
            old(self).polled(now, r, *final(self)),
    {
        if self.current_operation.is_some() {
            return BusRequest::Busy;
        }
        let k = match self.select_next() {
            None => return BusRequest::Idle,
            Some(k) => k,
        };
        proof {
            lemma_selection_exists(self.actions());
        }
        let action = self.sensors[k].pending_action();
        let address = self.sensors[k].address();
        match action {
            PendingAction::Startup { command_index } => {
                let setup = self.sensors[k].setup_commands();
                if command_index < setup.len() {
                    match AtlasCommand::new(address as usize, setup[command_index].as_slice()) {
                        Some(c) => {
                            self.current_operation = Some(
                                PendingOperation { sensor: k, operation: action },
                            );
                            BusRequest::Write(c)
                        },
                        None => BusRequest::Idle,
                    }
                } else {
                    let next = PendingAction::Sample {
                        deadline: now.saturating_add(SETTLE_TICKS),
                    };
                    self.set_action(k, next);
                    BusRequest::Idle
                }
            },
            PendingAction::Sample { deadline } => {
                if now < deadline {
                    return BusRequest::Wait { until: deadline };
                }
                let command = self.sensors[k].sample_command();
                match AtlasCommand::new(address as usize, command.as_slice()) {
                    Some(c) => {
                        self.current_operation = Some(
                            PendingOperation { sensor: k, operation: action },
                        );
                        BusRequest::Write(c)
                    },
                    None => BusRequest::Idle,
                }
            },
            PendingAction::Receive { deadline } => {
                if now < deadline {
                    return BusRequest::Wait { until: deadline };
                }
                self.current_operation = Some(PendingOperation { sensor: k, operation: action });
                BusRequest::Read { address }
            },
        }
    }

    /// Sets what sensor `k` waits to do next.
    fn set_action(&mut self, k: usize, action: PendingAction)
        requires
            k < old(self).sensors@.len(),
        ensures
            final(self).actions() == old(self).actions().update(k as int, action),
            same_probes(old(self).sensors@, final(self).sensors@),
            final(self).current_operation == old(self).current_operation,
            forall|j: int|
                0 <= j < old(self).sensors@.len() ==> (#[trigger] final(self).sensors@[j]).spec_last_reading()
                    == old(self).sensors@[j].spec_last_reading(),
    {
        self.sensors[k].set_pending_action(action);
        assert(self.actions() =~= old(self).actions().update(k as int, action));
    }

    /// Reports that the write of the operation in flight went through: the
    /// sensor moves on to its next setup command, to its first sample after a
    /// settle time, or to the read of the sample's response.
    pub fn complete_write(&mut self, now: u64)
        requires
            old(self).wf(),
            old(self).current_operation matches Some(op) && !(op.operation is Receive),
        ensures
            final(self).wf(),
            same_probes(old(self).sensors@, final(self).sensors@),
            same_readings(old(self).sensors@, final(self).sensors@),
            final(self).current_operation is None,
            ({
                let op = old(self).current_operation->Some_0;
                final(self).actions() == old(self).actions().update(
                    op.sensor as int,
                    after_write(
                        op.operation,
                        old(self).sensors@[op.sensor as int].spec_setup_commands().len(),
                        now,
                    ),
                )
            }),
    {
        let op = match self.current_operation {
            Some(op) => op,
            None => return ,
        };
        self.current_operation = None;
        let next = match op.operation {
            PendingAction::Startup { command_index } => {
                let count = self.sensors[op.sensor].setup_commands().len();
                if count > 0 && command_index < count - 1 {
                    PendingAction::Startup { command_index: command_index + 1 }
                } else {
                    PendingAction::Sample { deadline: now.saturating_add(SETTLE_TICKS) }
                }
            },
            PendingAction::Sample { deadline } => PendingAction::Receive {
                deadline: deadline.saturating_add(RESPONSE_WAIT_TICKS),
            },
            PendingAction::Receive { deadline } => PendingAction::Receive { deadline },
        };
        self.set_action(op.sensor, next);
    }

    /// Hands over the response read for the operation in flight. The sensor
    /// records the reading, and is due to sample again after the sampling
    /// period whether or not the response could be used.
    pub fn complete_read(&mut self, response: &[u8], now: u64) -> (r: Result<
        ProbeReading,
        ProtocolError,
    >)
        requires
            old(self).wf(),
            old(self).current_operation matches Some(op) && op.operation is Receive,
        ensures
            final(self).wf(),
            same_probes(old(self).sensors@, final(self).sensors@),
            final(self).current_operation is None,
            r == reading_of(response@),
            ({
                let k = old(self).current_operation->Some_0.sensor as int;
                &&& r matches Ok(x) ==> final(self).sensors@[k].spec_last_reading() == Some(
                    x.value,
                )
                &&& r is Err ==> final(self).sensors@[k].spec_last_reading() == old(
                    self,
                ).sensors@[k].spec_last_reading()
                &&& forall|j: int|
                    0 <= j < old(self).sensors@.len() && j != k ==> (
                    #[trigger] final(self).sensors@[j]).spec_last_reading() == old(
                    self,
                ).sensors@[j].spec_last_reading()
            }),
            final(self).actions() == old(self).actions().update(
                old(self).current_operation->Some_0.sensor as int,
                PendingAction::Sample { deadline: later(now, SAMPLE_PERIOD_TICKS) },
            ),
    {
        let op = match self.current_operation {
            Some(op) => op,
            None => return parse_probe_response(response),
        };
        self.current_operation = None;
        let r = parse_probe_response(response);
        if let Ok(reading) = r {
            self.sensors[op.sensor].handle_response(reading);
        }
        let ghost mid = self.sensors@;
        assert(self.actions() =~= old(self).actions());
        assert(same_probes(old(self).sensors@, mid));
        self.set_action(
            op.sensor,
            PendingAction::Sample { deadline: now.saturating_add(SAMPLE_PERIOD_TICKS) },
        );
        assert(same_probes(old(self).sensors@, self.sensors@)) by {
            assert forall|j: int| 0 <= j < mid.len() implies (#[trigger] mid[j]).spec_address()
                == self.sensors@[j].spec_address() by {}
        }
        r
    }

    /// Drops the operation in flight after a bus error; the sensor keeps what it
    /// waits to do, so the operation is tried again on a later pass.
    pub fn abort_operation(&mut self)
        requires
            old(self).wf(),
        ensures
            final(self).wf(),
            final(self).sensors@ == old(self).sensors@,
            final(self).current_operation is None,
    {
        self.current_operation = None;
    }
}

/// One operation at a time: while an operation is in flight a scheduling pass
/// hands out no bus work and keeps that operation; a pass that hands out bus
/// work records exactly one operation, which did not exist before.
pub proof fn lemma_one_operation_in_flight<S: AtlasSensor>(
    s: AtlasScientificSensors<S>,
    now: u64,
    r: BusRequest,
    next: AtlasScientificSensors<S>,
)
    requires
        s.polled(now, r, next),
    ensures
        s.current_operation is Some ==> r is Busy && next.current_operation
            == s.current_operation,
        (r is Write || r is Read) ==> s.current_operation is None
            && next.current_operation is Some,
        next.current_operation is Some ==> s.current_operation is Some || r is Write || r is Read,
{
}

/// Setup sequence: a pass that picks a sensor at setup command `i` writes
/// exactly that command to the sensor's address and records that operation;
/// once the write completes at `t`, the sensor moves on to command `i + 1`, or,
/// after its last command, waits to sample until `t` plus the settle time.
pub proof fn lemma_setup_sequence<S: AtlasSensor>(
    s: AtlasScientificSensors<S>,
    now: u64,
    r: BusRequest,
    next: AtlasScientificSensors<S>,
    t: u64,
)
    requires
        s.current_operation is None,
        s.polled(now, r, next),
        selection(s.actions()) matches Some(k) && s.actions()[k] matches PendingAction::Startup {
            command_index,
        } && command_index < s.sensors@[k].spec_setup_commands().len(),
    ensures
        ({
            let k = selection(s.actions())->Some_0;
            let sensor = s.sensors@[k];
            let i = s.actions()[k]->Startup_command_index;
            let n = sensor.spec_setup_commands().len();
            let a = PendingAction::Startup { command_index: i };
            &&& r matches BusRequest::Write(c) && c@ == sensor.spec_setup_commands()[i as int]
                && c.address == sensor.spec_address() as usize
            &&& next.current_operation == Some(PendingOperation { sensor: k as usize, operation: a })
            &&& i + 1 < n ==> after_write(a, n, t) == PendingAction::Startup {
                command_index: (i + 1) as usize,
            }
            &&& i + 1 == n && t + SETTLE_TICKS <= u64::MAX ==> after_write(a, n, t)
                == PendingAction::Sample { deadline: (t + SETTLE_TICKS) as u64 }
        }),
{
    let k = selection(s.actions())->Some_0;
    assert(s.actions()[k] == s.sensors@[k].spec_action());
}

/// A sensor waiting to sample is not served before its deadline: a pass that
/// picks it earlier only reports the deadline and changes nothing.
pub proof fn lemma_sample_waits_for_deadline<S: AtlasSensor>(
    s: AtlasScientificSensors<S>,
    now: u64,
    r: BusRequest,
    next: AtlasScientificSensors<S>,
)
    requires
        s.current_operation is None,
        s.polled(now, r, next),
        selection(s.actions()) matches Some(k) && s.actions()[k] matches PendingAction::Sample {
            deadline,
        } && now < deadline,
    ensures
        r matches BusRequest::Wait { until } && until == deadline_of(
            s.actions()[selection(s.actions())->Some_0],
        ),
        next.actions() == s.actions(),
        next.current_operation is None,
{
    let k = selection(s.actions())->Some_0;
    assert(s.actions()[k] == s.sensors@[k].spec_action());
}

} // verus!
