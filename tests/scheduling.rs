use chamber_firmware::atlas::{Decimal, ProtocolError, ResponseCode};
use chamber_firmware::scheduler::{AtlasScientificSensors, BusRequest};
use chamber_firmware::sensors::{
    AtlasSensor, ChamberSensor, HumiditySensor, OxygenSensor, PendingAction, PendingOperation,
};

fn oxygen(action: PendingAction) -> OxygenSensor {
    OxygenSensor { last_reading: None, action }
}

fn written(r: BusRequest) -> (usize, Vec<u8>) {
    match r {
        BusRequest::Write(c) => (c.address, c.bytes().to_vec()),
        _ => panic!("expected a write"),
    }
}

fn waits_until(r: BusRequest) -> u64 {
    match r {
        BusRequest::Wait { until } => until,
        _ => panic!("expected a wait"),
    }
}

#[test]
fn setup_commands_then_first_sample_after_settle() {
    let mut s = AtlasScientificSensors::new(vec![HumiditySensor::new()]);
    assert_eq!(written(s.poll(0)), (0x6F, b"O,T,1".to_vec()));
    s.complete_write(0);
    assert_eq!(s.sensors[0].action, PendingAction::Startup { command_index: 1 });
    assert_eq!(written(s.poll(10)), (0x6F, b"O,HUM,1".to_vec()));
    s.complete_write(100);
    assert_eq!(s.sensors[0].action, PendingAction::Sample { deadline: 5100 });
    assert_eq!(waits_until(s.poll(200)), 5100);
    assert_eq!(waits_until(s.poll(5099)), 5100);
    assert_eq!(written(s.poll(5100)), (0x6F, b"R".to_vec()));
}

#[test]
fn earlier_deadline_dispatched_first() {
    let mut s = AtlasScientificSensors::new(vec![
        oxygen(PendingAction::Sample { deadline: 1200 }),
        oxygen(PendingAction::Sample { deadline: 1000 }),
    ]);
    assert_eq!(s.select_next(), Some(1));
    assert_eq!(waits_until(s.poll(900)), 1000);
    assert_eq!(written(s.poll(1200)), (0x6C, b"R".to_vec()));
    assert_eq!(
        s.current_operation,
        Some(PendingOperation { sensor: 1, operation: PendingAction::Sample { deadline: 1000 } })
    );
}

#[test]
fn startup_preempts_any_deadline() {
    let s = AtlasScientificSensors::new(vec![
        oxygen(PendingAction::Sample { deadline: 0 }),
        oxygen(PendingAction::Receive { deadline: 0 }),
        oxygen(PendingAction::Startup { command_index: 0 }),
        oxygen(PendingAction::Startup { command_index: 0 }),
    ]);
    assert_eq!(s.select_next(), Some(2));
}

#[test]
fn equal_deadlines_pick_first() {
    let s = AtlasScientificSensors::new(vec![
        oxygen(PendingAction::Receive { deadline: 3000 }),
        oxygen(PendingAction::Sample { deadline: 2000 }),
        oxygen(PendingAction::Receive { deadline: 2000 }),
    ]);
    assert_eq!(s.select_next(), Some(1));
}

#[test]
fn no_sensors_is_idle() {
    let mut s: AtlasScientificSensors<OxygenSensor> = AtlasScientificSensors::new(vec![]);
    assert_eq!(s.select_next(), None);
    assert!(matches!(s.poll(0), BusRequest::Idle));
}

#[test]
fn sensor_without_setup_goes_to_sample() {
    let mut s = AtlasScientificSensors::new(vec![OxygenSensor::new()]);
    assert!(matches!(s.poll(40), BusRequest::Idle));
    assert_eq!(s.sensors[0].action, PendingAction::Sample { deadline: 5040 });
    assert!(s.current_operation.is_none());
}

#[test]
fn one_operation_in_flight() {
    let mut s = AtlasScientificSensors::new(vec![
        oxygen(PendingAction::Sample { deadline: 10 }),
        oxygen(PendingAction::Sample { deadline: 20 }),
    ]);
    let _ = written(s.poll(100));
    let before = s.current_operation;
    assert!(matches!(s.poll(100), BusRequest::Busy));
    assert!(matches!(s.poll(1000), BusRequest::Busy));
    assert_eq!(s.current_operation, before);
    s.complete_write(100);
    assert_eq!(s.sensors[0].action, PendingAction::Receive { deadline: 1010 });
    assert!(s.current_operation.is_none());
}

#[test]
fn full_cycle_records_reading() {
    let mut s = AtlasScientificSensors::new(vec![oxygen(PendingAction::Sample { deadline: 0 })]);
    let _ = written(s.poll(0));
    s.complete_write(0);
    assert_eq!(waits_until(s.poll(500)), 1000);
    match s.poll(1000) {
        BusRequest::Read { address } => assert_eq!(address, 0x6C),
        _ => panic!("expected a read"),
    }
    let r = s.complete_read(b"8.41\r*OK\r", 1003).unwrap();
    assert_eq!(r.code, ResponseCode::Success);
    assert_eq!(s.sensors[0].last_reading, Some(Decimal { negative: false, mantissa: 841, scale: 2 }));
    assert_eq!(s.sensors[0].action, PendingAction::Sample { deadline: 6003 });
    assert!(s.current_operation.is_none());
}

#[test]
fn bad_response_rearms_sample() {
    let mut s = AtlasScientificSensors::new(vec![oxygen(PendingAction::Receive { deadline: 0 })]);
    assert!(matches!(s.poll(0), BusRequest::Read { .. }));
    assert_eq!(s.complete_read(b"garbage\r", 7), Err(ProtocolError::UnknownStatus));
    assert_eq!(s.sensors[0].action, PendingAction::Sample { deadline: 5007 });
    assert_eq!(s.sensors[0].last_reading, None);
}

#[test]
fn bus_error_keeps_action() {
    let mut s = AtlasScientificSensors::new(vec![HumiditySensor::new()]);
    let _ = written(s.poll(0));
    s.abort_operation();
    assert!(s.current_operation.is_none());
    assert_eq!(s.sensors[0].action, PendingAction::Startup { command_index: 0 });
    assert_eq!(written(s.poll(1)), (0x6F, b"O,T,1".to_vec()));
}

#[test]
fn deadlines_saturate() {
    let mut s = AtlasScientificSensors::new(vec![OxygenSensor::new()]);
    let _ = s.poll(u64::MAX - 1);
    assert_eq!(s.sensors[0].action, PendingAction::Sample { deadline: u64::MAX });
}

#[test]
fn mixed_chamber_sensors() {
    let mut s = AtlasScientificSensors::new(vec![
        ChamberSensor::Humidity(HumiditySensor::new()),
        ChamberSensor::Oxygen(OxygenSensor::new()),
    ]);
    assert_eq!(s.sensors[1].address(), 0x6C);
    assert_eq!(s.sensors[0].setup_commands().len(), 2);
    assert_eq!(written(s.poll(0)), (0x6F, b"O,T,1".to_vec()));
    s.complete_write(0);
    assert_eq!(written(s.poll(0)), (0x6F, b"O,HUM,1".to_vec()));
    s.complete_write(0);
    assert!(matches!(s.poll(0), BusRequest::Idle));
    assert_eq!(s.sensors[1].pending_action(), PendingAction::Sample { deadline: 5000 });
    assert_eq!(PendingAction::default(), PendingAction::Startup { command_index: 0 });
}

#[test]
fn good_response_reaches_sensor() {
    let mut s = AtlasScientificSensors::new(vec![HumiditySensor {
        last_humidity: None,
        last_temperature: None,
        action: PendingAction::Receive { deadline: 100 },
    }]);
    assert!(matches!(s.poll(100), BusRequest::Read { address: 0x6F }));
    let r = s.complete_read(b"23.5\rOther\r*OK\r", 150).unwrap();
    assert_eq!(r.code, ResponseCode::Success);
    assert_eq!(s.sensors[0].last_humidity, Some(Decimal { negative: false, mantissa: 235, scale: 1 }));
    assert_eq!(s.sensors[0].last_temperature, None);
    assert_eq!(s.sensors[0].action, PendingAction::Sample { deadline: 5150 });
    assert!(s.current_operation.is_none());
}

#[test]
fn failed_response_keeps_previous_reading() {
    let earlier = Decimal { negative: false, mantissa: 9, scale: 0 };
    let mut s = AtlasScientificSensors::new(vec![
        OxygenSensor { last_reading: Some(earlier), action: PendingAction::Receive { deadline: 0 } },
        oxygen(PendingAction::Sample { deadline: 50 }),
    ]);
    assert!(matches!(s.poll(0), BusRequest::Read { .. }));
    assert_eq!(s.complete_read(b"x\r*OK\r", 10), Err(ProtocolError::InvalidReading));
    assert_eq!(s.sensors[0].last_reading, Some(earlier));
    assert_eq!(s.sensors[0].action, PendingAction::Sample { deadline: 5010 });
    assert_eq!(s.sensors[1].action, PendingAction::Sample { deadline: 50 });
    assert_eq!(s.sensors[1].last_reading, None);
    assert_eq!(written(s.poll(60)), (0x6C, b"R".to_vec()));
}

#[test]
fn new_sensors_start_empty() {
    let h = HumiditySensor::new();
    assert_eq!(h.last_humidity, None);
    assert_eq!(h.last_temperature, None);
    assert_eq!(h.action, PendingAction::Startup { command_index: 0 });
    let o = OxygenSensor::new();
    assert_eq!(o.last_reading, None);
    assert_eq!(o.action, PendingAction::Startup { command_index: 0 });
}
