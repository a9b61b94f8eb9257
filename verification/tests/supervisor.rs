use rmidimap::cli::{Cli, Mode};
use rmidimap::config::device::{DeviceConfig, Identifier};
use rmidimap::config::run::RunConfig;
use rmidimap::error::Error;
use rmidimap::midi::{DeviceAddr, MidiPort};
use rmidimap::run::{
    bind_first, counter_for, counters_for, look_for, on_message, release_connection,
    try_connect_process, Binding, ConnectionCounter, SupervisorStep, WorkerAction, WorkerEvent,
    WorkerStage,
};
use rmidimap::util::number::IntErrorKind;
use rmidimap::util::time::Span;

fn port(name: &str, client: i32) -> MidiPort<DeviceAddr> {
    MidiPort { name: name.to_string(), addr: DeviceAddr { client, port: 0 } }
}

fn device(identifier: Identifier, max_connections: Option<u32>) -> DeviceConfig {
    DeviceConfig {
        identifier,
        max_connections,
        connect: None,
        disconnect: None,
        events: None,
        queue_length: 256,
        interval: Span { secs: 0, nanos: 0 },
    }
}

#[test]
fn counter_never_passes_its_cap() {
    let mut c = ConnectionCounter::new(2);
    assert_eq!((c.current, c.max), (0, 2));
    assert!(!c.is_full());
    assert!(c.acquire());
    assert!(c.acquire());
    assert!(c.is_full());
    assert!(!c.acquire());
    assert_eq!((c.current, c.max), (2, 2));
    c.release();
    assert_eq!(c.current, 1);
    assert!(c.acquire());
    assert_eq!(c.current, 2);
    c.release();
    c.release();
    c.release();
    assert_eq!((c.current, c.max), (0, 2));
    let mut none = ConnectionCounter::new(0);
    assert!(none.is_full());
    assert!(!none.acquire());
    assert_eq!(none.current, 0);
}

#[test]
fn counter_under_any_order() {
    let mut c = ConnectionCounter::new(3);
    let mut seed: u32 = 12345;
    for _ in 0..1000 {
        seed = seed.wrapping_mul(1664525).wrapping_add(1013904223);
        if (seed >> 16) % 3 != 0 {
            c.acquire();
        } else {
            c.release();
        }
        assert!(c.current <= c.max);
        assert_eq!(c.max, 3);
    }
}

#[test]
fn counters_of_the_rules() {
    let devices = vec![
        device(Identifier::All, Some(1)),
        device(Identifier::All, None),
        device(Identifier::All, Some(7)),
    ];
    assert_eq!(counter_for(&devices[0]), Some(ConnectionCounter { current: 0, max: 1 }));
    assert_eq!(counter_for(&devices[1]), None);
    let counters = counters_for(&devices);
    assert_eq!(
        counters,
        vec![
            Some(ConnectionCounter { current: 0, max: 1 }),
            None,
            Some(ConnectionCounter { current: 0, max: 7 })
        ]
    );
}

#[test]
fn two_rules_three_ports() {
    let devices = vec![
        device(Identifier::Name("Keystation".to_string()), Some(1)),
        device(Identifier::Regex(".*".to_string()), None),
    ];
    let mut counters = counters_for(&devices);
    let mut ports = vec![port("Keystation 49", 20), port("Other", 24)];
    let first = try_connect_process(&devices, &mut counters, &ports, &ports[0]).unwrap();
    assert_eq!(first, Some(Binding { device: 0, port: 0 }));
    assert_eq!(counters[0], Some(ConnectionCounter { current: 1, max: 1 }));
    let second = try_connect_process(&devices, &mut counters, &ports, &ports[1]).unwrap();
    assert_eq!(second, Some(Binding { device: 1, port: 1 }));
    assert_eq!(counters[0], Some(ConnectionCounter { current: 1, max: 1 }));
    assert_eq!(counters[1], None);
    ports.push(port("Keystation MkII", 28));
    let third = try_connect_process(&devices, &mut counters, &ports, &ports[2]).unwrap();
    assert_eq!(third, Some(Binding { device: 1, port: 2 }));
    assert_eq!(counters[0], Some(ConnectionCounter { current: 1, max: 1 }));
    counters[0].as_mut().unwrap().release();
    let fourth = try_connect_process(&devices, &mut counters, &ports, &ports[2]).unwrap();
    assert_eq!(fourth, Some(Binding { device: 0, port: 2 }));
    assert_eq!(counters[0], Some(ConnectionCounter { current: 1, max: 1 }));
}

#[test]
fn port_without_a_rule() {
    let devices = vec![
        device(Identifier::Name("Keystation".to_string()), Some(1)),
        device(Identifier::Addr("24:0".to_string()), Some(1)),
    ];
    let mut counters = counters_for(&devices);
    let ports = vec![port("Other", 30), port("Second", 24)];
    assert_eq!(try_connect_process(&devices, &mut counters, &ports, &ports[0]).unwrap(), None);
    assert_eq!(counters, counters_for(&devices));
    let bound = try_connect_process(&devices, &mut counters, &ports, &ports[1]).unwrap();
    assert_eq!(bound, Some(Binding { device: 1, port: 1 }));
    assert_eq!(try_connect_process(&devices, &mut counters, &ports, &ports[1]).unwrap(), None);
    let gone = port("Keystation", 99);
    assert_eq!(try_connect_process(&devices, &mut counters, &ports, &gone).unwrap(), None);
    assert_eq!(try_connect_process(&[], &mut Vec::new(), &ports, &ports[0]).unwrap(), None);
}

#[test]
fn rule_with_an_unreadable_address() {
    let devices = vec![
        device(Identifier::Name("Keystation".to_string()), None),
        device(Identifier::Addr("nowhere".to_string()), Some(1)),
        device(Identifier::All, None),
    ];
    let mut counters = counters_for(&devices);
    let ports = vec![port("Keystation 49", 20), port("Other", 24)];
    let bound = try_connect_process(&devices, &mut counters, &ports, &ports[0]).unwrap();
    assert_eq!(bound, Some(Binding { device: 0, port: 0 }));
    let r = try_connect_process(&devices, &mut counters, &ports, &ports[1]);
    assert!(matches!(r, Err(Error::ParseInt(IntErrorKind::InvalidDigit))));
    counters[1] = Some(ConnectionCounter { current: 1, max: 1 });
    let bound = try_connect_process(&devices, &mut counters, &ports, &ports[1]).unwrap();
    assert_eq!(bound, Some(Binding { device: 2, port: 1 }));
}

#[test]
fn findings_decide_the_binding() {
    let free = Some(ConnectionCounter { current: 0, max: 1 });
    let taken = Some(ConnectionCounter { current: 1, max: 1 });
    let mut counters = vec![free, None];
    let r = bind_first(&mut counters, &[Ok(Some(0)), Ok(Some(0))]).unwrap();
    assert_eq!(r, Some(Binding { device: 0, port: 0 }));
    assert_eq!(counters, vec![taken, None]);
    let r = bind_first(&mut counters, &[Ok(None), Ok(Some(1))]).unwrap();
    assert_eq!(r, Some(Binding { device: 1, port: 1 }));
    assert_eq!(counters, vec![taken, None]);
    let r = bind_first(&mut counters, &[Ok(Some(2)), Ok(Some(2))]).unwrap();
    assert_eq!(r, Some(Binding { device: 1, port: 2 }));
    assert_eq!(counters, vec![taken, None]);
    let r = bind_first(&mut counters, &[Err(IntErrorKind::Empty), Ok(None)]).unwrap();
    assert_eq!(r, None);
    let r = bind_first(&mut counters, &[Ok(None), Err(IntErrorKind::Empty)]);
    assert!(matches!(r, Err(Error::ParseInt(IntErrorKind::Empty))));
    let r = bind_first(&mut counters, &[Ok(None), Ok(Some(3)), Err(IntErrorKind::Empty)]);
    assert!(r.is_ok());
    assert_eq!(counters, vec![taken, None]);
    assert_eq!(bind_first(&mut Vec::new(), &[]).unwrap(), None);
}

#[test]
fn what_a_rule_finds() {
    let ports = vec![port("Keystation 49", 20), port("Other", 24), port("Other two", 24)];
    let by_name = device(Identifier::Name("Other".to_string()), None);
    assert_eq!(look_for(&by_name, &ports, &ports[1]), Ok(Some(1)));
    assert_eq!(look_for(&by_name, &ports, &ports[0]), Ok(None));
    let by_name = device(Identifier::Name("two".to_string()), None);
    assert_eq!(look_for(&by_name, &ports, &ports[1]), Ok(Some(2)));
    let by_regex = device(Identifier::Regex("^Key.*[0-9]$".to_string()), None);
    assert_eq!(look_for(&by_regex, &ports, &ports[0]), Ok(Some(0)));
    assert_eq!(look_for(&by_regex, &ports, &ports[1]), Ok(None));
    let by_addr = device(Identifier::Addr("24:0".to_string()), None);
    assert_eq!(look_for(&by_addr, &ports, &ports[2]), Ok(Some(1)));
    assert_eq!(look_for(&by_addr, &ports, &ports[0]), Ok(None));
    let unreadable = device(Identifier::Addr("24".to_string()), None);
    assert_eq!(look_for(&unreadable, &ports, &ports[0]), Err(IntErrorKind::InvalidDigit));
    assert_eq!(look_for(&device(Identifier::All, None), &ports, &port("gone", 9)), Ok(None));
}

#[test]
fn worker_life() {
    let mut stage = WorkerStage::Spawned;
    stage = stage.next(WorkerEvent::Started);
    assert_eq!(stage, WorkerStage::ConnectActions);
    stage = stage.next(WorkerEvent::StopRequested);
    assert_eq!(stage, WorkerStage::ConnectActions);
    stage = stage.next(WorkerEvent::Connected);
    assert_eq!(stage, WorkerStage::Running);
    assert_eq!(stage.next(WorkerEvent::UpstreamLost), WorkerStage::DisconnectActions);
    stage = stage.next(WorkerEvent::StopRequested);
    assert_eq!(stage, WorkerStage::DisconnectActions);
    assert_eq!(stage.next(WorkerEvent::Started), WorkerStage::DisconnectActions);
    stage = stage.next(WorkerEvent::Disconnected);
    assert_eq!(stage, WorkerStage::Exited);
    for event in all_events() {
        assert_eq!(stage.next(event), WorkerStage::Exited);
        let step = stage.step(event);
        assert_eq!((step.stage, step.action), (WorkerStage::Exited, WorkerAction::Wait));
    }
}

fn all_events() -> [WorkerEvent; 6] {
    [
        WorkerEvent::Started,
        WorkerEvent::Connected,
        WorkerEvent::StopRequested,
        WorkerEvent::UpstreamLost,
        WorkerEvent::Disconnected,
        WorkerEvent::Failed,
    ]
}

#[test]
fn worker_actions_in_order() {
    let mut stage = WorkerStage::Spawned;
    let mut actions = Vec::new();
    for event in [
        WorkerEvent::Started,
        WorkerEvent::Connected,
        WorkerEvent::UpstreamLost,
        WorkerEvent::Disconnected,
        WorkerEvent::Disconnected,
        WorkerEvent::Failed,
    ] {
        let step = stage.step(event);
        stage = step.stage;
        actions.push(step.action);
    }
    assert_eq!(
        actions,
        vec![
            WorkerAction::RunConnect,
            WorkerAction::Serve,
            WorkerAction::RunDisconnect,
            WorkerAction::Release,
            WorkerAction::Wait,
            WorkerAction::Wait
        ]
    );
    let wrong = WorkerStage::Running.step(WorkerEvent::Connected);
    assert_eq!((wrong.stage, wrong.action), (WorkerStage::Running, WorkerAction::Wait));
}

#[test]
fn worker_releases_once_on_every_way_out() {
    for stage in [
        WorkerStage::Spawned,
        WorkerStage::ConnectActions,
        WorkerStage::Running,
        WorkerStage::DisconnectActions,
    ] {
        let step = stage.step(WorkerEvent::Failed);
        assert_eq!((step.stage, step.action), (WorkerStage::Exited, WorkerAction::Release));
    }
    let mut seed: u32 = 99;
    for _ in 0..200 {
        let mut stage = WorkerStage::Spawned;
        let mut released = 0;
        for _ in 0..12 {
            seed = seed.wrapping_mul(1664525).wrapping_add(1013904223);
            let event = all_events()[((seed >> 16) % 6) as usize];
            let step = stage.step(event);
            assert_eq!(step.stage, stage.next(event));
            if step.action == WorkerAction::Release {
                released += 1;
            }
            stage = step.stage;
        }
        assert_eq!(released, if stage == WorkerStage::Exited { 1 } else { 0 });
    }
}

#[test]
fn connection_given_back() {
    let devices = vec![device(Identifier::All, Some(2)), device(Identifier::All, None)];
    let mut counters = counters_for(&devices);
    let ports = vec![port("a", 1)];
    try_connect_process(&devices, &mut counters, &ports, &ports[0]).unwrap();
    assert_eq!(counters[0], Some(ConnectionCounter { current: 1, max: 2 }));
    release_connection(&mut counters, 1);
    assert_eq!(counters[0], Some(ConnectionCounter { current: 1, max: 2 }));
    release_connection(&mut counters, 0);
    assert_eq!(counters, counters_for(&devices));
    release_connection(&mut counters, 0);
    release_connection(&mut counters, 7);
    assert_eq!(counters, counters_for(&devices));
}

#[test]
fn reload_stops_two_workers() {
    let down = RunConfig { args: vec!["down".to_string()], envconf: None, detach: false };
    let mut a = device(Identifier::Name("Keystation".to_string()), Some(1));
    a.disconnect = Some(vec![down.clone()]);
    let mut b = device(Identifier::All, None);
    b.disconnect = Some(vec![down.clone(), down]);
    let devices = vec![a, b];
    let mut counters = counters_for(&devices);
    let ports = vec![port("Keystation 49", 20), port("Other", 24)];
    let mut workers = Vec::new();
    for p in &ports {
        assert_eq!(on_message(true), SupervisorStep::Bind);
        let bound = try_connect_process(&devices, &mut counters, &ports, p).unwrap().unwrap();
        let stage = WorkerStage::Spawned
            .next(WorkerEvent::Started)
            .next(WorkerEvent::Connected);
        assert_eq!(stage, WorkerStage::Running);
        workers.push((bound.device, stage));
    }
    assert_eq!(on_message(false), SupervisorStep::Shutdown);
    let mut started = 0;
    for (dev, stage) in workers {
        let step = stage.step(WorkerEvent::StopRequested);
        assert_eq!(step.stage, WorkerStage::DisconnectActions);
        assert_eq!(step.action, WorkerAction::RunDisconnect);
        started += devices[dev].run_disconnect().len();
        let step = step.stage.step(WorkerEvent::Disconnected);
        assert_eq!(step.stage, WorkerStage::Exited);
        assert_eq!(step.action, WorkerAction::Release);
        release_connection(&mut counters, dev);
    }
    assert_eq!(started, 3);
    assert_eq!(counters, counters_for(&devices));
}

#[test]
fn command_line_modes() {
    let list = Cli { map_file: None, list: true };
    assert!(matches!(list.mode(), Ok(Mode::ListDevices)));
    let both = Cli { map_file: Some("map.yml".to_string()), list: true };
    assert!(matches!(both.mode(), Ok(Mode::ListDevices)));
    let run = Cli { map_file: Some("map.yml".to_string()), list: false };
    assert!(matches!(run.mode(), Ok(Mode::RunConfig(f)) if f == "map.yml"));
    let none = Cli { map_file: None, list: false };
    match none.mode() {
        Err(e) => {
            assert!(matches!(e, Error::NoArgument));
            assert_eq!(e.message(), "no map file was provided");
        },
        Ok(_) => panic!("accepted without a file"),
    }
}
