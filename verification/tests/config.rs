use rmidimap::config::device::{DeviceConfig, Identifier, DEFAULT_QUEUE_LENGTH};
use rmidimap::config::event::EventConfig;
use rmidimap::config::run::{check_runs, RunConfig};
use rmidimap::config::serializer::{
    ConfigSerializer, DeviceConfigSerializer, EventConfigSerializer, EventEnvSerializer,
    RunConfigSerializer,
};
use rmidimap::config::Config;
use rmidimap::error::{ConfigError, Error, Selector};
use rmidimap::event::{Event, EventType};
use rmidimap::midi::MidiDriver;
use rmidimap::run::cross_shell;
use rmidimap::util::number::IntErrorKind;
use rmidimap::util::time::Span;
use rmidimap::util::{Range, SmartSet};

fn run_args(args: &[&str]) -> RunConfigSerializer {
    RunConfigSerializer {
        args: Some(args.iter().map(|a| a.to_string()).collect()),
        cmd: None,
        envconf: None,
        detach: None,
    }
}

fn run_cmd(cmd: &str) -> RunConfigSerializer {
    RunConfigSerializer { args: None, cmd: Some(cmd.to_string()), envconf: None, detach: None }
}

fn run_nothing() -> RunConfigSerializer {
    RunConfigSerializer { args: None, cmd: None, envconf: None, detach: Some(true) }
}

fn event_rule(kind: EventType) -> EventConfigSerializer {
    EventConfigSerializer {
        run: vec![run_cmd("true")],
        kind,
        channel: None,
        id: None,
        remap: None,
        float: None,
        value: None,
    }
}

fn device_rule() -> DeviceConfigSerializer {
    DeviceConfigSerializer {
        name: None,
        regex: None,
        addr: None,
        connect: None,
        disconnect: None,
        events: None,
        max_connections: None,
        queue_length: None,
        interval: None,
        log_events: None,
    }
}

#[test]
fn shell_words() {
    assert_eq!(cross_shell("echo $value", false), vec!["sh", "-c", "echo $value"]);
    assert_eq!(cross_shell("echo %value%", true), vec!["cmd", "/C", "echo %value%"]);
    assert_eq!(cross_shell("", false), vec!["sh", "-c", ""]);
}

#[test]
fn run_from_args() {
    let c = RunConfig::try_from(run_args(&["notify-send", "hi"]), false).unwrap();
    assert_eq!(c.args, vec!["notify-send", "hi"]);
    assert!(!c.detach);
    assert!(c.envconf.is_none());
}

#[test]
fn run_from_cmd() {
    let c = RunConfig::try_from(run_cmd("echo $value"), false).unwrap();
    assert_eq!(c.args, vec!["sh", "-c", "echo $value"]);
    let c = RunConfig::try_from(run_cmd("echo"), true).unwrap();
    assert_eq!(c.args, vec!["cmd", "/C", "echo"]);
}

#[test]
fn run_with_args_and_cmd() {
    let mut v = run_args(&["a"]);
    v.cmd = Some("b".to_string());
    let r = RunConfig::try_from(v, false);
    assert!(matches!(r, Err(Error::IncompatibleArgs(Selector::Args, Selector::Cmd))));
    assert_eq!(
        Error::IncompatibleArgs(Selector::Args, Selector::Cmd).message(),
        "'args' and 'cmd' are incompatible"
    );
}

#[test]
fn run_options() {
    let mut v = run_args(&["a"]);
    v.detach = Some(true);
    v.envconf = Some(EventEnvSerializer {
        channel: None,
        id: None,
        raw: None,
        rawvalue: None,
        timestamp: None,
        value: Some("V".to_string()),
    });
    let c = RunConfig::try_from(v, false).unwrap();
    assert_eq!(c.args, vec!["a"]);
    assert!(c.detach);
    assert_eq!(c.envconf.unwrap().value, Some("V".to_string()));
    let mut v = run_cmd("b");
    v.detach = Some(false);
    assert!(!RunConfig::try_from(v, false).unwrap().detach);
}

#[test]
fn run_without_command() {
    let r = RunConfig::try_from(run_nothing(), false);
    assert!(matches!(r, Err(Error::Config(ConfigError::RunMissingArgs))));
    let r = check_runs(vec![run_cmd("a"), run_nothing(), run_cmd("b")], false);
    assert!(matches!(r, Err(Error::Config(ConfigError::RunMissingArgs))));
    let mut both = run_args(&["x"]);
    both.cmd = Some("y".to_string());
    let r = check_runs(vec![run_cmd("a"), both.clone(), run_nothing()], false);
    assert!(matches!(r, Err(Error::IncompatibleArgs(Selector::Args, Selector::Cmd))));
    let r = check_runs(vec![run_nothing(), both], false);
    assert!(matches!(r, Err(Error::Config(ConfigError::RunMissingArgs))));
    let r = check_runs(vec![run_cmd("a"), run_args(&["b"])], false).unwrap();
    assert_eq!(r.len(), 2);
    assert_eq!(r[1].args, vec!["b"]);
    assert_eq!(check_runs(vec![], false).unwrap().len(), 0);
}

#[test]
fn run_starts() {
    let c = RunConfig::try_from(run_args(&["x", "y"]), false).unwrap();
    let env = Event::new().make_env(None, false).to_map(None);
    let start = c.run(env);
    assert_eq!(start.args, &vec!["x".to_string(), "y".to_string()]);
    assert!(!start.detach);
    assert_eq!(start.env.len(), 6);
}

#[test]
fn event_rule_defaults() {
    let c = EventConfig::try_from(event_rule(EventType::NoteOn), false).unwrap();
    assert_eq!(c.kind, EventType::NoteOn);
    assert_eq!(c.channel.to_vec(), (0u16..=15).collect::<Vec<u16>>());
    assert_eq!(c.id.to_vec(), (0u16..=127).collect::<Vec<u16>>());
    assert!(c.remap.is_none());
    assert!(!c.float);
    assert!(c.value.is_none());
    assert_eq!(c.run.len(), 1);
    assert_eq!(c.run[0].args, vec!["sh", "-c", "true"]);
}

#[test]
fn event_rule_sets_by_class() {
    let mut v = event_rule(EventType::PitchBend);
    v.channel = Some(SmartSet::from_str("2,3", 255).unwrap());
    v.id = Some(SmartSet::from_str("9", 255).unwrap());
    let c = EventConfig::try_from(v, false).unwrap();
    assert_eq!(c.channel.to_vec(), vec![2, 3]);
    assert_eq!(c.id.to_vec(), vec![0]);
    let mut v = event_rule(EventType::System);
    v.channel = Some(SmartSet::from_str("2,3", 255).unwrap());
    v.id = Some(SmartSet::from_str("9", 255).unwrap());
    let c = EventConfig::try_from(v, false).unwrap();
    assert_eq!(c.channel.to_vec(), vec![0]);
    assert_eq!(c.id.to_vec(), vec![0]);
    let mut v = event_rule(EventType::Controller);
    v.id = Some(SmartSet::from_str("7", 255).unwrap());
    let c = EventConfig::try_from(v, false).unwrap();
    assert_eq!(c.channel.len(), 16);
    assert_eq!(c.id.to_vec(), vec![7]);
}

#[test]
fn event_rule_remap() {
    let mut v = event_rule(EventType::Controller);
    v.remap = Some(Range::new(0, 100));
    v.float = Some(true);
    let c = EventConfig::try_from(v, false).unwrap();
    let m = c.remap.unwrap();
    assert_eq!((m.src.start, m.src.end, m.dst.start, m.dst.end), (0, 127, 0, 100));
    assert!(c.float);
    let mut v = event_rule(EventType::PitchBend);
    v.remap = Some(Range::new(i64::MIN as i128, i64::MAX as i128));
    let m = EventConfig::try_from(v, false).unwrap().remap.unwrap();
    assert_eq!((m.src.start, m.src.end, m.dst.start, m.dst.end), (0, 32767, i64::MIN, i64::MAX));
}

#[test]
fn event_rule_remap_bounds() {
    let mut v = event_rule(EventType::Controller);
    v.remap = Some(Range::new(0, i64::MAX as i128 + 1));
    assert!(matches!(EventConfig::try_from(v, false), Err(Error::RemapTooBig)));
    let mut v = event_rule(EventType::Controller);
    v.remap = Some(Range::new(u64::MAX as i128, 0));
    assert!(matches!(EventConfig::try_from(v, false), Err(Error::RemapTooBig)));
    let mut v = event_rule(EventType::Controller);
    v.remap = Some(Range::new(i64::MIN as i128 - 1, 0));
    assert!(matches!(EventConfig::try_from(v, false), Err(Error::RemapTooLow)));
    let mut v = event_rule(EventType::Controller);
    v.remap = Some(Range::new(i64::MAX as i128 + 1, i64::MIN as i128 - 1));
    assert!(matches!(EventConfig::try_from(v, false), Err(Error::RemapTooLow)));
    let mut v = event_rule(EventType::Controller);
    v.remap = Some(Range::new(i64::MAX as i128 + 1, 0));
    v.run = vec![run_nothing()];
    assert!(matches!(
        EventConfig::try_from(v, false),
        Err(Error::Config(ConfigError::RunMissingArgs))
    ));
}

#[test]
fn event_rule_value_filter() {
    let mut v = event_rule(EventType::NoteOn);
    v.value = Some(SmartSet::from_str("1:127", 65535).unwrap());
    let c = EventConfig::try_from(v, false).unwrap();
    assert!(c.match_value(&Event::decode(&[0x90, 60, 100])));
    assert!(c.match_value(&Event::decode(&[0x90, 60, 1])));
    assert!(!c.match_value(&Event::decode(&[0x90, 60, 0])));
    let c = EventConfig::try_from(event_rule(EventType::NoteOn), false).unwrap();
    assert!(c.match_value(&Event::decode(&[0x90, 60, 0])));
}

#[test]
fn device_rule_defaults() {
    let c = DeviceConfig::try_from(device_rule(), false).unwrap();
    assert!(matches!(c.identifier, Identifier::All));
    assert_eq!(c.queue_length, 256);
    assert_eq!(DEFAULT_QUEUE_LENGTH, 256);
    assert_eq!(c.interval, Span { secs: 0, nanos: 0 });
    assert!(c.max_connections.is_none());
    assert!(c.connect.is_none());
    assert!(c.disconnect.is_none());
    assert!(c.events.is_none());
}

#[test]
fn device_rule_fields() {
    let mut v = device_rule();
    v.name = Some("Keystation".to_string());
    v.max_connections = Some(1);
    v.queue_length = Some(8);
    v.interval = Some(Span { secs: 0, nanos: 500_000_000 });
    v.connect = Some(vec![run_cmd("up")]);
    v.disconnect = Some(vec![run_cmd("down"), run_args(&["bye"])]);
    v.events = Some(vec![event_rule(EventType::NoteOn), event_rule(EventType::Controller)]);
    let c = DeviceConfig::try_from(v, false).unwrap();
    assert!(matches!(&c.identifier, Identifier::Name(n) if n == "Keystation"));
    assert_eq!(c.max_connections, Some(1));
    assert_eq!(c.queue_length, 8);
    assert_eq!(c.interval, Span { secs: 0, nanos: 500_000_000 });
    assert_eq!(c.connect.as_ref().unwrap().len(), 1);
    assert_eq!(c.disconnect.as_ref().unwrap().len(), 2);
    assert_eq!(c.events.as_ref().unwrap().len(), 2);
    assert_eq!(c.events.as_ref().unwrap()[1].kind, EventType::Controller);
}

#[test]
fn device_rule_selectors() {
    let mut v = device_rule();
    v.regex = Some("Key.*[0-9]+".to_string());
    let c = DeviceConfig::try_from(v, false).unwrap();
    assert!(matches!(&c.identifier, Identifier::Regex(r) if r == "Key.*[0-9]+"));
    let mut v = device_rule();
    v.addr = Some("20:0".to_string());
    let c = DeviceConfig::try_from(v, false).unwrap();
    assert!(matches!(&c.identifier, Identifier::Addr(a) if a == "20:0"));
}

#[test]
fn device_rule_two_selectors() {
    let mut v = device_rule();
    v.name = Some("a".to_string());
    v.regex = Some("b".to_string());
    assert!(matches!(
        DeviceConfig::try_from(v, false),
        Err(Error::IncompatibleArgs(Selector::Name, Selector::Regex))
    ));
    let mut v = device_rule();
    v.name = Some("a".to_string());
    v.regex = Some("(".to_string());
    v.addr = Some("1:2".to_string());
    assert!(matches!(
        DeviceConfig::try_from(v, false),
        Err(Error::IncompatibleArgs(Selector::Name, Selector::Regex))
    ));
    let mut v = device_rule();
    v.name = Some("a".to_string());
    v.addr = Some("1:2".to_string());
    assert!(matches!(
        DeviceConfig::try_from(v, false),
        Err(Error::IncompatibleArgs(Selector::Name, Selector::Addr))
    ));
    let mut v = device_rule();
    v.regex = Some("a".to_string());
    v.addr = Some("1:2".to_string());
    assert!(matches!(
        DeviceConfig::try_from(v, false),
        Err(Error::IncompatibleArgs(Selector::Regex, Selector::Addr))
    ));
}

#[test]
fn device_rule_bad_pattern() {
    let mut v = device_rule();
    v.regex = Some("foo(bar".to_string());
    v.connect = Some(vec![run_nothing()]);
    match DeviceConfig::try_from(v, false) {
        Err(Error::Regex(reason)) => assert!(!reason.is_empty()),
        other => panic!("not refused for its pattern: {:?}", other.map(|_| ())),
    }
}

#[test]
fn device_rule_fault_order() {
    let mut v = device_rule();
    v.connect = Some(vec![run_nothing()]);
    let mut bad = event_rule(EventType::Controller);
    bad.remap = Some(Range::new(0, i64::MAX as i128 + 1));
    v.events = Some(vec![bad]);
    assert!(matches!(
        DeviceConfig::try_from(v, false),
        Err(Error::Config(ConfigError::RunMissingArgs))
    ));
    let mut v = device_rule();
    let mut bad = event_rule(EventType::Controller);
    bad.remap = Some(Range::new(0, i64::MAX as i128 + 1));
    let mut worse = event_rule(EventType::Controller);
    worse.run = vec![run_nothing()];
    v.events = Some(vec![event_rule(EventType::NoteOn), bad, worse]);
    assert!(matches!(DeviceConfig::try_from(v, false), Err(Error::RemapTooBig)));
    let mut v = device_rule();
    v.disconnect = Some(vec![run_nothing()]);
    assert!(matches!(
        DeviceConfig::try_from(v, false),
        Err(Error::Config(ConfigError::RunMissingArgs))
    ));
}

#[test]
fn device_connect_runs() {
    let mut v = device_rule();
    let mut named = run_cmd("up");
    named.envconf = Some(EventEnvSerializer {
        channel: Some("C".to_string()),
        id: None,
        raw: None,
        rawvalue: None,
        timestamp: None,
        value: None,
    });
    named.detach = Some(true);
    v.connect = Some(vec![named, run_args(&["second"])]);
    let c = DeviceConfig::try_from(v, false).unwrap();
    let starts = c.run_connect();
    assert_eq!(starts.len(), 2);
    assert_eq!(starts[0].args, &vec!["sh".to_string(), "-c".to_string(), "up".to_string()]);
    assert!(starts[0].detach);
    assert_eq!(starts[0].env[0].0, "C");
    assert_eq!(starts[0].env[5].0, "value");
    assert_eq!(starts[1].args, &vec!["second".to_string()]);
    assert!(!starts[1].detach);
    assert_eq!(starts[1].env[0].0, "channel");
    assert_eq!(c.run_disconnect().len(), 0);
}

#[test]
fn whole_configuration() {
    let mut a = device_rule();
    a.name = Some("Keystation".to_string());
    let mut b = device_rule();
    b.regex = Some(".*".to_string());
    let v = ConfigSerializer {
        log_devices: Some(true),
        driver: Some(MidiDriver::ALSA),
        devices: vec![a, b],
    };
    let c = Config::try_from(v, false).unwrap();
    assert!(c.log);
    assert_eq!(c.driver, Some(MidiDriver::ALSA));
    assert_eq!(c.devices.len(), 2);
    let v = ConfigSerializer { log_devices: None, driver: None, devices: vec![] };
    let c = Config::try_from(v, false).unwrap();
    assert!(!c.log);
    assert!(c.driver.is_none());
    assert_eq!(MidiDriver::new(), MidiDriver::ALSA);
}

#[test]
fn whole_configuration_refused() {
    let mut bad = device_rule();
    bad.name = Some("a".to_string());
    bad.addr = Some("1:2".to_string());
    let mut worse = device_rule();
    worse.regex = Some("(".to_string());
    let v = ConfigSerializer {
        log_devices: None,
        driver: None,
        devices: vec![device_rule(), bad, worse],
    };
    assert!(matches!(
        Config::try_from(v, false),
        Err(Error::IncompatibleArgs(Selector::Name, Selector::Addr))
    ));
}

#[test]
fn error_messages() {
    assert_eq!(Error::NoArgument.message(), "no map file was provided");
    assert_eq!(
        Error::IncompatibleArgs(Selector::Name, Selector::Regex).message(),
        "'name' and 'regex' are incompatible"
    );
    assert_eq!(
        Error::IncompatibleArgs(Selector::Regex, Selector::Addr).message(),
        "'regex' and 'addr' are incompatible"
    );
    assert_eq!(
        Error::RemapTooBig.message(),
        format!("remap value is too large. Maximum value is {}", i64::MAX)
    );
    assert_eq!(
        Error::RemapTooLow.message(),
        format!("remap value is too low. Minimum value is {}", i64::MIN)
    );
    assert_eq!(
        Error::Config(ConfigError::RunMissingArgs).message(),
        "run config is missing execution configuration, either \"args\" or \"cmd\" has to be specified"
    );
    assert_eq!(
        Error::ParseInt(IntErrorKind::PosOverflow).message(),
        "number too large to fit in target type"
    );
    assert_eq!(
        Error::ParseInt(IntErrorKind::NegOverflow).message(),
        "number too small to fit in target type"
    );
    assert_eq!(Error::Regex("why".to_string()).message(), "why");
    assert_eq!(
        Error::ParseInt(IntErrorKind::InvalidDigit).message(),
        "invalid digit found in string"
    );
    assert_eq!(
        Error::ParseInt(IntErrorKind::Empty).message(),
        "cannot parse integer from empty string"
    );
}
