use smartfan::command::CommandOutput;
use smartfan::command::Shell;
use smartfan::config::Config;
use smartfan::config::ConfigLoad;
use smartfan::config::FanSpeed;
use smartfan::config::IpmiHostInfo;
use smartfan::control::actuation_log;
use smartfan::control::power_log;
use smartfan::control::telemetry_log;
use smartfan::control::tool_command;
use smartfan::control::Action;
use smartfan::control::ConfigError;
use smartfan::control::ControlLoop;
use smartfan::control::LoopEvent;
use smartfan::control::Phase;
use smartfan::control::POLL_INTERVAL_MS;
use smartfan::init_loop;
use smartfan::Level;
use smartfan::Message;

const TABLE_ONE_CPU: &str = "\
CPU1_Temp        | 45.500     | degrees C  | ok    | na        | na        | na        | 93.000    | 100.000   | 105.000
CPU2_Temp        | 0.000      | degrees C  | ok    | na        | na        | na        | 100.000   | 102.000   | 104.000
FAN1_F_Speed     | 4200.000   | RPM        | ok    | na        | na        | na        | na        | na        | na
FAN2_F_Speed     | na         | RPM        | na    | na        | na        | na        | na        | na        | na
Total_Power      | 180.250    | Watts      | ok    | na        | na        | na        | na        | na        | na
";

const TABLE_TWO_CPUS: &str = "\
CPU1_Temp        | 39.900     | degrees C  | ok    | na        | na        | na        | 93.000    | 100.000   | 105.000
CPU2_Temp        | 38.000     | degrees C  | ok    | na        | na        | na        | 100.000   | 102.000   | 104.000
";

fn curve() -> Vec<FanSpeed> {
    vec![
        FanSpeed { temp_range: [0, 40_000], speed: 20 },
        FanSpeed { temp_range: [40_000, 60_000], speed: 50 },
        FanSpeed { temp_range: [60_000, 999_000], speed: 90 },
    ]
}

fn config(mode: &str, host: &str, username: &str, password: &str) -> Config {
    Config {
        mode: mode.to_string(),
        ipmi: IpmiHostInfo {
            host: host.to_string(),
            username: username.to_string(),
            password: password.to_string(),
        },
        fan_speeds: curve(),
    }
}

fn fresh_loop() -> ControlLoop {
    init_loop(
        "/etc/smartfan/config.yaml",
        ConfigLoad::Loaded(config("in-band", "", "", "")),
        Shell::Posix,
    )
    .unwrap()
}

fn finished(status: i32, stdout: &str, stderr: &str) -> LoopEvent {
    LoopEvent::Finished(CommandOutput {
        status: Some(status),
        stdout: stdout.to_string(),
        stderr: stderr.to_string(),
    })
}

fn is_log(message: &Message, time: &str, level: Level, text: &str) -> bool {
    matches!(message, Message::Log(t, l, m) if t == time && *l == level && m == text)
}

#[test]
fn missing_configuration_stops_the_loop() {
    let e = init_loop("/etc/smartfan/config.yaml", ConfigLoad::Missing, Shell::Posix).unwrap_err();
    assert!(matches!(&e, ConfigError::Missing(path) if path == "/etc/smartfan/config.yaml"));
    assert_eq!(e.to_string(), "/etc/smartfan/config.yaml not exists.");
}

#[test]
fn unreadable_configuration_stops_the_loop() {
    let loaded = ConfigLoad::Unreadable("Permission denied (os error 13)".to_string());
    let e = init_loop("c.yaml", loaded, Shell::Posix).unwrap_err();
    assert!(matches!(&e, ConfigError::Unreadable(why) if why == "Permission denied (os error 13)"));
    assert_eq!(e.to_string(), "Failed to read config file: Permission denied (os error 13)");
}

#[test]
fn unparsable_configuration_stops_the_loop() {
    let loaded = ConfigLoad::Unparsable("missing field `ipmi`".to_string());
    let e = init_loop("c.yaml", loaded, Shell::Posix).unwrap_err();
    assert!(matches!(&e, ConfigError::Unparsable(why) if why == "missing field `ipmi`"));
    assert_eq!(e.to_string(), "Failed to parse config file: missing field `ipmi`");
}

#[test]
fn cycle_with_a_peak_below_zero() {
    let mut lp = fresh_loop();
    let table = "CPU1_Temp | -5.000 | degrees C | ok | na | na | na | na | na | na\n";
    let step = lp.step_at(finished(0, table, ""), "10:00:00");
    assert!(matches!(&lp.phase, Phase::Actuating(p) if p.peak == -5_000 && p.duty == 100));
    assert!(matches!(&step.action, Action::Actuate(line) if line == "ipmitool raw 0x2e 0x30 00 00 0x64"));
    let step = lp.step_at(finished(0, "", ""), "10:00:01");
    assert!(is_log(&step.messages[0], "10:00:01", Level::Info, "SetFanSpeed, temp: -5℃, speed: 100%"));
}

#[test]
fn network_mode_needs_full_credentials() {
    for (host, user, password) in [("", "root", "pw"), ("bmc", "", "pw"), ("bmc", "root", ""), ("", "", "")] {
        let loaded = ConfigLoad::Loaded(config("out-band", host, user, password));
        let e = init_loop("c.yaml", loaded, Shell::Posix).unwrap_err();
        assert!(matches!(e, ConfigError::IncompleteCredentials));
        assert!(e.to_string().ends_with("username, password and host must be set to use out-band mode."));
    }
}

#[test]
fn local_mode_needs_no_credentials() {
    for mode in ["in-band", "IN-BAND", "In-Band"] {
        let lp = init_loop("c.yaml", ConfigLoad::Loaded(config(mode, "", "", "")), Shell::Posix).unwrap();
        assert_eq!(lp.tool, "ipmitool");
        assert!(matches!(lp.phase, Phase::Polling));
        assert!(!lp.state.secondary_fan_zone_disabled);
        assert_eq!(lp.curve.len(), 3);
    }
}

#[test]
fn network_mode_names_host_and_credentials() {
    for mode in ["out-band", "", "inband", "in-band "] {
        let tool = tool_command(&config(mode, "10.0.0.5", "admin", "s3cr3t")).unwrap();
        assert_eq!(tool, "ipmitool -I lanplus -H 10.0.0.5 -U admin -P 's3cr3t'");
    }
}

#[test]
fn loop_starts_by_polling() {
    let lp = fresh_loop();
    assert!(matches!(lp.awaited(), Action::Poll(line) if line == "ipmitool sensor"));
}

#[test]
fn failed_acquisition_logs_once_and_rests() {
    let mut lp = fresh_loop();
    let step = lp.step_at(finished(1, TABLE_ONE_CPU, "device busy"), "10:00:00");
    assert_eq!(step.messages.len(), 1);
    assert!(is_log(
        &step.messages[0],
        "10:00:00",
        Level::Error,
        "Error executing command: ipmitool sensor. Error: device busy"
    ));
    assert!(matches!(step.action, Action::Sleep(ms) if ms == POLL_INTERVAL_MS));
    assert_eq!(POLL_INTERVAL_MS, 15000);
    assert!(matches!(lp.phase, Phase::Idle));
    assert!(!lp.state.secondary_fan_zone_disabled);
}

#[test]
fn acquisition_that_cannot_run_logs_once_and_rests() {
    let mut lp = fresh_loop();
    let step = lp.step_at(LoopEvent::Failed("No such file or directory (os error 2)".to_string()), "10:00:00");
    assert_eq!(step.messages.len(), 1);
    assert!(is_log(&step.messages[0], "10:00:00", Level::Error, "No such file or directory (os error 2)"));
    assert!(matches!(step.action, Action::Sleep(15000)));
    assert!(matches!(lp.phase, Phase::Idle));
}

#[test]
fn rest_ends_only_when_the_interval_is_over() {
    let mut lp = fresh_loop();
    lp.step_at(LoopEvent::Failed("x".to_string()), "10:00:00");

    let early = lp.step_at(finished(0, TABLE_ONE_CPU, ""), "10:00:01");
    assert!(early.messages.is_empty());
    assert!(matches!(early.action, Action::Sleep(15000)));
    assert!(matches!(lp.phase, Phase::Idle));

    let next = lp.step_at(LoopEvent::Elapsed, "10:00:15");
    assert!(next.messages.is_empty());
    assert!(matches!(next.action, Action::Poll(line) if line == "ipmitool sensor"));
    assert!(matches!(lp.phase, Phase::Polling));
}

#[test]
fn full_cycle_with_one_processor() {
    let mut lp = fresh_loop();

    let step = lp.step_at(finished(0, TABLE_ONE_CPU, ""), "10:00:00");
    assert_eq!(step.messages.len(), 2);
    assert!(is_log(
        &step.messages[0],
        "10:00:00",
        Level::Info,
        "GotCpuAndFansSpeed, active cpu num: 1, max sockets num: 2, fans: 1_F: 4200, 2_F: 0"
    ));
    assert!(matches!(
        &step.messages[1],
        Message::GotCpuAndFansSpeed(time, (1, 2), fans)
            if time == "10:00:00"
                && *fans == vec![("1_F".to_string(), 4_200_000), ("2_F".to_string(), 0)]
    ));
    let expected_line = "ipmitool raw 0x2e 0x30 00 01 0x32; ipmitool raw 0x2e 0x30 00 02 0x32; \
                         ipmitool raw 0x2e 0x30 00 03 0x32; ipmitool raw 0x2e 0x30 00 04 0x02; \
                         ipmitool raw 0x2e 0x30 00 05 0x02; ipmitool raw 0x2e 0x30 00 06 0x02";
    assert!(matches!(&step.action, Action::Actuate(line) if line == expected_line));
    assert!(matches!(&lp.phase, Phase::Actuating(p) if p.peak == 45_500 && p.duty == 50));
    assert!(lp.state.secondary_fan_zone_disabled);

    let step = lp.step_at(finished(0, "", ""), "10:00:01");
    assert_eq!(step.messages.len(), 4);
    assert!(is_log(&step.messages[0], "10:00:01", Level::Info, "SetFanSpeed, temp: 45.5℃, speed: 50%"));
    assert!(matches!(&step.messages[1], Message::SetFanSpeed(time, 45_500, 50) if time == "10:00:00"));
    assert!(is_log(&step.messages[2], "10:00:01", Level::Info, "Power data got, length is 1"));
    assert!(matches!(
        &step.messages[3],
        Message::Power(time, powers)
            if time == "10:00:00" && *powers == vec![("Total_Power".to_string(), 180_250)]
    ));
    assert!(matches!(step.action, Action::Sleep(15000)));
    assert!(matches!(lp.phase, Phase::Idle));

    lp.step_at(LoopEvent::Elapsed, "10:00:16");
    let step = lp.step_at(finished(0, TABLE_ONE_CPU, ""), "10:00:17");
    let short_line = "ipmitool raw 0x2e 0x30 00 01 0x32; ipmitool raw 0x2e 0x30 00 02 0x32; \
                      ipmitool raw 0x2e 0x30 00 03 0x32";
    assert!(matches!(&step.action, Action::Actuate(line) if line == short_line));
}

#[test]
fn full_cycle_with_two_processors() {
    let mut lp = fresh_loop();
    let step = lp.step_at(finished(0, TABLE_TWO_CPUS, ""), "23:59:59");
    assert!(is_log(
        &step.messages[0],
        "23:59:59",
        Level::Info,
        "GotCpuAndFansSpeed, active cpu num: 2, max sockets num: 2, fans: "
    ));
    assert!(matches!(&step.action, Action::Actuate(line) if line == "ipmitool raw 0x2e 0x30 00 00 0x14"));
    assert!(!lp.state.secondary_fan_zone_disabled);

    let step = lp.step_at(finished(0, "", ""), "00:00:00");
    assert!(is_log(&step.messages[0], "00:00:00", Level::Info, "SetFanSpeed, temp: 39.9℃, speed: 20%"));
    assert!(is_log(&step.messages[2], "00:00:00", Level::Info, "Power data got, length is 0"));
    assert!(matches!(&step.messages[3], Message::Power(_, powers) if powers.is_empty()));
}

#[test]
fn failed_fan_command_is_logged_and_the_cycle_goes_on() {
    let mut lp = fresh_loop();
    lp.step_at(finished(0, TABLE_TWO_CPUS, ""), "10:00:00");
    let step = lp.step_at(finished(3, "", "Unable to send RAW command"), "10:00:01");
    assert_eq!(step.messages.len(), 3);
    assert!(is_log(
        &step.messages[0],
        "10:00:01",
        Level::Error,
        "Error executing command: ipmitool raw 0x2e 0x30 00 00 0x14. Error: Unable to send RAW command"
    ));
    assert!(is_log(&step.messages[1], "10:00:01", Level::Info, "Power data got, length is 0"));
    assert!(matches!(&step.messages[2], Message::Power(time, _) if time == "10:00:00"));
    assert!(matches!(step.action, Action::Sleep(15000)));
    assert!(matches!(lp.phase, Phase::Idle));
}

#[test]
fn fan_command_that_cannot_run_is_logged() {
    let mut lp = fresh_loop();
    lp.step_at(finished(0, TABLE_ONE_CPU, ""), "10:00:00");
    let step = lp.step_at(LoopEvent::Failed("spawn failed".to_string()), "10:00:01");
    assert_eq!(step.messages.len(), 3);
    assert!(is_log(&step.messages[0], "10:00:01", Level::Error, "spawn failed"));
    assert!(matches!(lp.phase, Phase::Idle));
    assert!(lp.state.secondary_fan_zone_disabled);
}

#[test]
fn report_out_of_turn_changes_nothing() {
    let mut lp = fresh_loop();
    let step = lp.step_at(LoopEvent::Elapsed, "10:00:00");
    assert!(step.messages.is_empty());
    assert!(matches!(step.action, Action::Poll(line) if line == "ipmitool sensor"));
    assert!(matches!(lp.phase, Phase::Polling));

    lp.step_at(finished(0, TABLE_TWO_CPUS, ""), "10:00:00");
    let step = lp.step_at(LoopEvent::Elapsed, "10:00:01");
    assert!(step.messages.is_empty());
    assert!(matches!(step.action, Action::Actuate(line) if line == "ipmitool raw 0x2e 0x30 00 00 0x14"));
    assert!(matches!(lp.phase, Phase::Actuating(_)));
}

#[test]
fn empty_table_runs_fans_at_the_curve_for_zero() {
    let mut lp = fresh_loop();
    let step = lp.step_at(finished(0, "", ""), "10:00:00");
    assert!(matches!(&step.messages[1], Message::GotCpuAndFansSpeed(_, (0, 2), fans) if fans.is_empty()));
    assert!(matches!(&step.action, Action::Actuate(line) if line == "ipmitool raw 0x2e 0x30 00 00 0x14"));
}

#[test]
fn step_stamps_with_the_clock() {
    let mut lp = fresh_loop();
    let step = lp.step(LoopEvent::Failed("x".to_string()));
    assert_eq!(step.messages.len(), 1);
    match &step.messages[0] {
        Message::Log(time, level, text) => {
            assert_eq!(time.len(), 8);
            assert_eq!(*level, Level::Error);
            assert_eq!(text, "x");
        }
        other => panic!("{:?}", other),
    }
}

#[test]
fn log_lines_of_a_cycle() {
    let fans = vec![("1".to_string(), 1_500), ("2".to_string(), -250), ("3".to_string(), 7_000)];
    assert_eq!(
        telemetry_log((2, 4), &fans),
        "GotCpuAndFansSpeed, active cpu num: 2, max sockets num: 4, fans: 1: 1.5, 2: -0.25, 3: 7"
    );
    assert_eq!(telemetry_log((0, 2), &Vec::new()), "GotCpuAndFansSpeed, active cpu num: 0, max sockets num: 2, fans: ");
    assert_eq!(actuation_log(0, 100), "SetFanSpeed, temp: 0℃, speed: 100%");
    assert_eq!(actuation_log(61_001, 90), "SetFanSpeed, temp: 61.001℃, speed: 90%");
    assert_eq!(power_log(12), "Power data got, length is 12");
}
