use smartfan::command::CommandOutput;
use smartfan::fan::collect_sockets;
use smartfan::fan::extract_temperature;
use smartfan::fan::find_socket;
use smartfan::fan::get_active_cpu_num;
use smartfan::fan::get_all_sensor_data;
use smartfan::fan::get_fans_speed;
use smartfan::fan::get_max_temperature;
use smartfan::fan::get_power;
use smartfan::fan::names_socket_thermal;
use smartfan::fan::parse_index;
use smartfan::fan::parse_table;
use smartfan::fan::sensor_command;
use smartfan::fan::tally_sockets;
use smartfan::fan::TelemetrySnapshot;
use smartfan::sensor::SensorResult;
use smartfan::sensor::Thresholds;

fn thousandths(value: f64) -> i64 {
    (value * 1000.0).round() as i64
}

fn reading(name: &str, value: Option<f64>) -> SensorResult {
    SensorResult {
        sensor_name: name.to_string(),
        value: value.map(thousandths),
        unit: None,
        status: None,
        thresholds: Thresholds { lnr: None, lc: None, lnc: None, unc: None, uc: None, unr: None },
    }
}

#[test]
fn one_running_processor_of_two() {
    let readings = vec![reading("CPU1_Temp", Some(34.0)), reading("CPU2_Temp", Some(0.0))];
    assert_eq!(get_active_cpu_num(&readings), (1, 2));
}

#[test]
fn two_running_processors() {
    let readings = vec![reading("CPU1_Temp", Some(34.0)), reading("CPU2_Temp", Some(30.0))];
    assert_eq!(get_active_cpu_num(&readings), (2, 2));
}

#[test]
fn no_readings_count_no_processor_and_two_sockets() {
    assert_eq!(get_active_cpu_num(&Vec::new()), (0, 2));
}

#[test]
fn single_socket_board_still_has_ceiling_two() {
    let readings = vec![reading("CPU1_Temp", Some(40.0))];
    assert_eq!(get_active_cpu_num(&readings), (1, 2));
}

#[test]
fn absent_value_is_not_active() {
    let readings = vec![reading("CPU1_Temp", None), reading("CPU2_Temp", None)];
    assert_eq!(get_active_cpu_num(&readings), (0, 2));
}

#[test]
fn active_count_goes_by_index_not_by_tally() {
    let readings = vec![reading("CPU1_Temp", Some(0.0)), reading("CPU2_Temp", Some(41.0))];
    assert_eq!(get_active_cpu_num(&readings), (2, 2));
}

#[test]
fn four_sockets_raise_the_ceiling() {
    let readings = vec![
        reading("CPU1_Temp", Some(30.0)),
        reading("CPU2_Temp", Some(31.0)),
        reading("CPU3_Temp", Some(0.0)),
        reading("CPU4_Temp", None),
    ];
    assert_eq!(get_active_cpu_num(&readings), (2, 4));
}

#[test]
fn regulator_and_other_sensors_do_not_count() {
    let readings = vec![
        reading("CPU1_VR_Temp", Some(30.0)),
        reading("CPU7_VR_Temp", Some(30.0)),
        reading("CPU3_Vcore", Some(1.0)),
        reading("Inlet_Temp", Some(22.0)),
        reading("FAN1_Speed", Some(3000.0)),
    ];
    assert_eq!(get_active_cpu_num(&readings), (0, 2));
}

#[test]
fn negative_value_is_not_active() {
    let readings = vec![reading("CPU1_Temp", Some(-1.0))];
    assert_eq!(get_active_cpu_num(&readings), (0, 2));
}

#[test]
fn socket_names_in_their_variants() {
    assert_eq!(find_socket("CPU1_Temp"), Some(1));
    assert_eq!(find_socket("CPU12_Temp"), Some(12));
    assert_eq!(find_socket("cpu_2 Temp"), Some(2));
    assert_eq!(find_socket("Processor 3 Temp"), Some(3));
    assert_eq!(find_socket("Proc4Temp"), Some(4));
    assert_eq!(find_socket("Temp_PROC_05"), Some(5));
    assert_eq!(find_socket("CPU_Temp"), None);
    assert_eq!(find_socket("Inlet_Temp"), None);
    assert_eq!(find_socket("CPU-1_Temp"), None);
    assert_eq!(find_socket(""), None);
}

#[test]
fn socket_number_too_large_is_no_socket() {
    assert_eq!(find_socket("CPU99999999999999999999999999_Temp"), None);
    let readings = vec![reading("CPU99999999999999999999999999_Temp", Some(30.0))];
    assert_eq!(get_active_cpu_num(&readings), (0, 2));
}

#[test]
fn digits_read_as_index() {
    assert_eq!(parse_index("0"), Some(0));
    assert_eq!(parse_index("2"), Some(2));
    assert_eq!(parse_index("0012"), Some(12));
    assert_eq!(parse_index(&usize::MAX.to_string()), Some(usize::MAX));
    assert_eq!(parse_index("340282366920938463463374607431768211456"), None);
    assert_eq!(parse_index(""), None);
    assert_eq!(parse_index("1a"), None);
    assert_eq!(parse_index("+1"), None);
    assert_eq!(parse_index("٣"), None);
}

#[test]
fn thermal_names() {
    assert!(names_socket_thermal("CPU1_Temp"));
    assert!(names_socket_thermal("Inlet_Temp"));
    assert!(!names_socket_thermal("CPU1_VR_Temp"));
    assert!(!names_socket_thermal("CPU1_temp"));
    assert!(!names_socket_thermal("FAN1_Speed"));
}

#[test]
fn entries_and_tally() {
    let readings = vec![
        reading("CPU1_Temp", Some(34.0)),
        reading("CPU1_VR_Temp", Some(50.0)),
        reading("CPU2_Temp", None),
    ];
    let entries = collect_sockets(&readings);
    assert_eq!(entries, vec![(1, Some(34_000)), (2, None)]);
    assert_eq!(tally_sockets(&entries), (1, 2));
    assert_eq!(tally_sockets(&vec![(3, Some(1)), (5, Some(0)), (1, Some(7))]), (3, 5));
    assert_eq!(tally_sockets(&Vec::new()), (0, 2));
}

#[test]
fn peak_of_no_readings_is_zero() {
    assert_eq!(get_max_temperature(&Vec::new()), 0);
}

#[test]
fn peak_is_the_highest_processor_temperature() {
    let readings = vec![
        reading("CPU1_Temp", Some(34.0)),
        reading("CPU2_Temp", Some(41.5)),
        reading("Inlet_Temp", Some(80.0)),
        reading("CPU1_Vcore", Some(99.0)),
        reading("CPU3_Temp", None),
    ];
    assert_eq!(get_max_temperature(&readings), thousandths(41.5));
}

#[test]
fn regulator_temperature_counts_towards_the_peak() {
    let readings = vec![reading("CPU1_Temp", Some(34.0)), reading("CPU1_VR_Temp", Some(52.0))];
    assert_eq!(get_max_temperature(&readings), thousandths(52.0));
}

#[test]
fn peak_without_values_is_zero() {
    let readings = vec![
        reading("CPU1_Temp", None),
        reading("CPU2_Temp", None),
        reading("Inlet_Temp", Some(25.0)),
        reading("CPU1_Vcore", Some(-5.0)),
    ];
    assert_eq!(get_max_temperature(&readings), 0);
}

#[test]
fn peak_below_zero_is_kept() {
    let lone = vec![reading("CPU1_Temp", Some(-5.0))];
    assert_eq!(get_max_temperature(&lone), thousandths(-5.0));

    let readings = vec![
        reading("CPU1_Temp", None),
        reading("CPU2_Temp", Some(-5.0)),
        reading("CPU1_VR_Temp", Some(-12.5)),
        reading("Inlet_Temp", Some(3.0)),
    ];
    assert_eq!(get_max_temperature(&readings), thousandths(-5.0));
}

#[test]
fn peak_of_zero_readings_is_zero() {
    let readings = vec![reading("CPU1_Temp", Some(0.0)), reading("CPU2_Temp", Some(-1.0))];
    assert_eq!(get_max_temperature(&readings), 0);
}

#[test]
fn snapshot_keeps_a_peak_below_zero() {
    let snapshot = TelemetrySnapshot::of(&vec![reading("CPU1_Temp", Some(-7.25))]);
    assert_eq!(snapshot.peak_cpu_temp, -7_250);
    assert_eq!(snapshot.active_cpu_count, 0);
    assert_eq!(snapshot.socket_ceiling, 2);
}

#[test]
fn fans_are_listed_with_bare_labels() {
    let readings = vec![
        reading("FAN1_F_Speed", Some(3000.0)),
        reading("CPU1_Temp", Some(34.0)),
        reading("FAN2_R_Speed", None),
        reading("SYS_FAN_Speed", Some(1200.5)),
        reading("FAN_Power", Some(12.0)),
    ];
    assert_eq!(
        get_fans_speed(&readings),
        vec![
            ("1_F".to_string(), 3_000_000),
            ("2_R".to_string(), 0),
            ("SYS_".to_string(), 1_200_500),
        ]
    );
}

#[test]
fn fan_label_strips_every_marker() {
    let readings = vec![
        reading("FANFAN_Speed_Speed", Some(1.0)),
        reading("FAFANN_Speed", Some(2.0)),
        reading("FAN3_Spe_Speeded Speed", Some(3.0)),
    ];
    assert_eq!(
        get_fans_speed(&readings),
        vec![
            ("".to_string(), 1_000),
            ("FAN".to_string(), 2_000),
            ("3_Speed Speed".to_string(), 3_000),
        ]
    );
}

#[test]
fn power_sensors_are_listed_by_name() {
    let readings = vec![
        reading("Total_Power", Some(220.0)),
        reading("CPU1_Temp", Some(34.0)),
        reading("PSU1_Watt", None),
        reading("FAN_Power", Some(12.5)),
    ];
    assert_eq!(
        get_power(&readings),
        vec![
            ("Total_Power".to_string(), 220_000),
            ("PSU1_Watt".to_string(), 0),
            ("FAN_Power".to_string(), 12_500),
        ]
    );
    assert_eq!(get_power(&Vec::new()), Vec::new());
}

#[test]
fn temperature_is_the_first_word() {
    assert_eq!(extract_temperature("34.000 degrees C"), Some(34_000));
    assert_eq!(extract_temperature("  41.5\tdegrees C"), Some(41_500));
    assert_eq!(extract_temperature("70"), Some(70_000));
    assert_eq!(extract_temperature("na degrees C"), None);
    assert_eq!(extract_temperature(""), None);
    assert_eq!(extract_temperature("   "), None);
    assert_eq!(extract_temperature("degrees 34"), None);
}

const TABLE: &str = "\
CPU1_Temp        | 34.000     | degrees C  | ok    | na        | na        | na        | 93.000    | 100.000   | 105.000
CPU2_Temp        | 0.000      | degrees C  | ok    | na        | na        | na        | 100.000   | 102.000   | 104.000
CPU1_VR_Temp     | 30.000     | degrees C  | ok    | na        | na        | na        | 112.000   | 123.000   | 133.000

not a sensor row
FAN1_F_Speed     | 4200.000   | RPM        | ok    | na        | na        | na        | na        | na        | na
Total_Power      | 180.000    | Watts      | ok    | na        | na        | na        | na        | na        | na
";

#[test]
fn table_keeps_rows_and_drops_the_rest() {
    let rows = parse_table(TABLE);
    let names: Vec<&str> = rows.iter().map(|r| r.sensor_name.as_str()).collect();
    assert_eq!(names, vec!["CPU1_Temp", "CPU2_Temp", "CPU1_VR_Temp", "FAN1_F_Speed", "Total_Power"]);
    assert_eq!(rows[0].value, Some(34_000));
    assert_eq!(rows[0].thresholds.unr, Some(105_000));
    assert_eq!(get_active_cpu_num(&rows), (1, 2));
    assert_eq!(get_max_temperature(&rows), 34_000);
}

#[test]
fn table_with_windows_line_ends() {
    let rows = parse_table("A|1|u|ok|na|na|na|na|na|7\r\nB|2|u|ok|na|na|na|na|na|8\r\n");
    assert_eq!(rows.len(), 2);
    assert_eq!(rows[0].thresholds.unr, Some(7_000));
    assert_eq!(rows[1].sensor_name, "B");
}

#[test]
fn empty_table_has_no_rows() {
    assert!(parse_table("").is_empty());
    assert!(parse_table("\n\n").is_empty());
}

#[test]
fn sensor_command_appends_the_request() {
    assert_eq!(sensor_command("ipmitool"), "ipmitool sensor");
}

#[test]
fn successful_run_gives_readings() {
    let output = CommandOutput { status: Some(0), stdout: TABLE.to_string(), stderr: "warning".to_string() };
    let rows = get_all_sensor_data("ipmitool", &output).unwrap();
    assert_eq!(rows.len(), 5);
}

#[test]
fn failed_run_is_an_error_with_the_command() {
    let output = CommandOutput { status: Some(1), stdout: TABLE.to_string(), stderr: "no device".to_string() };
    let e = get_all_sensor_data("ipmitool -I lanplus", &output).unwrap_err();
    assert_eq!(e.command, "ipmitool -I lanplus sensor");
    assert_eq!(e.exit_status, Some(1));
    assert_eq!(e.stderr, "no device");
    assert_eq!(e.to_string(), "Error executing command: ipmitool -I lanplus sensor. Error: no device");
}

#[test]
fn run_without_exit_status_is_an_error() {
    let output = CommandOutput { status: None, stdout: String::new(), stderr: String::new() };
    assert!(get_all_sensor_data("ipmitool", &output).is_err());
}

#[test]
fn snapshot_of_a_table() {
    let snapshot = TelemetrySnapshot::of(&parse_table(TABLE));
    assert_eq!(snapshot.active_cpu_count, 1);
    assert_eq!(snapshot.socket_ceiling, 2);
    assert_eq!(snapshot.peak_cpu_temp, 34_000);
    assert_eq!(snapshot.fan_speeds, vec![("1_F".to_string(), 4_200_000)]);
    assert_eq!(snapshot.power_readings, vec![("Total_Power".to_string(), 180_000)]);
}

#[test]
fn snapshot_of_nothing() {
    let snapshot = TelemetrySnapshot::of(&Vec::new());
    assert_eq!(snapshot.active_cpu_count, 0);
    assert_eq!(snapshot.socket_ceiling, 2);
    assert_eq!(snapshot.peak_cpu_temp, 0);
    assert!(snapshot.fan_speeds.is_empty());
    assert!(snapshot.power_readings.is_empty());
}

#[test]
fn reading_beyond_all_measure_is_the_peak() {
    let rows = parse_table("CPU1_Temp | 1e30 | degrees C | ok | na | na | na | na | na | na\nCPU2_Temp | 40.0 | degrees C | ok | na | na | na | na | na | na\n");
    assert_eq!(rows[0].value, Some(i64::MAX));
    assert_eq!(get_max_temperature(&rows), i64::MAX);
    assert_eq!(get_active_cpu_num(&rows), (2, 2));
}
