use spinning_rust_chiller::config::Config;
use spinning_rust_chiller::fan::{calculate_pwm, pwm_text};
use spinning_rust_chiller::temperature::{get_hottest_temp, interpret_probe, parse_report_x, TempError};

const ATA_REPORT: &str = "\
smartctl 7.2 2020-12-30 r5155 [x86_64-linux] (local build)\n\
=== START OF READ SMART DATA SECTION ===\n\
ID# ATTRIBUTE_NAME          FLAG     VALUE WORST THRESH TYPE      UPDATED  WHEN_FAILED RAW_VALUE\n\
  5 Reallocated_Sector_Ct   0x0033   100   100   010    Pre-fail  Always       -       0\n\
194 Temperature_Celsius     0x0022   112   098   000    Old_age   Always       -       38\n\
197 Current_Pending_Sector  0x0032   100   100   000    Old_age   Always       -       0\n";

const SCSI_REPORT: &str = "\
smartctl 7.2 2020-12-30 r5155 [x86_64-linux] (local build)\n\
Current Drive Temperature:     41 C\n\
Drive Trip Temperature:        68 C\n";

const AIRFLOW_REPORT: &str = "\
190 Airflow_Temperature_Cel 0x0032   060   040   045    Old_age   Always   In_the_past 40\n";

const NO_TEMP_REPORT: &str = "\
smartctl 7.2 2020-12-30 r5155 [x86_64-linux] (local build)\n\
Device does not support SMART\n";

fn chars(s: &str) -> Vec<char> {
    s.chars().collect()
}

#[test]
fn parses_ata_temperature_attribute() {
    assert_eq!(parse_report_x(&chars(ATA_REPORT)), Some(38));
}

#[test]
fn parses_scsi_drive_temperature() {
    assert_eq!(parse_report_x(&chars(SCSI_REPORT)), Some(41));
}

#[test]
fn parses_airflow_temperature_attribute() {
    assert_eq!(parse_report_x(&chars(AIRFLOW_REPORT)), Some(40));
}

#[test]
fn parse_fails_without_temperature_line() {
    assert_eq!(parse_report_x(&chars(NO_TEMP_REPORT)), None);
}

#[test]
fn parse_fails_on_non_numeric_value_column() {
    let report = "194 Temperature_Celsius 0x0022 112 098 000 Old_age Always - cold\n";
    assert_eq!(parse_report_x(&chars(report)), None);
}

#[test]
fn parse_fails_on_missing_value_column() {
    let report = "194 Temperature_Celsius 0x0022\n";
    assert_eq!(parse_report_x(&chars(report)), None);
}

#[test]
fn parse_fails_on_value_overflow() {
    let report = "194 Temperature_Celsius 0x0022 112 098 000 Old_age Always - 99999999999\n";
    assert_eq!(parse_report_x(&chars(report)), None);
}

#[test]
fn probe_standby_exit_code() {
    let r = interpret_probe(Some(2), "", "");
    assert_eq!(r, Err(TempError::Standby));
}

#[test]
fn probe_command_failure_carries_stderr() {
    let r = interpret_probe(Some(1), "", "Smartctl open device failed");
    assert_eq!(
        r,
        Err(TempError::CommandFailure("Smartctl open device failed".to_string()))
    );
}

#[test]
fn probe_killed_by_signal_is_command_failure() {
    let r = interpret_probe(None, "", "killed");
    assert_eq!(r, Err(TempError::CommandFailure("killed".to_string())));
}

#[test]
fn probe_success_parses_report() {
    assert_eq!(interpret_probe(Some(0), ATA_REPORT, ""), Ok(38));
    assert_eq!(
        interpret_probe(Some(0), NO_TEMP_REPORT, ""),
        Err(TempError::ParseFailure)
    );
}

#[test]
fn aggregator_takes_maximum_of_successes() {
    let config = Config::default();
    let r = get_hottest_temp(&config, vec![Ok(20), Ok(35)]);
    assert_eq!(r, Ok(35));
}

#[test]
fn aggregator_all_standby_falls_back_to_temp_low() {
    let config = Config::default();
    let r = get_hottest_temp(
        &config,
        vec![Err(TempError::Standby), Err(TempError::Standby)],
    );
    assert_eq!(r, Ok(config.temp_low));
}

#[test]
fn aggregator_reports_all_errors_when_nothing_succeeds() {
    let config = Config::default();
    let r = get_hottest_temp(
        &config,
        vec![
            Err(TempError::CommandFailure("no such device".to_string())),
            Err(TempError::ParseFailure),
        ],
    );
    let errs = r.unwrap_err();
    assert_eq!(errs.len(), 2);
    assert_eq!(errs[0], TempError::CommandFailure("no such device".to_string()));
    assert_eq!(errs[1], TempError::ParseFailure);
}

#[test]
fn aggregator_single_success_overrides_standby_fallback() {
    let config = Config::default();
    let r = get_hottest_temp(&config, vec![Ok(10), Err(TempError::Standby)]);
    assert_eq!(r, Ok(10));
}

#[test]
fn aggregator_empty_list_falls_back_to_temp_low() {
    let config = Config::default();
    let r = get_hottest_temp(&config, vec![]);
    assert_eq!(r, Ok(config.temp_low));
}

#[test]
fn end_to_end_cycle_with_mixed_devices() {
    let config = Config::default();

    // device A reports 40 degrees Celsius
    let report_a = "194 Temperature_Celsius     0x0022   112   098   000    Old_age   Always       -       40\n";
    let reading_a = interpret_probe(Some(0), report_a, "");
    assert_eq!(reading_a, Ok(40));

    // device B is in standby
    let reading_b = interpret_probe(Some(2), "", "");
    assert_eq!(reading_b, Err(TempError::Standby));

    // device C's tool invocation fails
    let reading_c = interpret_probe(Some(127), "", "smartctl: not found");
    assert!(matches!(reading_c, Err(TempError::CommandFailure(_))));

    let aggregate = get_hottest_temp(&config, vec![reading_a, reading_b, reading_c]);
    assert_eq!(aggregate, Ok(40));

    let pwm = calculate_pwm(aggregate.unwrap(), &config);
    assert_eq!(pwm, 105);
    assert_eq!(pwm_text(pwm), b"105".to_vec());
}
