use firstset::config::{AppConfig, CalInstallMethod, ConfigError};
use firstset::setup::{RoleCheckPoll, SetupApp};
use firstset::powershell::{encode_powershell, prepare_powershell_script, utf16le_bytes};
use firstset::roles::{parse_rds_role_status, RdsFeature, RoleInstallState, RoleQueryError};
use firstset::runner::{
    plan_task, task_outcome, BaseAccessSelection, Feature, Script, Task, TaskError,
};

#[test]
fn powershell_encoding_is_utf16le_base64() {
    assert_eq!(encode_powershell("A"), "QQA=");
}

#[test]
fn powershell_encoding_of_non_ascii_text() {
    assert_eq!(utf16le_bytes("A\u{20ac}\u{1f600}"), vec![0x41, 0, 0xac, 0x20, 0x3d, 0xd8, 0x00, 0xde]);
    assert_eq!(encode_powershell("ok"), "bwBrAA==");
    assert_eq!(encode_powershell(""), "");
}

#[test]
fn powershell_wrapper_suppresses_progress_and_emits_plain_errors() {
    let script = prepare_powershell_script("Write-Output 'ok'");
    assert!(script.contains("$ProgressPreference = 'SilentlyContinue'"));
    assert!(script.contains("[Console]::Error.WriteLine"));
    assert!(script.contains("Write-Output 'ok'"));
}

#[test]
fn powershell_wrapper_exact_text() {
    let script = prepare_powershell_script("X");
    assert!(script.starts_with("$ProgressPreference = 'SilentlyContinue'\n"));
    assert!(script.contains("try {\n    & {\nX\n    }\n} catch {\n"));
    assert!(script.ends_with("    exit 1\n}\n"));
}

#[test]
fn all_features_remain_available() {
    assert_eq!(Feature::ALL.len(), 4);
}

#[test]
fn default_cal_method_does_not_leak_into_runner() {
    let config = AppConfig::default();
    assert_eq!(config.rds.cal_install_method, CalInstallMethod::NotSelected);
}

#[test]
fn dry_run_does_not_require_real_cal_entitlement() {
    let config = AppConfig::default();
    let steps = plan_task(Task::RdsLicensing, &config, true).unwrap();
    assert_eq!(steps.len(), 1);
    let outputs: Vec<String> = steps.iter().map(|_| String::new()).collect();
    let outcome = task_outcome(Task::RdsLicensing, true, &outputs);
    assert!(!outcome.reboot_required);
    assert!(outcome.credential_file.is_none());
}

#[test]
fn licensing_outside_dry_run_checks_entitlement() {
    let config = AppConfig::default();
    assert_eq!(
        plan_task(Task::RdsLicensing, &config, false).unwrap_err(),
        TaskError::Config(ConfigError::CalMethodNotSelected)
    );
}

#[test]
fn parses_rds_role_installation_states() {
    let status = parse_rds_role_status(
        "SYSTEM|PartOfDomain|False\n\
         FEATURE|RDS-RD-Server|Installed\n\
         FEATURE|RDS-Licensing|InstallPending\n\
         FEATURE|RDS-Licensing-UI|Available\n",
    )
    .unwrap();
    assert_eq!(status.session_host, RoleInstallState::Installed);
    assert_eq!(status.licensing, RoleInstallState::PendingRestart);
    assert_eq!(status.licensing_ui, RoleInstallState::Missing);
    assert!(!status.part_of_domain);
    assert!(!status.all_present());
    assert!(status.has_pending_restart());
}

#[test]
fn role_parsing_ignores_case_spacing_and_keeps_last_line() {
    let status = parse_rds_role_status(
        "noise\r\n  FEATURE|rds-rd-server| installed \r\nFEATURE|RDS-RD-Server|InstallPending\r\n\
         FEATURE|Rds-Licensing|INSTALLED\r\nFEATURE|RDS-LICENSING-UI|Installed\r\n\
         SYSTEM|PartOfDomain| TRUE ",
    )
    .unwrap();
    assert_eq!(status.session_host, RoleInstallState::PendingRestart);
    assert_eq!(status.licensing, RoleInstallState::Installed);
    assert_eq!(status.licensing_ui, RoleInstallState::Installed);
    assert!(status.part_of_domain);
    assert!(!status.fully_installed());
    assert!(status.all_present());
}

#[test]
fn role_parsing_reports_the_first_missing_item() {
    assert_eq!(
        parse_rds_role_status("").unwrap_err(),
        RoleQueryError::MissingFeatureState(RdsFeature::SessionHost)
    );
    assert_eq!(
        parse_rds_role_status("FEATURE|RDS-RD-Server|Installed\nFEATURE|RDS-Licensing-UI|Installed")
            .unwrap_err(),
        RoleQueryError::MissingFeatureState(RdsFeature::Licensing)
    );
    let err = parse_rds_role_status(
        "FEATURE|RDS-RD-Server|Installed\nFEATURE|RDS-Licensing|Installed\n\
         FEATURE|RDS-Licensing-UI|Installed\nSYSTEM|PartOfDomain|maybe",
    )
    .unwrap_err();
    assert_eq!(err, RoleQueryError::MissingDomainMembership);
    assert_eq!(err.message(), "Windows did not return domain membership");
    assert_eq!(
        RoleQueryError::MissingFeatureState(RdsFeature::LicensingUi).message(),
        "Windows did not return the state of RDS-Licensing-UI"
    );
    // A later unusable membership line clears an earlier one.
    assert_eq!(
        parse_rds_role_status(
            "SYSTEM|PartOfDomain|true\nFEATURE|RDS-RD-Server|Installed\n\
             FEATURE|RDS-Licensing|Installed\nFEATURE|RDS-Licensing-UI|Installed\nSYSTEM|PartOfDomain"
        )
        .unwrap_err(),
        RoleQueryError::MissingDomainMembership
    );
}

#[test]
fn base_access_plan_order_and_environment() {
    let mut config = AppConfig::default();
    config.base.allowed_remote_addresses = vec!["10.0.0.0/8".to_owned(), "192.168.1.1".to_owned()];
    let selection = BaseAccessSelection { kms: false, ssh: true, rdp: true };
    let steps = plan_task(Task::BaseAccess(selection), &config, false).unwrap();
    let scripts: Vec<Script> = steps.iter().map(|s| s.script).collect();
    assert_eq!(scripts, vec![Script::Stage1Ssh, Script::Stage1Rdp, Script::NetworkInfo]);
    assert_eq!(steps[0].name, "OpenSSH installation");
    assert_eq!(
        steps[1].environment,
        vec![(
            "FIRSTSET_ALLOWED_REMOTE_ADDRESSES".to_owned(),
            "10.0.0.0/8,192.168.1.1".to_owned()
        )]
    );
    assert_eq!(steps[2].announcement, "Current active network adapters:");
}

#[test]
fn base_access_needs_a_selection_and_a_valid_config() {
    let config = AppConfig::default();
    let none = BaseAccessSelection { kms: false, ssh: false, rdp: false };
    assert_eq!(
        plan_task(Task::BaseAccess(none), &config, true).unwrap_err(),
        TaskError::NothingSelected
    );
    assert_eq!(
        plan_task(Task::BaseAccess(BaseAccessSelection::default()), &config, false).unwrap_err(),
        TaskError::Config(ConfigError::KmsRequiresKeyAndServer)
    );
    assert_eq!(
        plan_task(Task::BaseAccess(BaseAccessSelection::default()), &config, true)
            .unwrap()
            .len(),
        4
    );
    assert_eq!(TaskError::NothingSelected.message(), "select at least one base-access action");
}

#[test]
fn dry_run_message_lists_sorted_keys_only() {
    let mut config = AppConfig::default();
    config.users.prefix = "ops".to_owned();
    let steps = plan_task(Task::LocalUsers, &config, true).unwrap();
    assert_eq!(
        steps[0].dry_run_message(),
        "DRY RUN: Local user creation; environment keys: FIRSTSET_RESET_EXISTING_PASSWORDS, \
         FIRSTSET_USER_COUNT, FIRSTSET_USER_NUMBER_WIDTH, FIRSTSET_USER_PASSWORD_LENGTH, \
         FIRSTSET_USER_PREFIX, FIRSTSET_USER_START_INDEX"
    );
    let network = plan_task(Task::RdsRoles, &config, true).unwrap();
    assert_eq!(network[0].dry_run_message(), "DRY RUN: RDS role installation; environment keys: ");
}

#[test]
fn licensing_environment_values() {
    let mut config = AppConfig::default();
    config.rds.license_key_pack_id = " AB-CD\tEF ".to_owned();
    config.rds.cal_count = 1234;
    let steps = plan_task(Task::RdsLicensing, &config, true).unwrap();
    let env = &steps[0].environment;
    assert_eq!(env.len(), 18);
    assert_eq!(env[0], ("FIRSTSET_RDS_LICENSING_MODE".to_owned(), "PerDevice".to_owned()));
    assert_eq!(env[2], ("FIRSTSET_RDS_CAL_METHOD".to_owned(), "None".to_owned()));
    assert_eq!(env[5], ("FIRSTSET_RDS_KEY_PACK_ID".to_owned(), "ABCDEF".to_owned()));
    assert_eq!(env[6], ("FIRSTSET_RDS_PRODUCT_VERSION".to_owned(), "7".to_owned()));
    assert_eq!(env[7], ("FIRSTSET_RDS_CAL_COUNT".to_owned(), "1234".to_owned()));
    assert_eq!(env[11], ("FIRSTSET_RDS_CONTACT_COUNTRY".to_owned(), "China".to_owned()));
    assert!(steps[0].dry_run_message().starts_with(
        "DRY RUN: RDS licensing configuration; environment keys: FIRSTSET_RDS_AGREEMENT_NUMBER, \
         FIRSTSET_RDS_AGREEMENT_TYPE, FIRSTSET_RDS_CAL_COUNT, FIRSTSET_RDS_CAL_METHOD, \
         FIRSTSET_RDS_CONTACT_ADDRESS,"
    ));
}

#[test]
fn local_users_environment_and_reset_flag() {
    let mut config = AppConfig::default();
    config.users.reset_existing_passwords = true;
    let steps = plan_task(Task::LocalUsers, &config, false).unwrap();
    assert_eq!(steps[0].script, Script::Stage4Users);
    assert_eq!(steps[0].environment[0], ("FIRSTSET_USER_COUNT".to_owned(), "20".to_owned()));
    assert_eq!(
        steps[0].environment[5],
        ("FIRSTSET_RESET_EXISTING_PASSWORDS".to_owned(), "1".to_owned())
    );
    config.users.count = 0;
    assert_eq!(
        plan_task(Task::LocalUsers, &config, true).unwrap_err(),
        TaskError::Config(ConfigError::UserCountOutOfRange)
    );
}

#[test]
fn reboot_plan_runs_the_restart_script() {
    let config = AppConfig::default();
    let steps = plan_task(Task::Reboot, &config, false).unwrap();
    assert_eq!(steps.len(), 1);
    assert_eq!(steps[0].script, Script::RestartComputer);
    assert_eq!(firstset::runner::restart_script(), "Restart-Computer -Force");
}

#[test]
fn role_installation_outcome() {
    let output = vec!["Installing...\r\n  RESTART_REQUIRED=1 \r\nDone".to_owned()];
    assert!(task_outcome(Task::RdsRoles, false, &output).reboot_required);
    let quiet = vec!["RESTART_REQUIRED=0\n".to_owned()];
    assert!(!task_outcome(Task::RdsRoles, false, &quiet).reboot_required);
    assert!(task_outcome(Task::RdsRoles, true, &vec![String::new()]).reboot_required);
}

#[test]
fn local_users_outcome_reports_first_credential_file() {
    let output = vec![
        "Created user01\r\nCREDENTIAL_FILE=C:\\Users\\a\\Desktop\\firstset-users-1.txt\r\nCREDENTIAL_FILE=second\n"
            .to_owned(),
    ];
    let outcome = task_outcome(Task::LocalUsers, false, &output);
    assert_eq!(
        outcome.credential_file.as_deref(),
        Some("C:\\Users\\a\\Desktop\\firstset-users-1.txt")
    );
    assert!(!outcome.reboot_required);
    let none = task_outcome(Task::LocalUsers, false, &vec!["  CREDENTIAL_FILE=x".to_owned()]);
    assert!(none.credential_file.is_none());
}

#[test]
fn per_user_mode_does_not_block_licensing() {
    let mut config = AppConfig::default();
    config.rds.cal_install_method = CalInstallMethod::KeyPackId;
    config.rds.license_key_pack_id = "ABCDE12345ABCDE12345ABCDE12345ABCDE".to_owned();
    config.rds.contact.first_name = "Ada".to_owned();
    config.rds.contact.last_name = "Lovelace".to_owned();
    config.rds.contact.company = "Analytical".to_owned();
    config.rds.licensing_mode = firstset::config::LicensingMode::PerUser;
    let steps = plan_task(Task::RdsLicensing, &config, false).unwrap();
    assert_eq!(steps[0].environment[0].1, "PerUser");
    config.rds.licensing_mode = firstset::config::LicensingMode::PerDevice;
    assert!(plan_task(Task::RdsLicensing, &config, false).is_ok());
}

#[test]
fn restart_offer_sticks_across_calls() {
    let mut app = SetupApp::new(AppConfig::default(), "c.toml".to_owned(), None, true);
    assert!(!app.reboot_available);
    assert!(app.start(Some(Feature::RdsRoles), Ok(())));
    app.poll_events(vec![firstset::runner::TaskEvent::Finished(Ok(
        firstset::runner::TaskOutcome { reboot_required: true, credential_file: None },
    ))]);
    assert!(app.reboot_available);
    app.save_config(Err("x".to_owned()));
    app.sync_remote_addresses();
    app.refresh_rds_role_status();
    app.poll_rds_role_status(RoleCheckPoll::Received(Err("e".to_owned())));
    assert!(app.reboot_available);
}
