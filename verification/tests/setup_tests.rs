use firstset::config::{AppConfig, CalInstallMethod, LicensingMode};
use firstset::roles::{RdsRoleStatus, RoleInstallState};
use firstset::runner::{Feature, TaskEvent, TaskOutcome};
use firstset::setup::{
    is_error_log_line, role_summary, AppStatus, RdsRoleCheckState, RoleCheckPoll, RoleSummary,
    SetupApp,
};

fn status(
    session_host: RoleInstallState,
    licensing: RoleInstallState,
    licensing_ui: RoleInstallState,
    part_of_domain: bool,
) -> RdsRoleStatus {
    RdsRoleStatus { session_host, licensing, licensing_ui, part_of_domain }
}

fn window() -> SetupApp {
    SetupApp::new(AppConfig::default(), "C:\\firstset\\config.toml".to_owned(), None, true)
}

#[test]
fn new_window_state() {
    let mut config = AppConfig::default();
    config.base.allowed_remote_addresses = vec!["10.0.0.1".to_owned(), "vpn".to_owned()];
    let app = SetupApp::new(config, "cfg.toml".to_owned(), Some("ERROR: bad".to_owned()), false);
    assert_eq!(app.logs, vec!["Configuration: cfg.toml".to_owned(), "ERROR: bad".to_owned()]);
    assert_eq!(app.remote_addresses, "10.0.0.1, vpn");
    assert_eq!(app.selected_feature, Feature::BaseAccess);
    assert!(matches!(app.rds_role_check_state, RdsRoleCheckState::Checking));
    assert_eq!(app.status, AppStatus::Ready);
    assert!(app.show_log && app.scroll_log_to_bottom && !app.running && !app.dry_run);
}

#[test]
fn remote_addresses_round_trip() {
    let mut app = window();
    let before = app.config.base.allowed_remote_addresses.clone();
    app.sync_remote_addresses();
    assert_eq!(app.config.base.allowed_remote_addresses, before);
    app.remote_addresses = " a , ,b,, c d ,".to_owned();
    app.sync_remote_addresses();
    assert_eq!(app.config.base.allowed_remote_addresses, vec!["a", "b", "c d"]);
}

#[test]
fn start_and_finish_a_task() {
    let mut app = window();
    assert!(app.start(Some(Feature::RdsRoles), Ok(())));
    assert!(app.running);
    assert_eq!(app.status, AppStatus::Running);
    assert!(!app.start(Some(Feature::LocalUsers), Ok(())));
    assert_eq!(app.active_feature, Some(Feature::RdsRoles));
    app.rds_role_check_state = RdsRoleCheckState::Failed("x".to_owned());
    let outcome = TaskOutcome { reboot_required: true, credential_file: None };
    let poll = app.poll_events(vec![
        TaskEvent::Log("step".to_owned()),
        TaskEvent::Finished(Ok(outcome)),
    ]);
    assert!(poll.finished && poll.refresh_rds_roles);
    assert!(!app.running);
    assert_eq!(app.active_feature, None);
    assert!(app.reboot_available);
    assert_eq!(app.status, AppStatus::Completed);
    assert!(matches!(app.rds_role_check_state, RdsRoleCheckState::Checking));
    let n = app.logs.len();
    assert_eq!(
        app.logs[n - 3..].to_vec(),
        vec![
            "step".to_owned(),
            "Task completed successfully.".to_owned(),
            "Restart Windows to finish applying the installed roles.".to_owned()
        ]
    );
}

#[test]
fn failed_task_and_failed_save() {
    let mut app = window();
    assert!(!app.start(Some(Feature::LocalUsers), Err("disk full".to_owned())));
    assert!(!app.running);
    assert_eq!(app.logs.last().unwrap(), "ERROR: unable to save configuration: disk full");
    assert!(app.start(Some(Feature::LocalUsers), Ok(())));
    let poll = app.poll_events(vec![]);
    assert!(!poll.finished && !poll.refresh_rds_roles);
    let outcome = TaskOutcome { reboot_required: false, credential_file: Some("C:\\u.txt".to_owned()) };
    let poll = app.poll_events(vec![TaskEvent::Finished(Ok(outcome))]);
    assert!(poll.finished && !poll.refresh_rds_roles);
    assert_eq!(app.logs.last().unwrap(), "Credential file: C:\\u.txt");
    assert!(app.start(None, Ok(())));
    app.poll_events(vec![TaskEvent::Finished(Err("boom".to_owned()))]);
    assert_eq!(app.status, AppStatus::Failed);
    assert_eq!(app.logs.last().unwrap(), "ERROR: boom");
    assert!(is_error_log_line(app.logs.last().unwrap()));
    assert!(!is_error_log_line("Task completed successfully."));
}

#[test]
fn save_results_are_logged() {
    let mut app = window();
    app.save_config(Ok(()));
    assert_eq!(app.status, AppStatus::ConfigurationSaved);
    assert_eq!(app.logs.last().unwrap(), "Saved C:\\firstset\\config.toml");
    app.save_config(Err("denied".to_owned()));
    assert_eq!(app.status, AppStatus::SaveFailed);
    assert_eq!(app.logs.last().unwrap(), "ERROR: denied");
}

#[test]
fn role_query_results() {
    let mut app = window();
    assert!(app.poll_rds_role_status(RoleCheckPoll::Empty));
    assert!(!app.can_install_rds_roles() && !app.can_recheck_rds_roles() && app.needs_repaint());
    let pending = status(
        RoleInstallState::Installed,
        RoleInstallState::PendingRestart,
        RoleInstallState::Installed,
        false,
    );
    assert!(!app.poll_rds_role_status(RoleCheckPoll::Received(Ok(pending))));
    assert!(app.reboot_available);
    assert!(!app.can_install_rds_roles());
    assert_eq!(role_summary(pending), RoleSummary::PendingRestart);
    assert_eq!(app.domain_membership(), Some(false));
    assert!(!app.poll_rds_role_status(RoleCheckPoll::Disconnected));
    match &app.rds_role_check_state {
        RdsRoleCheckState::Failed(e) => assert_eq!(e, "RDS role detection stopped unexpectedly"),
        _ => panic!("expected a failed role query"),
    }
    assert!(app.can_install_rds_roles());
    let missing = status(
        RoleInstallState::Missing,
        RoleInstallState::Installed,
        RoleInstallState::Installed,
        true,
    );
    assert_eq!(role_summary(missing), RoleSummary::Incomplete);
    let all = status(
        RoleInstallState::Installed,
        RoleInstallState::Installed,
        RoleInstallState::Installed,
        true,
    );
    assert_eq!(role_summary(all), RoleSummary::Installed);
    assert!(all.fully_installed() && all.all_present() && !all.has_pending_restart());
}

#[test]
fn recommended_licensing_settings() {
    let mut app = window();
    app.config.rds.licensing_mode = LicensingMode::PerUser;
    app.poll_rds_role_status(RoleCheckPoll::Received(Ok(status(
        RoleInstallState::Installed,
        RoleInstallState::Installed,
        RoleInstallState::Installed,
        false,
    ))));
    assert!(app.shows_workgroup_per_user_warning());
    app.apply_recommended_settings();
    assert_eq!(app.config.rds.licensing_mode, LicensingMode::PerDevice);
    assert_eq!(app.config.rds.cal_install_method, CalInstallMethod::Agreement);
    assert!(!app.shows_workgroup_per_user_warning());
    app.poll_rds_role_status(RoleCheckPoll::Received(Ok(status(
        RoleInstallState::Installed,
        RoleInstallState::Installed,
        RoleInstallState::Installed,
        true,
    ))));
    app.apply_recommended_settings();
    assert_eq!(app.config.rds.licensing_mode, LicensingMode::PerUser);
    app.config.rds.cal_product_version_id = 6;
    assert_eq!(app.config.rds.cal_product_version_id, 6);
    app.apply_recommended_settings();
    assert_eq!(app.config.rds.cal_product_version_id, 7);
}

#[test]
fn log_toggle_and_clear() {
    let mut app = window();
    app.scroll_log_to_bottom = false;
    app.toggle_log();
    assert!(!app.show_log);
    app.toggle_log();
    assert!(app.show_log && app.scroll_log_to_bottom);
    app.clear_log();
    assert!(app.logs.is_empty());
}
