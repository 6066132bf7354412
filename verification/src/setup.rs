//! The state of the setup window and the decisions it takes: what a
//! finished task or a role query does to it, when a task may start, and how
//! the firewall source list is edited.
use vstd::prelude::*;
use crate::config::{AgreementType, AppConfig, CalInstallMethod, LicensingMode, RdsConfig};
use crate::roles::RdsRoleStatus;
use crate::runner::{BaseAccessSelection, Feature, TaskEvent};
use crate::text::{
    chars_of, join, join_strings, split_chars, split_on, string_from_chars, string_views, trim,
    trim_chars, views,
};

verus! {

broadcast use vstd::string::group_string_axioms;

/// The status line under the log.
#[derive(Clone, Copy, Debug, PartialEq, Eq, Structural)]
pub enum AppStatus {
    Ready,
    Running,
    Completed,
    Failed,
    ConfigurationSaved,
    SaveFailed,
}

/// Where the query of the RDS roles stands.
#[derive(Clone, Debug)]
pub enum RdsRoleCheckState {
    Checking,
    Loaded(RdsRoleStatus),
    Failed(String),
}

/// What polling the role query's channel gave.
#[derive(Debug)]
pub enum RoleCheckPoll {
    /// Nothing yet.
    Empty,
    /// The query ended without an answer.
    Disconnected,
    /// The query's answer.
    Received(Result<RdsRoleStatus, String>),
}

/// Summary of the role states shown above the role list.
#[derive(Clone, Copy, Debug, PartialEq, Eq, Structural)]
pub enum RoleSummary {
    Installed,
    PendingRestart,
    Incomplete,
}

/// What draining the task channel asks the caller to do.
#[derive(Clone, Copy, Debug, PartialEq, Eq, Structural)]
pub struct PollOutcome {
    /// The task ended: stop listening to it.
    pub finished: bool,
    /// The task installed roles: query the role states again.
    pub refresh_rds_roles: bool,
}

/// The setup window's state.
#[derive(Debug)]
pub struct SetupApp {
    pub config: AppConfig,
    pub config_path: String,
    pub selected_feature: Feature,
    pub base_access: BaseAccessSelection,
    pub remote_addresses: String,
    pub dry_run: bool,
    pub show_secrets: bool,
    pub running: bool,
    pub active_feature: Option<Feature>,
    pub logs: Vec<String>,
    pub status: AppStatus,
    pub reboot_available: bool,
    pub show_log: bool,
    pub scroll_log_to_bottom: bool,
    pub rds_role_check_state: RdsRoleCheckState,
}

/// The firewall source list typed as text: the comma-separated entries,
/// trimmed, empty ones dropped.
pub open spec fn address_list(pieces: Seq<Seq<char>>) -> Seq<Seq<char>>
    decreases pieces.len(),
{
    if pieces.len() == 0 {
        Seq::<Seq<char>>::empty()
    } else if trim(pieces.last()).len() == 0 {
        address_list(pieces.drop_last())
    } else {
        address_list(pieces.drop_last()).push(trim(pieces.last()))
    }
}

pub open spec fn parsed_addresses(text: Seq<char>) -> Seq<Seq<char>> {
    address_list(split_on(text, ','))
}

/// The settings: everything but the log, its display and the task flags.
pub open spec fn same_settings(a: SetupApp, b: SetupApp) -> bool {
    &&& a.config == b.config
    &&& a.config_path == b.config_path
    &&& a.selected_feature == b.selected_feature
    &&& a.base_access == b.base_access
    &&& a.remote_addresses == b.remote_addresses
    &&& a.dry_run == b.dry_run
    &&& a.show_secrets == b.show_secrets
}

pub open spec fn domain_membership_of(st: RdsRoleCheckState) -> Option<bool> {
    match st {
        RdsRoleCheckState::Loaded(status) => Some(status.part_of_domain),
        _ => None,
    }
}

/// Per User in a domain, Per Device otherwise (also while the membership
/// is unknown).
pub open spec fn recommended_licensing_mode(st: RdsRoleCheckState) -> LicensingMode {
    if domain_membership_of(st) == Some(true) {
        LicensingMode::PerUser
    } else {
        LicensingMode::PerDevice
    }
}

/// The recommended settings never bring up the workgroup warning: on a
/// server known to be in a workgroup they choose Per Device licensing, and
/// they choose Per User only on a domain member.
pub proof fn law_recommended_settings_avoid_workgroup_warning(st: RdsRoleCheckState)
    ensures
        !(domain_membership_of(st) == Some(false) && recommended_licensing_mode(st)
            == LicensingMode::PerUser),
        recommended_licensing_mode(st) == LicensingMode::PerUser <==> domain_membership_of(st)
            == Some(true),
{
}

pub open spec fn role_summary_of(status: RdsRoleStatus) -> RoleSummary {
    if status.spec_fully_installed() {
        RoleSummary::Installed
    } else if status.spec_all_present() && status.spec_has_pending_restart() {
        RoleSummary::PendingRestart
    } else {
        RoleSummary::Incomplete
    }
}

/// How the roles are summarised.
pub fn role_summary(status: RdsRoleStatus) -> (r: RoleSummary)
    ensures
        r == role_summary_of(status),
{
    if status.fully_installed() {
        RoleSummary::Installed
    } else if status.all_present() && status.has_pending_restart() {
        RoleSummary::PendingRestart
    } else {
        RoleSummary::Incomplete
    }
}

/// A log line shown as an error.
pub fn is_error_log_line(line: &str) -> (r: bool)
    ensures
        r == (line@.len() >= 6 && line@.take(6) == "ERROR:"@),
{
    let cs = chars_of(line);
    let marker = chars_of("ERROR:");
    if cs.len() < 6 {
        return false;
    }
    let mut head = cs;
    let _rest = head.split_off(6);
    crate::text::chars_eq(head.as_slice(), marker.as_slice())
}

fn concat_string(a: &str, b: &str) -> (r: String)
    ensures
        r@ == a@ + b@,
{
    let mut s = String::from_str(a);
    s.append(b);
    s
}

/// The effect of a task on the window, as mathematics.
pub struct TrackModel {
    pub logs: Seq<Seq<char>>,
    pub status: AppStatus,
    pub running: bool,
    pub active_feature: Option<Feature>,
    pub reboot_available: bool,
    pub scroll: bool,
    pub finished: bool,
    pub refresh: bool,
}

/// A task event as mathematics: a log line, or the end with a restart flag
/// and an optional credential file, or an error message.
pub enum EventModel {
    Log(Seq<char>),
    Finished(Result<(bool, Option<Seq<char>>), Seq<char>>),
}

pub open spec fn event_model(e: TaskEvent) -> EventModel {
    match e {
        TaskEvent::Log(m) => EventModel::Log(m@),
        TaskEvent::Finished(Ok(o)) => EventModel::Finished(
            Ok(
                (
                    o.reboot_required,
                    match o.credential_file {
                        Some(f) => Some(f@),
                        None => None,
                    },
                ),
            ),
        ),
        TaskEvent::Finished(Err(m)) => EventModel::Finished(Err(m@)),
    }
}

pub open spec fn event_models(es: Seq<TaskEvent>) -> Seq<EventModel> {
    es.map_values(|e: TaskEvent| event_model(e))
}

pub open spec fn track_of(s: SetupApp) -> TrackModel {
    TrackModel {
        logs: string_views(s.logs@),
        status: s.status,
        running: s.running,
        active_feature: s.active_feature,
        reboot_available: s.reboot_available,
        scroll: s.scroll_log_to_bottom,
        finished: false,
        refresh: false,
    }
}

/// The lines a finished task adds to the log.
pub open spec fn finish_log(logs: Seq<Seq<char>>, r: Result<(bool, Option<Seq<char>>), Seq<char>>) -> Seq<
    Seq<char>,
> {
    match r {
        Ok((reboot, cred)) => {
            let l1 = logs.push("Task completed successfully."@);
            let l2 = if reboot {
                l1.push("Restart Windows to finish applying the installed roles."@)
            } else {
                l1
            };
            match cred {
                Some(p) => l2.push("Credential file: "@ + p),
                None => l2,
            }
        },
        Err(msg) => logs.push("ERROR: "@ + msg),
    }
}

/// One task event: a log line is appended; the end stops the task, records
/// its result and asks for a new role query when roles were installed.
pub open spec fn apply_event(m: TrackModel, e: EventModel) -> TrackModel {
    match e {
        EventModel::Log(msg) => TrackModel { logs: m.logs.push(msg), scroll: true, ..m },
        EventModel::Finished(r) => TrackModel {
            logs: finish_log(m.logs, r),
            status: match r {
                Ok(_) => AppStatus::Completed,
                Err(_) => AppStatus::Failed,
            },
            running: false,
            active_feature: None,
            reboot_available: m.reboot_available || match r {
                Ok((reboot, _)) => reboot,
                Err(_) => false,
            },
            scroll: true,
            finished: true,
            refresh: m.active_feature == Some(Feature::RdsRoles),
        },
    }
}

pub open spec fn apply_events(m: TrackModel, es: Seq<EventModel>) -> TrackModel
    decreases es.len(),
{
    if es.len() == 0 {
        m
    } else {
        apply_event(apply_events(m, es.drop_last()), es.last())
    }
}

/// The window as `SetupApp::new` builds it.
pub open spec fn is_initial_state(
    s: SetupApp,
    config: AppConfig,
    config_path: Seq<char>,
    startup_message: Option<Seq<char>>,
    dry_run: bool,
) -> bool {
    let first = "Configuration: "@ + config_path;
    &&& s.config == config
    &&& s.config_path@ == config_path
    &&& s.selected_feature == Feature::BaseAccess
    &&& s.base_access == BaseAccessSelection { kms: true, ssh: true, rdp: true }
    &&& s.remote_addresses@ == join(string_views(config.base.allowed_remote_addresses@), ", "@)
    &&& s.dry_run == dry_run
    &&& !s.show_secrets
    &&& !s.running
    &&& s.active_feature is None
    &&& string_views(s.logs@) == match startup_message {
        Some(m) => seq![first, m],
        None => seq![first],
    }
    &&& s.status == AppStatus::Ready
    &&& !s.reboot_available
    &&& s.show_log
    &&& s.scroll_log_to_bottom
    &&& s.rds_role_check_state is Checking
}

impl SetupApp {
    /// The window on start: the configuration path logged first, the
    /// firewall sources shown as one comma-separated line, and the role
    /// query pending (the caller starts it).
    pub fn new(config: AppConfig, config_path: String, startup_message: Option<String>, dry_run: bool) -> (r:
        Self)
        ensures
            is_initial_state(
                r,
                config,
                config_path@,
                match startup_message {
                    Some(m) => Some(m@),
                    None => None,
                },
                dry_run,
            ),
    {
        let mut logs: Vec<String> = Vec::new();
        logs.push(concat_string("Configuration: ", config_path.as_str()));
        let ghost first = logs@;
        match startup_message {
            Some(m) => {
                logs.push(m);
            },
            None => {},
        }
        assert(string_views(logs@) =~= match startup_message {
            Some(m) => seq!["Configuration: "@ + config_path@, m@],
            None => seq!["Configuration: "@ + config_path@],
        });
        let remote_addresses = join_strings(&config.base.allowed_remote_addresses, ", ");
        SetupApp {
            config,
            config_path,
            selected_feature: Feature::BaseAccess,
            base_access: BaseAccessSelection { kms: true, ssh: true, rdp: true },
            remote_addresses,
            dry_run,
            show_secrets: false,
            running: false,
            active_feature: None,
            logs,
            status: AppStatus::Ready,
            reboot_available: false,
            show_log: true,
            scroll_log_to_bottom: true,
            rds_role_check_state: RdsRoleCheckState::Checking,
        }
    }

    /// Marks the role query as pending again (the caller starts it).
    pub fn refresh_rds_role_status(&mut self)
        ensures
            final(self).reboot_available == restart_offered_after(
                old(self).reboot_available,
                WindowCall::RefreshRdsRoleStatus,
            ),
            final(self).show_log == old(self).show_log,
            final(self).rds_role_check_state is Checking,
            same_settings(*final(self), *old(self)),
            final(self).logs == old(self).logs,
            final(self).status == old(self).status,
            final(self).running == old(self).running,
            final(self).active_feature == old(self).active_feature,
            final(self).reboot_available == old(self).reboot_available,
            final(self).scroll_log_to_bottom == old(self).scroll_log_to_bottom,
    {
        self.rds_role_check_state = RdsRoleCheckState::Checking;
    }

    /// Takes in what the role query's channel gave; returns whether to keep
    /// listening. A status with a pending restart offers the restart.
    pub fn poll_rds_role_status(&mut self, received: RoleCheckPoll) -> (keep_listening: bool)
        ensures
            final(self).reboot_available == restart_offered_after(
                old(self).reboot_available,
                WindowCall::PollRoleStatus(role_poll_needs_restart(received)),
            ),
            final(self).show_log == old(self).show_log,
            same_settings(*final(self), *old(self)),
            final(self).logs == old(self).logs,
            final(self).status == old(self).status,
            final(self).running == old(self).running,
            final(self).active_feature == old(self).active_feature,
            final(self).scroll_log_to_bottom == old(self).scroll_log_to_bottom,
            keep_listening == (received is Empty),
            match received {
                RoleCheckPoll::Empty => final(self).rds_role_check_state == old(
                    self,
                ).rds_role_check_state && final(self).reboot_available == old(self).reboot_available,
                RoleCheckPoll::Disconnected => (final(self).rds_role_check_state matches RdsRoleCheckState::Failed(e)
                    && e@ == "RDS role detection stopped unexpectedly"@) && final(self).reboot_available
                    == old(self).reboot_available,
                RoleCheckPoll::Received(Ok(status)) => final(self).rds_role_check_state
                    == RdsRoleCheckState::Loaded(status) && final(self).reboot_available == (old(
                    self,
                ).reboot_available || status.spec_has_pending_restart()),
                RoleCheckPoll::Received(Err(e)) => final(self).rds_role_check_state
                    == RdsRoleCheckState::Failed(e) && final(self).reboot_available == old(
                    self,
                ).reboot_available,
            },
    {
        match received {
            RoleCheckPoll::Received(Ok(status)) => {
                if status.has_pending_restart() {
                    self.reboot_available = true;
                }
                self.rds_role_check_state = RdsRoleCheckState::Loaded(status);
                false
            },
            RoleCheckPoll::Received(Err(error)) => {
                self.rds_role_check_state = RdsRoleCheckState::Failed(error);
                false
            },
            RoleCheckPoll::Empty => true,
            RoleCheckPoll::Disconnected => {
                self.rds_role_check_state = RdsRoleCheckState::Failed(
                    "RDS role detection stopped unexpectedly".to_owned(),
                );
                false
            },
        }
    }

    /// Reads the firewall source list back from its text.
    pub fn sync_remote_addresses(&mut self)
        ensures
            final(self).reboot_available == restart_offered_after(
                old(self).reboot_available,
                WindowCall::SyncRemoteAddresses,
            ),
            string_views(final(self).config.base.allowed_remote_addresses@) == parsed_addresses(
                old(self).remote_addresses@,
            ),
            final(self).config.base.windows_product_key == old(self).config.base.windows_product_key,
            final(self).config.base.kms_server == old(self).config.base.kms_server,
            final(self).config.base.administrator_public_key == old(
                self,
            ).config.base.administrator_public_key,
            final(self).config.ui == old(self).config.ui,
            final(self).config.rds == old(self).config.rds,
            final(self).config.users == old(self).config.users,
            final(self).config_path == old(self).config_path,
            final(self).selected_feature == old(self).selected_feature,
            final(self).base_access == old(self).base_access,
            final(self).remote_addresses == old(self).remote_addresses,
            final(self).dry_run == old(self).dry_run,
            final(self).show_secrets == old(self).show_secrets,
            final(self).show_log == old(self).show_log,
            final(self).logs == old(self).logs,
            final(self).status == old(self).status,
            final(self).running == old(self).running,
            final(self).active_feature == old(self).active_feature,
            final(self).reboot_available == old(self).reboot_available,
            final(self).scroll_log_to_bottom == old(self).scroll_log_to_bottom,
            final(self).rds_role_check_state == old(self).rds_role_check_state,
    {
        let text = chars_of(self.remote_addresses.as_str());
        let pieces = split_chars(text.as_slice(), ',');
        let ghost pv = split_on(text@, ',');
        let mut out: Vec<String> = Vec::new();
        let n = pieces.len();
        let mut i: usize = 0;
        assert(pv.take(0) =~= Seq::<Seq<char>>::empty());
        assert(string_views(out@) =~= Seq::<Seq<char>>::empty());
        while i < n
            invariant
                n == pieces@.len(),
                views(pieces@) == pv,
                i <= n,
                string_views(out@) == address_list(pv.take(i as int)),
            decreases n - i,
        {
            assert(pieces@[i as int]@ == pv[i as int]);
            assert(pv.take(i + 1).drop_last() =~= pv.take(i as int));
            assert(pv.take(i + 1).last() == pv[i as int]);
            let t = trim_chars(pieces[i].as_slice());
            if t.len() > 0 {
                let ghost before = out@;
                out.push(string_from_chars(t.as_slice()));
                assert(string_views(out@) =~= string_views(before).push(t@));
            }
            i += 1;
        }
        assert(pv.take(n as int) =~= pv);
        self.config.base.allowed_remote_addresses = out;
    }

    /// Records the result of writing the configuration (the caller synced
    /// the source list and wrote the file).
    pub fn save_config(&mut self, saved: Result<(), String>)
        ensures
            final(self).reboot_available == restart_offered_after(
                old(self).reboot_available,
                WindowCall::SaveConfig,
            ),
            final(self).show_log == old(self).show_log,
            same_settings(*final(self), *old(self)),
            final(self).running == old(self).running,
            final(self).active_feature == old(self).active_feature,
            final(self).reboot_available == old(self).reboot_available,
            final(self).rds_role_check_state == old(self).rds_role_check_state,
            final(self).scroll_log_to_bottom,
            match saved {
                Ok(()) => final(self).status == AppStatus::ConfigurationSaved && string_views(
                    final(self).logs@,
                ) == string_views(old(self).logs@).push("Saved "@ + old(self).config_path@),
                Err(e) => final(self).status == AppStatus::SaveFailed && string_views(
                    final(self).logs@,
                ) == string_views(old(self).logs@).push("ERROR: "@ + e@),
            },
    {
        let ghost before = self.logs@;
        match saved {
            Ok(()) => {
                self.status = AppStatus::ConfigurationSaved;
                let line = concat_string("Saved ", self.config_path.as_str());
                self.logs.push(line);
            },
            Err(error) => {
                self.status = AppStatus::SaveFailed;
                let line = concat_string("ERROR: ", error.as_str());
                self.logs.push(line);
            },
        }
        assert(string_views(self.logs@) =~= string_views(before).push(self.logs@.last()@));
        self.scroll_log_to_bottom = true;
    }

    /// Starts a task once the configuration was saved: nothing happens while
    /// a task runs, and a failed save is logged instead. Returns whether the
    /// caller should launch the task.
    pub fn start(&mut self, feature: Option<Feature>, saved: Result<(), String>) -> (launch: bool)
        ensures
            final(self).reboot_available == restart_offered_after(
                old(self).reboot_available,
                WindowCall::Start,
            ),
            launch == (!old(self).running && saved is Ok),
            same_settings(*final(self), *old(self)),
            final(self).reboot_available == old(self).reboot_available,
            final(self).rds_role_check_state == old(self).rds_role_check_state,
            old(self).running ==> *final(self) == *old(self),
            !old(self).running && saved is Err ==> {
                &&& string_views(final(self).logs@) == string_views(old(self).logs@).push(
                    "ERROR: unable to save configuration: "@ + saved->Err_0@,
                )
                &&& final(self).status == old(self).status
                &&& final(self).running == old(self).running
                &&& final(self).active_feature == old(self).active_feature
                &&& final(self).scroll_log_to_bottom == old(self).scroll_log_to_bottom
                &&& final(self).show_log == old(self).show_log
            },
            launch ==> {
                &&& final(self).running
                &&& final(self).show_log
                &&& final(self).scroll_log_to_bottom
                &&& final(self).active_feature == feature
                &&& final(self).status == AppStatus::Running
                &&& final(self).logs == old(self).logs
            },
    {
        if self.running {
            return false;
        }
        match saved {
            Err(error) => {
                let ghost before = self.logs@;
                let line = concat_string("ERROR: unable to save configuration: ", error.as_str());
                self.logs.push(line);
                assert(string_views(self.logs@) =~= string_views(before).push(self.logs@.last()@));
                false
            },
            Ok(()) => {
                self.running = true;
                self.show_log = true;
                self.scroll_log_to_bottom = true;
                self.active_feature = feature;
                self.status = AppStatus::Running;
                true
            },
        }
    }
}

pub open spec fn track_matches(s: SetupApp, m: TrackModel) -> bool {
    &&& string_views(s.logs@) == m.logs
    &&& s.status == m.status
    &&& s.running == m.running
    &&& s.active_feature == m.active_feature
    &&& s.reboot_available == m.reboot_available
    &&& s.scroll_log_to_bottom == m.scroll
}

impl SetupApp {
    /// Takes in the events a running task sent since the last poll, in order.
    /// A log line is appended; the end stops the task, logs its result, offers
    /// a restart when one is needed, and after a role installation marks the
    /// role query as pending again (the caller restarts it).
    pub fn poll_events(&mut self, events: Vec<TaskEvent>) -> (r: PollOutcome)
        ensures
            final(self).reboot_available == restart_offered_after(
                old(self).reboot_available,
                WindowCall::PollEvents(event_models(events@)),
            ),
            track_matches(*final(self), apply_events(track_of(*old(self)), event_models(events@))),
            r.finished == apply_events(track_of(*old(self)), event_models(events@)).finished,
            r.refresh_rds_roles == apply_events(
                track_of(*old(self)),
                event_models(events@),
            ).refresh,
            same_settings(*final(self), *old(self)),
            final(self).show_log == old(self).show_log,
            r.refresh_rds_roles ==> final(self).rds_role_check_state is Checking,
            !r.refresh_rds_roles ==> final(self).rds_role_check_state == old(
                self,
            ).rds_role_check_state,
            forall|k: int|
                #![trigger events@[k]]
                0 <= k < events@.len() && events@[k] is Finished && (forall|j: int|
                    0 <= j < events@.len() && j != k ==> (#[trigger] events@[j]) is Log) ==> r.finished
                    && r.refresh_rds_roles == (old(self).active_feature == Some(Feature::RdsRoles)),
    {
        proof {
            let em = event_models(events@);
            assert forall|k: int|
                #![trigger events@[k]]
                0 <= k < events@.len() && events@[k] is Finished && (forall|j: int|
                    0 <= j < events@.len() && j != k ==> (#[trigger] events@[j]) is Log) implies {
                    &&& apply_events(track_of(*old(self)), em).finished
                    &&& apply_events(track_of(*old(self)), em).refresh == (old(self).active_feature
                        == Some(Feature::RdsRoles))
                } by {
                assert forall|j: int| 0 <= j < em.len() && j != k implies (#[trigger] em[j]) is Log by {
                    assert(events@[j] is Log);
                }
                law_one_task_end_requests_role_requery(track_of(*old(self)), em, k);
            }
        }
        let ghost start = track_of(*self);
        let ghost em = event_models(events@);
        let mut finished = false;
        let mut refresh = false;
        let n = events.len();
        let mut i: usize = 0;
        assert(em.take(0) =~= Seq::<EventModel>::empty());
        while i < n
            invariant
                n == events@.len(),
                em == event_models(events@),
                i <= n,
                track_matches(*self, apply_events(start, em.take(i as int))),
                finished == apply_events(start, em.take(i as int)).finished,
                refresh == apply_events(start, em.take(i as int)).refresh,
                same_settings(*self, *old(self)),
                self.show_log == old(self).show_log,
                self.rds_role_check_state == old(self).rds_role_check_state,
            decreases n - i,
        {
            let ghost prev = apply_events(start, em.take(i as int));
            assert(em.take(i + 1).drop_last() =~= em.take(i as int));
            assert(em.take(i + 1).last() == event_model(events@[i as int]));
            let ghost before = self.logs@;
            self.scroll_log_to_bottom = true;
            match &events[i] {
                TaskEvent::Log(message) => {
                    self.logs.push(message.clone());
                    assert(string_views(self.logs@) =~= string_views(before).push(message@));
                },
                TaskEvent::Finished(result) => {
                    finished = true;
                    self.running = false;
                    refresh = self.active_feature == Some(Feature::RdsRoles);
                    match result {
                        Ok(outcome) => {
                            self.status = AppStatus::Completed;
                            self.logs.push("Task completed successfully.".to_owned());
                            let ghost l1 = self.logs@;
                            if outcome.reboot_required {
                                self.reboot_available = true;
                                self.logs.push(
                                    "Restart Windows to finish applying the installed roles.".to_owned(),
                                );
                            }
                            let ghost l2 = self.logs@;
                            match &outcome.credential_file {
                                Some(path) => {
                                    self.logs.push(concat_string("Credential file: ", path.as_str()));
                                },
                                None => {},
                            }
                            assert(string_views(l1) =~= string_views(before).push(
                                "Task completed successfully."@,
                            ));
                            assert(string_views(l2) =~= if outcome.reboot_required {
                                string_views(l1).push(
                                    "Restart Windows to finish applying the installed roles."@,
                                )
                            } else {
                                string_views(l1)
                            });
                            assert(string_views(self.logs@) =~= match outcome.credential_file {
                                Some(p) => string_views(l2).push("Credential file: "@ + p@),
                                None => string_views(l2),
                            });
                        },
                        Err(error) => {
                            self.status = AppStatus::Failed;
                            self.logs.push(concat_string("ERROR: ", error.as_str()));
                            assert(string_views(self.logs@) =~= string_views(before).push(
                                "ERROR: "@ + error@,
                            ));
                        },
                    }
                    self.active_feature = None;
                },
            }
            i += 1;
            assert(em.take(i as int) =~= em.take(i - 1).push(em[i - 1]));
        }
        assert(em.take(n as int) =~= em);
        proof {
            lemma_events_restart(start, em);
        }
        if refresh {
            self.refresh_rds_role_status();
        }
        PollOutcome { finished, refresh_rds_roles: refresh }
    }

    /// The domain membership the last role query reported, if any.
    pub fn domain_membership(&self) -> (r: Option<bool>)
        ensures
            r == domain_membership_of(self.rds_role_check_state),
    {
        match &self.rds_role_check_state {
            RdsRoleCheckState::Loaded(status) => Some(status.part_of_domain),
            _ => None,
        }
    }

    /// Applies the recommended licensing settings: Per User in a domain,
    /// Per Device otherwise, the local license server, agreement CALs of the
    /// Enterprise program for Windows Server 2022.
    pub fn apply_recommended_settings(&mut self)
        ensures
            final(self).config.rds.licensing_mode == recommended_licensing_mode(
                old(self).rds_role_check_state,
            ),
            final(self).config.rds.license_server@ == "localhost"@,
            final(self).config.rds == (RdsConfig {
                licensing_mode: final(self).config.rds.licensing_mode,
                license_server: final(self).config.rds.license_server,
                cal_install_method: CalInstallMethod::Agreement,
                agreement_type: AgreementType::Enterprise,
                cal_product_version_id: 7,
                ..old(self).config.rds
            }),
            *final(self) == (SetupApp {
                config: (AppConfig { rds: final(self).config.rds, ..old(self).config }),
                ..*old(self)
            }),
    {
        let membership = self.domain_membership();
        self.config.rds.licensing_mode = if membership == Some(true) {
            LicensingMode::PerUser
        } else {
            LicensingMode::PerDevice
        };
        self.config.rds.license_server = "localhost".to_owned();
        self.config.rds.cal_install_method = CalInstallMethod::Agreement;
        self.config.rds.agreement_type = AgreementType::Enterprise;
        self.config.rds.cal_product_version_id = 7;
    }

    /// A workgroup server set to Per User licensing: the warning is shown.
    pub fn shows_workgroup_per_user_warning(&self) -> (r: bool)
        ensures
            r == (domain_membership_of(self.rds_role_check_state) == Some(false)
                && self.config.rds.licensing_mode == LicensingMode::PerUser),
    {
        self.domain_membership() == Some(false) && self.config.rds.licensing_mode
            == LicensingMode::PerUser
    }

    /// The role installation can start: the query failed, or some role is missing.
    pub fn can_install_rds_roles(&self) -> (r: bool)
        ensures
            r == match self.rds_role_check_state {
                RdsRoleCheckState::Checking => false,
                RdsRoleCheckState::Loaded(status) => !status.spec_all_present(),
                RdsRoleCheckState::Failed(_) => true,
            },
    {
        match &self.rds_role_check_state {
            RdsRoleCheckState::Checking => false,
            RdsRoleCheckState::Loaded(status) => !status.all_present(),
            RdsRoleCheckState::Failed(_) => true,
        }
    }

    /// The role query can be repeated: none is pending.
    pub fn can_recheck_rds_roles(&self) -> (r: bool)
        ensures
            r == !(self.rds_role_check_state is Checking),
    {
        match &self.rds_role_check_state {
            RdsRoleCheckState::Checking => false,
            _ => true,
        }
    }

    /// The window should be redrawn soon: a task or the role query is pending.
    pub fn needs_repaint(&self) -> (r: bool)
        ensures
            r == (self.running || self.rds_role_check_state is Checking),
    {
        self.running || match &self.rds_role_check_state {
            RdsRoleCheckState::Checking => true,
            _ => false,
        }
    }

    /// Shows or hides the log; a shown log scrolls to its end.
    pub fn toggle_log(&mut self)
        ensures
            *final(self) == (SetupApp {
                show_log: !old(self).show_log,
                scroll_log_to_bottom: old(self).scroll_log_to_bottom || !old(self).show_log,
                ..*old(self)
            }),
    {
        self.show_log = !self.show_log;
        if self.show_log {
            self.scroll_log_to_bottom = true;
        }
    }

    /// Empties the log.
    pub fn clear_log(&mut self)
        ensures
            final(self).logs@.len() == 0,
            *final(self) == (SetupApp { logs: final(self).logs, ..*old(self) }),
    {
        self.logs = Vec::new();
    }
}

proof fn lemma_split_without_sep(b: Seq<char>, sep: char)
    requires
        !b.contains(sep),
    ensures
        split_on(b, sep) == seq![b],
    decreases b.len(),
{
    if b.len() > 0 {
        assert(!b.drop_last().contains(sep)) by {
            if b.drop_last().contains(sep) {
                let k = choose|k: int| 0 <= k < b.drop_last().len() && b.drop_last()[k] == sep;
                assert(b[k] == sep);
            }
        }
        lemma_split_without_sep(b.drop_last(), sep);
        assert(b.last() != sep) by {
            assert(b[b.len() - 1] == b.last());
        }
        assert(b.drop_last().push(b.last()) =~= b);
    } else {
        assert(b =~= Seq::<char>::empty());
    }
}

proof fn lemma_split_after_sep(x: Seq<char>, b: Seq<char>, sep: char)
    requires
        !b.contains(sep),
    ensures
        split_on(x + seq![sep] + b, sep) == split_on(x, sep).push(b),
    decreases b.len(),
{
    let s = x + seq![sep] + b;
    if b.len() == 0 {
        assert(s.drop_last() =~= x);
        assert(b =~= Seq::<char>::empty());
    } else {
        let b0 = b.drop_last();
        assert(!b0.contains(sep)) by {
            if b0.contains(sep) {
                let k = choose|k: int| 0 <= k < b0.len() && b0[k] == sep;
                assert(b[k] == sep);
            }
        }
        lemma_split_after_sep(x, b0, sep);
        assert(s.drop_last() =~= x + seq![sep] + b0);
        assert(s.last() == b.last());
        assert(b.last() != sep) by {
            assert(b[b.len() - 1] == b.last());
        }
        assert(b0.push(b.last()) =~= b);
        assert(split_on(x, sep).push(b0).update(split_on(x, sep).len() as int, b0.push(b.last()))
            =~= split_on(x, sep).push(b));
    }
}

/// The pieces that splitting a `", "`-joined list at commas gives: the
/// first entry, then each further entry behind one space.
pub open spec fn comma_space_pieces(ps: Seq<Seq<char>>) -> Seq<Seq<char>> {
    Seq::new(ps.len(), |i: int| if i == 0 { ps[0] } else { seq![' '] + ps[i] })
}

proof fn lemma_split_joined(ps: Seq<Seq<char>>)
    requires
        ps.len() >= 1,
        forall|i: int| 0 <= i < ps.len() ==> !(#[trigger] ps[i]).contains(','),
    ensures
        split_on(join(ps, ", "@), ',') == comma_space_pieces(ps),
    decreases ps.len(),
{
    reveal_strlit(", ");
    if ps.len() == 1 {
        lemma_split_without_sep(ps[0], ',');
        assert(comma_space_pieces(ps) =~= seq![ps[0]]);
    } else {
        let init = ps.drop_last();
        assert forall|i: int| 0 <= i < init.len() implies !(#[trigger] init[i]).contains(',') by {
            assert(init[i] == ps[i]);
        }
        lemma_split_joined(init);
        let tail = seq![' '] + ps.last();
        assert(!tail.contains(',')) by {
            if tail.contains(',') {
                let k = choose|k: int| 0 <= k < tail.len() && tail[k] == ',';
                assert(k > 0);
                assert(ps.last()[k - 1] == ',');
                assert(ps[ps.len() - 1].contains(','));
            }
        }
        assert(join(ps, ", "@) =~= join(init, ", "@) + seq![','] + tail);
        lemma_split_after_sep(join(init, ", "@), tail, ',');
        assert(comma_space_pieces(ps) =~= comma_space_pieces(init).push(tail));
    }
}

proof fn lemma_trim_after_space(p: Seq<char>)
    ensures
        trim(seq![' '] + p) == trim(p),
{
    assert((seq![' '] + p).drop_first() =~= p);
    assert((seq![' '] + p)[0] == ' ');
}

proof fn lemma_address_list_of_pieces(ps: Seq<Seq<char>>)
    requires
        forall|i: int| 0 <= i < ps.len() ==> (#[trigger] ps[i]).len() > 0 && trim(ps[i]) == ps[i],
    ensures
        address_list(comma_space_pieces(ps)) == ps,
    decreases ps.len(),
{
    if ps.len() > 0 {
        let init = ps.drop_last();
        assert forall|i: int| 0 <= i < init.len() implies (#[trigger] init[i]).len() > 0 && trim(
            init[i],
        ) == init[i] by {
            assert(init[i] == ps[i]);
        }
        lemma_address_list_of_pieces(init);
        let pieces = comma_space_pieces(ps);
        assert(pieces.drop_last() =~= comma_space_pieces(init));
        let last = ps[ps.len() - 1];
        if ps.len() > 1 {
            lemma_trim_after_space(last);
        }
        assert(trim(pieces.last()) == last);
        assert(init.push(last) =~= ps);
    } else {
        assert(comma_space_pieces(ps) =~= Seq::<Seq<char>>::empty());
    }
}

/// What the window shows of the firewall sources (joined by `", "`) reads
/// back as the same list, for entries that are non-empty and hold neither a
/// comma nor surrounding white space.
pub proof fn law_remote_addresses_round_trip(ps: Seq<Seq<char>>)
    requires
        forall|i: int|
            0 <= i < ps.len() ==> (#[trigger] ps[i]).len() > 0 && trim(ps[i]) == ps[i]
                && !ps[i].contains(','),
    ensures
        parsed_addresses(join(ps, ", "@)) == ps,
{
    if ps.len() == 0 {
        assert(join(ps, ", "@) =~= Seq::<char>::empty());
        assert(split_on(Seq::<char>::empty(), ',') =~= seq![Seq::<char>::empty()]);
        assert(seq![Seq::<char>::empty()].drop_last() =~= Seq::<Seq<char>>::empty());
        assert(trim(Seq::<char>::empty()) =~= Seq::<char>::empty());
        let pieces = seq![Seq::<char>::empty()];
        assert(pieces.last() == Seq::<char>::empty());
        assert(address_list(pieces) == address_list(pieces.drop_last()));
        assert(address_list(Seq::<Seq<char>>::empty()) == Seq::<Seq<char>>::empty());
        assert(ps =~= Seq::<Seq<char>>::empty());
    } else {
        lemma_split_joined(ps);
        lemma_address_list_of_pieces(ps);
    }
}

/// A task that ends, whatever its result, leaves the window idle with no
/// active feature.
pub proof fn law_finished_task_releases_window(
    m: TrackModel,
    r: Result<(bool, Option<Seq<char>>), Seq<char>>,
)
    ensures
        !apply_event(m, EventModel::Finished(r)).running,
        apply_event(m, EventModel::Finished(r)).active_feature is None,
        apply_event(m, EventModel::Finished(r)).finished,
        apply_event(m, EventModel::Finished(r)).status == match r {
            Ok(_) => AppStatus::Completed,
            Err(_) => AppStatus::Failed,
        },
{
}

/// A finished task that asks for a restart.
pub open spec fn event_needs_restart(e: EventModel) -> bool {
    match e {
        EventModel::Finished(Ok((reboot, _))) => reboot,
        _ => false,
    }
}

pub open spec fn events_need_restart(es: Seq<EventModel>) -> bool {
    exists|i: int| 0 <= i < es.len() && event_needs_restart(#[trigger] es[i])
}

/// A role query's answer: a status with a pending restart.
pub open spec fn role_poll_needs_restart(received: RoleCheckPoll) -> bool {
    match received {
        RoleCheckPoll::Received(Ok(status)) => status.spec_has_pending_restart(),
        _ => false,
    }
}

/// A call on the window that can bear on the restart offer.
pub enum WindowCall {
    PollEvents(Seq<EventModel>),
    /// A role-query poll; `true` when it received a status with a pending restart.
    PollRoleStatus(bool),
    Start,
    SaveConfig,
    SyncRemoteAddresses,
    RefreshRdsRoleStatus,
}

pub open spec fn call_offers_restart(call: WindowCall) -> bool {
    match call {
        WindowCall::PollEvents(es) => events_need_restart(es),
        WindowCall::PollRoleStatus(pending) => pending,
        _ => false,
    }
}

/// Whether the restart is offered after `call`, given whether it was before.
pub open spec fn restart_offered_after(offered: bool, call: WindowCall) -> bool {
    offered || call_offers_restart(call)
}

/// Whether the restart is offered after the calls `calls`, in order.
pub open spec fn restart_offered_through(offered: bool, calls: Seq<WindowCall>) -> bool
    decreases calls.len(),
{
    if calls.len() == 0 {
        offered
    } else {
        restart_offered_after(restart_offered_through(offered, calls.drop_last()), calls.last())
    }
}

pub proof fn lemma_events_restart(m: TrackModel, es: Seq<EventModel>)
    ensures
        apply_events(m, es).reboot_available == (m.reboot_available || events_need_restart(es)),
    decreases es.len(),
{
    if es.len() > 0 {
        let init = es.drop_last();
        lemma_events_restart(m, init);
        if events_need_restart(init) {
            let i = choose|i: int| 0 <= i < init.len() && event_needs_restart(#[trigger] init[i]);
            assert(es[i] == init[i]);
        }
        if events_need_restart(es) {
            let i = choose|i: int| 0 <= i < es.len() && event_needs_restart(#[trigger] es[i]);
            if i < es.len() - 1 {
                assert(init[i] == es[i]);
            }
        }
        if event_needs_restart(es.last()) {
            assert(event_needs_restart(es[es.len() - 1]));
        }
    }
}

/// Once the restart is offered it stays offered, and it becomes offered only
/// through a finished task that needs a restart or a role status with a
/// pending restart.
pub proof fn law_restart_offer(offered: bool, calls: Seq<WindowCall>)
    ensures
        restart_offered_through(offered, calls) == (offered || exists|i: int|
            0 <= i < calls.len() && call_offers_restart(#[trigger] calls[i])),
    decreases calls.len(),
{
    if calls.len() > 0 {
        let init = calls.drop_last();
        law_restart_offer(offered, init);
        if exists|i: int| 0 <= i < init.len() && call_offers_restart(#[trigger] init[i]) {
            let i = choose|i: int| 0 <= i < init.len() && call_offers_restart(#[trigger] init[i]);
            assert(calls[i] == init[i]);
        }
        if exists|i: int| 0 <= i < calls.len() && call_offers_restart(#[trigger] calls[i]) {
            let i = choose|i: int| 0 <= i < calls.len() && call_offers_restart(#[trigger] calls[i]);
            if i < calls.len() - 1 {
                assert(init[i] == calls[i]);
            }
        }
        if call_offers_restart(calls.last()) {
            assert(call_offers_restart(calls[calls.len() - 1]));
        }
    }
}

/// How one event bears on the role query: the end of a task, whether it
/// succeeded or failed, asks for the roles to be queried again exactly when
/// the task that ended was the role installation; a log line changes
/// neither that request nor the running task.
pub proof fn law_task_end_requests_role_requery(
    m: TrackModel,
    r: Result<(bool, Option<Seq<char>>), Seq<char>>,
    line: Seq<char>,
)
    ensures
        apply_event(m, EventModel::Finished(r)).refresh == (m.active_feature == Some(
            Feature::RdsRoles,
        )),
        apply_event(m, EventModel::Log(line)).refresh == m.refresh,
        apply_event(m, EventModel::Log(line)).active_feature == m.active_feature,
        apply_event(m, EventModel::Log(line)).finished == m.finished,
        apply_event(m, EventModel::Log(line)).logs == m.logs.push(line),
{
}

/// What the end of a task adds to the log, after the lines already there:
/// for a failure one line, `ERROR: ` and the message; for a success
/// `Task completed successfully.`, then the restart notice exactly when a
/// restart is needed, then the credential file exactly when one was
/// written.
pub proof fn law_finished_task_log(
    m: TrackModel,
    r: Result<(bool, Option<Seq<char>>), Seq<char>>,
)
    ensures
        ({
            let after = apply_event(m, EventModel::Finished(r)).logs;
            &&& after.take(m.logs.len() as int) == m.logs
            &&& match r {
                Err(msg) => after.len() == m.logs.len() + 1 && after.last() == "ERROR: "@ + msg,
                Ok((reboot, cred)) => {
                    &&& after.len() == m.logs.len() + 1 + (if reboot {
                        1int
                    } else {
                        0
                    }) + (if cred is Some {
                        1int
                    } else {
                        0
                    })
                    &&& after[m.logs.len() as int] == "Task completed successfully."@
                    &&& reboot ==> after[m.logs.len() + 1int]
                        == "Restart Windows to finish applying the installed roles."@
                    &&& cred matches Some(p) ==> after.last() == "Credential file: "@ + p
                },
            }
        }),
{
    let after = apply_event(m, EventModel::Finished(r)).logs;
    match r {
        Err(msg) => {
            assert(after.take(m.logs.len() as int) =~= m.logs);
        },
        Ok((reboot, cred)) => {
            let l1 = m.logs.push("Task completed successfully."@);
            let l2 = if reboot {
                l1.push("Restart Windows to finish applying the installed roles."@)
            } else {
                l1
            };
            assert(l2[m.logs.len() as int] == "Task completed successfully."@);
            assert(after.take(m.logs.len() as int) =~= m.logs);
        },
    }
}

proof fn lemma_log_lines_keep_task(m: TrackModel, es: Seq<EventModel>)
    requires
        forall|j: int| 0 <= j < es.len() ==> (#[trigger] es[j]) is Log,
    ensures
        apply_events(m, es).refresh == m.refresh,
        apply_events(m, es).active_feature == m.active_feature,
        apply_events(m, es).finished == m.finished,
    decreases es.len(),
{
    if es.len() > 0 {
        assert(es.last() == es[es.len() - 1]);
        assert forall|j: int| 0 <= j < es.drop_last().len() implies (#[trigger] es.drop_last()[j]) is Log by {
            assert(es.drop_last()[j] == es[j]);
        }
        lemma_log_lines_keep_task(m, es.drop_last());
    }
}

/// A poll that brings the end of a task among log lines reports the task
/// finished, and asks for the roles to be queried again exactly when the
/// task was the role installation, whatever its result.
pub proof fn law_one_task_end_requests_role_requery(m: TrackModel, es: Seq<EventModel>, k: int)
    requires
        0 <= k < es.len(),
        es[k] is Finished,
        forall|j: int| 0 <= j < es.len() && j != k ==> (#[trigger] es[j]) is Log,
    ensures
        apply_events(m, es).finished,
        apply_events(m, es).refresh == (m.active_feature == Some(Feature::RdsRoles)),
    decreases es.len(),
{
    let init = es.drop_last();
    if k == es.len() - 1 {
        assert forall|j: int| 0 <= j < init.len() implies (#[trigger] init[j]) is Log by {
            assert(init[j] == es[j]);
        }
        lemma_log_lines_keep_task(m, init);
        assert(es.last() == es[k]);
    } else {
        assert(init[k] == es[k]);
        assert forall|j: int| 0 <= j < init.len() && j != k implies (#[trigger] init[j]) is Log by {
            assert(init[j] == es[j]);
        }
        law_one_task_end_requests_role_requery(m, init, k);
        assert(es.last() == es[es.len() - 1]);
    }
}

} // verus!
