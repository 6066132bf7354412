//! The four features, the tasks the user can start, the steps that carry a
//! task out, and what a finished task reports.
use vstd::prelude::*;
use crate::config::{
    agreement_type_name, base_access_requirements_met, base_access_verdict, cal_entitlement_valid, cal_method_name,
    contact_complete, key_pack_normalized,
    last_user_index_fits, licensing_mode_name, local_users_verdict, rds_licensing_verdict,
    AppConfig, ConfigError,
};
use crate::text::{
    chars_eq, chars_of, decimal, decimal_string, is_lex_sorted, join, join_strings, lines,
    lines_of, sort_strings, string_from_chars, string_views, trim, trim_chars, views,
};

verus! {

broadcast use vstd::string::group_string_axioms;

/// The independent features of the tool.
#[derive(Clone, Copy, Debug, PartialEq, Eq, Hash, Structural)]
pub enum Feature {
    BaseAccess,
    RdsRoles,
    RdsLicensing,
    LocalUsers,
}

impl Feature {
    pub const ALL: [Self; 4] = [
        Self::BaseAccess,
        Self::RdsRoles,
        Self::RdsLicensing,
        Self::LocalUsers,
    ];
}

/// Which base-access actions to run.
#[derive(Clone, Copy, Debug, PartialEq, Eq, Structural)]
pub struct BaseAccessSelection {
    pub kms: bool,
    pub ssh: bool,
    pub rdp: bool,
}

impl Default for BaseAccessSelection {
    fn default() -> (r: Self)
        ensures
            r.kms && r.ssh && r.rdp,
    {
        BaseAccessSelection { kms: true, ssh: true, rdp: true }
    }
}

/// A unit of work started from the interface.
#[derive(Clone, Copy, Debug, PartialEq, Eq, Structural)]
pub enum Task {
    BaseAccess(BaseAccessSelection),
    RdsRoles,
    RdsLicensing,
    LocalUsers,
    Reboot,
}

/// What a successful task reports.
#[derive(Clone, Debug)]
pub struct TaskOutcome {
    pub reboot_required: bool,
    pub credential_file: Option<String>,
}

impl Default for TaskOutcome {
    fn default() -> (r: Self)
        ensures
            !r.reboot_required,
            r.credential_file is None,
    {
        TaskOutcome { reboot_required: false, credential_file: None }
    }
}

/// A message from a running task: a log line, or its end.
#[derive(Debug)]
pub enum TaskEvent {
    Log(String),
    Finished(Result<TaskOutcome, String>),
}

/// The PowerShell script a step runs.
#[derive(Clone, Copy, Debug, PartialEq, Eq, Structural)]
pub enum Script {
    Stage1Kms,
    Stage1Ssh,
    Stage1Rdp,
    NetworkInfo,
    Stage2RdsRoles,
    Stage3RdsLicensing,
    Stage4Users,
    /// The query of the RDS role states and the domain membership.
    RdsRoleQuery,
    RestartComputer,
}

/// The text of the restart script.
pub fn restart_script() -> (s: &'static str)
    ensures
        s@ == "Restart-Computer -Force"@,
{
    "Restart-Computer -Force"
}

/// One step of a task: a log line announcing it, then a named script run
/// with configuration values handed over as environment variables.
#[derive(Clone, Debug)]
pub struct ScriptStep {
    pub announcement: String,
    pub name: String,
    pub script: Script,
    pub environment: Vec<(String, String)>,
}

/// The mathematical content of a step.
pub struct StepModel {
    pub announcement: Seq<char>,
    pub name: Seq<char>,
    pub script: Script,
    pub environment: Seq<(Seq<char>, Seq<char>)>,
}

pub open spec fn env_view(e: Seq<(String, String)>) -> Seq<(Seq<char>, Seq<char>)> {
    e.map_values(|p: (String, String)| (p.0@, p.1@))
}

impl View for ScriptStep {
    type V = StepModel;

    open spec fn view(&self) -> StepModel {
        StepModel {
            announcement: self.announcement@,
            name: self.name@,
            script: self.script,
            environment: env_view(self.environment@),
        }
    }
}

pub open spec fn steps_view(v: Seq<ScriptStep>) -> Seq<StepModel> {
    v.map_values(|s: ScriptStep| s@)
}

/// Why a task could not start.
#[derive(Clone, Copy, Debug, PartialEq, Eq, Structural)]
pub enum TaskError {
    Config(ConfigError),
    NothingSelected,
}

impl TaskError {
    pub fn message(self) -> (s: &'static str)
        ensures
            s@ == task_error_message(self),
    {
        match self {
            TaskError::Config(e) => e.message(),
            TaskError::NothingSelected => "select at least one base-access action",
        }
    }
}

pub open spec fn task_error_message(e: TaskError) -> Seq<char> {
    match e {
        TaskError::Config(c) => crate::config::config_error_message(c),
        TaskError::NothingSelected => "select at least one base-access action"@,
    }
}

pub open spec fn step_model(
    announcement: Seq<char>,
    name: Seq<char>,
    script: Script,
    environment: Seq<(Seq<char>, Seq<char>)>,
) -> StepModel {
    StepModel { announcement, name, script, environment }
}

/// The firewall source addresses as the scripts receive them.
pub open spec fn remote_addresses_value(c: AppConfig) -> Seq<char> {
    join(string_views(c.base.allowed_remote_addresses@), ","@)
}

pub open spec fn kms_step(c: AppConfig) -> StepModel {
    step_model(
        "Running Windows KMS activation (no inbound firewall rule required)"@,
        "Windows KMS activation"@,
        Script::Stage1Kms,
        seq![
            ("FIRSTSET_WINDOWS_PRODUCT_KEY"@, c.base.windows_product_key@),
            ("FIRSTSET_KMS_SERVER"@, c.base.kms_server@),
        ],
    )
}

pub open spec fn ssh_step(c: AppConfig) -> StepModel {
    step_model(
        "Installing OpenSSH and enforcing the linked TCP 22 firewall rule"@,
        "OpenSSH installation"@,
        Script::Stage1Ssh,
        seq![
            ("FIRSTSET_ADMIN_PUBLIC_KEY"@, c.base.administrator_public_key@),
            ("FIRSTSET_ALLOWED_REMOTE_ADDRESSES"@, remote_addresses_value(c)),
        ],
    )
}

pub open spec fn rdp_step(c: AppConfig) -> StepModel {
    step_model(
        "Enabling RDP/NLA and enforcing TCP/UDP 3389 firewall rules"@,
        "Remote Desktop setup"@,
        Script::Stage1Rdp,
        seq![("FIRSTSET_ALLOWED_REMOTE_ADDRESSES"@, remote_addresses_value(c))],
    )
}

pub open spec fn network_info_step() -> StepModel {
    step_model(
        "Current active network adapters:"@,
        "network-info"@,
        Script::NetworkInfo,
        Seq::<(Seq<char>, Seq<char>)>::empty(),
    )
}

/// The base-access steps: the selected actions in the order activation,
/// OpenSSH, Remote Desktop, then the network report.
pub open spec fn base_access_steps(c: AppConfig, sel: BaseAccessSelection) -> Seq<StepModel> {
    (if sel.kms {
        seq![kms_step(c)]
    } else {
        Seq::<StepModel>::empty()
    }) + (if sel.ssh {
        seq![ssh_step(c)]
    } else {
        Seq::<StepModel>::empty()
    }) + (if sel.rdp {
        seq![rdp_step(c)]
    } else {
        Seq::<StepModel>::empty()
    }) + seq![network_info_step()]
}

/// Base access: the configuration is checked unless this is a dry run, and
/// at least one action must be selected.
pub open spec fn base_access_plan(c: AppConfig, sel: BaseAccessSelection, dry_run: bool) -> Result<
    Seq<StepModel>,
    TaskError,
> {
    match (dry_run, base_access_verdict(c, sel.kms, sel.ssh, sel.rdp)) {
        (false, Err(e)) => Err(TaskError::Config(e)),
        _ => if !sel.kms && !sel.ssh && !sel.rdp {
            Err(TaskError::NothingSelected)
        } else {
            Ok(base_access_steps(c, sel))
        },
    }
}

pub open spec fn rds_roles_step() -> StepModel {
    step_model(
        "Installing RD Session Host and RD Licensing roles"@,
        "RDS role installation"@,
        Script::Stage2RdsRoles,
        Seq::<(Seq<char>, Seq<char>)>::empty(),
    )
}

pub open spec fn rds_licensing_env(c: AppConfig) -> Seq<(Seq<char>, Seq<char>)> {
    let contact = c.rds.contact;
    seq![
        ("FIRSTSET_RDS_LICENSING_MODE"@, licensing_mode_name(c.rds.licensing_mode)),
        ("FIRSTSET_RDS_LICENSE_SERVER"@, c.rds.license_server@),
        ("FIRSTSET_RDS_CAL_METHOD"@, cal_method_name(c.rds.cal_install_method)),
        ("FIRSTSET_RDS_AGREEMENT_TYPE"@, agreement_type_name(c.rds.agreement_type)),
        ("FIRSTSET_RDS_AGREEMENT_NUMBER"@, c.rds.agreement_number@),
        ("FIRSTSET_RDS_KEY_PACK_ID"@, key_pack_normalized(c.rds.license_key_pack_id@)),
        ("FIRSTSET_RDS_PRODUCT_VERSION"@, decimal(c.rds.cal_product_version_id as nat)),
        ("FIRSTSET_RDS_CAL_COUNT"@, decimal(c.rds.cal_count as nat)),
        ("FIRSTSET_RDS_CONTACT_FIRST_NAME"@, contact.first_name@),
        ("FIRSTSET_RDS_CONTACT_LAST_NAME"@, contact.last_name@),
        ("FIRSTSET_RDS_CONTACT_COMPANY"@, contact.company@),
        ("FIRSTSET_RDS_CONTACT_COUNTRY"@, contact.country_region@),
        ("FIRSTSET_RDS_CONTACT_EMAIL"@, contact.email@),
        ("FIRSTSET_RDS_CONTACT_ORG_UNIT"@, contact.org_unit@),
        ("FIRSTSET_RDS_CONTACT_ADDRESS"@, contact.address@),
        ("FIRSTSET_RDS_CONTACT_CITY"@, contact.city@),
        ("FIRSTSET_RDS_CONTACT_STATE"@, contact.state@),
        ("FIRSTSET_RDS_CONTACT_POSTAL_CODE"@, contact.postal_code@),
    ]
}

pub open spec fn rds_licensing_step(c: AppConfig) -> StepModel {
    step_model(
        "Configuring the RD licensing policy and contacting Microsoft Clearinghouse"@,
        "RDS licensing configuration"@,
        Script::Stage3RdsLicensing,
        rds_licensing_env(c),
    )
}

/// RDS licensing: the entitlement is checked unless this is a dry run.
pub open spec fn rds_licensing_plan(c: AppConfig, dry_run: bool) -> Result<Seq<StepModel>, TaskError> {
    match (dry_run, rds_licensing_verdict(c)) {
        (false, Err(e)) => Err(TaskError::Config(e)),
        _ => Ok(seq![rds_licensing_step(c)]),
    }
}

pub open spec fn local_users_step(c: AppConfig) -> StepModel {
    step_model(
        "Creating local users and adding them to the built-in Remote Desktop Users SID"@,
        "Local user creation"@,
        Script::Stage4Users,
        seq![
            ("FIRSTSET_USER_COUNT"@, decimal(c.users.count as nat)),
            ("FIRSTSET_USER_PREFIX"@, c.users.prefix@),
            ("FIRSTSET_USER_START_INDEX"@, decimal(c.users.start_index as nat)),
            ("FIRSTSET_USER_NUMBER_WIDTH"@, decimal(c.users.number_width as nat)),
            ("FIRSTSET_USER_PASSWORD_LENGTH"@, decimal(c.users.password_length as nat)),
            ("FIRSTSET_RESET_EXISTING_PASSWORDS"@, if c.users.reset_existing_passwords {
                "1"@
            } else {
                "0"@
            }),
        ],
    )
}

/// Local users: the settings are checked even in a dry run.
pub open spec fn local_users_plan(c: AppConfig) -> Result<Seq<StepModel>, TaskError> {
    match local_users_verdict(c.users) {
        Err(e) => Err(TaskError::Config(e)),
        Ok(_) => Ok(seq![local_users_step(c)]),
    }
}

pub open spec fn reboot_step() -> StepModel {
    step_model(
        "Requesting an immediate Windows restart"@,
        "reboot"@,
        Script::RestartComputer,
        Seq::<(Seq<char>, Seq<char>)>::empty(),
    )
}

/// The steps of a task, or why it cannot start.
pub open spec fn task_plan(task: Task, c: AppConfig, dry_run: bool) -> Result<Seq<StepModel>, TaskError> {
    match task {
        Task::BaseAccess(sel) => base_access_plan(c, sel, dry_run),
        Task::RdsRoles => Ok(seq![rds_roles_step()]),
        Task::RdsLicensing => rds_licensing_plan(c, dry_run),
        Task::LocalUsers => local_users_plan(c),
        Task::Reboot => Ok(seq![reboot_step()]),
    }
}

pub open spec fn plan_result_matches(
    r: Result<Vec<ScriptStep>, TaskError>,
    spec: Result<Seq<StepModel>, TaskError>,
) -> bool {
    match r {
        Ok(v) => spec == Ok::<Seq<StepModel>, TaskError>(steps_view(v@)),
        Err(e) => spec == Err::<Seq<StepModel>, TaskError>(e),
    }
}

fn entry(key: &str, value: &str) -> (r: (String, String))
    ensures
        r.0@ == key@,
        r.1@ == value@,
{
    (key.to_owned(), value.to_owned())
}

fn entry_owned(key: &str, value: String) -> (r: (String, String))
    ensures
        r.0@ == key@,
        r.1@ == value@,
{
    (key.to_owned(), value)
}

fn make_step(announcement: &str, name: &str, script: Script, environment: Vec<(String, String)>) -> (r:
    ScriptStep)
    ensures
        r@ == step_model(announcement@, name@, script, env_view(environment@)),
{
    ScriptStep {
        announcement: announcement.to_owned(),
        name: name.to_owned(),
        script,
        environment,
    }
}

/// Plans the base-access task (OpenSSH, Remote Desktop, activation).
pub fn plan_base_access(config: &AppConfig, selection: BaseAccessSelection, dry_run: bool) -> (r:
    Result<Vec<ScriptStep>, TaskError>)
    ensures
        plan_result_matches(r, base_access_plan(*config, selection, dry_run)),
{
    if !dry_run {
        match config.validate_base_access(selection.kms, selection.ssh, selection.rdp) {
            Err(e) => {
                return Err(TaskError::Config(e));
            },
            Ok(()) => {},
        }
    }
    if !selection.kms && !selection.ssh && !selection.rdp {
        return Err(TaskError::NothingSelected);
    }
    let mut steps: Vec<ScriptStep> = Vec::new();
    let ghost expected = Seq::<StepModel>::empty();
    if selection.kms {
        let mut env: Vec<(String, String)> = Vec::new();
        env.push(entry("FIRSTSET_WINDOWS_PRODUCT_KEY", config.base.windows_product_key.as_str()));
        env.push(entry("FIRSTSET_KMS_SERVER", config.base.kms_server.as_str()));
        assert(env_view(env@) =~= kms_step(*config).environment);
        steps.push(
            make_step(
                "Running Windows KMS activation (no inbound firewall rule required)",
                "Windows KMS activation",
                Script::Stage1Kms,
                env,
            ),
        );
        proof {
            expected = expected + seq![kms_step(*config)];
        }
        assert(steps_view(steps@) =~= expected);
    }
    let remote_addresses = join_strings(&config.base.allowed_remote_addresses, ",");
    if selection.ssh {
        let mut env: Vec<(String, String)> = Vec::new();
        env.push(entry("FIRSTSET_ADMIN_PUBLIC_KEY", config.base.administrator_public_key.as_str()));
        env.push(entry("FIRSTSET_ALLOWED_REMOTE_ADDRESSES", remote_addresses.as_str()));
        assert(env_view(env@) =~= ssh_step(*config).environment);
        let ghost before = steps_view(steps@);
        steps.push(
            make_step(
                "Installing OpenSSH and enforcing the linked TCP 22 firewall rule",
                "OpenSSH installation",
                Script::Stage1Ssh,
                env,
            ),
        );
        proof {
            expected = expected + seq![ssh_step(*config)];
        }
        assert(steps_view(steps@) =~= before.push(ssh_step(*config)));
        assert(steps_view(steps@) =~= expected);
    }
    if selection.rdp {
        let mut env: Vec<(String, String)> = Vec::new();
        env.push(entry("FIRSTSET_ALLOWED_REMOTE_ADDRESSES", remote_addresses.as_str()));
        assert(env_view(env@) =~= rdp_step(*config).environment);
        let ghost before = steps_view(steps@);
        steps.push(
            make_step(
                "Enabling RDP/NLA and enforcing TCP/UDP 3389 firewall rules",
                "Remote Desktop setup",
                Script::Stage1Rdp,
                env,
            ),
        );
        proof {
            expected = expected + seq![rdp_step(*config)];
        }
        assert(steps_view(steps@) =~= before.push(rdp_step(*config)));
        assert(steps_view(steps@) =~= expected);
    }
    let env: Vec<(String, String)> = Vec::new();
    assert(env_view(env@) =~= Seq::<(Seq<char>, Seq<char>)>::empty());
    let ghost before = steps_view(steps@);
    steps.push(
        make_step("Current active network adapters:", "network-info", Script::NetworkInfo, env),
    );
    assert(steps_view(steps@) =~= before.push(network_info_step()));
    assert(steps_view(steps@) =~= base_access_steps(*config, selection));
    Ok(steps)
}

/// Plans the installation of the RDS roles.
pub fn plan_rds_roles() -> (r: Vec<ScriptStep>)
    ensures
        steps_view(r@) == seq![rds_roles_step()],
{
    let env: Vec<(String, String)> = Vec::new();
    assert(env_view(env@) =~= Seq::<(Seq<char>, Seq<char>)>::empty());
    let mut steps: Vec<ScriptStep> = Vec::new();
    steps.push(
        make_step(
            "Installing RD Session Host and RD Licensing roles",
            "RDS role installation",
            Script::Stage2RdsRoles,
            env,
        ),
    );
    assert(steps_view(steps@) =~= seq![rds_roles_step()]);
    steps
}

/// Plans the restart of Windows.
pub fn plan_reboot() -> (r: Vec<ScriptStep>)
    ensures
        steps_view(r@) == seq![reboot_step()],
{
    let env: Vec<(String, String)> = Vec::new();
    assert(env_view(env@) =~= Seq::<(Seq<char>, Seq<char>)>::empty());
    let mut steps: Vec<ScriptStep> = Vec::new();
    steps.push(
        make_step(
            "Requesting an immediate Windows restart",
            "reboot",
            Script::RestartComputer,
            env,
        ),
    );
    assert(steps_view(steps@) =~= seq![reboot_step()]);
    steps
}

fn key_pack_normalized_string(s: &str) -> (out: String)
    ensures
        out@ == key_pack_normalized(s@),
{
    let cs = chars_of(s);
    let n = crate::config::normalize_key_pack_id(cs.as_slice());
    string_from_chars(n.as_slice())
}

/// Plans the RDS licensing task; outside a dry run the entitlement is
/// checked first.
pub fn plan_rds_licensing(config: &AppConfig, dry_run: bool) -> (r: Result<Vec<ScriptStep>, TaskError>)
    ensures
        plan_result_matches(r, rds_licensing_plan(*config, dry_run)),
{
    if !dry_run {
        match config.validate_rds_licensing() {
            Err(e) => {
                return Err(TaskError::Config(e));
            },
            Ok(()) => {},
        }
    }
    let contact = &config.rds.contact;
    let mut env: Vec<(String, String)> = Vec::new();
    env.push(entry("FIRSTSET_RDS_LICENSING_MODE", config.rds.licensing_mode.as_str()));
    env.push(entry("FIRSTSET_RDS_LICENSE_SERVER", config.rds.license_server.as_str()));
    env.push(entry("FIRSTSET_RDS_CAL_METHOD", config.rds.cal_install_method.as_str()));
    env.push(entry("FIRSTSET_RDS_AGREEMENT_TYPE", config.rds.agreement_type.as_str()));
    env.push(entry("FIRSTSET_RDS_AGREEMENT_NUMBER", config.rds.agreement_number.as_str()));
    env.push(
        entry_owned(
            "FIRSTSET_RDS_KEY_PACK_ID",
            key_pack_normalized_string(config.rds.license_key_pack_id.as_str()),
        ),
    );
    env.push(
        entry_owned(
            "FIRSTSET_RDS_PRODUCT_VERSION",
            decimal_string(config.rds.cal_product_version_id),
        ),
    );
    env.push(entry_owned("FIRSTSET_RDS_CAL_COUNT", decimal_string(config.rds.cal_count)));
    env.push(entry("FIRSTSET_RDS_CONTACT_FIRST_NAME", contact.first_name.as_str()));
    env.push(entry("FIRSTSET_RDS_CONTACT_LAST_NAME", contact.last_name.as_str()));
    env.push(entry("FIRSTSET_RDS_CONTACT_COMPANY", contact.company.as_str()));
    env.push(entry("FIRSTSET_RDS_CONTACT_COUNTRY", contact.country_region.as_str()));
    env.push(entry("FIRSTSET_RDS_CONTACT_EMAIL", contact.email.as_str()));
    env.push(entry("FIRSTSET_RDS_CONTACT_ORG_UNIT", contact.org_unit.as_str()));
    env.push(entry("FIRSTSET_RDS_CONTACT_ADDRESS", contact.address.as_str()));
    env.push(entry("FIRSTSET_RDS_CONTACT_CITY", contact.city.as_str()));
    env.push(entry("FIRSTSET_RDS_CONTACT_STATE", contact.state.as_str()));
    env.push(entry("FIRSTSET_RDS_CONTACT_POSTAL_CODE", contact.postal_code.as_str()));
    assert(env_view(env@) =~= rds_licensing_env(*config));
    let mut steps: Vec<ScriptStep> = Vec::new();
    steps.push(
        make_step(
            "Configuring the RD licensing policy and contacting Microsoft Clearinghouse",
            "RDS licensing configuration",
            Script::Stage3RdsLicensing,
            env,
        ),
    );
    assert(steps_view(steps@) =~= seq![rds_licensing_step(*config)]);
    Ok(steps)
}

/// Plans the creation of the local users; the settings are always checked.
pub fn plan_local_users(config: &AppConfig) -> (r: Result<Vec<ScriptStep>, TaskError>)
    requires
        last_user_index_fits(config.users),
    ensures
        plan_result_matches(r, local_users_plan(*config)),
{
    match config.validate_local_users() {
        Err(e) => {
            return Err(TaskError::Config(e));
        },
        Ok(()) => {},
    }
    let users = &config.users;
    let mut env: Vec<(String, String)> = Vec::new();
    env.push(entry_owned("FIRSTSET_USER_COUNT", decimal_string(users.count)));
    env.push(entry("FIRSTSET_USER_PREFIX", users.prefix.as_str()));
    env.push(entry_owned("FIRSTSET_USER_START_INDEX", decimal_string(users.start_index)));
    env.push(entry_owned("FIRSTSET_USER_NUMBER_WIDTH", decimal_string(users.number_width)));
    env.push(entry_owned("FIRSTSET_USER_PASSWORD_LENGTH", decimal_string(users.password_length)));
    env.push(
        entry(
            "FIRSTSET_RESET_EXISTING_PASSWORDS",
            if users.reset_existing_passwords {
                "1"
            } else {
                "0"
            },
        ),
    );
    assert(env_view(env@) =~= local_users_step(*config).environment);
    let mut steps: Vec<ScriptStep> = Vec::new();
    steps.push(
        make_step(
            "Creating local users and adding them to the built-in Remote Desktop Users SID",
            "Local user creation",
            Script::Stage4Users,
            env,
        ),
    );
    assert(steps_view(steps@) =~= seq![local_users_step(*config)]);
    Ok(steps)
}

/// The steps that carry out `task`, or why it cannot start.
pub fn plan_task(task: Task, config: &AppConfig, dry_run: bool) -> (r: Result<
    Vec<ScriptStep>,
    TaskError,
>)
    requires
        task is LocalUsers ==> last_user_index_fits(config.users),
    ensures
        plan_result_matches(r, task_plan(task, *config, dry_run)),
{
    match task {
        Task::BaseAccess(selection) => plan_base_access(config, selection, dry_run),
        Task::RdsRoles => Ok(plan_rds_roles()),
        Task::RdsLicensing => plan_rds_licensing(config, dry_run),
        Task::LocalUsers => plan_local_users(config),
        Task::Reboot => Ok(plan_reboot()),
    }
}

/// The names of the variables of an environment, in order.
pub open spec fn env_keys(env: Seq<(Seq<char>, Seq<char>)>) -> Seq<Seq<char>> {
    env.map_values(|p: (Seq<char>, Seq<char>)| p.0)
}

/// The log line of a step in a dry run: its name and the names, never the
/// values, of its environment variables, in ascending order.
pub open spec fn dry_run_line(name: Seq<char>, sorted_keys: Seq<Seq<char>>) -> Seq<char> {
    "DRY RUN: "@ + name + "; environment keys: "@ + join(sorted_keys, ", "@)
}

impl ScriptStep {
    /// What a dry run logs in place of running the step.
    pub fn dry_run_message(&self) -> (out: String)
        ensures
            exists|keys: Seq<Seq<char>>|
                #![trigger dry_run_line(self@.name, keys)]
                is_lex_sorted(keys) && keys.to_multiset() == env_keys(self@.environment).to_multiset()
                    && out@ == dry_run_line(self@.name, keys),
            forall|keys: Seq<Seq<char>>|
                #![trigger dry_run_line(self@.name, keys)]
                is_lex_sorted(keys) && keys.to_multiset() == env_keys(self@.environment).to_multiset()
                    ==> out@ == dry_run_line(self@.name, keys),
    {
        let mut keys: Vec<String> = Vec::new();
        let n = self.environment.len();
        let ghost ev = env_view(self.environment@);
        let mut i: usize = 0;
        while i < n
            invariant
                n == self.environment@.len(),
                ev == env_view(self.environment@),
                i <= n,
                string_views(keys@) == env_keys(ev).take(i as int),
            decreases n - i,
        {
            let k = self.environment[i].0.clone();
            assert(k@ == ev[i as int].0);
            let ghost before = keys@;
            keys.push(k);
            assert(string_views(keys@) =~= string_views(before).push(k@));
            i += 1;
            assert(string_views(keys@) =~= env_keys(ev).take(i as int));
        }
        assert(env_keys(ev).take(n as int) =~= env_keys(ev));
        let sorted = sort_strings(&keys);
        let mut out = String::from_str("DRY RUN: ");
        out.append(self.name.as_str());
        out.append("; environment keys: ");
        let joined = join_strings(&sorted, ", ");
        out.append(joined.as_str());
        assert(out@ =~= dry_run_line(self@.name, string_views(sorted@)));
        assert forall|keys: Seq<Seq<char>>|
            is_lex_sorted(keys) && keys.to_multiset() == env_keys(self@.environment).to_multiset()
                implies out@ == #[trigger] dry_run_line(self@.name, keys) by {
            crate::text::law_sorted_arrangement_is_unique(keys, string_views(sorted@));
        }
        out
    }
}

/// Some line of `output`, trimmed, reads `RESTART_REQUIRED=1`.
pub open spec fn restart_requested(output: Seq<char>) -> bool {
    exists|i: int| 0 <= i < lines(output).len() && trim(#[trigger] lines(output)[i]) == "RESTART_REQUIRED=1"@
}

/// What follows `CREDENTIAL_FILE=` on the first line that starts with it.
pub open spec fn first_credential_file(ls: Seq<Seq<char>>) -> Option<Seq<char>>
    decreases ls.len(),
{
    if ls.len() == 0 {
        None
    } else if ls[0].len() >= "CREDENTIAL_FILE="@.len() && ls[0].take(
        "CREDENTIAL_FILE="@.len() as int,
    ) == "CREDENTIAL_FILE="@ {
        Some(ls[0].skip("CREDENTIAL_FILE="@.len() as int))
    } else {
        first_credential_file(ls.drop_first())
    }
}

/// The output of a task's first (for these tasks, only) step; nothing when
/// no step ran.
pub open spec fn first_output(outputs: Seq<Seq<char>>) -> Seq<char> {
    if outputs.len() > 0 {
        outputs[0]
    } else {
        Seq::<char>::empty()
    }
}

/// Whether a restart is needed and where the credentials were written,
/// given the output of each step of `task`.
pub open spec fn task_report(task: Task, dry_run: bool, outputs: Seq<Seq<char>>) -> (
    bool,
    Option<Seq<char>>,
) {
    match task {
        Task::RdsRoles => (dry_run || restart_requested(first_output(outputs)), None),
        Task::LocalUsers => (false, first_credential_file(lines(first_output(outputs)))),
        _ => (false, None),
    }
}

pub open spec fn outcome_matches(o: TaskOutcome, report: (bool, Option<Seq<char>>)) -> bool {
    &&& o.reboot_required == report.0
    &&& match (o.credential_file, report.1) {
        (None, None) => true,
        (Some(f), Some(g)) => f@ == g,
        _ => false,
    }
}

fn restart_requested_in(output: &str) -> (r: bool)
    ensures
        r == restart_requested(output@),
{
    let cs = chars_of(output);
    let ls = lines_of(cs.as_slice());
    let ghost lv = lines(output@);
    let marker = chars_of("RESTART_REQUIRED=1");
    let n = ls.len();
    let mut i: usize = 0;
    while i < n
        invariant
            n == ls@.len(),
            views(ls@) == lv,
            lv == lines(output@),
            marker@ == "RESTART_REQUIRED=1"@,
            i <= n,
            forall|k: int| 0 <= k < i ==> trim(#[trigger] lv[k]) != "RESTART_REQUIRED=1"@,
        decreases n - i,
    {
        assert(ls@[i as int]@ == lv[i as int]);
        let t = trim_chars(ls[i].as_slice());
        if chars_eq(t.as_slice(), marker.as_slice()) {
            assert(trim(lines(output@)[i as int]) == "RESTART_REQUIRED=1"@);
            return true;
        }
        i += 1;
    }
    false
}

fn credential_file_in(output: &str) -> (r: Option<String>)
    ensures
        match (r, first_credential_file(lines(output@))) {
            (None, None) => true,
            (Some(f), Some(g)) => f@ == g,
            _ => false,
        },
{
    let cs = chars_of(output);
    let ls = lines_of(cs.as_slice());
    let ghost lv = lines(output@);
    let prefix = chars_of("CREDENTIAL_FILE=");
    let plen = prefix.len();
    let n = ls.len();
    let mut i: usize = 0;
    assert(lv.skip(0) =~= lv);
    while i < n
        invariant
            n == ls@.len(),
            views(ls@) == lv,
            lv == lines(output@),
            prefix@ == "CREDENTIAL_FILE="@,
            plen == prefix@.len(),
            i <= n,
            first_credential_file(lv) == first_credential_file(lv.skip(i as int)),
        decreases n - i,
    {
        assert(ls@[i as int]@ == lv[i as int]);
        assert(lv.skip(i as int)[0] == lv[i as int]);
        assert(lv.skip(i as int).drop_first() =~= lv.skip(i + 1));
        let line = ls[i].clone();
        assert(line@ =~= lv[i as int]);
        if line.len() >= plen {
            let mut head = line;
            let rest = head.split_off(plen);
            assert(lv[i as int].take(plen as int) =~= head@);
            if chars_eq(head.as_slice(), prefix.as_slice()) {
                assert(lv[i as int].take(plen as int) =~= head@);
                assert(lv[i as int].skip(plen as int) =~= rest@);
                return Some(string_from_chars(rest.as_slice()));
            }
        }
        i += 1;
    }
    assert(lv.skip(n as int) =~= Seq::<Seq<char>>::empty());
    None
}

/// What a task reports once all its steps ran, given their outputs in
/// order (empty in a dry run).
pub fn task_outcome(task: Task, dry_run: bool, outputs: &Vec<String>) -> (r: TaskOutcome)
    ensures
        outcome_matches(r, task_report(task, dry_run, string_views(outputs@))),
        !(task is RdsRoles) ==> !r.reboot_required,
        !(task is LocalUsers) ==> r.credential_file is None,
        task is RdsRoles && dry_run ==> r.reboot_required,
{
    proof {
        law_only_role_installation_requests_restart(task, dry_run, string_views(outputs@));
    }
    let first: &str = if outputs.len() > 0 {
        outputs[0].as_str()
    } else {
        ""
    };
    proof {
        reveal_strlit("");
    }
    assert(first@ == first_output(string_views(outputs@)));
    match task {
        Task::RdsRoles => {
            let reboot_required = dry_run || restart_requested_in(first);
            TaskOutcome { reboot_required, credential_file: None }
        },
        Task::LocalUsers => {
            let credential_file = credential_file_in(first);
            TaskOutcome { reboot_required: false, credential_file }
        },
        _ => TaskOutcome { reboot_required: false, credential_file: None },
    }
}

/// Only the installation of the RDS roles can ask for a restart, and only
/// the creation of local users can name a credential file, whatever the
/// steps printed and whether this was a dry run; a dry run of the role
/// installation always asks for the restart, and otherwise it is asked for
/// exactly when its output holds a `RESTART_REQUIRED=1` line.
pub proof fn law_only_role_installation_requests_restart(
    task: Task,
    dry_run: bool,
    outputs: Seq<Seq<char>>,
)
    ensures
        !(task is RdsRoles) ==> !task_report(task, dry_run, outputs).0,
        !(task is LocalUsers) ==> task_report(task, dry_run, outputs).1 is None,
        task is RdsRoles && dry_run ==> task_report(task, dry_run, outputs).0,
        task is RdsRoles && !dry_run ==> task_report(task, dry_run, outputs).0 == (outputs.len() > 0
            && restart_requested(outputs[0])),
{
}

/// The credential file is the path announced by the first
/// `CREDENTIAL_FILE=<path>` line: lines before it that announce nothing
/// and any lines after it do not change it.
pub proof fn law_first_announced_credential_file(
    before: Seq<Seq<char>>,
    path: Seq<char>,
    after: Seq<Seq<char>>,
)
    requires
        forall|i: int|
            0 <= i < before.len() ==> !((#[trigger] before[i]).len() >= "CREDENTIAL_FILE="@.len()
                && before[i].take("CREDENTIAL_FILE="@.len() as int) == "CREDENTIAL_FILE="@),
    ensures
        first_credential_file(before + seq!["CREDENTIAL_FILE="@ + path] + after) == Some(path),
    decreases before.len(),
{
    let prefix = "CREDENTIAL_FILE="@;
    let ls = before + seq![prefix + path] + after;
    if before.len() == 0 {
        assert(ls[0] == prefix + path);
        assert((prefix + path).take(prefix.len() as int) =~= prefix);
        assert((prefix + path).skip(prefix.len() as int) =~= path);
    } else {
        assert(ls[0] == before[0]);
        let rest = before.drop_first();
        assert forall|i: int| 0 <= i < rest.len() implies !((#[trigger] rest[i]).len() >= prefix.len()
            && rest[i].take(prefix.len() as int) == prefix) by {
            assert(rest[i] == before[i + 1]);
        }
        law_first_announced_credential_file(rest, path, after);
        assert(ls.drop_first() =~= rest + seq![prefix + path] + after);
    }
}

/// A dry run of the licensing task never needs a real CAL entitlement: it
/// plans its one step whatever the configuration holds.
pub proof fn law_dry_run_licensing_needs_no_entitlement(c: AppConfig)
    ensures
        task_plan(Task::RdsLicensing, c, true) == Ok::<Seq<StepModel>, TaskError>(
            seq![rds_licensing_step(c)],
        ),
{
}

/// A dry run of base access skips the configuration checks: with at least
/// one action selected it plans the selected steps whatever the
/// configuration holds.
pub proof fn law_base_access_dry_run_skips_validation(c: AppConfig, sel: BaseAccessSelection)
    requires
        sel.kms || sel.ssh || sel.rdp,
    ensures
        task_plan(Task::BaseAccess(sel), c, true) == Ok::<Seq<StepModel>, TaskError>(
            base_access_steps(c, sel),
        ),
{
}

/// Per User licensing is never blocked: whether the licensing task may run
/// does not depend on the licensing mode (a workgroup server only gets a
/// warning).
pub proof fn law_per_user_mode_never_blocks(c: AppConfig, dry_run: bool)
    ensures
        (task_plan(Task::RdsLicensing, c, dry_run) is Ok) == (task_plan(
            Task::RdsLicensing,
            (AppConfig {
                rds: (crate::config::RdsConfig {
                    licensing_mode: crate::config::LicensingMode::PerUser,
                    ..c.rds
                }),
                ..c
            }),
            dry_run,
        ) is Ok),
{
}

/// Without a legal CAL installation method, the production licensing task
/// refuses to run.
pub proof fn law_licensing_refused_without_cal_method(c: AppConfig)
    requires
        c.rds.cal_count > 0,
        c.rds.cal_install_method == crate::config::CalInstallMethod::NotSelected,
    ensures
        task_plan(Task::RdsLicensing, c, false) == Err::<Seq<StepModel>, TaskError>(
            TaskError::Config(ConfigError::CalMethodNotSelected),
        ),
{
}

/// `key` names a variable of `env`, and every entry under that name carries
/// `value`.
pub open spec fn env_binds(env: Seq<(Seq<char>, Seq<char>)>, key: Seq<char>, value: Seq<char>) -> bool {
    &&& exists|i: int| 0 <= i < env.len() && (#[trigger] env[i]).0 == key
    &&& forall|i: int| 0 <= i < env.len() && (#[trigger] env[i]).0 == key ==> env[i].1 == value
}

/// A planned local-user task is one step of the user script, and each of
/// its variables carries the setting it is named after: the count, the
/// prefix, the first number, the number width and the password length in
/// decimal, and `1` or `0` for resetting existing passwords. It is planned
/// exactly when the local-user settings validate, in a dry run too.
pub proof fn law_local_users_step_carries_settings(c: AppConfig, dry_run: bool)
    ensures
        task_plan(Task::LocalUsers, c, dry_run) is Ok <==> local_users_verdict(c.users) is Ok,
        task_plan(Task::LocalUsers, c, dry_run) is Ok ==> {
            let s = task_plan(Task::LocalUsers, c, dry_run)->Ok_0;
            let env = s[0].environment;
            &&& s.len() == 1
            &&& s[0].script == Script::Stage4Users
            &&& env_binds(env, "FIRSTSET_USER_COUNT"@, decimal(c.users.count as nat))
            &&& env_binds(env, "FIRSTSET_USER_PREFIX"@, c.users.prefix@)
            &&& env_binds(env, "FIRSTSET_USER_START_INDEX"@, decimal(c.users.start_index as nat))
            &&& env_binds(env, "FIRSTSET_USER_NUMBER_WIDTH"@, decimal(c.users.number_width as nat))
            &&& env_binds(env, "FIRSTSET_USER_PASSWORD_LENGTH"@, decimal(c.users.password_length as nat))
            &&& env_binds(
                env,
                "FIRSTSET_RESET_EXISTING_PASSWORDS"@,
                if c.users.reset_existing_passwords {
                    "1"@
                } else {
                    "0"@
                },
            )
        },
{
    if task_plan(Task::LocalUsers, c, dry_run) is Ok {
        let env = local_users_step(c).environment;
        reveal_strlit("FIRSTSET_USER_COUNT");
        reveal_strlit("FIRSTSET_USER_PREFIX");
        reveal_strlit("FIRSTSET_USER_START_INDEX");
        reveal_strlit("FIRSTSET_USER_NUMBER_WIDTH");
        reveal_strlit("FIRSTSET_USER_PASSWORD_LENGTH");
        reveal_strlit("FIRSTSET_RESET_EXISTING_PASSWORDS");
        assert(env.len() == 6);
        assert forall|i: int, j: int| 0 <= i < j < env.len() implies (#[trigger] env[i]).0 != (
        #[trigger] env[j]).0 by {
            assert(env[i].0.len() != env[j].0.len());
        }
        lemma_distinct_keys_bind(env);
        assert(env_binds(env, env[0].0, env[0].1));
        assert(env_binds(env, env[1].0, env[1].1));
        assert(env_binds(env, env[2].0, env[2].1));
        assert(env_binds(env, env[3].0, env[3].1));
        assert(env_binds(env, env[4].0, env[4].1));
        assert(env_binds(env, env[5].0, env[5].1));
    }
}

/// A planned licensing task is one step of the licensing script, and each
/// of its variables carries the setting it is named after: the CAL count and
/// product version in decimal, the Key Pack ID without white space and
/// hyphens, and the other settings and contact fields as written. Outside a
/// dry run it is planned exactly when the CAL entitlement is legal and the
/// activation contact complete.
pub proof fn law_licensing_step_carries_settings(c: AppConfig, dry_run: bool)
    ensures
        task_plan(Task::RdsLicensing, c, false) is Ok <==> cal_entitlement_valid(c.rds)
            && contact_complete(c.rds.contact),
        task_plan(Task::RdsLicensing, c, dry_run) is Ok ==> {
            let s = task_plan(Task::RdsLicensing, c, dry_run)->Ok_0;
            let env = s[0].environment;
            let contact = c.rds.contact;
            &&& s.len() == 1
            &&& s[0].script == Script::Stage3RdsLicensing
            &&& env_binds(env, "FIRSTSET_RDS_LICENSING_MODE"@, licensing_mode_name(c.rds.licensing_mode))
            &&& env_binds(env, "FIRSTSET_RDS_LICENSE_SERVER"@, c.rds.license_server@)
            &&& env_binds(env, "FIRSTSET_RDS_CAL_METHOD"@, cal_method_name(c.rds.cal_install_method))
            &&& env_binds(env, "FIRSTSET_RDS_AGREEMENT_TYPE"@, agreement_type_name(c.rds.agreement_type))
            &&& env_binds(env, "FIRSTSET_RDS_AGREEMENT_NUMBER"@, c.rds.agreement_number@)
            &&& env_binds(
                env,
                "FIRSTSET_RDS_KEY_PACK_ID"@,
                key_pack_normalized(c.rds.license_key_pack_id@),
            )
            &&& env_binds(
                env,
                "FIRSTSET_RDS_PRODUCT_VERSION"@,
                decimal(c.rds.cal_product_version_id as nat),
            )
            &&& env_binds(env, "FIRSTSET_RDS_CAL_COUNT"@, decimal(c.rds.cal_count as nat))
            &&& env_binds(env, "FIRSTSET_RDS_CONTACT_FIRST_NAME"@, contact.first_name@)
            &&& env_binds(env, "FIRSTSET_RDS_CONTACT_LAST_NAME"@, contact.last_name@)
            &&& env_binds(env, "FIRSTSET_RDS_CONTACT_COMPANY"@, contact.company@)
            &&& env_binds(env, "FIRSTSET_RDS_CONTACT_COUNTRY"@, contact.country_region@)
            &&& env_binds(env, "FIRSTSET_RDS_CONTACT_EMAIL"@, contact.email@)
            &&& env_binds(env, "FIRSTSET_RDS_CONTACT_ORG_UNIT"@, contact.org_unit@)
            &&& env_binds(env, "FIRSTSET_RDS_CONTACT_ADDRESS"@, contact.address@)
            &&& env_binds(env, "FIRSTSET_RDS_CONTACT_CITY"@, contact.city@)
            &&& env_binds(env, "FIRSTSET_RDS_CONTACT_STATE"@, contact.state@)
            &&& env_binds(env, "FIRSTSET_RDS_CONTACT_POSTAL_CODE"@, contact.postal_code@)
        },
{
    crate::config::law_licensing_entitlement_and_contact(c);
    if task_plan(Task::RdsLicensing, c, dry_run) is Ok {
        let env = rds_licensing_env(c);
        reveal_strlit("FIRSTSET_RDS_LICENSING_MODE");
        reveal_strlit("FIRSTSET_RDS_LICENSE_SERVER");
        reveal_strlit("FIRSTSET_RDS_CAL_METHOD");
        reveal_strlit("FIRSTSET_RDS_AGREEMENT_TYPE");
        reveal_strlit("FIRSTSET_RDS_AGREEMENT_NUMBER");
        reveal_strlit("FIRSTSET_RDS_KEY_PACK_ID");
        reveal_strlit("FIRSTSET_RDS_PRODUCT_VERSION");
        reveal_strlit("FIRSTSET_RDS_CAL_COUNT");
        reveal_strlit("FIRSTSET_RDS_CONTACT_FIRST_NAME");
        reveal_strlit("FIRSTSET_RDS_CONTACT_LAST_NAME");
        reveal_strlit("FIRSTSET_RDS_CONTACT_COMPANY");
        reveal_strlit("FIRSTSET_RDS_CONTACT_COUNTRY");
        reveal_strlit("FIRSTSET_RDS_CONTACT_EMAIL");
        reveal_strlit("FIRSTSET_RDS_CONTACT_ORG_UNIT");
        reveal_strlit("FIRSTSET_RDS_CONTACT_ADDRESS");
        reveal_strlit("FIRSTSET_RDS_CONTACT_CITY");
        reveal_strlit("FIRSTSET_RDS_CONTACT_STATE");
        reveal_strlit("FIRSTSET_RDS_CONTACT_POSTAL_CODE");
        assert(env.len() == 18);
        assert forall|i: int, j: int| 0 <= i < j < env.len() implies (#[trigger] env[i]).0 != (
        #[trigger] env[j]).0 by {
            assert(env[i].0.len() != env[j].0.len() || env[i].0[21] != env[j].0[21] || env[i].0[23]
                != env[j].0[23]);
        }
        lemma_distinct_keys_bind(env);
        assert(env_binds(env, env[0].0, env[0].1));
        assert(env_binds(env, env[1].0, env[1].1));
        assert(env_binds(env, env[2].0, env[2].1));
        assert(env_binds(env, env[3].0, env[3].1));
        assert(env_binds(env, env[4].0, env[4].1));
        assert(env_binds(env, env[5].0, env[5].1));
        assert(env_binds(env, env[6].0, env[6].1));
        assert(env_binds(env, env[7].0, env[7].1));
        assert(env_binds(env, env[8].0, env[8].1));
        assert(env_binds(env, env[9].0, env[9].1));
        assert(env_binds(env, env[10].0, env[10].1));
        assert(env_binds(env, env[11].0, env[11].1));
        assert(env_binds(env, env[12].0, env[12].1));
        assert(env_binds(env, env[13].0, env[13].1));
        assert(env_binds(env, env[14].0, env[14].1));
        assert(env_binds(env, env[15].0, env[15].1));
        assert(env_binds(env, env[16].0, env[16].1));
        assert(env_binds(env, env[17].0, env[17].1));
    }
}

/// The place of a base-access step in the order activation, OpenSSH,
/// Remote Desktop, network report.
pub open spec fn base_step_rank(s: Script) -> int {
    match s {
        Script::Stage1Kms => 0,
        Script::Stage1Ssh => 1,
        Script::Stage1Rdp => 2,
        _ => 3,
    }
}

/// A base-access plan runs each selected action once, in the order
/// activation, OpenSSH, Remote Desktop, and ends with the network report;
/// activation gets the product key and KMS server, OpenSSH the public key
/// and the firewall sources, Remote Desktop the firewall sources. Outside a
/// dry run it is planned exactly when something is selected and every
/// selected action has what it needs, so OpenSSH or Remote Desktop without
/// a firewall source address never runs.
pub proof fn law_base_access_plan(c: AppConfig, sel: BaseAccessSelection, dry_run: bool)
    ensures
        task_plan(Task::BaseAccess(sel), c, false) is Ok <==> (sel.kms || sel.ssh || sel.rdp)
            && base_access_requirements_met(c, sel.kms, sel.ssh, sel.rdp),
        (sel.ssh || sel.rdp) && c.base.allowed_remote_addresses@.len() == 0 ==> task_plan(
            Task::BaseAccess(sel),
            c,
            false,
        ) is Err,
        task_plan(Task::BaseAccess(sel), c, dry_run) is Ok ==> {
            let s = task_plan(Task::BaseAccess(sel), c, dry_run)->Ok_0;
            &&& s.len() > 0
            &&& s.last().script == Script::NetworkInfo
            &&& forall|i: int, j: int|
                0 <= i < j < s.len() ==> base_step_rank((#[trigger] s[i]).script) < base_step_rank(
                    (#[trigger] s[j]).script,
                )
            &&& sel.kms <==> exists|i: int| 0 <= i < s.len() && (#[trigger] s[i]).script == Script::Stage1Kms
            &&& sel.ssh <==> exists|i: int| 0 <= i < s.len() && (#[trigger] s[i]).script == Script::Stage1Ssh
            &&& sel.rdp <==> exists|i: int| 0 <= i < s.len() && (#[trigger] s[i]).script == Script::Stage1Rdp
            &&& forall|i: int|
                0 <= i < s.len() && (#[trigger] s[i]).script == Script::Stage1Kms ==> {
                    &&& env_binds(s[i].environment, "FIRSTSET_WINDOWS_PRODUCT_KEY"@, c.base.windows_product_key@)
                    &&& env_binds(s[i].environment, "FIRSTSET_KMS_SERVER"@, c.base.kms_server@)
                }
            &&& forall|i: int|
                0 <= i < s.len() && (#[trigger] s[i]).script == Script::Stage1Ssh ==> {
                    &&& env_binds(
                        s[i].environment,
                        "FIRSTSET_ADMIN_PUBLIC_KEY"@,
                        c.base.administrator_public_key@,
                    )
                    &&& env_binds(s[i].environment, "FIRSTSET_ALLOWED_REMOTE_ADDRESSES"@, remote_addresses_value(c))
                }
            &&& forall|i: int|
                0 <= i < s.len() && (#[trigger] s[i]).script == Script::Stage1Rdp ==> env_binds(
                    s[i].environment,
                    "FIRSTSET_ALLOWED_REMOTE_ADDRESSES"@,
                    remote_addresses_value(c),
                )
        },
{
    crate::config::law_base_access_requirements(c, sel.kms, sel.ssh, sel.rdp);
    reveal_strlit("FIRSTSET_WINDOWS_PRODUCT_KEY");
    reveal_strlit("FIRSTSET_KMS_SERVER");
    reveal_strlit("FIRSTSET_ADMIN_PUBLIC_KEY");
    reveal_strlit("FIRSTSET_ALLOWED_REMOTE_ADDRESSES");
    let ke = kms_step(c).environment;
    let se = ssh_step(c).environment;
    let re = rdp_step(c).environment;
    assert(ke[0].0.len() != ke[1].0.len());
    assert(se[0].0.len() != se[1].0.len());
    lemma_distinct_keys_bind(ke);
    lemma_distinct_keys_bind(se);
    lemma_distinct_keys_bind(re);
    assert(env_binds(ke, ke[0].0, ke[0].1));
    assert(env_binds(ke, ke[1].0, ke[1].1));
    assert(env_binds(se, se[0].0, se[0].1));
    assert(env_binds(se, se[1].0, se[1].1));
    assert(env_binds(re, re[0].0, re[0].1));
    if task_plan(Task::BaseAccess(sel), c, dry_run) is Ok {
        let s = base_access_steps(c, sel);
        let k = if sel.kms { seq![kms_step(c)] } else { Seq::<StepModel>::empty() };
        let h = if sel.ssh { seq![ssh_step(c)] } else { Seq::<StepModel>::empty() };
        let r = if sel.rdp { seq![rdp_step(c)] } else { Seq::<StepModel>::empty() };
        let n = seq![network_info_step()];
        assert(s == k + h + r + n);
        assert forall|i: int| 0 <= i < s.len() implies {
            &&& (i < k.len() ==> #[trigger] s[i] == kms_step(c))
            &&& (k.len() <= i < k.len() + h.len() ==> s[i] == ssh_step(c))
            &&& (k.len() + h.len() <= i < k.len() + h.len() + r.len() ==> s[i] == rdp_step(c))
            &&& (k.len() + h.len() + r.len() <= i ==> s[i] == network_info_step())
        } by {
            if i < k.len() {
                assert(s[i] == k[i]);
            } else if i < k.len() + h.len() {
                assert(s[i] == h[i - k.len()]);
            } else if i < k.len() + h.len() + r.len() {
                assert(s[i] == r[i - k.len() - h.len()]);
            } else {
                assert(s[i] == n[i - k.len() - h.len() - r.len()]);
            }
        }
        if sel.kms {
            assert(s[0].script == Script::Stage1Kms);
        }
        if sel.ssh {
            assert(s[k.len() as int].script == Script::Stage1Ssh);
        }
        if sel.rdp {
            assert(s[(k.len() + h.len()) as int].script == Script::Stage1Rdp);
        }
    }
}

/// In an environment whose names are pairwise distinct, each entry is the
/// one binding of its name.
pub proof fn lemma_distinct_keys_bind(env: Seq<(Seq<char>, Seq<char>)>)
    requires
        forall|i: int, j: int| 0 <= i < j < env.len() ==> (#[trigger] env[i]).0 != (#[trigger] env[j]).0,
    ensures
        forall|k: int| 0 <= k < env.len() ==> env_binds(env, (#[trigger] env[k]).0, env[k].1),
{
    assert forall|k: int| 0 <= k < env.len() implies env_binds(env, (#[trigger] env[k]).0, env[k].1) by {
        assert forall|i: int| 0 <= i < env.len() && (#[trigger] env[i]).0 == env[k].0 implies env[i].1
            == env[k].1 by {
            if i < k {
                assert(env[i].0 != env[k].0);
            } else if k < i {
                assert(env[k].0 != env[i].0);
            }
        }
    }
}

} // verus!
