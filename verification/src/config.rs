//! The configuration model and its three validations.
use vstd::prelude::*;
use crate::text::{
    all_ascii_alphanumeric, all_ascii_alphanumeric_chars, all_ascii_digits, all_ascii_digits_chars,
    chars_eq, chars_of, decimal, decimal_chars, is_ascii_alphanumeric, is_ascii_alphanumeric_char,
    is_blank, is_blank_chars, is_white_space, is_white_space_char, trim, trim_chars, zero_padded,
};

verus! {

broadcast use vstd::string::group_string_axioms;

/// Interface language of the application.
#[derive(Clone, Copy, Debug, PartialEq, Eq, Structural)]
pub enum Language {
    SimplifiedChinese,
    English,
}

impl Language {
    pub const ALL: [Self; 2] = [Self::SimplifiedChinese, Self::English];
}

impl Default for Language {
    fn default() -> (r: Self)
        ensures
            r == Language::SimplifiedChinese,
    {
        Language::SimplifiedChinese
    }
}

/// Client-access licensing mode of the RD Licensing server.
#[derive(Clone, Copy, Debug, PartialEq, Eq, Structural)]
pub enum LicensingMode {
    PerDevice,
    PerUser,
}

impl LicensingMode {
    pub const ALL: [Self; 2] = [Self::PerDevice, Self::PerUser];

    /// The name PowerShell receives for this mode.
    pub fn as_str(self) -> (s: &'static str)
        ensures
            s@ == licensing_mode_name(self),
    {
        match self {
            LicensingMode::PerDevice => "PerDevice",
            LicensingMode::PerUser => "PerUser",
        }
    }
}

pub open spec fn licensing_mode_name(m: LicensingMode) -> Seq<char> {
    match m {
        LicensingMode::PerDevice => "PerDevice"@,
        LicensingMode::PerUser => "PerUser"@,
    }
}

impl Default for LicensingMode {
    fn default() -> (r: Self)
        ensures
            r == LicensingMode::PerDevice,
    {
        LicensingMode::PerDevice
    }
}

/// How client access licenses are installed.
#[derive(Clone, Copy, Debug, PartialEq, Eq, Structural)]
pub enum CalInstallMethod {
    NotSelected,
    Agreement,
    KeyPackId,
}

impl CalInstallMethod {
    pub const ALL: [Self; 3] = [Self::NotSelected, Self::Agreement, Self::KeyPackId];

    pub fn as_str(self) -> (s: &'static str)
        ensures
            s@ == cal_method_name(self),
    {
        match self {
            CalInstallMethod::NotSelected => "None",
            CalInstallMethod::Agreement => "Agreement",
            CalInstallMethod::KeyPackId => "KeyPackId",
        }
    }
}

pub open spec fn cal_method_name(m: CalInstallMethod) -> Seq<char> {
    match m {
        CalInstallMethod::NotSelected => "None"@,
        CalInstallMethod::Agreement => "Agreement"@,
        CalInstallMethod::KeyPackId => "KeyPackId"@,
    }
}

impl Default for CalInstallMethod {
    fn default() -> (r: Self)
        ensures
            r == CalInstallMethod::NotSelected,
    {
        CalInstallMethod::NotSelected
    }
}

/// Volume licensing program of an agreement.
#[derive(Clone, Copy, Debug, PartialEq, Eq, Structural)]
pub enum AgreementType {
    Select,
    Enterprise,
    Campus,
    School,
    ServiceProvider,
    Other,
}

impl AgreementType {
    pub const ALL: [Self; 6] = [
        Self::Select,
        Self::Enterprise,
        Self::Campus,
        Self::School,
        Self::ServiceProvider,
        Self::Other,
    ];

    pub fn as_str(self) -> (s: &'static str)
        ensures
            s@ == agreement_type_name(self),
    {
        match self {
            AgreementType::Select => "Select",
            AgreementType::Enterprise => "Enterprise",
            AgreementType::Campus => "Campus",
            AgreementType::School => "School",
            AgreementType::ServiceProvider => "ServiceProvider",
            AgreementType::Other => "Other",
        }
    }
}

pub open spec fn agreement_type_name(a: AgreementType) -> Seq<char> {
    match a {
        AgreementType::Select => "Select"@,
        AgreementType::Enterprise => "Enterprise"@,
        AgreementType::Campus => "Campus"@,
        AgreementType::School => "School"@,
        AgreementType::ServiceProvider => "ServiceProvider"@,
        AgreementType::Other => "Other"@,
    }
}

impl Default for AgreementType {
    fn default() -> (r: Self)
        ensures
            r == AgreementType::Enterprise,
    {
        AgreementType::Enterprise
    }
}

#[derive(Clone, Debug)]
pub struct UiConfig {
    pub language: Language,
}

impl Default for UiConfig {
    fn default() -> (r: Self)
        ensures
            r.language == Language::SimplifiedChinese,
    {
        UiConfig { language: Language::SimplifiedChinese }
    }
}

/// Settings of the base-access actions (activation, OpenSSH, RDP).
#[derive(Clone, Debug)]
pub struct BaseConfig {
    pub windows_product_key: String,
    pub kms_server: String,
    pub administrator_public_key: String,
    pub allowed_remote_addresses: Vec<String>,
}

impl Default for BaseConfig {
    fn default() -> (r: Self)
        ensures
            r.windows_product_key@ == Seq::<char>::empty(),
            r.kms_server@ == Seq::<char>::empty(),
            r.administrator_public_key@ == "ssh-ed25519 REPLACE_WITH_YOUR_PUBLIC_KEY administrator"@,
            r.allowed_remote_addresses@.len() == 1,
            r.allowed_remote_addresses@[0]@ == "Any"@,
    {
        let mut addresses: Vec<String> = Vec::new();
        addresses.push("Any".to_owned());
        BaseConfig {
            windows_product_key: String::new(),
            kms_server: String::new(),
            administrator_public_key: "ssh-ed25519 REPLACE_WITH_YOUR_PUBLIC_KEY administrator".to_owned(),
            allowed_remote_addresses: addresses,
        }
    }
}

/// Contact details sent when the license server is activated.
#[derive(Clone, Debug)]
pub struct LicenseContact {
    pub first_name: String,
    pub last_name: String,
    pub company: String,
    pub country_region: String,
    pub email: String,
    pub org_unit: String,
    pub address: String,
    pub city: String,
    pub state: String,
    pub postal_code: String,
}

impl Default for LicenseContact {
    fn default() -> (r: Self)
        ensures
            r.first_name@ == Seq::<char>::empty(),
            r.last_name@ == Seq::<char>::empty(),
            r.company@ == Seq::<char>::empty(),
            r.country_region@ == "China"@,
            r.email@ == Seq::<char>::empty(),
            r.org_unit@ == Seq::<char>::empty(),
            r.address@ == Seq::<char>::empty(),
            r.city@ == Seq::<char>::empty(),
            r.state@ == Seq::<char>::empty(),
            r.postal_code@ == Seq::<char>::empty(),
    {
        LicenseContact {
            first_name: String::new(),
            last_name: String::new(),
            company: String::new(),
            country_region: "China".to_owned(),
            email: String::new(),
            org_unit: String::new(),
            address: String::new(),
            city: String::new(),
            state: String::new(),
            postal_code: String::new(),
        }
    }
}

/// Remote Desktop Services licensing settings.
#[derive(Clone, Debug)]
pub struct RdsConfig {
    pub licensing_mode: LicensingMode,
    pub license_server: String,
    pub cal_install_method: CalInstallMethod,
    pub agreement_type: AgreementType,
    pub agreement_number: String,
    pub license_key_pack_id: String,
    pub cal_product_version_id: u32,
    pub cal_count: u32,
    pub contact: LicenseContact,
}

impl Default for RdsConfig {
    fn default() -> (r: Self)
        ensures
            r.licensing_mode == LicensingMode::PerDevice,
            r.license_server@ == "localhost"@,
            r.cal_install_method == CalInstallMethod::NotSelected,
            r.agreement_type == AgreementType::Enterprise,
            r.agreement_number@ == Seq::<char>::empty(),
            r.license_key_pack_id@ == Seq::<char>::empty(),
            r.cal_product_version_id == 7,
            r.cal_count == 20,
            r.contact.first_name@ == Seq::<char>::empty(),
            r.contact.last_name@ == Seq::<char>::empty(),
            r.contact.company@ == Seq::<char>::empty(),
            r.contact.country_region@ == "China"@,
    {
        RdsConfig {
            licensing_mode: LicensingMode::PerDevice,
            license_server: "localhost".to_owned(),
            cal_install_method: CalInstallMethod::NotSelected,
            agreement_type: AgreementType::Enterprise,
            agreement_number: String::new(),
            license_key_pack_id: String::new(),
            cal_product_version_id: 7,
            cal_count: 20,
            contact: LicenseContact::default(),
        }
    }
}

/// Settings of the generated local users.
#[derive(Clone, Debug)]
pub struct UserConfig {
    pub count: u32,
    pub prefix: String,
    pub start_index: u32,
    pub number_width: u32,
    pub password_length: u32,
    pub reset_existing_passwords: bool,
}

impl Default for UserConfig {
    fn default() -> (r: Self)
        ensures
            r.count == 20,
            r.prefix@ == "user"@,
            r.start_index == 1,
            r.number_width == 2,
            r.password_length == 16,
            !r.reset_existing_passwords,
    {
        UserConfig {
            count: 20,
            prefix: "user".to_owned(),
            start_index: 1,
            number_width: 2,
            password_length: 16,
            reset_existing_passwords: false,
        }
    }
}

/// The whole configuration file.
#[derive(Clone, Debug)]
pub struct AppConfig {
    pub ui: UiConfig,
    pub base: BaseConfig,
    pub rds: RdsConfig,
    pub users: UserConfig,
}

/// What `AppConfig::default` holds.
pub open spec fn is_default_config(c: AppConfig) -> bool {
    &&& c.ui.language == Language::SimplifiedChinese
    &&& c.base.windows_product_key@ == Seq::<char>::empty()
    &&& c.base.kms_server@ == Seq::<char>::empty()
    &&& c.base.administrator_public_key@ == "ssh-ed25519 REPLACE_WITH_YOUR_PUBLIC_KEY administrator"@
    &&& c.base.allowed_remote_addresses@.len() == 1
    &&& c.base.allowed_remote_addresses@[0]@ == "Any"@
    &&& c.rds.licensing_mode == LicensingMode::PerDevice
    &&& c.rds.license_server@ == "localhost"@
    &&& c.rds.cal_install_method == CalInstallMethod::NotSelected
    &&& c.rds.agreement_type == AgreementType::Enterprise
    &&& c.rds.agreement_number@ == Seq::<char>::empty()
    &&& c.rds.license_key_pack_id@ == Seq::<char>::empty()
    &&& c.rds.cal_product_version_id == 7
    &&& c.rds.cal_count == 20
    &&& c.rds.contact.first_name@ == Seq::<char>::empty()
    &&& c.rds.contact.last_name@ == Seq::<char>::empty()
    &&& c.rds.contact.company@ == Seq::<char>::empty()
    &&& c.rds.contact.country_region@ == "China"@
    &&& c.users.count == 20
    &&& c.users.prefix@ == "user"@
    &&& c.users.start_index == 1
    &&& c.users.number_width == 2
    &&& c.users.password_length == 16
    &&& !c.users.reset_existing_passwords
}

impl Default for AppConfig {
    fn default() -> (r: Self)
        ensures
            is_default_config(r),
    {
        AppConfig {
            ui: UiConfig::default(),
            base: BaseConfig::default(),
            rds: RdsConfig::default(),
            users: UserConfig::default(),
        }
    }
}

/// Why a configuration cannot be used for a task.
#[derive(Clone, Copy, Debug, PartialEq, Eq, Structural)]
pub enum ConfigError {
    KmsRequiresKeyAndServer,
    SshRequiresPublicKey,
    FirewallSourceRequired,
    CalCountZero,
    CalMethodNotSelected,
    InvalidAgreementNumber,
    InvalidKeyPackId,
    LicenseContactIncomplete,
    UserCountOutOfRange,
    InvalidUserPrefix,
    NumberWidthOutOfRange,
    PasswordTooShort,
    UsernameTooLong,
}

impl ConfigError {
    /// The message shown to the administrator.
    pub fn message(self) -> (s: &'static str)
        ensures
            s@ == config_error_message(self),
    {
        match self {
            ConfigError::KmsRequiresKeyAndServer => "KMS activation requires both a product key and a KMS server",
            ConfigError::SshRequiresPublicKey => "SSH requires a valid Administrator public key",
            ConfigError::FirewallSourceRequired => "at least one Windows Firewall source address is required",
            ConfigError::CalCountZero => "RDS CAL count must be greater than zero",
            ConfigError::CalMethodNotSelected => "select Agreement or KeyPackId before activating production CALs",
            ConfigError::InvalidAgreementNumber => "the Microsoft agreement/enrollment number must contain seven digits",
            ConfigError::InvalidKeyPackId => "the Microsoft Clearinghouse Key Pack ID must contain 35 characters",
            ConfigError::LicenseContactIncomplete => "license-server activation requires first name, last name, company, and country",
            ConfigError::UserCountOutOfRange => "user count must be between 1 and 200",
            ConfigError::InvalidUserPrefix => "user prefix may contain only ASCII letters, numbers, underscore, and hyphen",
            ConfigError::NumberWidthOutOfRange => "username number width must be between 1 and 6",
            ConfigError::PasswordTooShort => "generated passwords must contain at least 14 characters",
            ConfigError::UsernameTooLong => "generated local usernames must not exceed 20 characters",
        }
    }
}

pub open spec fn config_error_message(e: ConfigError) -> Seq<char> {
    match e {
        ConfigError::KmsRequiresKeyAndServer => "KMS activation requires both a product key and a KMS server"@,
        ConfigError::SshRequiresPublicKey => "SSH requires a valid Administrator public key"@,
        ConfigError::FirewallSourceRequired => "at least one Windows Firewall source address is required"@,
        ConfigError::CalCountZero => "RDS CAL count must be greater than zero"@,
        ConfigError::CalMethodNotSelected => "select Agreement or KeyPackId before activating production CALs"@,
        ConfigError::InvalidAgreementNumber => "the Microsoft agreement/enrollment number must contain seven digits"@,
        ConfigError::InvalidKeyPackId => "the Microsoft Clearinghouse Key Pack ID must contain 35 characters"@,
        ConfigError::LicenseContactIncomplete => "license-server activation requires first name, last name, company, and country"@,
        ConfigError::UserCountOutOfRange => "user count must be between 1 and 200"@,
        ConfigError::InvalidUserPrefix => "user prefix may contain only ASCII letters, numbers, underscore, and hyphen"@,
        ConfigError::NumberWidthOutOfRange => "username number width must be between 1 and 6"@,
        ConfigError::PasswordTooShort => "generated passwords must contain at least 14 characters"@,
        ConfigError::UsernameTooLong => "generated local usernames must not exceed 20 characters"@,
    }
}

/// The OpenSSH key types accepted for the Administrator key.
pub open spec fn is_supported_key_type(t: Seq<char>) -> bool {
    ||| t == "ssh-ed25519"@
    ||| t == "ssh-rsa"@
    ||| t == "ecdsa-sha2-nistp256"@
    ||| t == "ecdsa-sha2-nistp384"@
    ||| t == "ecdsa-sha2-nistp521"@
}

/// A public key line: a supported key type followed by at least one more word.
pub open spec fn supported_public_key(s: Seq<char>) -> bool {
    let w = crate::text::words(s);
    w.len() >= 2 && is_supported_key_type(w[0])
}

fn is_supported_key_type_chars(t: &[char]) -> (r: bool)
    ensures
        r == is_supported_key_type(t@),
{
    chars_eq(t, chars_of("ssh-ed25519").as_slice()) || chars_eq(t, chars_of("ssh-rsa").as_slice())
        || chars_eq(t, chars_of("ecdsa-sha2-nistp256").as_slice()) || chars_eq(
        t,
        chars_of("ecdsa-sha2-nistp384").as_slice(),
    ) || chars_eq(t, chars_of("ecdsa-sha2-nistp521").as_slice())
}

/// Whether `value` looks like an OpenSSH public key of a supported type.
pub fn is_supported_public_key(value: &str) -> (r: bool)
    ensures
        r == supported_public_key(value@),
{
    let cs = chars_of(value);
    let w = crate::text::words_of(cs.as_slice());
    if w.len() < 2 {
        return false;
    }
    proof {
        assert(w@[0]@ == crate::text::views(w@)[0]);
    }
    is_supported_key_type_chars(w[0].as_slice())
}

/// The verdict of `validate_base_access`.
pub open spec fn base_access_verdict(c: AppConfig, kms: bool, ssh: bool, rdp: bool) -> Result<(), ConfigError> {
    if kms && (is_blank(c.base.windows_product_key@) || is_blank(c.base.kms_server@)) {
        Err(ConfigError::KmsRequiresKeyAndServer)
    } else if ssh && !supported_public_key(c.base.administrator_public_key@) {
        Err(ConfigError::SshRequiresPublicKey)
    } else if (ssh || rdp) && c.base.allowed_remote_addresses@.len() == 0 {
        Err(ConfigError::FirewallSourceRequired)
    } else {
        Ok(())
    }
}

/// `s` without white space and hyphens (how a Key Pack ID is normalized).
pub open spec fn key_pack_normalized(s: Seq<char>) -> Seq<char>
    decreases s.len(),
{
    if s.len() == 0 {
        s
    } else if is_white_space(s.last()) || s.last() == '-' {
        key_pack_normalized(s.drop_last())
    } else {
        key_pack_normalized(s.drop_last()).push(s.last())
    }
}

/// A character allowed in a user name prefix.
pub open spec fn is_prefix_char(c: char) -> bool {
    is_ascii_alphanumeric(c) || c == '_' || c == '-'
}

pub open spec fn valid_user_prefix(p: Seq<char>) -> bool {
    !is_blank(p) && forall|i: int| 0 <= i < p.len() ==> is_prefix_char(#[trigger] p[i])
}

/// The verdict of `validate_rds_licensing`. Lengths count characters: the
/// digit and letter checks that go with them admit ASCII only, where
/// characters and UTF-8 bytes agree.
pub open spec fn rds_licensing_verdict(c: AppConfig) -> Result<(), ConfigError> {
    let contact = c.rds.contact;
    if c.rds.cal_count == 0 {
        Err(ConfigError::CalCountZero)
    } else if c.rds.cal_install_method == CalInstallMethod::NotSelected {
        Err(ConfigError::CalMethodNotSelected)
    } else if c.rds.cal_install_method == CalInstallMethod::Agreement && !(trim(
        c.rds.agreement_number@,
    ).len() == 7 && all_ascii_digits(trim(c.rds.agreement_number@))) {
        Err(ConfigError::InvalidAgreementNumber)
    } else if c.rds.cal_install_method == CalInstallMethod::KeyPackId && !(key_pack_normalized(
        c.rds.license_key_pack_id@,
    ).len() == 35 && all_ascii_alphanumeric(key_pack_normalized(c.rds.license_key_pack_id@))) {
        Err(ConfigError::InvalidKeyPackId)
    } else if is_blank(contact.first_name@) || is_blank(contact.last_name@) || is_blank(
        contact.company@,
    ) || is_blank(contact.country_region@) {
        Err(ConfigError::LicenseContactIncomplete)
    } else {
        Ok(())
    }
}

/// The name of the local user with number `index`.
pub open spec fn local_user_name(prefix: Seq<char>, index: nat, width: nat) -> Seq<char> {
    prefix + zero_padded(index, width)
}

/// The checks of `validate_local_users` that precede the user-name length check.
pub open spec fn users_prechecks_pass(u: UserConfig) -> bool {
    &&& 1 <= u.count <= 200
    &&& valid_user_prefix(u.prefix@)
    &&& 1 <= u.number_width <= 6
    &&& u.password_length >= 14
}

/// `start_index + count` fits in a `u32`, so that the number of the last
/// user can be computed, wherever the checks before it pass.
pub open spec fn last_user_index_fits(u: UserConfig) -> bool {
    users_prechecks_pass(u) ==> u.start_index + u.count <= u32::MAX
}

/// The verdict of `validate_local_users`.
pub open spec fn local_users_verdict(u: UserConfig) -> Result<(), ConfigError> {
    if !(1 <= u.count <= 200) {
        Err(ConfigError::UserCountOutOfRange)
    } else if !valid_user_prefix(u.prefix@) {
        Err(ConfigError::InvalidUserPrefix)
    } else if !(1 <= u.number_width <= 6) {
        Err(ConfigError::NumberWidthOutOfRange)
    } else if u.password_length < 14 {
        Err(ConfigError::PasswordTooShort)
    } else if local_user_name(
        u.prefix@,
        (u.start_index + u.count - 1) as nat,
        u.number_width as nat,
    ).len() > 20 {
        Err(ConfigError::UsernameTooLong)
    } else {
        Ok(())
    }
}

pub proof fn lemma_zero_padded_len(n: nat, width: nat)
    ensures
        zero_padded(n, width).len() == if decimal(n).len() < width {
            width
        } else {
            decimal(n).len()
        },
{
}

/// The characters of a Key Pack ID without white space and hyphens.
pub fn normalize_key_pack_id(s: &[char]) -> (out: Vec<char>)
    ensures
        out@ == key_pack_normalized(s@),
{
    let mut out: Vec<char> = Vec::new();
    let n = s.len();
    let mut i: usize = 0;
    assert(s@.take(0) =~= Seq::<char>::empty());
    while i < n
        invariant
            n == s@.len(),
            i <= n,
            out@ == key_pack_normalized(s@.take(i as int)),
        decreases n - i,
    {
        let c = s[i];
        assert(s@.take(i + 1).drop_last() =~= s@.take(i as int));
        if !is_white_space_char(c) && c != '-' {
            out.push(c);
        }
        i += 1;
    }
    assert(s@.take(n as int) =~= s@);
    out
}

fn valid_user_prefix_chars(p: &[char]) -> (r: bool)
    ensures
        r == valid_user_prefix(p@),
{
    if is_blank_chars(p) {
        return false;
    }
    let n = p.len();
    let mut i: usize = 0;
    while i < n
        invariant
            n == p@.len(),
            i <= n,
            forall|k: int| 0 <= k < i ==> is_prefix_char(#[trigger] p@[k]),
        decreases n - i,
    {
        let c = p[i];
        if !(is_ascii_alphanumeric_char(c) || c == '_' || c == '-') {
            return false;
        }
        i += 1;
    }
    true
}

impl UserConfig {
    /// The checks of the local-user settings that precede the user-name
    /// length check (count, prefix, number width, password length).
    pub fn check_settings(&self) -> (r: Result<(), ConfigError>)
        ensures
            r is Ok <==> users_prechecks_pass(*self),
            r is Err ==> r == local_users_verdict(*self),
    {
        if !(1 <= self.count && self.count <= 200) {
            return Err(ConfigError::UserCountOutOfRange);
        }
        let prefix = chars_of(self.prefix.as_str());
        if !valid_user_prefix_chars(prefix.as_slice()) {
            return Err(ConfigError::InvalidUserPrefix);
        }
        if !(1 <= self.number_width && self.number_width <= 6) {
            return Err(ConfigError::NumberWidthOutOfRange);
        }
        if self.password_length < 14 {
            return Err(ConfigError::PasswordTooShort);
        }
        Ok(())
    }
}

impl AppConfig {
    /// Checks that the selected base-access actions have what they need.
    pub fn validate_base_access(&self, kms: bool, ssh: bool, rdp: bool) -> (r: Result<(), ConfigError>)
        ensures
            r == base_access_verdict(*self, kms, ssh, rdp),
            r is Ok <==> base_access_requirements_met(*self, kms, ssh, rdp),
            (ssh || rdp) && self.base.allowed_remote_addresses@.len() == 0 ==> r is Err,
    {
        proof {
            law_base_access_requirements(*self, kms, ssh, rdp);
        }
        if kms && (is_blank_chars(chars_of(self.base.windows_product_key.as_str()).as_slice())
            || is_blank_chars(chars_of(self.base.kms_server.as_str()).as_slice())) {
            return Err(ConfigError::KmsRequiresKeyAndServer);
        }
        if ssh && !is_supported_public_key(self.base.administrator_public_key.as_str()) {
            return Err(ConfigError::SshRequiresPublicKey);
        }
        if (ssh || rdp) && self.base.allowed_remote_addresses.len() == 0 {
            return Err(ConfigError::FirewallSourceRequired);
        }
        Ok(())
    }

    /// Checks that a production CAL installation has a legal entitlement
    /// and a complete activation contact.
    pub fn validate_rds_licensing(&self) -> (r: Result<(), ConfigError>)
        ensures
            r == rds_licensing_verdict(*self),
            r is Ok <==> cal_entitlement_valid(self.rds) && contact_complete(self.rds.contact),
            cal_entitlement_valid(self.rds) && !contact_complete(self.rds.contact) ==> r
                == Err::<(), ConfigError>(ConfigError::LicenseContactIncomplete),
    {
        proof {
            law_licensing_entitlement_and_contact(*self);
        }
        if self.rds.cal_count == 0 {
            return Err(ConfigError::CalCountZero);
        }
        match self.rds.cal_install_method {
            CalInstallMethod::NotSelected => {
                return Err(ConfigError::CalMethodNotSelected);
            },
            CalInstallMethod::Agreement => {
                let agreement = trim_chars(chars_of(self.rds.agreement_number.as_str()).as_slice());
                if agreement.len() != 7 || !all_ascii_digits_chars(agreement.as_slice()) {
                    return Err(ConfigError::InvalidAgreementNumber);
                }
            },
            CalInstallMethod::KeyPackId => {
                let normalized = normalize_key_pack_id(
                    chars_of(self.rds.license_key_pack_id.as_str()).as_slice(),
                );
                if normalized.len() != 35 || !all_ascii_alphanumeric_chars(normalized.as_slice()) {
                    return Err(ConfigError::InvalidKeyPackId);
                }
            },
        }
        let contact = &self.rds.contact;
        if is_blank_chars(chars_of(contact.first_name.as_str()).as_slice()) || is_blank_chars(
            chars_of(contact.last_name.as_str()).as_slice(),
        ) || is_blank_chars(chars_of(contact.company.as_str()).as_slice()) || is_blank_chars(
            chars_of(contact.country_region.as_str()).as_slice(),
        ) {
            return Err(ConfigError::LicenseContactIncomplete);
        }
        Ok(())
    }

    /// Checks the local-user settings, including the length of the last
    /// generated user name.
    pub fn validate_local_users(&self) -> (r: Result<(), ConfigError>)
        requires
            last_user_index_fits(self.users),
        ensures
            r == local_users_verdict(self.users),
    {
        let users = &self.users;
        match users.check_settings() {
            Err(e) => {
                return Err(e);
            },
            Ok(()) => {},
        }
        let prefix = chars_of(users.prefix.as_str());
        let last: u32 = users.start_index + users.count - 1;
        let digits = decimal_chars(last as u64);
        let width: usize = users.number_width as usize;
        let number_len: usize = if digits.len() < width {
            width
        } else {
            digits.len()
        };
        proof {
            lemma_zero_padded_len(last as nat, users.number_width as nat);
        }
        if prefix.len() > 20 || number_len > 20 - prefix.len() {
            return Err(ConfigError::UsernameTooLong);
        }
        Ok(())
    }
}

proof fn lemma_decimal_len_monotone(n: nat, m: nat)
    requires
        n <= m,
    ensures
        decimal(n).len() <= decimal(m).len(),
    decreases m,
{
    if m >= 10 {
        if n >= 10 {
            lemma_decimal_len_monotone(n / 10, m / 10);
        } else {
            assert(decimal(n).len() == 1);
            assert(decimal(m).len() == decimal(m / 10).len() + 1);
        }
    }
}

/// Once the local-user settings validate, every user name the task
/// generates (numbers `start_index` through `start_index + count - 1`)
/// fits the 20-character limit.
pub proof fn law_validated_user_names_fit(u: UserConfig, index: nat)
    requires
        local_users_verdict(u) is Ok,
        u.start_index <= index < u.start_index + u.count,
    ensures
        local_user_name(u.prefix@, index, u.number_width as nat).len() <= 20,
{
    let last = (u.start_index + u.count - 1) as nat;
    lemma_decimal_len_monotone(index, last);
    lemma_zero_padded_len(index, u.number_width as nat);
    lemma_zero_padded_len(last, u.number_width as nat);
}

/// The default configuration passes the local-user check and names its
/// users `user01` through `user20`; production licensing refuses it until a
/// CAL installation method is chosen.
pub proof fn law_default_configuration_creates_user01_to_user20(c: AppConfig)
    requires
        is_default_config(c),
    ensures
        local_users_verdict(c.users) == Ok::<(), ConfigError>(()),
        local_user_name(c.users.prefix@, 1, 2) == "user01"@,
        local_user_name(c.users.prefix@, 20, 2) == "user20"@,
        rds_licensing_verdict(c) == Err::<(), ConfigError>(ConfigError::CalMethodNotSelected),
{
    reveal_strlit("user");
    reveal_strlit("user01");
    reveal_strlit("user20");
    assert(decimal(2) =~= seq!['2']);
    assert(decimal(20) =~= seq!['2', '0']);
    assert(decimal(1) =~= seq!['1']);
    assert(zero_padded(1, 2) =~= seq!['0', '1']);
    assert(zero_padded(20, 2) =~= seq!['2', '0']);
    assert(local_user_name(c.users.prefix@, 1, 2) =~= "user01"@);
    assert(local_user_name(c.users.prefix@, 20, 2) =~= "user20"@);
    reveal_strlit(" ");
    assert(!is_blank(c.users.prefix@)) by {
        assert(!is_white_space(c.users.prefix@[0]));
    }
    assert(valid_user_prefix(c.users.prefix@));
}

/// What the selected base-access actions need: activation a product key
/// and a KMS server, OpenSSH a supported public key, and OpenSSH or Remote
/// Desktop at least one firewall source address.
pub open spec fn base_access_requirements_met(c: AppConfig, kms: bool, ssh: bool, rdp: bool) -> bool {
    &&& kms ==> !is_blank(c.base.windows_product_key@) && !is_blank(c.base.kms_server@)
    &&& ssh ==> supported_public_key(c.base.administrator_public_key@)
    &&& ssh || rdp ==> c.base.allowed_remote_addresses@.len() > 0
}

/// Base-access validation accepts the selection exactly when every selected
/// action has what it needs; with OpenSSH or Remote Desktop selected and no
/// firewall source address it always fails, with `FirewallSourceRequired`
/// once the activation and key checks pass; with nothing selected it
/// always passes.
pub proof fn law_base_access_requirements(c: AppConfig, kms: bool, ssh: bool, rdp: bool)
    ensures
        base_access_verdict(c, kms, ssh, rdp) is Ok <==> base_access_requirements_met(c, kms, ssh, rdp),
        (ssh || rdp) && c.base.allowed_remote_addresses@.len() == 0 ==> base_access_verdict(
            c,
            kms,
            ssh,
            rdp,
        ) is Err,
        (ssh || rdp) && c.base.allowed_remote_addresses@.len() == 0 && base_access_requirements_met(
            c,
            kms,
            ssh,
            false,
        ) ==> base_access_verdict(c, kms, ssh, rdp) == Err::<(), ConfigError>(
            ConfigError::FirewallSourceRequired,
        ),
        kms && (is_blank(c.base.windows_product_key@) || is_blank(c.base.kms_server@))
            ==> base_access_verdict(c, kms, ssh, rdp) == Err::<(), ConfigError>(
            ConfigError::KmsRequiresKeyAndServer,
        ),
        (kms ==> !is_blank(c.base.windows_product_key@) && !is_blank(c.base.kms_server@)) && ssh
            && !supported_public_key(c.base.administrator_public_key@) ==> base_access_verdict(
            c,
            kms,
            ssh,
            rdp,
        ) == Err::<(), ConfigError>(ConfigError::SshRequiresPublicKey),
        base_access_verdict(c, false, false, false) == Ok::<(), ConfigError>(()),
{
}

/// A legal CAL entitlement: a positive CAL count, an installation method,
/// and for that method an agreement number of seven digits once trimmed, or
/// a Key Pack ID of 35 letters and digits once white space and hyphens are
/// removed.
pub open spec fn cal_entitlement_valid(r: RdsConfig) -> bool {
    &&& r.cal_count > 0
    &&& r.cal_install_method != CalInstallMethod::NotSelected
    &&& r.cal_install_method == CalInstallMethod::Agreement ==> trim(r.agreement_number@).len() == 7
        && all_ascii_digits(trim(r.agreement_number@))
    &&& r.cal_install_method == CalInstallMethod::KeyPackId ==> key_pack_normalized(
        r.license_key_pack_id@,
    ).len() == 35 && all_ascii_alphanumeric(key_pack_normalized(r.license_key_pack_id@))
}

/// The contact fields that license-server activation cannot do without.
pub open spec fn contact_complete(c: LicenseContact) -> bool {
    &&& !is_blank(c.first_name@)
    &&& !is_blank(c.last_name@)
    &&& !is_blank(c.company@)
    &&& !is_blank(c.country_region@)
}

/// Production licensing is accepted exactly when the CAL entitlement is
/// legal and the first name, last name, company and country/region of the
/// activation contact are all non-blank; a legal entitlement with any of
/// them blank is refused with `LicenseContactIncomplete`, and a zero CAL
/// count is refused before anything else.
pub proof fn law_licensing_entitlement_and_contact(c: AppConfig)
    ensures
        rds_licensing_verdict(c) is Ok <==> cal_entitlement_valid(c.rds) && contact_complete(
            c.rds.contact,
        ),
        cal_entitlement_valid(c.rds) && !contact_complete(c.rds.contact) ==> rds_licensing_verdict(c)
            == Err::<(), ConfigError>(ConfigError::LicenseContactIncomplete),
        cal_entitlement_valid(c.rds) && is_blank(c.rds.contact.company@) ==> rds_licensing_verdict(c)
            == Err::<(), ConfigError>(ConfigError::LicenseContactIncomplete),
        c.rds.cal_count == 0 ==> rds_licensing_verdict(c) == Err::<(), ConfigError>(
            ConfigError::CalCountZero,
        ),
        c.rds.cal_count > 0 && c.rds.cal_install_method == CalInstallMethod::NotSelected
            ==> rds_licensing_verdict(c) == Err::<(), ConfigError>(ConfigError::CalMethodNotSelected),
        c.rds.cal_count > 0 && c.rds.cal_install_method == CalInstallMethod::Agreement && !(trim(
            c.rds.agreement_number@,
        ).len() == 7 && all_ascii_digits(trim(c.rds.agreement_number@))) ==> rds_licensing_verdict(c)
            == Err::<(), ConfigError>(ConfigError::InvalidAgreementNumber),
        c.rds.cal_count > 0 && c.rds.cal_install_method == CalInstallMethod::KeyPackId && !(
        key_pack_normalized(c.rds.license_key_pack_id@).len() == 35 && all_ascii_alphanumeric(
            key_pack_normalized(c.rds.license_key_pack_id@),
        )) ==> rds_licensing_verdict(c) == Err::<(), ConfigError>(ConfigError::InvalidKeyPackId),
{
}

/// The local-user settings are accepted exactly when 1 to 200 users are
/// asked for, the prefix is non-blank and made of ASCII letters, digits,
/// `_` and `-`, the number width is 1 to 6, passwords have at least 14
/// characters, and the name of the last user fits in 20 characters; the
/// first of these that fails, in this order, names the error.
pub proof fn law_local_user_limits(u: UserConfig)
    ensures
        !(1 <= u.count <= 200) ==> local_users_verdict(u) == Err::<(), ConfigError>(
            ConfigError::UserCountOutOfRange,
        ),
        1 <= u.count <= 200 && (is_blank(u.prefix@) || exists|i: int|
            0 <= i < u.prefix@.len() && !is_prefix_char(#[trigger] u.prefix@[i]))
            ==> local_users_verdict(u) == Err::<(), ConfigError>(ConfigError::InvalidUserPrefix),
        1 <= u.count <= 200 && valid_user_prefix(u.prefix@) && !(1 <= u.number_width <= 6)
            ==> local_users_verdict(u) == Err::<(), ConfigError>(ConfigError::NumberWidthOutOfRange),
        1 <= u.count <= 200 && valid_user_prefix(u.prefix@) && 1 <= u.number_width <= 6
            && u.password_length < 14 ==> local_users_verdict(u) == Err::<(), ConfigError>(
            ConfigError::PasswordTooShort,
        ),
        users_prechecks_pass(u) && (u.prefix@ + zero_padded(
            (u.start_index + u.count - 1) as nat,
            u.number_width as nat,
        )).len() > 20 ==> local_users_verdict(u) == Err::<(), ConfigError>(
            ConfigError::UsernameTooLong,
        ),
        local_users_verdict(u) is Ok <==> {
            &&& 1 <= u.count <= 200
            &&& !is_blank(u.prefix@)
            &&& forall|i: int| 0 <= i < u.prefix@.len() ==> is_prefix_char(#[trigger] u.prefix@[i])
            &&& 1 <= u.number_width <= 6
            &&& u.password_length >= 14
            &&& (u.prefix@ + zero_padded(
                (u.start_index + u.count - 1) as nat,
                u.number_width as nat,
            )).len() <= 20
        },
{
}

/// Normalizing a Key Pack ID works character by character: the
/// normalization of a concatenation is the concatenation of the
/// normalizations, white space and hyphens vanish, and every other character
/// stays.
pub proof fn law_key_pack_normalization(a: Seq<char>, b: Seq<char>, ch: char)
    ensures
        key_pack_normalized(a + b) == key_pack_normalized(a) + key_pack_normalized(b),
        key_pack_normalized(seq![ch]) == if is_white_space(ch) || ch == '-' {
            Seq::<char>::empty()
        } else {
            seq![ch]
        },
        forall|i: int|
            0 <= i < key_pack_normalized(a).len() ==> !is_white_space(
                #[trigger] key_pack_normalized(a)[i],
            ) && key_pack_normalized(a)[i] != '-',
        key_pack_normalized(key_pack_normalized(a)) == key_pack_normalized(a),
        key_pack_normalized(a).len() <= a.len(),
    decreases b.len(),
{
    assert(seq![ch].drop_last() =~= Seq::<char>::empty());
    lemma_key_pack_normalized_clean(a);
    if b.len() > 0 {
        law_key_pack_normalization(a, b.drop_last(), ch);
        assert((a + b).drop_last() =~= a + b.drop_last());
        assert((a + b).last() == b.last());
        assert(key_pack_normalized(a + b) =~= key_pack_normalized(a) + key_pack_normalized(b));
    } else {
        assert(a + b =~= a);
        assert(key_pack_normalized(b) =~= Seq::<char>::empty());
    }
}

proof fn lemma_key_pack_normalized_clean(a: Seq<char>)
    ensures
        forall|i: int|
            0 <= i < key_pack_normalized(a).len() ==> !is_white_space(
                #[trigger] key_pack_normalized(a)[i],
            ) && key_pack_normalized(a)[i] != '-',
        key_pack_normalized(key_pack_normalized(a)) == key_pack_normalized(a),
        key_pack_normalized(a).len() <= a.len(),
    decreases a.len(),
{
    if a.len() > 0 {
        let n0 = key_pack_normalized(a.drop_last());
        lemma_key_pack_normalized_clean(a.drop_last());
        if !(is_white_space(a.last()) || a.last() == '-') {
            let n = n0.push(a.last());
            assert(n.drop_last() =~= n0);
            assert(n.last() == a.last());
        }
    }
}

} // verus!
