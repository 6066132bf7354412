use firstset::config::{
    is_supported_public_key, AgreementType, AppConfig, CalInstallMethod, ConfigError,
    Language, LicensingMode,
};

#[test]
fn local_users_accepts_user01_through_user20() {
    let config = AppConfig::default();
    config.validate_local_users().unwrap();
}

#[test]
fn rds_licensing_rejects_missing_entitlement() {
    let config = AppConfig::default();
    assert!(config.validate_rds_licensing().is_err());
}

#[test]
fn accepts_ed25519_administrator_key() {
    let mut config = AppConfig::default();
    config.base.administrator_public_key =
        "ssh-ed25519 AAAAC3NzaC1lZDI1NTE5AAAAITest administrator".to_owned();
    config.validate_base_access(false, true, false).unwrap();
}

#[test]
fn default_configuration_values() {
    let config = AppConfig::default();
    assert_eq!(config.ui.language, Language::SimplifiedChinese);
    assert_eq!(config.base.allowed_remote_addresses, vec!["Any".to_owned()]);
    assert_eq!(config.rds.license_server, "localhost");
    assert_eq!(config.rds.cal_install_method, CalInstallMethod::NotSelected);
    assert_eq!(config.rds.agreement_type, AgreementType::Enterprise);
    assert_eq!(config.rds.cal_product_version_id, 7);
    assert_eq!(config.rds.cal_count, 20);
    assert_eq!(config.rds.contact.country_region, "China");
    assert_eq!(config.users.prefix, "user");
    assert_eq!(config.users.count, 20);
    assert_eq!(config.users.number_width, 2);
}

#[test]
fn default_rds_licensing_needs_a_cal_method() {
    let config = AppConfig::default();
    assert_eq!(config.validate_rds_licensing(), Err(ConfigError::CalMethodNotSelected));
}

#[test]
fn enum_names_match_powershell_values() {
    assert_eq!(LicensingMode::PerDevice.as_str(), "PerDevice");
    assert_eq!(LicensingMode::PerUser.as_str(), "PerUser");
    assert_eq!(CalInstallMethod::NotSelected.as_str(), "None");
    assert_eq!(CalInstallMethod::Agreement.as_str(), "Agreement");
    assert_eq!(CalInstallMethod::KeyPackId.as_str(), "KeyPackId");
    assert_eq!(AgreementType::ServiceProvider.as_str(), "ServiceProvider");
    assert_eq!(AgreementType::ALL.len(), 6);
    assert_eq!(CalInstallMethod::ALL.len(), 3);
    assert_eq!(LicensingMode::ALL.len(), 2);
}

#[test]
fn public_key_recognition() {
    assert!(is_supported_public_key("ssh-rsa AAAAB3Nza"));
    assert!(is_supported_public_key("  ecdsa-sha2-nistp384\tKEY comment"));
    assert!(!is_supported_public_key("ssh-ed25519"));
    assert!(!is_supported_public_key("ssh-ed25519   "));
    assert!(!is_supported_public_key("ssh-dss AAAA"));
    assert!(!is_supported_public_key(""));
    assert!(!is_supported_public_key("SSH-RSA AAAA"));
}

#[test]
fn base_access_errors_in_order() {
    let mut config = AppConfig::default();
    assert_eq!(
        config.validate_base_access(true, true, true),
        Err(ConfigError::KmsRequiresKeyAndServer)
    );
    config.base.windows_product_key = "KEY".to_owned();
    config.base.kms_server = " \u{3000} ".to_owned();
    assert_eq!(
        config.validate_base_access(true, false, false),
        Err(ConfigError::KmsRequiresKeyAndServer)
    );
    config.base.kms_server = "kms.example".to_owned();
    assert_eq!(config.validate_base_access(true, false, false), Ok(()));
    config.base.administrator_public_key = "not-a-key".to_owned();
    assert_eq!(
        config.validate_base_access(false, true, false),
        Err(ConfigError::SshRequiresPublicKey)
    );
    config.base.allowed_remote_addresses.clear();
    assert_eq!(
        config.validate_base_access(false, false, true),
        Err(ConfigError::FirewallSourceRequired)
    );
    assert_eq!(config.validate_base_access(false, false, false), Ok(()));
}

fn licensed_config() -> AppConfig {
    let mut config = AppConfig::default();
    config.rds.cal_install_method = CalInstallMethod::Agreement;
    config.rds.agreement_number = " 1234567 ".to_owned();
    config.rds.contact.first_name = "Ada".to_owned();
    config.rds.contact.last_name = "Lovelace".to_owned();
    config.rds.contact.company = "Analytical".to_owned();
    config
}

#[test]
fn rds_licensing_agreement_and_key_pack_checks() {
    let mut config = licensed_config();
    assert_eq!(config.validate_rds_licensing(), Ok(()));
    config.rds.agreement_number = "123456".to_owned();
    assert_eq!(config.validate_rds_licensing(), Err(ConfigError::InvalidAgreementNumber));
    config.rds.agreement_number = "12345６7".to_owned();
    assert_eq!(config.validate_rds_licensing(), Err(ConfigError::InvalidAgreementNumber));
    config.rds.cal_install_method = CalInstallMethod::KeyPackId;
    config.rds.license_key_pack_id = "ABCDE-12345-ABCDE-12345-ABCDE-12345-ABCDE".to_owned();
    assert_eq!(config.validate_rds_licensing(), Ok(()));
    config.rds.license_key_pack_id = "ABCDE-12345-ABCDE-12345-ABCDE-12345-ABCD!".to_owned();
    assert_eq!(config.validate_rds_licensing(), Err(ConfigError::InvalidKeyPackId));
    config.rds.license_key_pack_id = "ABCDE 12345".to_owned();
    assert_eq!(config.validate_rds_licensing(), Err(ConfigError::InvalidKeyPackId));
    config.rds.cal_count = 0;
    assert_eq!(config.validate_rds_licensing(), Err(ConfigError::CalCountZero));
}

#[test]
fn rds_licensing_needs_contact() {
    let mut config = licensed_config();
    config.rds.contact.country_region = "   ".to_owned();
    assert_eq!(config.validate_rds_licensing(), Err(ConfigError::LicenseContactIncomplete));
}

#[test]
fn local_user_settings_errors() {
    let mut config = AppConfig::default();
    config.users.count = 0;
    assert_eq!(config.validate_local_users(), Err(ConfigError::UserCountOutOfRange));
    config.users.count = 201;
    assert_eq!(config.validate_local_users(), Err(ConfigError::UserCountOutOfRange));
    config.users.count = 200;
    config.users.prefix = "bad prefix".to_owned();
    assert_eq!(config.validate_local_users(), Err(ConfigError::InvalidUserPrefix));
    config.users.prefix = "  ".to_owned();
    assert_eq!(config.validate_local_users(), Err(ConfigError::InvalidUserPrefix));
    config.users.prefix = "ops_team-".to_owned();
    config.users.number_width = 7;
    assert_eq!(config.validate_local_users(), Err(ConfigError::NumberWidthOutOfRange));
    config.users.number_width = 3;
    config.users.password_length = 13;
    assert_eq!(config.validate_local_users(), Err(ConfigError::PasswordTooShort));
    config.users.password_length = 14;
    assert_eq!(config.validate_local_users(), Ok(()));
}

#[test]
fn last_user_name_length_limit() {
    let mut config = AppConfig::default();
    // "abcdefghijklmn" + "000200" is exactly 20 characters.
    config.users.prefix = "abcdefghijklmn".to_owned();
    config.users.count = 200;
    config.users.start_index = 1;
    config.users.number_width = 6;
    assert_eq!(config.validate_local_users(), Ok(()));
    config.users.prefix = "abcdefghijklmno".to_owned();
    assert_eq!(config.validate_local_users(), Err(ConfigError::UsernameTooLong));
    // A wide number counts by its digits when they exceed the width.
    config.users.prefix = "abcdefghijkl".to_owned();
    config.users.number_width = 1;
    config.users.start_index = 999_999_999;
    config.users.count = 1;
    assert_eq!(config.validate_local_users(), Err(ConfigError::UsernameTooLong));
    config.users.prefix = "abcdefghijk".to_owned();
    assert_eq!(config.validate_local_users(), Ok(()));
}

#[test]
fn error_messages() {
    assert_eq!(
        ConfigError::InvalidKeyPackId.message(),
        "the Microsoft Clearinghouse Key Pack ID must contain 35 characters"
    );
    assert_eq!(
        ConfigError::UsernameTooLong.message(),
        "generated local usernames must not exceed 20 characters"
    );
}

#[test]
fn user_settings_precheck() {
    let mut config = AppConfig::default();
    assert_eq!(config.users.check_settings(), Ok(()));
    config.users.password_length = 2;
    assert_eq!(config.users.check_settings(), Err(ConfigError::PasswordTooShort));
}
