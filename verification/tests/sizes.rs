use manifest_synthesis::SynthesisError;
use manifest_synthesis::config::ContainerConfig;

#[test]
fn memory_limit_with_mega_unit() {
    assert_eq!(
        ContainerConfig::parse_from_memory_string("10M"),
        Ok(10 * 1024 * 1024)
    );
}

#[test]
fn memory_limit_with_giga_unit() {
    assert_eq!(
        ContainerConfig::parse_from_memory_string("1G"),
        Ok(1024 * 1024 * 1024)
    );
}

#[test]
fn memory_limit_without_unit() {
    assert_eq!(ContainerConfig::parse_from_memory_string("5"), Ok(5));
}

#[test]
fn memory_limit_with_kilo_unit_lowercase() {
    assert_eq!(ContainerConfig::parse_from_memory_string("512k"), Ok(512 * 1024));
}

#[test]
fn memory_limit_with_unrecognized_unit_letter() {
    assert_eq!(ContainerConfig::parse_from_memory_string("12q"), Ok(12));
}

#[test]
fn memory_limit_rejects_empty_input() {
    assert_eq!(
        ContainerConfig::parse_from_memory_string(""),
        Err(SynthesisError::InvalidSizeFormat)
    );
}

#[test]
fn memory_limit_rejects_bare_unit() {
    assert_eq!(
        ContainerConfig::parse_from_memory_string("g"),
        Err(SynthesisError::InvalidSizeFormat)
    );
}

#[test]
fn memory_limit_rejects_non_numeric_part() {
    assert_eq!(
        ContainerConfig::parse_from_memory_string("12a4M"),
        Err(SynthesisError::InvalidSizeFormat)
    );
}

#[test]
fn memory_limit_rejects_overflowing_value() {
    assert_eq!(
        ContainerConfig::parse_from_memory_string("99999999999999999999"),
        Err(SynthesisError::InvalidSizeFormat)
    );
    assert_eq!(
        ContainerConfig::parse_from_memory_string("18446744073709551615G"),
        Err(SynthesisError::InvalidSizeFormat)
    );
}

#[test]
fn storage_size_with_mega_unit() {
    assert_eq!(ContainerConfig::parse_from_storage_string("10M"), "10Mi");
}

#[test]
fn storage_size_other_units() {
    assert_eq!(ContainerConfig::parse_from_storage_string("2k"), "2Ki");
    assert_eq!(ContainerConfig::parse_from_storage_string("3G"), "3Gi");
    assert_eq!(ContainerConfig::parse_from_storage_string("7"), "7");
}

#[test]
fn storage_size_defaults_to_one_gi() {
    assert_eq!(ContainerConfig::default_storage(), "1Gi");
    let config = ContainerConfig::default();
    assert_eq!(config.kubernetes_storage_size(), "1Gi");
    assert_eq!(config.memory_limit(), None);
    assert!(!config.kubernetes_storage_enable());
}

#[test]
fn container_config_keeps_its_fields() {
    let config = ContainerConfig::new(Some(1048576), String::from("2Gi"), true);
    assert_eq!(config.memory_limit(), Some(1048576));
    assert_eq!(config.kubernetes_storage_size(), "2Gi");
    assert!(config.kubernetes_storage_enable());
}
