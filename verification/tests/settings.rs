use office_convert_lambda::aws::{fallback_region, force_path_style_env};
use office_convert_lambda::environment::{archive_path, directories, unpack_path, variables};

#[test]
fn path_style_is_asked_for_by_true() {
    assert!(force_path_style_env(Some("true".to_string())));
    for value in ["", "True", "1", "true ", "false"] {
        assert!(!force_path_style_env(Some(value.to_string())));
    }
    assert!(!force_path_style_env(None));
}

#[test]
fn region_has_a_fallback() {
    assert_eq!(fallback_region(), "ap-southeast-2");
}

#[test]
fn libreoffice_environment() {
    assert_eq!(archive_path(), "/opt/libreoffice-layer.tar.zst");
    assert_eq!(unpack_path(), "/tmp");
    assert_eq!(directories(), vec!["/tmp/lo_home", "/tmp/lo_profile"]);
    let variables = variables();
    assert_eq!(variables.len(), 13);
    assert_eq!(variables[0], ("LIBREOFFICE_PATH", "/tmp/opt/libreoffice25.8"));
    assert_eq!(variables[2], ("LIBREOFFICE_SDK_PATH", "/tmp/opt/libreoffice25.8/program"));
    assert_eq!(
        variables[3],
        ("LD_LIBRARY_PATH", "/tmp/opt/libreoffice25.8/program:/tmp/opt/lib64:/usr/lib64")
    );
    assert_eq!(variables[9], ("UserInstallation", "file:///tmp/lo_profile"));
    assert_eq!(variables[12], ("FONTCONFIG_FILE", "/tmp/opt/etc/fonts/fonts.conf"));
}
