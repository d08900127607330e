use runb::conf::ConfigError;
use runb::conf::ConfigFile;

#[test]
fn test_conf_validate() {
    let cases = vec![
        (
            true,
            ConfigFile {
                version: "v0".to_string(),
            },
        ),
        (
            false,
            ConfigFile {
                version: "v".to_string(),
            },
        ),
        (
            false,
            ConfigFile {
                version: "".to_string(),
            },
        ),
        (
            false,
            ConfigFile {
                version: "V".to_string(),
            },
        ),
        (
            false,
            ConfigFile {
                version: "v1".to_string(),
            },
        ),
    ];
    for (should_succeed, conf) in cases.iter() {
        let res = conf.validate();
        let success = res.is_ok();
        assert_eq!(*should_succeed, success, "version={:?}", conf.version,);
    }
}

#[test]
fn invalid_version_reports_bad_version() {
    let conf = ConfigFile { version: "v1".to_string() };
    assert_eq!(conf.validate(), Err(ConfigError::BadVersion));
}

#[test]
fn app_setup_builds() {
    let _app = runb::app::App::setup();
}
