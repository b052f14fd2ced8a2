use attic_logic::cache_commands::{
    cache_config_report, check_destroy_confirmation, confirm_destroy, configure_cache_patch, create_cache_request,
    CacheCommandError, CacheConfig, ConfigureOptions, KeypairConfig, RetentionPeriodConfig,
};

fn options() -> ConfigureOptions {
    ConfigureOptions {
        regenerate_keypair: false,
        public: false,
        private: false,
        store_dir: None,
        priority: None,
        upstream_cache_key_names: None,
        retention_period_secs: None,
        reset_retention_period: false,
    }
}

#[test]
fn new_caches_generate_their_keypair() {
    let request = create_cache_request(true, 41, "/nix/store".to_string(), vec!["cache.nixos.org-1".to_string()]);
    assert_eq!(request.keypair, KeypairConfig::Generate);
    assert!(request.is_public);
    assert_eq!(request.priority, 41);
    assert_eq!(request.store_dir, "/nix/store");
    assert_eq!(request.upstream_cache_key_names, vec!["cache.nixos.org-1"]);
}

#[test]
fn public_and_private_conflict() {
    let mut o = options();
    o.public = true;
    o.private = true;
    o.retention_period_secs = Some(60);
    o.reset_retention_period = true;
    let error = configure_cache_patch(o).unwrap_err();
    assert_eq!(error, CacheCommandError::PublicAndPrivate);
    assert_eq!(error.message(), "`--public` and `--private` cannot be set at the same time.");
}

#[test]
fn retention_settings_conflict() {
    let mut o = options();
    o.retention_period_secs = Some(60);
    o.reset_retention_period = true;
    let error = configure_cache_patch(o).unwrap_err();
    assert_eq!(error, CacheCommandError::RetentionConflict);
    assert_eq!(
        error.message(),
        "`--retention-period` and `--reset-retention-period` cannot be set at the same time."
    );
}

#[test]
fn configure_patch_sets_what_was_asked() {
    let mut o = options();
    o.private = true;
    o.regenerate_keypair = true;
    o.priority = Some(30);
    o.store_dir = Some("/nix/store".to_string());
    o.retention_period_secs = Some(86400);
    let patch = configure_cache_patch(o).unwrap();
    assert_eq!(patch.is_public, Some(false));
    assert_eq!(patch.keypair, Some(KeypairConfig::Generate));
    assert_eq!(patch.priority, Some(30));
    assert_eq!(patch.store_dir.as_deref(), Some("/nix/store"));
    assert_eq!(patch.retention_period, Some(RetentionPeriodConfig::Period(86400)));
    assert_eq!(patch.upstream_cache_key_names, None);
}

#[test]
fn configure_patch_leaves_the_rest_alone() {
    let patch = configure_cache_patch(options()).unwrap();
    assert_eq!(patch.is_public, None);
    assert_eq!(patch.keypair, None);
    assert_eq!(patch.retention_period, None);

    let mut o = options();
    o.public = true;
    o.reset_retention_period = true;
    let patch = configure_cache_patch(o).unwrap();
    assert_eq!(patch.is_public, Some(true));
    assert_eq!(patch.retention_period, Some(RetentionPeriodConfig::Global));
}

#[test]
fn retention_period_is_cut_to_32_bits() {
    let mut o = options();
    o.retention_period_secs = Some((1u64 << 32) + 5);
    let patch = configure_cache_patch(o).unwrap();
    assert_eq!(patch.retention_period, Some(RetentionPeriodConfig::Period(5)));
}

#[test]
fn destroy_needs_the_exact_name() {
    assert_eq!(check_destroy_confirmation("main", "main"), Ok(()));
    assert_eq!(
        check_destroy_confirmation("Main", "main"),
        Err(CacheCommandError::IncorrectAnswer)
    );
    assert_eq!(
        check_destroy_confirmation("", "main"),
        Err(CacheCommandError::IncorrectAnswer)
    );
    assert_eq!(
        CacheCommandError::IncorrectAnswer.message(),
        "Incorrect answer. Aborting..."
    );
}

#[test]
fn report_lists_present_fields() {
    let mut config = CacheConfig::blank();
    assert!(cache_config_report(&config).is_empty());
    config.is_public = Some(true);
    config.public_key = Some("main:AAAA".to_string());
    config.substituter_endpoint = Some("https://cache.example.com/main".to_string());
    config.api_endpoint = Some("https://cache.example.com/".to_string());
    config.store_dir = Some("/nix/store".to_string());
    config.priority = Some(-41);
    config.upstream_cache_key_names = Some(vec!["cache.nixos.org-1".to_string(), "a\"b".to_string()]);
    config.retention_period = Some(RetentionPeriodConfig::Period(3600));
    assert_eq!(
        cache_config_report(&config),
        vec![
            "               Public: true",
            "           Public Key: main:AAAA",
            "Binary Cache Endpoint: https://cache.example.com/main",
            "         API Endpoint: https://cache.example.com/",
            "      Store Directory: /nix/store",
            "             Priority: -41",
            "  Upstream Cache Keys: [\"cache.nixos.org-1\", \"a\\\"b\"]",
            "     Retention Period: 3600",
        ]
    );
    config.retention_period = Some(RetentionPeriodConfig::Global);
    config.upstream_cache_key_names = Some(vec![]);
    config.priority = Some(0);
    let report = cache_config_report(&config);
    assert_eq!(report[5], "             Priority: 0");
    assert_eq!(report[6], "  Upstream Cache Keys: []");
    assert_eq!(report[7], "     Retention Period: Global Default");
}

#[test]
fn waived_confirmation_destroys() {
    assert_eq!(confirm_destroy(true, None, "main"), Ok(()));
    assert_eq!(confirm_destroy(false, Some("main"), "main"), Ok(()));
    assert_eq!(
        confirm_destroy(false, Some("other"), "main"),
        Err(CacheCommandError::IncorrectAnswer)
    );
    assert_eq!(
        confirm_destroy(false, None, "main"),
        Err(CacheCommandError::IncorrectAnswer)
    );
}
