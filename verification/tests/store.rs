use archbox::cli::ListArgs;
use archbox::cli::SearchArgs;
use archbox::config::Config;
use archbox::definition::DefinitionLoader;
use archbox::error::Error;
use archbox::groups::GroupManager;
use archbox::package::Dependency;
use archbox::package::DependencyType;
use archbox::package::InstallStatus;
use archbox::package::Installation;
use archbox::package::Package;
use archbox::package::PackageMetadata;
use archbox::repository::Manager;

fn metadata_with_tags(tags: Option<Vec<String>>) -> PackageMetadata {
    PackageMetadata {
        author: None,
        homepage: None,
        repository: None,
        license: None,
        tags,
        updated: None,
        size: None,
    }
}

fn base_pkg(name: &str) -> Package {
    Package {
        name: name.to_string(),
        version: "1.0.0".to_string(),
        description: format!("{} description", name),
        long_description: None,
        categories: vec![],
        dependencies: vec![],
        installation: Installation::Pacman { packages: vec![name.to_string()], flags: None },
        post_install: None,
        metadata: metadata_with_tags(None),
    }
}

fn test_config() -> Config {
    Config::new_with_dirs(Some("/home/user"), "/home/user/.config/archbox")
}

#[test]
fn add_and_get_round_trip() {
    let mut loader = DefinitionLoader::new();
    loader.add_package(base_pkg("ripgrep")).expect("valid");
    let found = loader.get_package("ripgrep").expect("present");
    assert_eq!(found.version, "1.0.0");
    assert!(loader.get_package("absent").is_none());
}

#[test]
fn adding_a_name_again_replaces_the_definition() {
    let mut loader = DefinitionLoader::new();
    loader.add_package(base_pkg("tool")).expect("valid");
    let mut newer = base_pkg("tool");
    newer.version = "2.0.0".to_string();
    loader.add_package(newer).expect("valid");
    assert_eq!(loader.packages().len(), 1);
    assert_eq!(loader.get_package("tool").expect("present").version, "2.0.0");
}

fn config_message(result: Result<(), Error>) -> String {
    match result {
        Err(Error::Config(message)) => message,
        other => panic!("expected a configuration error, got {:?}", other),
    }
}

#[test]
fn validation_rejects_empty_required_fields() {
    let loader = DefinitionLoader::new();

    let mut nameless = base_pkg("x");
    nameless.name = String::new();
    assert_eq!(
        config_message(loader.validate_package(&nameless)),
        "Package name cannot be empty"
    );

    let mut versionless = base_pkg("tool");
    versionless.version = String::new();
    assert_eq!(
        config_message(loader.validate_package(&versionless)),
        "Package tool missing version"
    );

    let mut undescribed = base_pkg("tool");
    undescribed.description = String::new();
    assert_eq!(
        config_message(loader.validate_package(&undescribed)),
        "Package tool missing description"
    );

    let mut dep_empty = base_pkg("tool");
    dep_empty.dependencies = vec![Dependency {
        name: String::new(),
        version: None,
        optional: false,
        platform: None,
        dep_type: DependencyType::Package,
    }];
    assert_eq!(
        config_message(loader.validate_package(&dep_empty)),
        "Package tool has dependency with empty name"
    );
}

#[test]
fn validation_checks_each_installation_method() {
    let loader = DefinitionLoader::new();
    let cases: Vec<(Installation, &str)> = vec![
        (
            Installation::Pacman { packages: vec![], flags: None },
            "Package tool has empty pacman packages list",
        ),
        (
            Installation::Aur { package: String::new(), helper: None },
            "Package tool has empty AUR package name",
        ),
        (
            Installation::Binary {
                url: String::new(),
                checksum: None,
                install_path: "/bin/t".to_string(),
                executable: true,
            },
            "Package tool has invalid binary installation config",
        ),
        (
            Installation::Source {
                url: String::new(),
                build_commands: vec!["make".to_string()],
                install_commands: vec!["make install".to_string()],
            },
            "Package tool has empty source URL",
        ),
        (
            Installation::Source {
                url: "https://github.com/x/y".to_string(),
                build_commands: vec![],
                install_commands: vec!["make install".to_string()],
            },
            "Package tool has empty build commands",
        ),
        (
            Installation::Source {
                url: "https://github.com/x/y".to_string(),
                build_commands: vec!["make".to_string()],
                install_commands: vec![],
            },
            "Package tool has empty install commands",
        ),
        (
            Installation::Script { script: String::new(), interpreter: "/bin/sh".to_string() },
            "Package tool has empty installation script",
        ),
        (
            Installation::AppImage { url: String::new(), checksum: None, integrate: false },
            "Package tool has empty AppImage URL",
        ),
        (
            Installation::Flatpak { id: String::new(), remote: None },
            "Package tool has empty Flatpak ID",
        ),
    ];
    for (installation, expected) in cases {
        assert_eq!(
            config_message(loader.validate_installation(&installation, "tool")),
            expected
        );
    }
}

#[test]
fn search_matches_name_description_and_tags_case_insensitively() {
    let mut loader = DefinitionLoader::new();
    let mut by_name = base_pkg("RipGrep");
    by_name.description = "fast searcher".to_string();
    loader.add_package(by_name).expect("valid");
    let mut by_desc = base_pkg("fd");
    by_desc.description = "A GREP alternative".to_string();
    loader.add_package(by_desc).expect("valid");
    let mut by_tag = base_pkg("ag");
    by_tag.description = "silver searcher".to_string();
    by_tag.metadata = metadata_with_tags(Some(vec!["Grepping".to_string()]));
    loader.add_package(by_tag).expect("valid");
    let mut unrelated = base_pkg("vlc");
    unrelated.description = "media player".to_string();
    loader.add_package(unrelated).expect("valid");

    let hits = loader.search_packages("grep");
    let names: Vec<&str> = hits.iter().map(|p| p.name.as_str()).collect();
    assert_eq!(names, vec!["RipGrep", "fd", "ag"]);
}

#[test]
fn categories_are_collected_sorted_and_unique() {
    let mut loader = DefinitionLoader::new();
    let mut a = base_pkg("a");
    a.categories = vec!["tools".to_string(), "cli".to_string()];
    loader.add_package(a).expect("valid");
    let mut b = base_pkg("b");
    b.categories = vec!["tools".to_string(), "audio".to_string()];
    loader.add_package(b).expect("valid");
    assert_eq!(loader.get_categories(), vec!["audio", "cli", "tools"]);
}

#[test]
fn packages_by_category_keeps_definition_order() {
    let mut loader = DefinitionLoader::new();
    let mut a = base_pkg("a");
    a.categories = vec!["tools".to_string()];
    loader.add_package(a).expect("valid");
    let mut b = base_pkg("b");
    b.categories = vec!["audio".to_string()];
    loader.add_package(b).expect("valid");
    let hits = loader.get_packages_by_category("tools");
    assert_eq!(hits.len(), 1);
    assert_eq!(hits[0].name, "a");
}

#[test]
fn manager_list_is_sorted_by_name() {
    let mut loader = DefinitionLoader::new();
    loader.add_package(base_pkg("zsh")).expect("valid");
    loader.add_package(base_pkg("bash")).expect("valid");
    loader.add_package(base_pkg("fish")).expect("valid");
    let manager = Manager::new(loader, test_config());
    let args = ListArgs { installed: false, available: false, category: None, verbose: false };
    let listed = manager.list_packages(&args).expect("lists");
    let names: Vec<&str> = listed.iter().map(|p| p.name.as_str()).collect();
    assert_eq!(names, vec!["bash", "fish", "zsh"]);
}

#[test]
fn manager_search_puts_exact_name_matches_first() {
    let mut loader = DefinitionLoader::new();
    let mut near = base_pkg("gitui");
    near.description = "git terminal ui".to_string();
    loader.add_package(near).expect("valid");
    let mut exact = base_pkg("git");
    exact.description = "version control".to_string();
    loader.add_package(exact).expect("valid");
    let manager = Manager::new(loader, test_config());
    let args = SearchArgs {
        query: "git".to_string(),
        description: false,
        verbose: false,
        category: None,
        installed: false,
    };
    let hits = manager.search_packages("git", &args).expect("searches");
    let names: Vec<&str> = hits.iter().map(|p| p.name.as_str()).collect();
    assert_eq!(names, vec!["git", "gitui"]);
}

#[test]
fn status_tracker_reports_recorded_statuses() {
    let mut loader = DefinitionLoader::new();
    loader.add_package(base_pkg("tool")).expect("valid");
    let mut manager = Manager::new(loader, test_config());
    assert!(!manager.is_installed("tool"));
    assert!(matches!(manager.status("tool"), InstallStatus::NotInstalled));
    manager.set_status(
        "tool",
        InstallStatus::Installed {
            version: "1.0.0".to_string(),
            installed_at: "unknown".to_string(),
        },
    );
    assert!(manager.is_installed("tool"));
    match manager.status("tool") {
        InstallStatus::Installed { version, installed_at } => {
            assert_eq!(version, "1.0.0");
            assert_eq!(installed_at, "unknown");
        }
        other => panic!("unexpected status {:?}", other),
    }
    manager.set_status("tool", InstallStatus::Error { message: "probe failed".to_string() });
    assert!(!manager.is_installed("tool"));
}

#[test]
fn probe_outputs_drive_the_native_status_check() {
    let mut loader = DefinitionLoader::new();
    let mut tool = base_pkg("tool");
    tool.installation = Installation::Pacman {
        packages: vec!["tool-core".to_string(), "tool-extra".to_string()],
        flags: None,
    };
    loader.add_package(tool).expect("valid");
    let manager = Manager::new(loader, test_config());
    let package = manager.loader.get_package("tool").expect("present").clone();

    // the first successful query decides; its second word is the version
    let probe = vec![None, Some("tool-extra 2.43.0-1\n".to_string())];
    match manager.check_package_status(&package, &probe) {
        InstallStatus::Installed { version, installed_at } => {
            assert_eq!(version, "2.43.0-1");
            assert_eq!(installed_at, "unknown");
        }
        other => panic!("unexpected status {:?}", other),
    }

    let no_hit: Vec<Option<String>> = vec![None, None];
    assert!(matches!(
        manager.check_package_status(&package, &no_hit),
        InstallStatus::NotInstalled
    ));

    // a non-native method never reports installed from a probe
    let mut scripted = base_pkg("scripted");
    scripted.installation =
        Installation::Script { script: "echo hi".to_string(), interpreter: "/bin/sh".to_string() };
    assert!(matches!(
        manager.check_package_status(&scripted, &Vec::new()),
        InstallStatus::NotInstalled
    ));
}

#[test]
fn query_output_without_a_second_word_reports_unknown() {
    let mut loader = DefinitionLoader::new();
    loader.add_package(base_pkg("tool")).expect("valid");
    let manager = Manager::new(loader, test_config());
    let package = manager.loader.get_package("tool").expect("present").clone();
    let probe = vec![Some("tool\n".to_string())];
    match manager.check_package_status(&package, &probe) {
        InstallStatus::Installed { version, .. } => assert_eq!(version, "unknown"),
        other => panic!("unexpected status {:?}", other),
    }
}

#[test]
fn updates_available_compares_versions_against_definitions() {
    let mut loader = DefinitionLoader::new();
    let mut tool = base_pkg("tool");
    tool.version = "2.0.0".to_string();
    loader.add_package(tool).expect("valid");
    loader.add_package(base_pkg("same")).expect("valid");
    let manager = Manager::new(loader, test_config());
    let installed = vec![
        ("tool".to_string(), "1.0.0".to_string()),
        ("same".to_string(), "1.0.0".to_string()),
        ("gone".to_string(), "0.1.0".to_string()),
    ];
    let updates = manager.updates_available(&installed);
    assert_eq!(updates.len(), 1);
    assert_eq!(updates[0].name, "tool");
    assert_eq!(updates[0].version, "2.0.0");
}

#[test]
fn default_groups_and_profiles_are_loaded() {
    let gm = GroupManager::new();
    assert_eq!(gm.list_groups().len(), 3);
    assert_eq!(gm.list_profiles().len(), 3);
    let dev = gm.get_group("development").expect("present");
    assert_eq!(dev.packages, vec!["neovim", "git", "rust-toolchain", "nodejs-lts"]);
    assert_eq!(dev.optional_packages, vec!["docker", "lazygit"]);
    assert!(gm.get_group("absent").is_none());
    let gamer = gm.get_profile("gamer").expect("present");
    assert_eq!(gamer.groups, vec!["gaming"]);
}

#[test]
fn profile_resolution_is_sorted_and_duplicate_free() {
    let gm = GroupManager::new();
    // content-creator pulls the media group plus discord
    let packages = gm.resolve_profile_packages("content-creator").expect("known profile");
    assert_eq!(packages, vec!["discord", "gimp", "obs-studio", "vlc"]);
    match gm.resolve_profile_packages("absent") {
        Err(Error::Config(message)) => assert_eq!(message, "Profile not found: absent"),
        other => panic!("expected the missing-profile failure, got {:?}", other),
    }
}

#[test]
fn config_paths_are_managed_without_duplicates() {
    let mut config = test_config();
    assert_eq!(
        config.package_paths,
        vec!["./data/packages", "/home/user/.config/archbox/packages", "/etc/archbox/packages"]
    );
    config.add_package_path("./extra".to_string());
    config.add_package_path("./extra".to_string());
    assert_eq!(config.package_paths.len(), 4);
    config.remove_package_path(&"./extra".to_string());
    assert_eq!(config.package_paths.len(), 3);
    config.set_aur_helper("paru".to_string());
    assert_eq!(config.aur_helper.as_deref(), Some("paru"));
    assert_eq!(
        Config::config_path("/home/user/.config/archbox"),
        "/home/user/.config/archbox/config.yaml"
    );
}

#[test]
fn default_configuration_values_match_the_documented_ones() {
    let config = Config::new_with_dirs(None, "/etc/archbox");
    assert_eq!(config.installation.binary_dir, "/usr/local/bin");
    assert!(config.installation.verify_checksums);
    assert!(config.installation.create_backups);
    assert_eq!(config.installation.download_timeout, 300);
    assert_eq!(config.repository.update_interval, 24);
    assert!(!config.repository.auto_update);
    assert_eq!(config.ui.log_level, "info");
}

#[test]
fn error_messages_name_their_kind_and_payload() {
    assert_eq!(
        Error::PackageNotFound("x".to_string()).message(),
        "Package not found: x"
    );
    assert_eq!(
        Error::CommandFailed { message: "pacman exited 1".to_string() }.message(),
        "System command failed: pacman exited 1"
    );
    assert_eq!(
        Error::Dependency("cycle".to_string()).message(),
        "Dependency error: cycle"
    );
    assert_eq!(Error::Network("timeout".to_string()).message(), "Network error: timeout");
}

#[test]
fn package_helpers_classify_dependencies() {
    let mut p = base_pkg("tool");
    p.dependencies = vec![
        Dependency {
            name: "libfoo".to_string(),
            version: None,
            optional: false,
            platform: None,
            dep_type: DependencyType::System,
        },
        Dependency {
            name: "other".to_string(),
            version: None,
            optional: true,
            platform: None,
            dep_type: DependencyType::Package,
        },
    ];
    assert!(p.is_system_package());
    assert!(p.has_optional_dependencies());
    let system = p.get_dependencies(DependencyType::System);
    assert_eq!(system.len(), 1);
    assert_eq!(system[0].name, "libfoo");
    let runtime = p.get_dependencies(DependencyType::Runtime);
    assert!(runtime.is_empty());
    let mut plain = base_pkg("plain");
    plain.installation =
        Installation::Script { script: "x".to_string(), interpreter: "/bin/sh".to_string() };
    assert!(!plain.is_system_package());
    assert!(!plain.has_optional_dependencies());
}

#[test]
fn decimal_parsing_accepts_digits_only() {
    assert_eq!(archbox::strutil::parse_u64("0"), Some(0));
    assert_eq!(archbox::strutil::parse_u64("300"), Some(300));
    assert_eq!(archbox::strutil::parse_u64("18446744073709551615"), Some(u64::MAX));
    assert_eq!(archbox::strutil::parse_u64("18446744073709551616"), None);
    assert_eq!(archbox::strutil::parse_u64(""), None);
    assert_eq!(archbox::strutil::parse_u64("12a"), None);
    assert_eq!(archbox::strutil::parse_u64("-3"), None);
}

#[test]
fn boolean_parsing_accepts_true_and_false_only() {
    assert_eq!(archbox::strutil::parse_bool("true"), Some(true));
    assert_eq!(archbox::strutil::parse_bool("false"), Some(false));
    assert_eq!(archbox::strutil::parse_bool("yes"), None);
    assert_eq!(archbox::strutil::parse_bool("True"), None);
}

#[test]
fn installed_packages_listing_follows_the_tracker() {
    let mut loader = DefinitionLoader::new();
    loader.add_package(base_pkg("a")).expect("valid");
    loader.add_package(base_pkg("b")).expect("valid");
    let mut manager = Manager::new(loader, test_config());
    assert!(manager.get_installed_packages().is_empty());
    manager.set_status(
        "b",
        InstallStatus::Installed {
            version: "1.0.0".to_string(),
            installed_at: "unknown".to_string(),
        },
    );
    let installed = manager.get_installed_packages();
    assert_eq!(installed, vec![("b".to_string(), "unknown".to_string())]);
}

#[test]
fn every_error_kind_renders_its_prefix() {
    assert_eq!(Error::Io("denied".to_string()).message(), "IO error: denied");
    assert_eq!(Error::Config("bad".to_string()).message(), "Configuration error: bad");
    assert_eq!(
        Error::InstallationFailed("no exit".to_string()).message(),
        "Installation failed: no exit"
    );
    assert_eq!(
        Error::Serialization("bad json".to_string()).message(),
        "Serialization error: bad json"
    );
    assert_eq!(Error::Yaml("bad yaml".to_string()).message(), "YAML error: bad yaml");
    assert_eq!(
        Error::PermissionDenied { operation: "chmod".to_string() }.message(),
        "Permission denied: chmod"
    );
}
