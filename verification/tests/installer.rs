use archbox::config::Config;
use archbox::error::Error;
use archbox::installer::Action;
use archbox::installer::InstallRun;
use archbox::installer::Installer;
use archbox::installer::PostAction;
use archbox::installer::RemovalAction;
use archbox::installer::merge_env_lines;
use archbox::installer::removal_plan;
use archbox::package::Installation;
use archbox::package::Package;
use archbox::package::PackageMetadata;
use archbox::package::PostInstall;

fn empty_metadata() -> PackageMetadata {
    PackageMetadata {
        author: None,
        homepage: None,
        repository: None,
        license: None,
        tags: None,
        updated: None,
        size: None,
    }
}

fn pkg_with(name: &str, installation: Installation) -> Package {
    Package {
        name: name.to_string(),
        version: "1.0.0".to_string(),
        description: format!("{} description", name),
        long_description: None,
        categories: vec![],
        dependencies: vec![],
        installation,
        post_install: None,
        metadata: empty_metadata(),
    }
}

fn installer() -> Installer {
    Installer::new(&Config::new_with_dirs(Some("/home/user"), "/home/user/.config/archbox"))
}

// SHA-256 of the five bytes "hello", a published reference value
const HELLO_DIGEST: &str = "2cf24dba5fb0a30e26e83b2ac5b9e29e1b161e5c1fa7425e73043362938b9824";

#[test]
fn checksum_of_known_content_matches_reference_value() {
    let ins = installer();
    assert_eq!(ins.calculate_sha256(b"hello"), HELLO_DIGEST);
}

#[test]
fn matching_checksum_passes_verification() {
    let ins = installer();
    assert!(ins.verify_download(b"hello", &Some(HELLO_DIGEST.to_string())).is_ok());
}

#[test]
fn mismatched_checksum_fails_before_any_write() {
    let ins = installer();
    let expected = "0000000000000000000000000000000000000000000000000000000000000000";
    match ins.verify_download(b"hello", &Some(expected.to_string())) {
        Err(Error::InstallationFailed(message)) => {
            assert_eq!(
                message,
                format!("Checksum mismatch. Expected: {}, Got: {}", expected, HELLO_DIGEST)
            );
        }
        other => panic!("expected a checksum failure, got {:?}", other),
    }
}

#[test]
fn absent_checksum_skips_verification() {
    let ins = installer();
    assert!(ins.verify_download(b"anything", &None).is_ok());
}

#[test]
fn pacman_plan_is_one_command_with_flags_and_packages() {
    let ins = installer();
    let package = pkg_with(
        "tools",
        Installation::Pacman {
            packages: vec!["git".to_string(), "curl".to_string()],
            flags: Some(vec!["--overwrite".to_string()]),
        },
    );
    let plan = ins.install_plan(&package, None).expect("plannable");
    assert_eq!(plan.len(), 1);
    match &plan[0] {
        Action::Command { program, args, failure } => {
            assert_eq!(program, "pacman");
            assert_eq!(args, &vec!["-S", "--needed", "--noconfirm", "--overwrite", "git", "curl"]);
            assert_eq!(failure, "Pacman installation failed: ");
        }
        other => panic!("unexpected action {:?}", other),
    }
}

#[test]
fn aur_plan_checks_the_helper_then_runs_it() {
    let ins = installer();
    let package = pkg_with(
        "editor",
        Installation::Aur { package: "editor-bin".to_string(), helper: Some("paru".to_string()) },
    );
    let plan = ins.install_plan(&package, None).expect("plannable");
    assert_eq!(plan.len(), 2);
    match &plan[0] {
        Action::EnsureCommand { name, failure } => {
            assert_eq!(name, "paru");
            assert_eq!(failure, "AUR helper 'paru' not found. Please install it first.");
        }
        other => panic!("unexpected action {:?}", other),
    }
    match &plan[1] {
        Action::Command { program, args, .. } => {
            assert_eq!(program, "paru");
            assert_eq!(args, &vec!["-S", "--needed", "--noconfirm", "editor-bin"]);
        }
        other => panic!("unexpected action {:?}", other),
    }
}

#[test]
fn aur_plan_falls_back_to_the_default_helper() {
    let ins = installer();
    let package = pkg_with(
        "editor",
        Installation::Aur { package: "editor-bin".to_string(), helper: None },
    );
    let plan = ins.install_plan(&package, None).expect("plannable");
    match &plan[0] {
        Action::EnsureCommand { name, .. } => assert_eq!(name, "yay"),
        other => panic!("unexpected action {:?}", other),
    }
}

#[test]
fn binary_plan_is_one_download() {
    let ins = installer();
    let package = pkg_with(
        "tool",
        Installation::Binary {
            url: "https://example.com/tool".to_string(),
            checksum: Some(HELLO_DIGEST.to_string()),
            install_path: "/usr/local/bin/tool".to_string(),
            executable: true,
        },
    );
    let plan = ins.install_plan(&package, None).expect("plannable");
    assert_eq!(plan.len(), 1);
    match &plan[0] {
        Action::Download { url, checksum, dest, executable } => {
            assert_eq!(url, "https://example.com/tool");
            assert_eq!(checksum.as_deref(), Some(HELLO_DIGEST));
            assert_eq!(dest, "/usr/local/bin/tool");
            assert!(*executable);
        }
        other => panic!("unexpected action {:?}", other),
    }
}

#[test]
fn source_plan_clones_then_builds_then_installs() {
    let ins = installer();
    let package = pkg_with(
        "fromsrc",
        Installation::Source {
            url: "https://github.com/example/fromsrc".to_string(),
            build_commands: vec!["make".to_string()],
            install_commands: vec!["make install".to_string()],
        },
    );
    let plan = ins.install_plan(&package, None).expect("plannable");
    assert_eq!(plan.len(), 3);
    assert!(matches!(&plan[0], Action::CloneRepo { url } if url == "https://github.com/example/fromsrc"));
    match &plan[1] {
        Action::BuildShell { command, failure } => {
            assert_eq!(command, "make");
            assert_eq!(failure, "Build command failed: make\n");
        }
        other => panic!("unexpected action {:?}", other),
    }
    match &plan[2] {
        Action::BuildShell { command, failure } => {
            assert_eq!(command, "make install");
            assert_eq!(failure, "Install command failed: make install\n");
        }
        other => panic!("unexpected action {:?}", other),
    }
}

#[test]
fn archive_sources_are_refused() {
    let ins = installer();
    let package = pkg_with(
        "fromsrc",
        Installation::Source {
            url: "https://example.com/fromsrc.tar.gz".to_string(),
            build_commands: vec!["make".to_string()],
            install_commands: vec!["make install".to_string()],
        },
    );
    match ins.install_plan(&package, None) {
        Err(Error::InstallationFailed(message)) => {
            assert_eq!(message, "Archive extraction not implemented yet");
        }
        other => panic!("expected the unsupported-archive failure, got {:?}", other),
    }
}

#[test]
fn script_plan_runs_the_script_under_its_interpreter() {
    let ins = installer();
    let package = pkg_with(
        "scripted",
        Installation::Script { script: "echo hi".to_string(), interpreter: "/bin/sh".to_string() },
    );
    let plan = ins.install_plan(&package, None).expect("plannable");
    assert_eq!(plan.len(), 1);
    assert!(matches!(&plan[0], Action::RunScript { script, interpreter }
        if script == "echo hi" && interpreter == "/bin/sh"));
}

#[test]
fn appimage_plan_targets_the_applications_directory() {
    let ins = installer();
    let package = pkg_with(
        "studio",
        Installation::AppImage {
            url: "https://example.com/studio.AppImage".to_string(),
            checksum: None,
            integrate: true,
        },
    );
    let plan = ins.install_plan(&package, Some("/home/user")).expect("plannable");
    assert_eq!(plan.len(), 2);
    match &plan[0] {
        Action::Download { dest, executable, .. } => {
            assert_eq!(dest, "/home/user/.local/share/applications/studio.AppImage");
            assert!(*executable);
        }
        other => panic!("unexpected action {:?}", other),
    }
    assert!(matches!(&plan[1], Action::IntegrateAppImage { path }
        if path == "/home/user/.local/share/applications/studio.AppImage"));
}

#[test]
fn appimage_without_home_directory_fails() {
    let ins = installer();
    let package = pkg_with(
        "studio",
        Installation::AppImage {
            url: "https://example.com/studio.AppImage".to_string(),
            checksum: None,
            integrate: false,
        },
    );
    match ins.install_plan(&package, None) {
        Err(Error::InstallationFailed(message)) => {
            assert_eq!(message, "Could not find home directory");
        }
        other => panic!("expected the home-directory failure, got {:?}", other),
    }
}

#[test]
fn flatpak_plan_defaults_the_remote() {
    let ins = installer();
    let package = pkg_with(
        "boxed",
        Installation::Flatpak { id: "org.example.Boxed".to_string(), remote: None },
    );
    let plan = ins.install_plan(&package, None).expect("plannable");
    assert_eq!(plan.len(), 2);
    assert!(matches!(&plan[0], Action::EnsureCommand { name, .. } if name == "flatpak"));
    match &plan[1] {
        Action::Command { program, args, .. } => {
            assert_eq!(program, "flatpak");
            assert_eq!(args, &vec!["install", "-y", "flathub", "org.example.Boxed"]);
        }
        other => panic!("unexpected action {:?}", other),
    }
}

#[test]
fn a_hard_failure_stops_the_run_with_the_actions_message() {
    let ins = installer();
    let package = pkg_with(
        "tools",
        Installation::Pacman { packages: vec!["git".to_string()], flags: None },
    );
    let plan = ins.install_plan(&package, None).expect("plannable");
    let mut run = InstallRun::new(plan);
    assert!(run.current().is_some());
    match run.record_outcome(false, "exit status 1") {
        Err(Error::InstallationFailed(message)) => {
            assert_eq!(message, "Pacman installation failed: exit status 1");
        }
        other => panic!("expected the hard failure, got {:?}", other),
    }
}

#[test]
fn desktop_integration_failure_is_tolerated() {
    let ins = installer();
    let package = pkg_with(
        "studio",
        Installation::AppImage {
            url: "https://example.com/studio.AppImage".to_string(),
            checksum: None,
            integrate: true,
        },
    );
    let plan = ins.install_plan(&package, Some("/home/user")).expect("plannable");
    let mut run = InstallRun::new(plan);
    run.record_outcome(true, "").expect("download succeeded");
    // the integration step fails, yet the run goes on
    run.record_outcome(false, "no desktop").expect("best-effort step never aborts");
    assert!(run.current().is_none());
}

#[test]
fn post_install_actions_follow_definition_order() {
    let ins = installer();
    let post = PostInstall {
        commands: Some(vec!["ldconfig".to_string()]),
        config_files: Some(vec![("~/.toolrc".to_string(), "key=value".to_string())]),
        enable_services: Some(vec!["toold".to_string()]),
        user_groups: Some(vec!["tools".to_string()]),
        environment: Some(vec![("TOOL_HOME".to_string(), "/opt/tool".to_string())]),
    };
    let actions = ins.run_post_install(&post, "alice");
    assert_eq!(actions.len(), 5);
    assert!(matches!(&actions[0], PostAction::ShellCommand { command } if command == "ldconfig"));
    assert!(matches!(&actions[1], PostAction::WriteConfigFile { path, content }
        if path == "~/.toolrc" && content == "key=value"));
    assert!(matches!(&actions[2], PostAction::EnableService { service } if service == "toold"));
    assert!(matches!(&actions[3], PostAction::AddUserToGroup { group, username }
        if group == "tools" && username == "alice"));
    match &actions[4] {
        PostAction::SetEnvironment { vars } => {
            assert_eq!(vars.len(), 1);
            assert_eq!(vars[0].0, "TOOL_HOME");
            assert_eq!(vars[0].1, "/opt/tool");
        }
        other => panic!("unexpected action {:?}", other),
    }
}

#[test]
fn empty_post_install_produces_no_actions() {
    let ins = installer();
    let post = PostInstall {
        commands: None,
        config_files: None,
        enable_services: None,
        user_groups: None,
        environment: None,
    };
    assert!(ins.run_post_install(&post, "alice").is_empty());
}

#[test]
fn merge_env_lines_appends_only_missing_lines() {
    let existing = "export PATH=\"/usr/bin\"\nexport TOOL_HOME=\"/opt/tool\"\n";
    let vars = vec![
        ("TOOL_HOME".to_string(), "/opt/tool".to_string()),
        ("TOOL_CACHE".to_string(), "/var/tool".to_string()),
    ];
    let merged = merge_env_lines(existing, &vars);
    assert_eq!(
        merged,
        "export PATH=\"/usr/bin\"\nexport TOOL_HOME=\"/opt/tool\"\nexport TOOL_CACHE=\"/var/tool\"\n"
    );
}

#[test]
fn merging_twice_changes_nothing_more() {
    let vars = vec![("A".to_string(), "1".to_string())];
    let once = merge_env_lines("", &vars);
    let twice = merge_env_lines(&once, &vars);
    assert_eq!(once, twice);
}

#[test]
fn removal_plans_invert_each_supported_method() {
    let pacman = pkg_with(
        "tools",
        Installation::Pacman { packages: vec!["git".to_string()], flags: None },
    );
    match removal_plan(&pacman, true).expect("supported") {
        RemovalAction::Command { program, args, .. } => {
            assert_eq!(program, "pacman");
            assert_eq!(args, vec!["-R", "--noconfirm", "-s", "git"]);
        }
        other => panic!("unexpected removal {:?}", other),
    }
    match removal_plan(&pacman, false).expect("supported") {
        RemovalAction::Command { args, .. } => {
            assert_eq!(args, vec!["-R", "--noconfirm", "git"]);
        }
        other => panic!("unexpected removal {:?}", other),
    }
    let flatpak = pkg_with(
        "boxed",
        Installation::Flatpak { id: "org.example.Boxed".to_string(), remote: None },
    );
    match removal_plan(&flatpak, false).expect("supported") {
        RemovalAction::Command { program, args, .. } => {
            assert_eq!(program, "flatpak");
            assert_eq!(args, vec!["uninstall", "-y", "org.example.Boxed"]);
        }
        other => panic!("unexpected removal {:?}", other),
    }
    let binary = pkg_with(
        "tool",
        Installation::Binary {
            url: "https://example.com/tool".to_string(),
            checksum: None,
            install_path: "/usr/local/bin/tool".to_string(),
            executable: true,
        },
    );
    match removal_plan(&binary, false).expect("supported") {
        RemovalAction::DeleteFile { path } => assert_eq!(path, "/usr/local/bin/tool"),
        other => panic!("unexpected removal {:?}", other),
    }
}

#[test]
fn removal_of_unsupported_methods_is_an_explicit_error() {
    let scripted = pkg_with(
        "scripted",
        Installation::Script { script: "echo hi".to_string(), interpreter: "/bin/sh".to_string() },
    );
    match removal_plan(&scripted, false) {
        Err(Error::InstallationFailed(message)) => {
            assert_eq!(message, "Removal not implemented for this installation method");
        }
        other => panic!("expected the unsupported-removal failure, got {:?}", other),
    }
}
