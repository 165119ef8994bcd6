use archbox::cli::InstallArgs;
use archbox::config::Config;
use archbox::definition::DefinitionLoader;
use archbox::error::Error;
use archbox::installer::Action;
use archbox::installer::InstallRun;
use archbox::installer::Installer;
use archbox::package::Dependency;
use archbox::package::DependencyType;
use archbox::package::Installation;
use archbox::package::Package;
use archbox::package::PackageMetadata;
use archbox::repository::Manager;

fn empty_metadata() -> PackageMetadata {
    PackageMetadata {
        author: None,
        homepage: None,
        repository: None,
        license: None,
        tags: None,
        updated: None,
        size: None,
    }
}

fn pkg_dep(name: &str, optional: bool) -> Dependency {
    Dependency {
        name: name.to_string(),
        version: None,
        optional,
        platform: None,
        dep_type: DependencyType::Package,
    }
}

fn sys_dep(name: &str) -> Dependency {
    Dependency {
        name: name.to_string(),
        version: None,
        optional: false,
        platform: None,
        dep_type: DependencyType::System,
    }
}

fn pacman_pkg(name: &str, deps: Vec<Dependency>) -> Package {
    Package {
        name: name.to_string(),
        version: "1.0.0".to_string(),
        description: format!("{} description", name),
        long_description: None,
        categories: vec![],
        dependencies: deps,
        installation: Installation::Pacman { packages: vec![name.to_string()], flags: None },
        post_install: None,
        metadata: empty_metadata(),
    }
}

fn test_config() -> Config {
    Config::new_with_dirs(Some("/home/user"), "/home/user/.config/archbox")
}

fn manager_with(packages: Vec<Package>) -> Manager {
    let mut loader = DefinitionLoader::new();
    for p in packages {
        loader.add_package(p).expect("definition should validate");
    }
    Manager::new(loader, test_config())
}

fn names(resolved: &[Package]) -> Vec<String> {
    resolved.iter().map(|p| p.name.clone()).collect()
}

#[test]
fn resolves_chain_with_dependencies_first() {
    let manager = manager_with(vec![
        pacman_pkg("a", vec![pkg_dep("b", false)]),
        pacman_pkg("b", vec![pkg_dep("c", false)]),
        pacman_pkg("c", vec![]),
    ]);
    let resolved = manager.resolve_packages(&vec!["a".to_string()]).expect("acyclic set resolves");
    assert_eq!(names(&resolved), vec!["c", "b", "a"]);
}

#[test]
fn resolves_each_package_exactly_once() {
    // a and b share the dependency c; it must appear once, before both
    let manager = manager_with(vec![
        pacman_pkg("a", vec![pkg_dep("c", false)]),
        pacman_pkg("b", vec![pkg_dep("c", false)]),
        pacman_pkg("c", vec![]),
    ]);
    let resolved = manager
        .resolve_packages(&vec!["a".to_string(), "b".to_string()])
        .expect("acyclic set resolves");
    assert_eq!(names(&resolved), vec!["c", "a", "b"]);
}

#[test]
fn requested_order_drives_independent_subtrees() {
    let manager = manager_with(vec![pacman_pkg("x", vec![]), pacman_pkg("y", vec![])]);
    let resolved = manager
        .resolve_packages(&vec!["y".to_string(), "x".to_string()])
        .expect("acyclic set resolves");
    assert_eq!(names(&resolved), vec!["y", "x"]);
}

#[test]
fn cycle_fails_with_dependency_error_naming_a_cycle_member() {
    let manager = manager_with(vec![
        pacman_pkg("a", vec![pkg_dep("b", false)]),
        pacman_pkg("b", vec![pkg_dep("a", false)]),
    ]);
    match manager.resolve_packages(&vec!["a".to_string()]) {
        Err(Error::Dependency(message)) => {
            assert!(message.starts_with("Circular dependency detected: "));
            assert!(message.contains("a") || message.contains("b"));
        }
        other => panic!("expected a dependency error, got {:?}", other.map(|v| names(&v))),
    }
}

#[test]
fn missing_package_fails_with_package_not_found() {
    let manager = manager_with(vec![pacman_pkg("a", vec![])]);
    match manager.resolve_packages(&vec!["x".to_string()]) {
        Err(Error::PackageNotFound(name)) => assert_eq!(name, "x"),
        other => panic!("expected a lookup failure, got {:?}", other.map(|v| names(&v))),
    }
}

#[test]
fn missing_dependency_fails_with_package_not_found() {
    let manager = manager_with(vec![pacman_pkg("a", vec![pkg_dep("ghost", false)])]);
    match manager.resolve_packages(&vec!["a".to_string()]) {
        Err(Error::PackageNotFound(name)) => assert_eq!(name, "ghost"),
        other => panic!("expected a lookup failure, got {:?}", other.map(|v| names(&v))),
    }
}

#[test]
fn optional_dependencies_are_not_pulled_in() {
    let manager = manager_with(vec![
        pacman_pkg("a", vec![pkg_dep("extra", true)]),
        pacman_pkg("extra", vec![]),
    ]);
    let resolved = manager.resolve_packages(&vec!["a".to_string()]).expect("resolves");
    assert_eq!(names(&resolved), vec!["a"]);
}

#[test]
fn optional_dependency_included_when_requested_itself() {
    let manager = manager_with(vec![
        pacman_pkg("a", vec![pkg_dep("extra", true)]),
        pacman_pkg("extra", vec![]),
    ]);
    let resolved = manager
        .resolve_packages(&vec!["a".to_string(), "extra".to_string()])
        .expect("resolves");
    assert_eq!(names(&resolved), vec!["a", "extra"]);
}

#[test]
fn system_dependencies_do_not_enter_resolution() {
    let manager = manager_with(vec![pacman_pkg("a", vec![sys_dep("libfoo")])]);
    let resolved = manager.resolve_packages(&vec!["a".to_string()]).expect("resolves");
    assert_eq!(names(&resolved), vec!["a"]);
}

#[test]
fn one_batched_system_dependency_call_per_package() {
    let manager = manager_with(vec![pacman_pkg(
        "a",
        vec![sys_dep("libfoo"), sys_dep("libbar"), sys_dep("libbaz")],
    )]);
    let package = manager.loader.get_package("a").expect("present").clone();
    let (program, args) = manager
        .install_system_dependencies(&package)
        .expect("has system dependencies");
    assert_eq!(program, "pacman");
    assert_eq!(
        args,
        vec!["-S", "--needed", "--noconfirm", "libfoo", "libbar", "libbaz"]
    );
}

#[test]
fn no_system_dependency_call_without_system_dependencies() {
    let manager = manager_with(vec![pacman_pkg("a", vec![])]);
    let package = manager.loader.get_package("a").expect("present").clone();
    assert!(manager.install_system_dependencies(&package).is_none());
}

#[test]
fn end_to_end_stubbed_install_marks_both_installed_in_order() {
    // definitions: a depends on b; both install through the native manager
    let a = Package {
        name: "a".to_string(),
        version: "1.0.0".to_string(),
        description: "a description".to_string(),
        long_description: None,
        categories: vec![],
        dependencies: vec![pkg_dep("b", false)],
        installation: Installation::Pacman { packages: vec!["git".to_string()], flags: None },
        post_install: None,
        metadata: empty_metadata(),
    };
    let b = Package {
        name: "b".to_string(),
        version: "1.0.0".to_string(),
        description: "b description".to_string(),
        long_description: None,
        categories: vec![],
        dependencies: vec![],
        installation: Installation::Pacman { packages: vec!["curl".to_string()], flags: None },
        post_install: None,
        metadata: empty_metadata(),
    };
    let mut manager = manager_with(vec![a, b]);
    let args = InstallArgs { packages: vec!["a".to_string()], yes: true, dry_run: false, force: false };
    let resolved = manager.resolve_packages(&args.packages).expect("resolves");
    assert_eq!(names(&resolved), vec!["b", "a"]);

    let installer = Installer::new(&test_config());
    let mut order_installed: Vec<String> = Vec::new();
    for package in &resolved {
        if manager.should_skip_install(&package.name, args.force) {
            continue;
        }
        // a stub native manager that always succeeds: every batched system
        // dependency call and every planned action reports success
        if let Some((_program, _cmd_args)) = manager.install_system_dependencies(package) {
            // stub: succeeded
        }
        let plan = installer.install_plan(package, Some("/home/user")).expect("plannable");
        let mut run = InstallRun::new(plan);
        while let Some(action) = run.current() {
            match action {
                Action::Command { program, .. } => assert_eq!(program, "pacman"),
                other => panic!("unexpected action in a native-manager plan: {:?}", kind_of(other)),
            }
            run.record_outcome(true, "").expect("stub succeeds");
        }
        manager.finish_install(package);
        order_installed.push(package.name.clone());
    }
    assert_eq!(order_installed, vec!["b", "a"]);
    assert!(manager.is_installed("a"));
    assert!(manager.is_installed("b"));
}

fn kind_of(action: &Action) -> &'static str {
    match action {
        Action::Command { .. } => "command",
        Action::BuildShell { .. } => "build-shell",
        Action::EnsureCommand { .. } => "ensure-command",
        Action::Download { .. } => "download",
        Action::CloneRepo { .. } => "clone",
        Action::RunScript { .. } => "script",
        Action::IntegrateAppImage { .. } => "integrate",
    }
}

#[test]
fn forced_install_ignores_installed_state() {
    let mut manager = manager_with(vec![pacman_pkg("a", vec![])]);
    let package = manager.loader.get_package("a").expect("present").clone();
    manager.finish_install(&package);
    assert!(manager.should_skip_install("a", false));
    assert!(!manager.should_skip_install("a", true));
}
