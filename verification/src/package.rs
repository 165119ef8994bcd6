//! The package data model: definitions, dependencies, installation methods,
//! post-install actions, metadata, and per-package installation status.

use vstd::prelude::*;

verus! {

/// Kinds of dependencies. Only `Package` dependencies take part in recursive
/// resolution; `System` dependencies are installed as one batch just before
/// their owning package; `Runtime` and `Build` are recorded but do not gate
/// installation order.
#[derive(Clone, Copy, Debug, PartialEq, Eq, Structural)]
pub enum DependencyType {
    System,
    Package,
    Runtime,
    Build,
}

impl Default for DependencyType {
    /// The default kind is `System`.
    fn default() -> (r: Self)
        ensures
            r == DependencyType::System,
    {
        DependencyType::System
    }
}

/// A dependency on another package, referenced by name.
#[derive(Debug)]
pub struct Dependency {
    pub name: String,
    /// Informational only; version constraints are not evaluated.
    pub version: Option<String>,
    /// Optional dependencies are never resolved automatically.
    pub optional: bool,
    pub platform: Option<String>,
    pub dep_type: DependencyType,
}

/// The mathematical value of a `Dependency`.
pub ghost struct DependencyV {
    pub name: Seq<char>,
    pub version: Option<Seq<char>>,
    pub optional: bool,
    pub platform: Option<Seq<char>>,
    pub dep_type: DependencyType,
}

impl View for Dependency {
    type V = DependencyV;

    open spec fn view(&self) -> DependencyV {
        DependencyV {
            name: self.name@,
            version: self.version.deep_view(),
            optional: self.optional,
            platform: self.platform.deep_view(),
            dep_type: self.dep_type,
        }
    }
}

impl DeepView for Dependency {
    type V = DependencyV;

    open spec fn deep_view(&self) -> DependencyV {
        self.view()
    }
}

/// Clones an optional string, keeping its value.
pub fn clone_opt_string(v: &Option<String>) -> (r: Option<String>)
    ensures
        r.deep_view() == v.deep_view(),
{
    match v {
        Option::Some(s) => Option::Some(s.clone()),
        Option::None => Option::None,
    }
}

/// Clones a vector of strings, keeping its value.
pub fn clone_string_vec(v: &Vec<String>) -> (r: Vec<String>)
    ensures
        r.deep_view() == v.deep_view(),
{
    let r = v.clone();
    proof {
        assert(r.deep_view() =~= v.deep_view());
    }
    r
}

/// Clones an optional vector of strings, keeping its value.
pub fn clone_opt_string_vec(v: &Option<Vec<String>>) -> (r: Option<Vec<String>>)
    ensures
        r.deep_view() == v.deep_view(),
{
    match v {
        Option::Some(s) => Option::Some(clone_string_vec(s)),
        Option::None => Option::None,
    }
}

impl Clone for Dependency {
    fn clone(&self) -> (res: Self)
        ensures
            res@ == self@,
    {
        Dependency {
            name: self.name.clone(),
            version: clone_opt_string(&self.version),
            optional: self.optional,
            platform: clone_opt_string(&self.platform),
            dep_type: self.dep_type,
        }
    }
}

/// Installation methods: a closed variant set, each self-validating at load
/// time (non-empty required fields).
#[derive(Debug)]
pub enum Installation {
    /// Install through the native package manager.
    Pacman { packages: Vec<String>, flags: Option<Vec<String>> },
    /// Install through a user-repository helper.
    Aur { package: String, helper: Option<String> },
    /// Download a binary and place it at a path.
    Binary { url: String, checksum: Option<String>, install_path: String, executable: bool },
    /// Clone sources and run build then install commands.
    Source { url: String, build_commands: Vec<String>, install_commands: Vec<String> },
    /// Run an installation script under an interpreter.
    Script { script: String, interpreter: String },
    /// Download a portable application image, optionally integrating it.
    AppImage { url: String, checksum: Option<String>, integrate: bool },
    /// Install a sandboxed application bundle by identifier.
    Flatpak { id: String, remote: Option<String> },
}

/// The mathematical value of an `Installation`.
pub ghost enum InstallationV {
    Pacman { packages: Seq<Seq<char>>, flags: Option<Seq<Seq<char>>> },
    Aur { package: Seq<char>, helper: Option<Seq<char>> },
    Binary { url: Seq<char>, checksum: Option<Seq<char>>, install_path: Seq<char>, executable: bool },
    Source { url: Seq<char>, build_commands: Seq<Seq<char>>, install_commands: Seq<Seq<char>> },
    Script { script: Seq<char>, interpreter: Seq<char> },
    AppImage { url: Seq<char>, checksum: Option<Seq<char>>, integrate: bool },
    Flatpak { id: Seq<char>, remote: Option<Seq<char>> },
}

impl View for Installation {
    type V = InstallationV;

    open spec fn view(&self) -> InstallationV {
        match self {
            Installation::Pacman { packages, flags } => InstallationV::Pacman {
                packages: packages.deep_view(),
                flags: flags.deep_view(),
            },
            Installation::Aur { package, helper } => InstallationV::Aur {
                package: package@,
                helper: helper.deep_view(),
            },
            Installation::Binary { url, checksum, install_path, executable } => InstallationV::Binary {
                url: url@,
                checksum: checksum.deep_view(),
                install_path: install_path@,
                executable: *executable,
            },
            Installation::Source { url, build_commands, install_commands } => InstallationV::Source {
                url: url@,
                build_commands: build_commands.deep_view(),
                install_commands: install_commands.deep_view(),
            },
            Installation::Script { script, interpreter } => InstallationV::Script {
                script: script@,
                interpreter: interpreter@,
            },
            Installation::AppImage { url, checksum, integrate } => InstallationV::AppImage {
                url: url@,
                checksum: checksum.deep_view(),
                integrate: *integrate,
            },
            Installation::Flatpak { id, remote } => InstallationV::Flatpak {
                id: id@,
                remote: remote.deep_view(),
            },
        }
    }
}

impl DeepView for Installation {
    type V = InstallationV;

    open spec fn deep_view(&self) -> InstallationV {
        self.view()
    }
}

impl Clone for Installation {
    fn clone(&self) -> (res: Self)
        ensures
            res@ == self@,
    {
        match self {
            Installation::Pacman { packages, flags } => Installation::Pacman {
                packages: clone_string_vec(packages),
                flags: clone_opt_string_vec(flags),
            },
            Installation::Aur { package, helper } => Installation::Aur {
                package: package.clone(),
                helper: clone_opt_string(helper),
            },
            Installation::Binary { url, checksum, install_path, executable } => Installation::Binary {
                url: url.clone(),
                checksum: clone_opt_string(checksum),
                install_path: install_path.clone(),
                executable: *executable,
            },
            Installation::Source { url, build_commands, install_commands } => Installation::Source {
                url: url.clone(),
                build_commands: clone_string_vec(build_commands),
                install_commands: clone_string_vec(install_commands),
            },
            Installation::Script { script, interpreter } => Installation::Script {
                script: script.clone(),
                interpreter: interpreter.clone(),
            },
            Installation::AppImage { url, checksum, integrate } => Installation::AppImage {
                url: url.clone(),
                checksum: clone_opt_string(checksum),
                integrate: *integrate,
            },
            Installation::Flatpak { id, remote } => Installation::Flatpak {
                id: id.clone(),
                remote: clone_opt_string(remote),
            },
        }
    }
}

/// Best-effort configuration applied after a strategy succeeds. Individual
/// failures are reported, never abort the owning install.
#[derive(Debug)]
pub struct PostInstall {
    pub commands: Option<Vec<String>>,
    /// Pairs of configuration-file path and content.
    pub config_files: Option<Vec<(String, String)>>,
    pub enable_services: Option<Vec<String>>,
    pub user_groups: Option<Vec<String>>,
    /// Pairs of environment-variable name and value.
    pub environment: Option<Vec<(String, String)>>,
}

/// The mathematical value of a `PostInstall`.
pub ghost struct PostInstallV {
    pub commands: Option<Seq<Seq<char>>>,
    pub config_files: Option<Seq<(Seq<char>, Seq<char>)>>,
    pub enable_services: Option<Seq<Seq<char>>>,
    pub user_groups: Option<Seq<Seq<char>>>,
    pub environment: Option<Seq<(Seq<char>, Seq<char>)>>,
}

impl View for PostInstall {
    type V = PostInstallV;

    open spec fn view(&self) -> PostInstallV {
        PostInstallV {
            commands: self.commands.deep_view(),
            config_files: self.config_files.deep_view(),
            enable_services: self.enable_services.deep_view(),
            user_groups: self.user_groups.deep_view(),
            environment: self.environment.deep_view(),
        }
    }
}

impl DeepView for PostInstall {
    type V = PostInstallV;

    open spec fn deep_view(&self) -> PostInstallV {
        self.view()
    }
}

/// Clones a vector of string pairs, keeping its value.
pub fn clone_pair_vec(v: &Vec<(String, String)>) -> (r: Vec<(String, String)>)
    ensures
        r.deep_view() == v.deep_view(),
{
    let mut r: Vec<(String, String)> = Vec::new();
    let mut i: usize = 0;
    while i < v.len()
        invariant
            i <= v.len(),
            r@.len() == i as int,
            forall|j: int| 0 <= j < i ==> r.deep_view()[j] == v.deep_view()[j],
        decreases v.len() - i,
    {
        let ghost pre = r@;
        let pair = (v[i].0.clone(), v[i].1.clone());
        r.push(pair);
        proof {
            assert forall|j: int| 0 <= j < i + 1 implies r.deep_view()[j] == v.deep_view()[j] by {
                if j < i {
                    assert(r@[j] == pre[j]);
                    assert(r.deep_view()[j] == r@[j].deep_view());
                } else {
                    assert(r@[j].deep_view() == v@[i as int].deep_view());
                }
            }
        }
        i = i + 1;
    }
    proof {
        assert(r.deep_view() =~= v.deep_view());
    }
    r
}

/// Clones an optional vector of string pairs, keeping its value.
pub fn clone_opt_pair_vec(v: &Option<Vec<(String, String)>>) -> (r: Option<Vec<(String, String)>>)
    ensures
        r.deep_view() == v.deep_view(),
{
    match v {
        Option::Some(s) => Option::Some(clone_pair_vec(s)),
        Option::None => Option::None,
    }
}

impl Clone for PostInstall {
    fn clone(&self) -> (res: Self)
        ensures
            res@ == self@,
    {
        PostInstall {
            commands: clone_opt_string_vec(&self.commands),
            config_files: clone_opt_pair_vec(&self.config_files),
            enable_services: clone_opt_string_vec(&self.enable_services),
            user_groups: clone_opt_string_vec(&self.user_groups),
            environment: clone_opt_pair_vec(&self.environment),
        }
    }
}

/// Descriptive metadata; none of it drives resolution or installation.
#[derive(Debug)]
pub struct PackageMetadata {
    pub author: Option<String>,
    pub homepage: Option<String>,
    pub repository: Option<String>,
    pub license: Option<String>,
    pub tags: Option<Vec<String>>,
    pub updated: Option<String>,
    pub size: Option<String>,
}

/// The mathematical value of a `PackageMetadata`.
pub ghost struct PackageMetadataV {
    pub author: Option<Seq<char>>,
    pub homepage: Option<Seq<char>>,
    pub repository: Option<Seq<char>>,
    pub license: Option<Seq<char>>,
    pub tags: Option<Seq<Seq<char>>>,
    pub updated: Option<Seq<char>>,
    pub size: Option<Seq<char>>,
}

impl View for PackageMetadata {
    type V = PackageMetadataV;

    open spec fn view(&self) -> PackageMetadataV {
        PackageMetadataV {
            author: self.author.deep_view(),
            homepage: self.homepage.deep_view(),
            repository: self.repository.deep_view(),
            license: self.license.deep_view(),
            tags: self.tags.deep_view(),
            updated: self.updated.deep_view(),
            size: self.size.deep_view(),
        }
    }
}

impl DeepView for PackageMetadata {
    type V = PackageMetadataV;

    open spec fn deep_view(&self) -> PackageMetadataV {
        self.view()
    }
}

impl Clone for PackageMetadata {
    fn clone(&self) -> (res: Self)
        ensures
            res@ == self@,
    {
        PackageMetadata {
            author: clone_opt_string(&self.author),
            homepage: clone_opt_string(&self.homepage),
            repository: clone_opt_string(&self.repository),
            license: clone_opt_string(&self.license),
            tags: clone_opt_string_vec(&self.tags),
            updated: clone_opt_string(&self.updated),
            size: clone_opt_string(&self.size),
        }
    }
}

/// A declarative package definition, immutable once loaded.
#[derive(Debug)]
pub struct Package {
    /// The unique key of the definition.
    pub name: String,
    pub version: String,
    pub description: String,
    pub long_description: Option<String>,
    pub categories: Vec<String>,
    pub dependencies: Vec<Dependency>,
    pub installation: Installation,
    pub post_install: Option<PostInstall>,
    pub metadata: PackageMetadata,
}

/// The mathematical value of a `Package`.
pub ghost struct PackageV {
    pub name: Seq<char>,
    pub version: Seq<char>,
    pub description: Seq<char>,
    pub long_description: Option<Seq<char>>,
    pub categories: Seq<Seq<char>>,
    pub dependencies: Seq<DependencyV>,
    pub installation: InstallationV,
    pub post_install: Option<PostInstallV>,
    pub metadata: PackageMetadataV,
}

impl View for Package {
    type V = PackageV;

    open spec fn view(&self) -> PackageV {
        PackageV {
            name: self.name@,
            version: self.version@,
            description: self.description@,
            long_description: self.long_description.deep_view(),
            categories: self.categories.deep_view(),
            dependencies: self.dependencies.deep_view(),
            installation: self.installation@,
            post_install: self.post_install.deep_view(),
            metadata: self.metadata@,
        }
    }
}

impl DeepView for Package {
    type V = PackageV;

    open spec fn deep_view(&self) -> PackageV {
        self.view()
    }
}

/// Clones a dependency list, keeping its value.
fn clone_dependencies(v: &Vec<Dependency>) -> (r: Vec<Dependency>)
    ensures
        r.deep_view() == v.deep_view(),
{
    let mut r: Vec<Dependency> = Vec::new();
    let mut i: usize = 0;
    while i < v.len()
        invariant
            i <= v.len(),
            r@.len() == i as int,
            forall|j: int| 0 <= j < i ==> r.deep_view()[j] == v.deep_view()[j],
        decreases v.len() - i,
    {
        let ghost pre = r@;
        r.push(v[i].clone());
        proof {
            assert forall|j: int| 0 <= j < i + 1 implies r.deep_view()[j] == v.deep_view()[j] by {
                if j < i {
                    assert(r@[j] == pre[j]);
                    assert(r.deep_view()[j] == r@[j].deep_view());
                } else {
                    assert(r@[j].deep_view() == v@[i as int].deep_view());
                }
            }
        }
        i = i + 1;
    }
    proof {
        assert(r.deep_view() =~= v.deep_view());
    }
    r
}

impl Clone for Package {
    fn clone(&self) -> (res: Self)
        ensures
            res@ == self@,
    {
        Package {
            name: self.name.clone(),
            version: self.version.clone(),
            description: self.description.clone(),
            long_description: clone_opt_string(&self.long_description),
            categories: clone_string_vec(&self.categories),
            dependencies: clone_dependencies(&self.dependencies),
            installation: self.installation.clone(),
            post_install: match &self.post_install {
                Option::Some(p) => Option::Some(p.clone()),
                Option::None => Option::None,
            },
            metadata: self.metadata.clone(),
        }
    }
}

/// Per-package installation state, kept for one session.
#[derive(Debug)]
pub enum InstallStatus {
    NotInstalled,
    Installed { version: String, installed_at: String },
    UpdateAvailable { current: String, available: String },
    Error { message: String },
}

/// The mathematical value of an `InstallStatus`.
pub ghost enum InstallStatusV {
    NotInstalled,
    Installed { version: Seq<char>, installed_at: Seq<char> },
    UpdateAvailable { current: Seq<char>, available: Seq<char> },
    Error { message: Seq<char> },
}

impl View for InstallStatus {
    type V = InstallStatusV;

    open spec fn view(&self) -> InstallStatusV {
        match self {
            InstallStatus::NotInstalled => InstallStatusV::NotInstalled,
            InstallStatus::Installed { version, installed_at } => InstallStatusV::Installed {
                version: version@,
                installed_at: installed_at@,
            },
            InstallStatus::UpdateAvailable { current, available } => InstallStatusV::UpdateAvailable {
                current: current@,
                available: available@,
            },
            InstallStatus::Error { message } => InstallStatusV::Error { message: message@ },
        }
    }
}

impl DeepView for InstallStatus {
    type V = InstallStatusV;

    open spec fn deep_view(&self) -> InstallStatusV {
        self.view()
    }
}

impl Clone for InstallStatus {
    fn clone(&self) -> (res: Self)
        ensures
            res@ == self@,
    {
        match self {
            InstallStatus::NotInstalled => InstallStatus::NotInstalled,
            InstallStatus::Installed { version, installed_at } => InstallStatus::Installed {
                version: version.clone(),
                installed_at: installed_at.clone(),
            },
            InstallStatus::UpdateAvailable { current, available } => InstallStatus::UpdateAvailable {
                current: current.clone(),
                available: available.clone(),
            },
            InstallStatus::Error { message } => InstallStatus::Error { message: message.clone() },
        }
    }
}

/// The default for boolean fields that are on unless a definition says
/// otherwise, such as `Binary`'s `executable` flag.
pub fn default_true() -> (r: bool)
    ensures
        r == true,
{
    true
}

/// The default interpreter for `Script` installations.
pub fn default_shell() -> (r: String)
    ensures
        r@ == "/bin/bash"@,
{
    "/bin/bash".to_owned()
}

impl Package {
    /// Whether this package installs through the native system manager.
    pub fn is_system_package(&self) -> (r: bool)
        ensures
            r == (self.installation@ is Pacman),
    {
        match &self.installation {
            Installation::Pacman { .. } => true,
            _ => false,
        }
    }

    /// All dependencies of the given kind, in definition order.
    pub fn get_dependencies(&self, dep_type: DependencyType) -> (r: Vec<&Dependency>)
        ensures
            r.deep_view() == self.dependencies.deep_view().filter(
                |d: DependencyV| d.dep_type == dep_type,
            ),
    {
        let mut r: Vec<&Dependency> = Vec::new();
        let mut i: usize = 0;
        while i < self.dependencies.len()
            invariant
                i <= self.dependencies.len(),
                r.deep_view() =~= self.dependencies.deep_view().subrange(0, i as int).filter(
                    |d: DependencyV| d.dep_type == dep_type,
                ),
            decreases self.dependencies.len() - i,
        {
            proof {
                assert(self.dependencies.deep_view().subrange(0, i + 1 as int).drop_last()
                    =~= self.dependencies.deep_view().subrange(0, i as int));
                reveal_with_fuel(Seq::filter, 2);
            }
            if self.dependencies[i].dep_type == dep_type {
                r.push(&self.dependencies[i]);
            }
            i = i + 1;
        }
        proof {
            assert(self.dependencies.deep_view().subrange(0, self.dependencies@.len() as int)
                =~= self.dependencies.deep_view());
        }
        r
    }

    /// Whether any dependency is optional.
    pub fn has_optional_dependencies(&self) -> (r: bool)
        ensures
            r == exists|i: int|
                0 <= i < self.dependencies@.len() && self.dependencies@[i].optional,
    {
        let mut i: usize = 0;
        while i < self.dependencies.len()
            invariant
                i <= self.dependencies.len(),
                forall|j: int| 0 <= j < i ==> !self.dependencies@[j].optional,
            decreases self.dependencies.len() - i,
        {
            if self.dependencies[i].optional {
                return true;
            }
            i = i + 1;
        }
        false
    }
}

} // verus!
