//! The configuration surface the engine consumes: package search paths, the
//! user-repository helper, installation and repository settings.

use vstd::prelude::*;
use crate::error::concat_str;

verus! {

/// Installation settings.
#[derive(Debug)]
pub struct InstallationConfig {
    pub binary_dir: String,
    pub temp_dir: Option<String>,
    pub verify_checksums: bool,
    pub create_backups: bool,
    /// Network fetch timeout, in seconds.
    pub download_timeout: u64,
}

/// Remote repository settings.
#[derive(Debug)]
pub struct RepositoryConfig {
    pub update_url: Option<String>,
    /// Hours between automatic definition refreshes.
    pub update_interval: u64,
    pub auto_update: bool,
}

/// Presentation settings; read by callers, never by the engine itself.
#[derive(Debug)]
pub struct UiConfig {
    pub use_colors: bool,
    pub show_progress: bool,
    pub log_level: String,
}

/// The application configuration.
#[derive(Debug)]
pub struct Config {
    pub package_paths: Vec<String>,
    pub aur_helper: Option<String>,
    pub installation: InstallationConfig,
    pub repository: RepositoryConfig,
    pub ui: UiConfig,
}

/// Field-wise equality of two configurations, over their views.
pub open spec fn config_eq(a: &Config, b: &Config) -> bool {
    &&& a.package_paths.deep_view() == b.package_paths.deep_view()
    &&& a.aur_helper.deep_view() == b.aur_helper.deep_view()
    &&& a.installation.binary_dir@ == b.installation.binary_dir@
    &&& a.installation.temp_dir.deep_view() == b.installation.temp_dir.deep_view()
    &&& a.installation.verify_checksums == b.installation.verify_checksums
    &&& a.installation.create_backups == b.installation.create_backups
    &&& a.installation.download_timeout == b.installation.download_timeout
    &&& a.repository.update_url.deep_view() == b.repository.update_url.deep_view()
    &&& a.repository.update_interval == b.repository.update_interval
    &&& a.repository.auto_update == b.repository.auto_update
    &&& a.ui.use_colors == b.ui.use_colors
    &&& a.ui.show_progress == b.ui.show_progress
    &&& a.ui.log_level@ == b.ui.log_level@
}

impl Clone for Config {
    fn clone(&self) -> (res: Self)
        ensures
            config_eq(self, &res),
    {
        Config {
            package_paths: crate::package::clone_string_vec(&self.package_paths),
            aur_helper: crate::package::clone_opt_string(&self.aur_helper),
            installation: InstallationConfig {
                binary_dir: self.installation.binary_dir.clone(),
                temp_dir: crate::package::clone_opt_string(&self.installation.temp_dir),
                verify_checksums: self.installation.verify_checksums,
                create_backups: self.installation.create_backups,
                download_timeout: self.installation.download_timeout,
            },
            repository: RepositoryConfig {
                update_url: crate::package::clone_opt_string(&self.repository.update_url),
                update_interval: self.repository.update_interval,
                auto_update: self.repository.auto_update,
            },
            ui: UiConfig {
                use_colors: self.ui.use_colors,
                show_progress: self.ui.show_progress,
                log_level: self.ui.log_level.clone(),
            },
        }
    }
}

impl Config {
    /// The configuration the engine starts from when no file exists, built
    /// from the caller-supplied home and configuration directories.
    pub fn new_with_dirs(home_dir: Option<&str>, config_dir: &str) -> (r: Config)
        ensures
            r.installation.binary_dir@ == match home_dir {
                Option::Some(h) => h@ + "/.local/bin"@,
                Option::None => "/usr/local/bin"@,
            },
            r.package_paths.deep_view() =~= seq![
                "./data/packages"@,
                config_dir@ + "/packages"@,
                "/etc/archbox/packages"@,
            ],
            r.aur_helper is None,
            r.installation.temp_dir is None,
            r.installation.verify_checksums == true,
            r.installation.create_backups == true,
            r.installation.download_timeout == 300,
            r.repository.update_url.deep_view() == Option::Some(
                "https://raw.githubusercontent.com/example/archbox-packages/main/packages.yaml"@,
            ),
            r.repository.update_interval == 24,
            r.repository.auto_update == false,
            r.ui.use_colors == true,
            r.ui.show_progress == true,
            r.ui.log_level@ == "info"@,
    {
        let binary_dir = match home_dir {
            Option::Some(h) => concat_str(h, "/.local/bin"),
            Option::None => "/usr/local/bin".to_owned(),
        };
        let mut package_paths: Vec<String> = Vec::new();
        package_paths.push("./data/packages".to_owned());
        package_paths.push(concat_str(config_dir, "/packages"));
        package_paths.push("/etc/archbox/packages".to_owned());
        Config {
            package_paths,
            aur_helper: Option::None,
            installation: InstallationConfig {
                binary_dir,
                temp_dir: Option::None,
                verify_checksums: true,
                create_backups: true,
                download_timeout: 300,
            },
            repository: RepositoryConfig {
                update_url: Option::Some(
                    "https://raw.githubusercontent.com/example/archbox-packages/main/packages.yaml".to_owned(),
                ),
                update_interval: 24,
                auto_update: false,
            },
            ui: UiConfig { use_colors: true, show_progress: true, log_level: "info".to_owned() },
        }
    }

    /// The path of the configuration file under the given configuration
    /// directory.
    pub fn config_path(config_dir: &str) -> (r: String)
        ensures
            r@ == config_dir@ + "/config.yaml"@,
    {
        concat_str(config_dir, "/config.yaml")
    }

    /// Sets the user-repository helper.
    pub fn set_aur_helper(&mut self, helper: String)
        ensures
            final(self).aur_helper == Option::Some(helper),
            config_eq_except_aur(old(self), final(self)),
    {
        self.aur_helper = Option::Some(helper);
    }

    /// Appends a package search path unless it is already present.
    pub fn add_package_path(&mut self, path: String)
        ensures
            old(self).package_paths.deep_view().contains(path@)
                ==> final(self).package_paths.deep_view()
                == old(self).package_paths.deep_view(),
            !old(self).package_paths.deep_view().contains(path@)
                ==> final(self).package_paths.deep_view()
                == old(self).package_paths.deep_view().push(path@),
            config_eq_except_paths(old(self), final(self)),
    {
        if !crate::definition::contains_string(&self.package_paths, path.as_str()) {
            let ghost pre = self.package_paths.deep_view();
            self.package_paths.push(path);
            proof {
                assert(self.package_paths.deep_view() =~= pre.push(path@));
            }
        }
    }

    /// Removes every occurrence of a package search path.
    pub fn remove_package_path(&mut self, path: &String)
        ensures
            final(self).package_paths.deep_view() == old(self).package_paths.deep_view().filter(
                |p: Seq<char>| p != path@,
            ),
            config_eq_except_paths(old(self), final(self)),
    {
        let mut kept: Vec<String> = Vec::new();
        let mut i: usize = 0;
        let ghost all = self.package_paths.deep_view();
        while i < self.package_paths.len()
            invariant
                i <= self.package_paths@.len(),
                all == self.package_paths.deep_view(),
                kept.deep_view() =~= all.subrange(0, i as int).filter(|p: Seq<char>| p != path@),
            decreases self.package_paths@.len() - i,
        {
            proof {
                assert(all.subrange(0, i + 1 as int).drop_last() =~= all.subrange(0, i as int));
                reveal_with_fuel(Seq::filter, 2);
            }
            if !crate::strutil::str_eq(self.package_paths[i].as_str(), path.as_str()) {
                kept.push(self.package_paths[i].clone());
            }
            i = i + 1;
        }
        proof {
            assert(all.subrange(0, all.len() as int) =~= all);
        }
        self.package_paths = kept;
    }
}

/// Everything but the helper is unchanged.
pub open spec fn config_eq_except_aur(a: &Config, b: &Config) -> bool {
    &&& a.package_paths.deep_view() == b.package_paths.deep_view()
    &&& a.installation.binary_dir@ == b.installation.binary_dir@
    &&& a.installation.temp_dir.deep_view() == b.installation.temp_dir.deep_view()
    &&& a.installation.verify_checksums == b.installation.verify_checksums
    &&& a.installation.create_backups == b.installation.create_backups
    &&& a.installation.download_timeout == b.installation.download_timeout
    &&& a.repository.update_url.deep_view() == b.repository.update_url.deep_view()
    &&& a.repository.update_interval == b.repository.update_interval
    &&& a.repository.auto_update == b.repository.auto_update
    &&& a.ui.use_colors == b.ui.use_colors
    &&& a.ui.show_progress == b.ui.show_progress
    &&& a.ui.log_level@ == b.ui.log_level@
}

/// Everything but the search paths is unchanged.
pub open spec fn config_eq_except_paths(a: &Config, b: &Config) -> bool {
    &&& a.aur_helper.deep_view() == b.aur_helper.deep_view()
    &&& a.installation.binary_dir@ == b.installation.binary_dir@
    &&& a.installation.temp_dir.deep_view() == b.installation.temp_dir.deep_view()
    &&& a.installation.verify_checksums == b.installation.verify_checksums
    &&& a.installation.create_backups == b.installation.create_backups
    &&& a.installation.download_timeout == b.installation.download_timeout
    &&& a.repository.update_url.deep_view() == b.repository.update_url.deep_view()
    &&& a.repository.update_interval == b.repository.update_interval
    &&& a.repository.auto_update == b.repository.auto_update
    &&& a.ui.use_colors == b.ui.use_colors
    &&& a.ui.show_progress == b.ui.show_progress
    &&& a.ui.log_level@ == b.ui.log_level@
}

/// The default for configuration switches that are on unless set otherwise.
pub fn default_true() -> (r: bool)
    ensures
        r == true,
{
    true
}

/// The default network fetch timeout, in seconds.
pub fn default_download_timeout() -> (r: u64)
    ensures
        r == 300,
{
    300
}

/// The default definition-refresh interval, in hours.
pub fn default_update_interval() -> (r: u64)
    ensures
        r == 24,
{
    24
}

/// The default log level.
pub fn default_log_level() -> (r: String)
    ensures
        r@ == "info"@,
{
    "info".to_owned()
}

} // verus!
