//! The installation planner: each installation method becomes an exact
//! sequence of external actions, checksum verification guards binary
//! downloads, and post-install configuration becomes a best-effort action
//! list.

use vstd::prelude::*;
use crate::config::Config;
use crate::config::config_eq;
use crate::error::Error;
use crate::error::concat_str;
use crate::package::Installation;
use crate::package::Package;
use crate::package::PostInstall;
use crate::strutil::contains_seq;
use crate::strutil::contains_substring;

verus! {

/// The hex digest that the SHA-256 function returns for the given bytes.
pub uninterp spec fn sha256_hex_of(data: Seq<u8>) -> Seq<char>;

/// One external step of an installation, in execution order. The caller
/// performs each action and reports its outcome; whether a failure aborts
/// the run is decided here, not by the caller.
#[derive(Debug)]
pub enum Action {
    /// Invoke a program; a non-zero exit aborts the install, reported under
    /// the failure prefix with the program's own words appended.
    Command { program: String, args: Vec<String>, failure: String },
    /// Run one build or install command through a shell in the ephemeral
    /// source directory; a non-zero exit aborts under the failure prefix.
    BuildShell { command: String, failure: String },
    /// Check that a named program resolves on the path; failure aborts with
    /// the fixed message.
    EnsureCommand { name: String, failure: String },
    /// Fetch the URL, verify the checksum if one is given before anything is
    /// written, then write the bytes to the destination (creating parent
    /// directories), marking it executable when asked.
    Download { url: String, checksum: Option<String>, dest: String, executable: bool },
    /// Clone the repository into the ephemeral source directory.
    CloneRepo { url: String },
    /// Write the script to a private temporary file, mark it executable and
    /// run it under the interpreter.
    RunScript { script: String, interpreter: String },
    /// Attempt desktop integration of a downloaded application image; this
    /// step is best-effort and never aborts the install.
    IntegrateAppImage { path: String },
}

/// The mathematical value of an `Action`.
pub ghost enum ActionV {
    Command { program: Seq<char>, args: Seq<Seq<char>>, failure: Seq<char> },
    BuildShell { command: Seq<char>, failure: Seq<char> },
    EnsureCommand { name: Seq<char>, failure: Seq<char> },
    Download { url: Seq<char>, checksum: Option<Seq<char>>, dest: Seq<char>, executable: bool },
    CloneRepo { url: Seq<char> },
    RunScript { script: Seq<char>, interpreter: Seq<char> },
    IntegrateAppImage { path: Seq<char> },
}

impl View for Action {
    type V = ActionV;

    open spec fn view(&self) -> ActionV {
        match self {
            Action::Command { program, args, failure } => ActionV::Command {
                program: program@,
                args: args.deep_view(),
                failure: failure@,
            },
            Action::BuildShell { command, failure } => ActionV::BuildShell {
                command: command@,
                failure: failure@,
            },
            Action::EnsureCommand { name, failure } => ActionV::EnsureCommand {
                name: name@,
                failure: failure@,
            },
            Action::Download { url, checksum, dest, executable } => ActionV::Download {
                url: url@,
                checksum: checksum.deep_view(),
                dest: dest@,
                executable: *executable,
            },
            Action::CloneRepo { url } => ActionV::CloneRepo { url: url@ },
            Action::RunScript { script, interpreter } => ActionV::RunScript {
                script: script@,
                interpreter: interpreter@,
            },
            Action::IntegrateAppImage { path } => ActionV::IntegrateAppImage { path: path@ },
        }
    }
}

impl DeepView for Action {
    type V = ActionV;

    open spec fn deep_view(&self) -> ActionV {
        self.view()
    }
}

/// Whether a failed outcome of this action is tolerated rather than fatal.
pub open spec fn action_best_effort(a: ActionV) -> bool {
    a is IntegrateAppImage
}

/// The message reported when an action fails hard, given the collaborator's
/// own words.
pub open spec fn action_failure_text(a: ActionV, detail: Seq<char>) -> Seq<char> {
    match a {
        ActionV::Command { failure, .. } => failure + detail,
        ActionV::BuildShell { failure, .. } => failure + detail,
        ActionV::EnsureCommand { failure, .. } => failure,
        ActionV::Download { .. } => detail,
        ActionV::CloneRepo { .. } => "Git clone failed: "@ + detail,
        ActionV::RunScript { .. } => "Installation script failed: "@ + detail,
        ActionV::IntegrateAppImage { .. } => detail,
    }
}

/// Whether the URL looks like a version-control remote: it ends in ".git"
/// or names a well-known hosting site.
pub open spec fn is_vcs_url(u: Seq<char>) -> bool {
    (u.len() >= 4 && u.subrange(u.len() - 4, u.len() as int) == ".git"@) || contains_seq(
        u,
        "github.com"@,
    ) || contains_seq(u, "gitlab.com"@)
}

/// Whether the string ends with the given suffix, character-wise.
fn str_ends_with(h: &str, suffix: &str) -> (r: bool)
    ensures
        r == (h@.len() >= suffix@.len() && h@.subrange(
            h@.len() - suffix@.len(),
            h@.len() as int,
        ) == suffix@),
{
    let hl = h.unicode_len();
    let sl = suffix.unicode_len();
    if sl > hl {
        return false;
    }
    crate::strutil::matches_at(h, hl - sl, suffix, hl, sl)
}

/// Drives installation strategies as pure plans over external actions.
pub struct Installer {
    config: Config,
}

impl Installer {
    /// The helper configured for user-repository installs, if any.
    pub closed spec fn config_helper(&self) -> Option<Seq<char>> {
        self.config.aur_helper.deep_view()
    }

    /// An installer over a copy of the configuration.
    pub fn new(config: &Config) -> (r: Installer)
        ensures
            r.config_helper() == config.aur_helper.deep_view(),
    {
        let c = config.clone();
        proof {
            assert(config_eq(config, &c));
        }
        Installer { config: c }
    }

    /// Relies on sha2's SHA-256 and its lower-hex rendering: the digest text
    /// depends on the input bytes alone.
    #[verifier::external_body]
    pub fn calculate_sha256(&self, data: &[u8]) -> (r: String)
        ensures
            r@ == sha256_hex_of(data@),
    {
        let digest = <sha2::Sha256 as sha2::Digest>::digest(data);
        let mut out = String::new();
        for b in digest.iter() {
            out.push_str(&format!("{:02x}", b));
        }
        out
    }

    /// Decides whether downloaded content may be written: with no checksum
    /// supplied it always may; with one supplied, exactly when the content's
    /// SHA-256 digest matches it. On a mismatch nothing has been written and
    /// the error names both digests.
    pub fn verify_download(&self, content: &[u8], checksum: &Option<String>) -> (r: Result<
        (),
        Error,
    >)
        ensures
            checksum is None ==> r is Ok,
            checksum matches Some(c) ==> (r is Ok <==> sha256_hex_of(content@) == c@),
            r matches Err(e) ==> checksum matches Some(c) && e matches Error::InstallationFailed(m)
                && m@ == "Checksum mismatch. Expected: "@ + c@ + ", Got: "@ + sha256_hex_of(
                content@,
            ),
    {
        match checksum {
            Option::None => Result::Ok(()),
            Option::Some(expected) => {
                let actual = self.calculate_sha256(content);
                if crate::strutil::str_eq(actual.as_str(), expected.as_str()) {
                    Result::Ok(())
                } else {
                    let mut m = concat_str("Checksum mismatch. Expected: ", expected.as_str());
                    m.append(", Got: ");
                    m.append(actual.as_str());
                    Result::Err(Error::InstallationFailed(m))
                }
            },
        }
    }

    /// The plan for one package: the exact action sequence of its
    /// installation method. The application-image strategy needs the home
    /// directory; a URL that is not a version-control remote is refused, as
    /// archive extraction is unsupported.
    pub fn install_plan(&self, package: &Package, home_dir: Option<&str>) -> (r: Result<
        Vec<Action>,
        Error,
    >)
        ensures
            package.installation matches Installation::Pacman { .. } ==> r is Ok,
            package.installation matches Installation::Aur { .. } ==> r is Ok,
            package.installation matches Installation::Binary { .. } ==> r is Ok,
            package.installation matches Installation::Script { .. } ==> r is Ok,
            package.installation matches Installation::Flatpak { .. } ==> r is Ok,
            r matches Ok(plan) ==> plan.deep_view() == install_actions(
                package@,
                self.config_helper(),
                match home_dir {
                    Option::Some(h) => Option::Some(h@),
                    Option::None => Option::None,
                },
            ),
            r matches Err(e) ==> match package@.installation {
                crate::package::InstallationV::Source { url, .. } => !is_vcs_url(url) && (
                e matches Error::InstallationFailed(m) && m@
                    == "Archive extraction not implemented yet"@),
                crate::package::InstallationV::AppImage { .. } => home_dir is None && (e matches
                    Error::InstallationFailed(m) && m@ == "Could not find home directory"@),
                _ => false,
            },
            package.installation matches Installation::Source { url, .. } ==> (r is Ok <==> is_vcs_url(
                url@,
            )),
            package.installation matches Installation::AppImage { .. } ==> (r is Ok <==> home_dir
                is Some),
    {
        match &package.installation {
            Installation::Pacman { packages, flags } => {
                let mut args: Vec<String> = Vec::new();
                args.push("-S".to_owned());
                args.push("--needed".to_owned());
                args.push("--noconfirm".to_owned());
                let ghost base = args.deep_view();
                proof {
                    assert(base =~= seq!["-S"@, "--needed"@, "--noconfirm"@]);
                }
                if let Option::Some(fl) = flags {
                    append_string_vec(&mut args, fl);
                }
                append_string_vec(&mut args, packages);
                let mut plan: Vec<Action> = Vec::new();
                plan.push(
                    Action::Command {
                        program: "pacman".to_owned(),
                        args,
                        failure: "Pacman installation failed: ".to_owned(),
                    },
                );
                proof {
                    assert(plan.deep_view() =~= install_actions(
                        package@,
                        self.config_helper(),
                        spec_opt_str(home_dir),
                    ));
                }
                Result::Ok(plan)
            },
            Installation::Aur { package: pkg, helper } => {
                let helper_name: String = match helper {
                    Option::Some(h) => h.clone(),
                    Option::None => match &self.config.aur_helper {
                        Option::Some(h) => h.clone(),
                        Option::None => "yay".to_owned(),
                    },
                };
                let mut not_found = concat_str("AUR helper '", helper_name.as_str());
                not_found.append("' not found. Please install it first.");
                let mut args: Vec<String> = Vec::new();
                args.push("-S".to_owned());
                args.push("--needed".to_owned());
                args.push("--noconfirm".to_owned());
                args.push(pkg.clone());
                let ghost hs = helper_name@;
                proof {
                    assert(args.deep_view() =~= seq!["-S"@, "--needed"@, "--noconfirm"@, pkg@]);
                    assert(not_found@ == "AUR helper '"@ + hs
                        + "' not found. Please install it first."@);
                }
                let mut plan: Vec<Action> = Vec::new();
                plan.push(Action::EnsureCommand { name: helper_name.clone(), failure: not_found });
                plan.push(
                    Action::Command {
                        program: helper_name,
                        args,
                        failure: "AUR installation failed: ".to_owned(),
                    },
                );
                proof {
                    assert(plan.deep_view() =~= install_actions(
                        package@,
                        self.config_helper(),
                        spec_opt_str(home_dir),
                    ));
                }
                Result::Ok(plan)
            },
            Installation::Binary { url, checksum, install_path, executable } => {
                let mut plan: Vec<Action> = Vec::new();
                plan.push(
                    Action::Download {
                        url: url.clone(),
                        checksum: crate::package::clone_opt_string(checksum),
                        dest: install_path.clone(),
                        executable: *executable,
                    },
                );
                proof {
                    assert(plan.deep_view() =~= install_actions(
                        package@,
                        self.config_helper(),
                        spec_opt_str(home_dir),
                    ));
                }
                Result::Ok(plan)
            },
            Installation::Source { url, build_commands, install_commands } => {
                proof {
                    reveal_strlit(".git");
                }
                let looks_vcs = str_ends_with(url.as_str(), ".git") || contains_substring(
                    url.as_str(),
                    "github.com",
                ) || contains_substring(url.as_str(), "gitlab.com");
                if !looks_vcs {
                    return Result::Err(
                        Error::InstallationFailed(
                            "Archive extraction not implemented yet".to_owned(),
                        ),
                    );
                }
                let mut plan: Vec<Action> = Vec::new();
                plan.push(Action::CloneRepo { url: url.clone() });
                let ghost after_clone = plan.deep_view();
                push_shell_steps(&mut plan, build_commands, "Build command failed: ");
                let ghost after_build = plan.deep_view();
                push_shell_steps(&mut plan, install_commands, "Install command failed: ");
                proof {
                    assert(after_clone =~= seq![ActionV::CloneRepo { url: url@ }]);
                    assert(plan.deep_view() =~= install_actions(
                        package@,
                        self.config_helper(),
                        spec_opt_str(home_dir),
                    ));
                }
                Result::Ok(plan)
            },
            Installation::Script { script, interpreter } => {
                let mut plan: Vec<Action> = Vec::new();
                plan.push(
                    Action::RunScript { script: script.clone(), interpreter: interpreter.clone() },
                );
                proof {
                    assert(plan.deep_view() =~= install_actions(
                        package@,
                        self.config_helper(),
                        spec_opt_str(home_dir),
                    ));
                }
                Result::Ok(plan)
            },
            Installation::AppImage { url, checksum, integrate } => {
                let home = match home_dir {
                    Option::Some(h) => h,
                    Option::None => {
                        return Result::Err(
                            Error::InstallationFailed("Could not find home directory".to_owned()),
                        );
                    },
                };
                let mut dest = concat_str(home, "/.local/share/applications/");
                dest.append(package.name.as_str());
                dest.append(".AppImage");
                let mut plan: Vec<Action> = Vec::new();
                plan.push(
                    Action::Download {
                        url: url.clone(),
                        checksum: crate::package::clone_opt_string(checksum),
                        dest: dest.clone(),
                        executable: true,
                    },
                );
                if *integrate {
                    plan.push(Action::IntegrateAppImage { path: dest });
                }
                proof {
                    assert(plan.deep_view() =~= install_actions(
                        package@,
                        self.config_helper(),
                        spec_opt_str(home_dir),
                    ));
                }
                Result::Ok(plan)
            },
            Installation::Flatpak { id, remote } => {
                let mut args: Vec<String> = Vec::new();
                args.push("install".to_owned());
                args.push("-y".to_owned());
                match remote {
                    Option::Some(rm) => args.push(rm.clone()),
                    Option::None => args.push("flathub".to_owned()),
                }
                args.push(id.clone());
                proof {
                    match remote.deep_view() {
                        Option::Some(rm) => {
                            assert(args.deep_view() =~= seq!["install"@, "-y"@, rm, id@]);
                        },
                        Option::None => {
                            assert(args.deep_view() =~= seq!["install"@, "-y"@, "flathub"@, id@]);
                        },
                    }
                }
                let mut plan: Vec<Action> = Vec::new();
                plan.push(
                    Action::EnsureCommand {
                        name: "flatpak".to_owned(),
                        failure: "Flatpak not found. Please install flatpak first.".to_owned(),
                    },
                );
                plan.push(
                    Action::Command {
                        program: "flatpak".to_owned(),
                        args,
                        failure: "Flatpak installation failed: ".to_owned(),
                    },
                );
                proof {
                    assert(plan.deep_view() =~= install_actions(
                        package@,
                        self.config_helper(),
                        spec_opt_str(home_dir),
                    ));
                }
                Result::Ok(plan)
            },
        }
    }
}

/// The view of an optional borrowed string.
pub open spec fn spec_opt_str(o: Option<&str>) -> Option<Seq<char>> {
    match o {
        Option::Some(h) => Option::Some(h@),
        Option::None => Option::None,
    }
}

/// The exact action sequence of one installation method, as a function of
/// the definition, the configured helper, and the home directory.
pub open spec fn install_actions(
    p: crate::package::PackageV,
    config_helper: Option<Seq<char>>,
    home_dir: Option<Seq<char>>,
) -> Seq<ActionV> {
    match p.installation {
        crate::package::InstallationV::Pacman { packages, flags } => seq![
            ActionV::Command {
                program: "pacman"@,
                args: seq!["-S"@, "--needed"@, "--noconfirm"@] + (match flags {
                    Option::Some(fl) => fl,
                    Option::None => Seq::empty(),
                }) + packages,
                failure: "Pacman installation failed: "@,
            },
        ],
        crate::package::InstallationV::Aur { package, helper } => {
            let h = match helper {
                Option::Some(h) => h,
                Option::None => match config_helper {
                    Option::Some(h) => h,
                    Option::None => "yay"@,
                },
            };
            seq![
                ActionV::EnsureCommand {
                    name: h,
                    failure: "AUR helper '"@ + h + "' not found. Please install it first."@,
                },
                ActionV::Command {
                    program: h,
                    args: seq!["-S"@, "--needed"@, "--noconfirm"@, package],
                    failure: "AUR installation failed: "@,
                },
            ]
        },
        crate::package::InstallationV::Binary { url, checksum, install_path, executable } => seq![
            ActionV::Download { url, checksum, dest: install_path, executable },
        ],
        crate::package::InstallationV::Source { url, build_commands, install_commands } => seq![
            ActionV::CloneRepo { url },
        ] + build_commands.map_values(
            |c: Seq<char>| ActionV::BuildShell {
                command: c,
                failure: "Build command failed: "@ + c + "\n"@,
            },
        ) + install_commands.map_values(
            |c: Seq<char>| ActionV::BuildShell {
                command: c,
                failure: "Install command failed: "@ + c + "\n"@,
            },
        ),
        crate::package::InstallationV::Script { script, interpreter } => seq![
            ActionV::RunScript { script, interpreter },
        ],
        crate::package::InstallationV::AppImage { url, checksum, integrate } => {
            let dest = match home_dir {
                Option::Some(h) => h + "/.local/share/applications/"@ + p.name + ".AppImage"@,
                Option::None => Seq::empty(),
            };
            if integrate {
                seq![
                    ActionV::Download { url, checksum, dest, executable: true },
                    ActionV::IntegrateAppImage { path: dest },
                ]
            } else {
                seq![ActionV::Download { url, checksum, dest, executable: true }]
            }
        },
        crate::package::InstallationV::Flatpak { id, remote } => {
            let rm = match remote {
                Option::Some(rm) => rm,
                Option::None => "flathub"@,
            };
            seq![
                ActionV::EnsureCommand {
                    name: "flatpak"@,
                    failure: "Flatpak not found. Please install flatpak first."@,
                },
                ActionV::Command {
                    program: "flatpak"@,
                    args: seq!["install"@, "-y"@, rm, id],
                    failure: "Flatpak installation failed: "@,
                },
            ]
        },
    }
}

/// Appends clones of all strings in `src_items` to `dst`.
fn append_string_vec(dst: &mut Vec<String>, src_items: &Vec<String>)
    ensures
        final(dst).deep_view() == old(dst).deep_view() + src_items.deep_view(),
{
    let mut i: usize = 0;
    while i < src_items.len()
        invariant
            i <= src_items@.len(),
            dst.deep_view() =~= old(dst).deep_view() + src_items.deep_view().subrange(0, i as int),
        decreases src_items@.len() - i,
    {
        let ghost pre = dst.deep_view();
        dst.push(src_items[i].clone());
        proof {
            assert forall|w: int|
                0 <= w < dst.deep_view().len() implies dst.deep_view()[w] == (old(dst).deep_view()
                + src_items.deep_view().subrange(0, i + 1))[w] by {
                if w < pre.len() {
                    assert(dst.deep_view()[w] == pre[w]);
                } else {
                    assert(dst.deep_view()[w] == src_items.deep_view()[i as int]);
                }
            }
            assert(dst.deep_view() =~= old(dst).deep_view() + src_items.deep_view().subrange(
                0,
                i + 1,
            ));
        }
        i = i + 1;
    }
    proof {
        assert(src_items.deep_view().subrange(0, src_items.deep_view().len() as int)
            =~= src_items.deep_view());
    }
}

/// Appends one shell step per command, each failing under its own prefix:
/// the prefix text, the command itself and a line break.
fn push_shell_steps(plan: &mut Vec<Action>, commands: &Vec<String>, prefix: &str)
    ensures
        final(plan).deep_view() == old(plan).deep_view() + commands.deep_view().map_values(
            |c: Seq<char>| ActionV::BuildShell { command: c, failure: prefix@ + c + "\n"@ },
        ),
{
    let ghost mapped = commands.deep_view().map_values(
        |c: Seq<char>| ActionV::BuildShell { command: c, failure: prefix@ + c + "\n"@ },
    );
    let mut i: usize = 0;
    while i < commands.len()
        invariant
            i <= commands@.len(),
            mapped == commands.deep_view().map_values(
                |c: Seq<char>| ActionV::BuildShell { command: c, failure: prefix@ + c + "\n"@ },
            ),
            plan.deep_view() =~= old(plan).deep_view() + mapped.subrange(0, i as int),
        decreases commands@.len() - i,
    {
        let ghost pre = plan.deep_view();
        let mut failure = concat_str(prefix, commands[i].as_str());
        failure.append("\n");
        plan.push(Action::BuildShell { command: commands[i].clone(), failure });
        proof {
            assert forall|w: int|
                0 <= w < plan.deep_view().len() implies plan.deep_view()[w] == (old(
                plan,
            ).deep_view() + mapped.subrange(0, i + 1))[w] by {
                if w < pre.len() {
                    assert(plan.deep_view()[w] == pre[w]);
                } else {
                    assert(plan.deep_view()[w] == mapped[i as int]);
                }
            }
            assert(plan.deep_view() =~= old(plan).deep_view() + mapped.subrange(0, i + 1));
        }
        i = i + 1;
    }
    proof {
        assert(mapped.subrange(0, mapped.len() as int) =~= mapped);
    }
}

/// Walks a plan action by action, deciding after each reported outcome
/// whether the install goes on or fails.
pub struct InstallRun {
    plan: Vec<Action>,
    next: usize,
}

impl InstallRun {
    /// The whole plan being run.
    pub closed spec fn actions(&self) -> Seq<ActionV> {
        self.plan.deep_view()
    }

    /// How many actions have completed.
    pub closed spec fn position(&self) -> int {
        self.next as int
    }

    /// A run at the start of the given plan.
    pub fn new(plan: Vec<Action>) -> (r: InstallRun)
        ensures
            r.actions() == plan.deep_view(),
            r.position() == 0,
    {
        InstallRun { plan, next: 0 }
    }

    /// The next action to perform, or nothing when the plan is done.
    pub fn current(&self) -> (r: Option<&Action>)
        ensures
            self.position() < self.actions().len() ==> (r matches Some(a) && a@
                == self.actions()[self.position()]),
            self.position() >= self.actions().len() ==> r is None,
    {
        if self.next < self.plan.len() {
            Option::Some(&self.plan[self.next])
        } else {
            Option::None
        }
    }

    /// Takes the outcome of the current action: success or a tolerated
    /// failure moves on; a hard failure ends the run with the action's
    /// failure message, the collaborator's words appended where they help.
    pub fn record_outcome(&mut self, succeeded: bool, detail: &str) -> (r: Result<(), Error>)
        requires
            old(self).position() < old(self).actions().len(),
        ensures
            final(self).actions() == old(self).actions(),
            succeeded || action_best_effort(old(self).actions()[old(self).position()]) ==> r is Ok
                && final(self).position() == old(self).position() + 1,
            !succeeded && !action_best_effort(old(self).actions()[old(self).position()]) ==> (
            r matches Err(e) && e matches Error::InstallationFailed(m) && m@ == action_failure_text(
                old(self).actions()[old(self).position()],
                detail@,
            ) && final(self).position() == old(self).position()),
    {
        let total = self.plan.len();
        proof {
            assert(self.next < total);
        }
        let action = &self.plan[self.next];
        let tolerated = match action {
            Action::IntegrateAppImage { .. } => true,
            _ => false,
        };
        if succeeded || tolerated {
            self.next = self.next + 1;
            return Result::Ok(());
        }
        let message: String = match action {
            Action::Command { failure, .. } => concat_str(failure.as_str(), detail),
            Action::BuildShell { failure, .. } => concat_str(failure.as_str(), detail),
            Action::EnsureCommand { failure, .. } => failure.clone(),
            Action::Download { .. } => detail.to_owned(),
            Action::CloneRepo { .. } => concat_str("Git clone failed: ", detail),
            Action::RunScript { .. } => concat_str("Installation script failed: ", detail),
            Action::IntegrateAppImage { .. } => detail.to_owned(),
        };
        Result::Err(Error::InstallationFailed(message))
    }
}

/// One best-effort configuration step run after a strategy succeeds; an
/// individual failure never aborts the remaining steps or the install.
#[derive(Debug)]
pub enum PostAction {
    /// Run one command through a shell.
    ShellCommand { command: String },
    /// Write a configuration file; the path may still hold a leading tilde.
    WriteConfigFile { path: String, content: String },
    /// Enable and start a system service.
    EnableService { service: String },
    /// Add the user to a system group.
    AddUserToGroup { group: String, username: String },
    /// Merge environment-variable export lines into the user's profile.
    SetEnvironment { vars: Vec<(String, String)> },
}

/// The mathematical value of a `PostAction`.
pub ghost enum PostActionV {
    ShellCommand { command: Seq<char> },
    WriteConfigFile { path: Seq<char>, content: Seq<char> },
    EnableService { service: Seq<char> },
    AddUserToGroup { group: Seq<char>, username: Seq<char> },
    SetEnvironment { vars: Seq<(Seq<char>, Seq<char>)> },
}

impl View for PostAction {
    type V = PostActionV;

    open spec fn view(&self) -> PostActionV {
        match self {
            PostAction::ShellCommand { command } => PostActionV::ShellCommand {
                command: command@,
            },
            PostAction::WriteConfigFile { path, content } => PostActionV::WriteConfigFile {
                path: path@,
                content: content@,
            },
            PostAction::EnableService { service } => PostActionV::EnableService {
                service: service@,
            },
            PostAction::AddUserToGroup { group, username } => PostActionV::AddUserToGroup {
                group: group@,
                username: username@,
            },
            PostAction::SetEnvironment { vars } => PostActionV::SetEnvironment {
                vars: vars.deep_view(),
            },
        }
    }
}

impl DeepView for PostAction {
    type V = PostActionV;

    open spec fn deep_view(&self) -> PostActionV {
        self.view()
    }
}

/// The exact best-effort step sequence of a post-install block: its
/// commands, then its configuration files, then its services, then its group
/// additions, then one environment merge, each part in definition order.
pub open spec fn post_install_actions(
    post: crate::package::PostInstallV,
    username: Seq<char>,
) -> Seq<PostActionV> {
    (match post.commands {
        Option::Some(cs) => cs.map_values(|c: Seq<char>| PostActionV::ShellCommand { command: c }),
        Option::None => Seq::empty(),
    }) + (match post.config_files {
        Option::Some(fs) => fs.map_values(
            |f: (Seq<char>, Seq<char>)| PostActionV::WriteConfigFile { path: f.0, content: f.1 },
        ),
        Option::None => Seq::empty(),
    }) + (match post.enable_services {
        Option::Some(ss) => ss.map_values(|x: Seq<char>| PostActionV::EnableService { service: x }),
        Option::None => Seq::empty(),
    }) + (match post.user_groups {
        Option::Some(gs) => gs.map_values(
            |g: Seq<char>| PostActionV::AddUserToGroup { group: g, username },
        ),
        Option::None => Seq::empty(),
    }) + (match post.environment {
        Option::Some(vars) => seq![PostActionV::SetEnvironment { vars }],
        Option::None => Seq::empty(),
    })
}

impl Installer {
    /// The best-effort post-install steps for one package, in order. The
    /// caller attempts each and reports failures without aborting.
    #[verifier::rlimit(80)]
    pub fn run_post_install(&self, post_install: &PostInstall, username: &str) -> (r: Vec<
        PostAction,
    >)
        ensures
            r.deep_view() == post_install_actions(post_install@, username@),
    {
        let mut r: Vec<PostAction> = Vec::new();
        proof {
            assert(r.deep_view() =~= Seq::<PostActionV>::empty());
        }
        if let Option::Some(commands) = &post_install.commands {
            let ghost mapped = commands.deep_view().map_values(
                |c: Seq<char>| PostActionV::ShellCommand { command: c },
            );
            let ghost base = r.deep_view();
            let mut i: usize = 0;
            while i < commands.len()
                invariant
                    i <= commands@.len(),
                    mapped == commands.deep_view().map_values(
                        |c: Seq<char>| PostActionV::ShellCommand { command: c },
                    ),
                    r.deep_view() =~= base + mapped.subrange(0, i as int),
                decreases commands@.len() - i,
            {
                let ghost pre = r.deep_view();
                r.push(PostAction::ShellCommand { command: commands[i].clone() });
                proof {
                    push_extends_map(pre, r.deep_view(), base, mapped, i as int);
                }
                i = i + 1;
            }
        }
        if let Option::Some(files) = &post_install.config_files {
            let ghost mapped = files.deep_view().map_values(
                |f: (Seq<char>, Seq<char>)| PostActionV::WriteConfigFile {
                    path: f.0,
                    content: f.1,
                },
            );
            let ghost base = r.deep_view();
            let mut i: usize = 0;
            while i < files.len()
                invariant
                    i <= files@.len(),
                    mapped == files.deep_view().map_values(
                        |f: (Seq<char>, Seq<char>)| PostActionV::WriteConfigFile {
                            path: f.0,
                            content: f.1,
                        },
                    ),
                    r.deep_view() =~= base + mapped.subrange(0, i as int),
                decreases files@.len() - i,
            {
                let ghost pre = r.deep_view();
                r.push(
                    PostAction::WriteConfigFile {
                        path: files[i].0.clone(),
                        content: files[i].1.clone(),
                    },
                );
                proof {
                    push_extends_map(pre, r.deep_view(), base, mapped, i as int);
                }
                i = i + 1;
            }
        }
        if let Option::Some(services) = &post_install.enable_services {
            let ghost mapped = services.deep_view().map_values(
                |x: Seq<char>| PostActionV::EnableService { service: x },
            );
            let ghost base = r.deep_view();
            let mut i: usize = 0;
            while i < services.len()
                invariant
                    i <= services@.len(),
                    mapped == services.deep_view().map_values(
                        |x: Seq<char>| PostActionV::EnableService { service: x },
                    ),
                    r.deep_view() =~= base + mapped.subrange(0, i as int),
                decreases services@.len() - i,
            {
                let ghost pre = r.deep_view();
                r.push(PostAction::EnableService { service: services[i].clone() });
                proof {
                    push_extends_map(pre, r.deep_view(), base, mapped, i as int);
                }
                i = i + 1;
            }
        }
        if let Option::Some(groups) = &post_install.user_groups {
            let ghost mapped = groups.deep_view().map_values(
                |g: Seq<char>| PostActionV::AddUserToGroup { group: g, username: username@ },
            );
            let ghost base = r.deep_view();
            let mut i: usize = 0;
            while i < groups.len()
                invariant
                    i <= groups@.len(),
                    mapped == groups.deep_view().map_values(
                        |g: Seq<char>| PostActionV::AddUserToGroup {
                            group: g,
                            username: username@,
                        },
                    ),
                    r.deep_view() =~= base + mapped.subrange(0, i as int),
                decreases groups@.len() - i,
            {
                let ghost pre = r.deep_view();
                r.push(
                    PostAction::AddUserToGroup {
                        group: groups[i].clone(),
                        username: username.to_owned(),
                    },
                );
                proof {
                    push_extends_map(pre, r.deep_view(), base, mapped, i as int);
                }
                i = i + 1;
            }
        }
        if let Option::Some(vars) = &post_install.environment {
            let ghost base = r.deep_view();
            r.push(PostAction::SetEnvironment { vars: crate::package::clone_pair_vec(vars) });
            proof {
                assert(r.deep_view() =~= base + seq![
                    PostActionV::SetEnvironment { vars: vars.deep_view() },
                ]);
            }
        }
        proof {
            assert(r.deep_view() =~= post_install_actions(post_install@, username@));
        }
        r
    }
}

/// Pushing the image of the next element extends a mapped prefix by one.
proof fn push_extends_map(
    pre: Seq<PostActionV>,
    cur: Seq<PostActionV>,
    base: Seq<PostActionV>,
    mapped: Seq<PostActionV>,
    i: int,
)
    requires
        0 <= i < mapped.len(),
        pre == base + mapped.subrange(0, i),
        cur.len() == pre.len() + 1,
        forall|w: int| 0 <= w < pre.len() ==> cur[w] == pre[w],
        cur[cur.len() - 1] == mapped[i],
    ensures
        cur =~= base + mapped.subrange(0, i + 1),
{
}

/// The arguments of the service-enabling command.
pub fn enable_service_args(service: &str) -> (r: Vec<String>)
    ensures
        r.deep_view() =~= seq!["enable"@, "--now"@, service@],
{
    let mut r: Vec<String> = Vec::new();
    r.push("enable".to_owned());
    r.push("--now".to_owned());
    r.push(service.to_owned());
    r
}

/// The arguments of the group-membership command.
pub fn add_user_to_group_args(group: &str, username: &str) -> (r: Vec<String>)
    ensures
        r.deep_view() =~= seq!["-a"@, "-G"@, group@, username@],
{
    let mut r: Vec<String> = Vec::new();
    r.push("-a".to_owned());
    r.push("-G".to_owned());
    r.push(group.to_owned());
    r.push(username.to_owned());
    r
}

/// The export line that records one environment variable.
pub open spec fn env_line(k: Seq<char>, v: Seq<char>) -> Seq<char> {
    "export "@ + k + "=\""@ + v + "\"\n"@
}

/// Profile content with the export lines merged in, each appended only when
/// not already present.
pub open spec fn merge_env(content: Seq<char>, vars: Seq<(Seq<char>, Seq<char>)>) -> Seq<char>
    decreases vars.len(),
{
    if vars.len() == 0 {
        content
    } else {
        let line = env_line(vars[0].0, vars[0].1);
        let c2 = if contains_seq(content, line) {
            content
        } else {
            content + line
        };
        merge_env(c2, vars.drop_first())
    }
}

/// Merges environment-variable export lines into existing profile content:
/// each line is appended unless the content already holds it.
pub fn merge_env_lines(existing: &str, vars: &Vec<(String, String)>) -> (r: String)
    ensures
        r@ == merge_env(existing@, vars.deep_view()),
{
    let mut content = existing.to_owned();
    let mut i: usize = 0;
    proof {
        assert(vars.deep_view().skip(0) =~= vars.deep_view());
    }
    while i < vars.len()
        invariant
            i <= vars@.len(),
            merge_env(existing@, vars.deep_view()) == merge_env(
                content@,
                vars.deep_view().skip(i as int),
            ),
        decreases vars@.len() - i,
    {
        let ghost rest = vars.deep_view().skip(i as int);
        let mut line = concat_str("export ", vars[i].0.as_str());
        line.append("=\"");
        line.append(vars[i].1.as_str());
        line.append("\"\n");
        proof {
            assert(rest[0] == vars.deep_view()[i as int]);
            assert(line@ == env_line(rest[0].0, rest[0].1));
            assert(rest.drop_first() =~= vars.deep_view().skip(i + 1));
        }
        if !contains_substring(content.as_str(), line.as_str()) {
            content.append(line.as_str());
        }
        i = i + 1;
    }
    proof {
        assert(vars.deep_view().skip(vars.deep_view().len() as int) =~= Seq::<(
            Seq<char>,
            Seq<char>,
        )>::empty());
    }
    content
}

/// Relies on shellexpand::tilde: only a leading tilde is substituted, so a
/// path that does not start with one comes back unchanged.
#[verifier::external_body]
pub fn expand_tilde(path: &str) -> (r: String)
    ensures
        path@.len() > 0 && path@[0] != '~' ==> r@ == path@,
        path@.len() == 0 ==> r@ == path@,
{
    shellexpand::tilde(path).into_owned()
}

/// What removing one package comes to.
#[derive(Debug)]
pub enum RemovalAction {
    /// Invoke a manager's removal command; a non-zero exit fails under the
    /// given prefix.
    Command { program: String, args: Vec<String>, failure: String },
    /// Delete the installed file, if it exists.
    DeleteFile { path: String },
}

/// The removal step for a package, the structural inverse of its
/// installation method; methods without a removal path are refused.
pub fn removal_plan(package: &Package, autoremove: bool) -> (r: Result<RemovalAction, Error>)
    ensures
        package.installation matches Installation::Pacman { packages, .. } ==> (r matches Ok(a)
            && a matches RemovalAction::Command { program, args, failure } && program@ == "pacman"@
            && args.deep_view() == seq!["-R"@, "--noconfirm"@] + (if autoremove {
            seq!["-s"@]
        } else {
            Seq::<Seq<char>>::empty()
        }) + packages.deep_view() && failure@ == "Failed to remove pacman packages: "@),
        package.installation matches Installation::Flatpak { id, .. } ==> (r matches Ok(a)
            && a matches RemovalAction::Command { program, args, failure } && program@ == "flatpak"@
            && args.deep_view() == seq!["uninstall"@, "-y"@, id@] && failure@
            == "Failed to remove Flatpak: "@),
        package.installation matches Installation::Binary { install_path, .. } ==> (r matches Ok(a)
            && a matches RemovalAction::DeleteFile { path } && (install_path@.len() > 0
            && install_path@[0] != '~' ==> path@ == install_path@)),
        !(package.installation matches Installation::Pacman { .. }) && !(
        package.installation matches Installation::Flatpak { .. }) && !(
        package.installation matches Installation::Binary { .. }) ==> (r matches Err(e) && e matches
            Error::InstallationFailed(m) && m@
            == "Removal not implemented for this installation method"@),
{
    match &package.installation {
        Installation::Pacman { packages, .. } => {
            let mut args: Vec<String> = Vec::new();
            args.push("-R".to_owned());
            args.push("--noconfirm".to_owned());
            let ghost base = args.deep_view();
            if autoremove {
                args.push("-s".to_owned());
            }
            let ghost with_flag = args.deep_view();
            append_string_vec(&mut args, packages);
            proof {
                assert(base =~= seq!["-R"@, "--noconfirm"@]);
                if autoremove {
                    assert(with_flag =~= base + seq!["-s"@]);
                } else {
                    assert(with_flag =~= base + Seq::<Seq<char>>::empty());
                }
            }
            Result::Ok(
                RemovalAction::Command {
                    program: "pacman".to_owned(),
                    args,
                    failure: "Failed to remove pacman packages: ".to_owned(),
                },
            )
        },
        Installation::Flatpak { id, .. } => {
            let mut args: Vec<String> = Vec::new();
            args.push("uninstall".to_owned());
            args.push("-y".to_owned());
            args.push(id.clone());
            proof {
                assert(args.deep_view() =~= seq!["uninstall"@, "-y"@, id@]);
            }
            Result::Ok(
                RemovalAction::Command {
                    program: "flatpak".to_owned(),
                    args,
                    failure: "Failed to remove Flatpak: ".to_owned(),
                },
            )
        },
        Installation::Binary { install_path, .. } => {
            let expanded = expand_tilde(install_path.as_str());
            Result::Ok(RemovalAction::DeleteFile { path: expanded })
        },
        _ => Result::Err(
            Error::InstallationFailed("Removal not implemented for this installation method".to_owned()),
        ),
    }
}

} // verus!
