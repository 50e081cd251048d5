//! The application: its state, and the decisions it takes between the
//! pieces of outside work that a caller performs for it.
//!
//! An installation passes through the states of `InstallState`. The caller
//! hands `App::step` the state and what the last piece of outside work
//! brought; the answer is the next state and the next piece of work. The
//! caller downloads, moves files and stores the registry; it decides
//! nothing.

use crate::args::{Args, Commands};
use crate::config::AppConfig;
use crate::error::Error;
use crate::manifest::{GodotInfo, Manifest};
use crate::package_list::{url_spec, PackageList, Platform};
use crate::version::{parse_version, GodotVersion};
use vstd::prelude::*;

verus! {

/// The application's state.
pub struct App {
    pub appconfig: AppConfig,
    pub manifest: Manifest,
    pub package_list: PackageList,
}

/// A command whose versions have been read.
#[derive(Debug, Clone, Copy, PartialEq, Eq, Structural)]
pub enum Task {
    /// Install `version`. Where it is `installed` already, the user is to
    /// be asked whether the installation may be replaced.
    Install { version: GodotVersion, installed: bool },
    /// Make `version` the one in use.
    SetCurrent { version: GodotVersion },
    /// Fetch the package list anew.
    Update,
    Upgrade,
}

/// How far an installation has come. `forced` says that the version was
/// installed before and that the user agreed to replace it.
#[derive(Debug, Clone, Copy, PartialEq, Eq, Structural)]
pub enum InstallState {
    /// Nothing has been done yet.
    RequestedVersion { version: GodotVersion, forced: bool },
    /// The package list has a download for the version.
    UrlResolved { version: GodotVersion, forced: bool },
    /// The download lies in a temporary file.
    Downloaded { version: GodotVersion, forced: bool },
    /// The binary is in place and the registry records it.
    Registered { version: GodotVersion },
}

/// What the last piece of outside work brought.
#[derive(Debug, Clone, PartialEq, Eq)]
pub enum InstallEvent {
    /// Nothing: the installation begins.
    Begin,
    /// The download was stored in `temp_file`.
    Downloaded { temp_file: String },
    /// The binary was moved to `bin_path`.
    Placed { bin_path: String },
}

/// The next piece of outside work.
#[derive(Debug, Clone, PartialEq, Eq)]
pub enum InstallAction {
    /// Fetch `url` into a temporary file.
    Download { url: String },
    /// Move `temp_file` to the place for `version`. Only with `overwrite`
    /// may an earlier installation of the version be removed.
    Place { temp_file: String, version: GodotVersion, overwrite: bool },
    /// Store the registry.
    Persist,
}

/// The values to give to the two environment variables that point at the
/// binary in use. `None` leaves a variable as it is.
#[derive(Debug, Clone, PartialEq, Eq)]
pub struct EnvUpdate {
    pub godot_bin: Option<String>,
    pub godot: Option<String>,
}

/// The value that `check_env` gives to one variable: the place of the
/// binary in use, unless the variable is set already or no version is in
/// use.
pub open spec fn env_value(
    installed: Map<GodotVersion, Seq<char>>,
    current: Option<GodotVersion>,
    is_set: bool,
) -> Option<Seq<char>> {
    match current {
        Some(version) => if is_set {
            None
        } else {
            Some(installed[version])
        },
        None => None,
    }
}

/// The state in which the installation of `version` begins, given what is
/// installed and whether the user agreed to replace an installation.
pub open spec fn requested(
    installed: Map<GodotVersion, Seq<char>>,
    version: GodotVersion,
    confirmed: bool,
) -> InstallState {
    InstallState::RequestedVersion { version, forced: installed.contains_key(version) && confirmed }
}

/// Whether an installation in `state` may still remove an earlier one.
pub open spec fn is_forced(state: InstallState) -> bool {
    match state {
        InstallState::RequestedVersion { forced, .. } => forced,
        InstallState::UrlResolved { forced, .. } => forced,
        InstallState::Downloaded { forced, .. } => forced,
        InstallState::Registered { .. } => false,
    }
}

/// An installation is forced exactly where the version is installed and the
/// user agreed to replace it: without that agreement no earlier
/// installation is removed, and a first installation is never forced.
pub proof fn lemma_forced_needs_confirmation(
    installed: Map<GodotVersion, Seq<char>>,
    version: GodotVersion,
    confirmed: bool,
)
    ensures
        is_forced(requested(installed, version, confirmed)) <==> installed.contains_key(version)
            && confirmed,
{
}

/// The text of an optional string.
pub open spec fn text_of(value: Option<String>) -> Option<Seq<char>> {
    match value {
        Some(text) => Some(text@),
        None => None,
    }
}

impl App {
    /// The registry and the package list are well formed.
    pub open spec fn wf(&self) -> bool {
        self.manifest.wf() && self.package_list.wf()
    }

    /// Reads the versions in the arguments. For an installation the task
    /// says whether the version is installed already. A version that
    /// cannot be read is handed back in the error.
    pub fn run(&self, args: Args) -> (r: Result<Task, Error>)
        requires
            self.wf(),
        ensures
            match args.command {
                Commands::Install { version: text } => match parse_version(text@) {
                    Some(version) => r == Ok::<Task, Error>(
                        Task::Install {
                            version,
                            installed: self.manifest.installed().contains_key(version),
                        },
                    ),
                    None => {
                        &&& r matches Err(Error::CannotParseVersion(t))
                        &&& t@ == text@
                    },
                },
                Commands::SetCurrent { version: text } => match parse_version(text@) {
                    Some(version) => r == Ok::<Task, Error>(Task::SetCurrent { version }),
                    None => {
                        &&& r matches Err(Error::CannotParseVersion(t))
                        &&& t@ == text@
                    },
                },
                Commands::Update => r == Ok::<Task, Error>(Task::Update),
                Commands::Upgrade => r == Ok::<Task, Error>(Task::Upgrade),
            },
    {
        match args.command {
            Commands::Install { version } => match GodotVersion::from_str(version.as_str()) {
                Ok(version) => Ok(
                    Task::Install { version, installed: self.manifest.has(&version) },
                ),
                Err(e) => Err(e),
            },
            Commands::SetCurrent { version } => match GodotVersion::from_str(version.as_str()) {
                Ok(version) => Ok(Task::SetCurrent { version }),
                Err(e) => Err(e),
            },
            Commands::Update => Ok(Task::Update),
            Commands::Upgrade => Ok(Task::Upgrade),
        }
    }

    /// The state in which the installation of `version` begins. The
    /// installation is forced only where the version is installed and the
    /// user `confirmed` that it may be replaced.
    pub fn request_install(&self, version: GodotVersion, confirmed: bool) -> (state: InstallState)
        requires
            self.wf(),
        ensures
            state == requested(self.manifest.installed(), version, confirmed),
    {
        InstallState::RequestedVersion { version, forced: self.manifest.has(&version) && confirmed }
    }

    /// The address to download `version` from for `platform`. A version
    /// that the package list does not hold for the platform is not found.
    pub fn download_godot(&self, platform: Platform, version: &GodotVersion) -> (r: Result<
        String,
        Error,
    >)
        requires
            self.wf(),
        ensures
            match url_spec(self.package_list.prefix(), self.package_list.paths(platform), *version) {
                Some(url) => {
                    &&& r matches Ok(u)
                    &&& u@ == url
                },
                None => r == Err::<String, Error>(Error::VersionNotFound(*version)),
            },
    {
        match self.package_list.url(platform, version) {
            Some(url) => Ok(url),
            None => Err(Error::VersionNotFound(*version)),
        }
    }

    /// Records an installation in the registry, in place of an earlier
    /// record of the same version.
    pub fn register_version(&mut self, info: GodotInfo)
        requires
            old(self).wf(),
        ensures
            final(self).wf(),
            final(self).manifest.installed() == old(self).manifest.installed().insert(
                info.version,
                info.bin_path@,
            ),
            final(self).manifest.installed().contains_key(info.version),
            final(self).manifest.current() == old(self).manifest.current(),
            final(self).package_list == old(self).package_list,
            final(self).appconfig == old(self).appconfig,
    {
        self.manifest.install(info);
    }

    /// Takes an installation one step further.
    ///
    /// From `RequestedVersion`, on `Begin`, the download is looked up: where
    /// the package list holds none, the installation ends with
    /// `VersionNotFound`. From `UrlResolved`, on `Downloaded`, the file is
    /// to be put in place, replacing an earlier installation only where the
    /// installation is forced. From `Downloaded`, on `Placed`, the registry
    /// records the installation and is to be stored. Any other pair of
    /// state and event is refused with `Unknown`. Only the step that
    /// records changes anything.
    pub fn step(&mut self, platform: Platform, state: InstallState, event: InstallEvent) -> (r:
        Result<(InstallState, InstallAction), Error>)
        requires
            old(self).wf(),
        ensures
            final(self).wf(),
            final(self).package_list == old(self).package_list,
            final(self).appconfig == old(self).appconfig,
            final(self).manifest.current() == old(self).manifest.current(),
            match (state, event) {
                (InstallState::RequestedVersion { version, forced }, InstallEvent::Begin) => {
                    &&& final(self).manifest.installed() == old(self).manifest.installed()
                    &&& match url_spec(
                        old(self).package_list.prefix(),
                        old(self).package_list.paths(platform),
                        version,
                    ) {
                        Some(url) => {
                            &&& r matches Ok((next, InstallAction::Download { url: u }))
                            &&& next == (InstallState::UrlResolved { version, forced })
                            &&& u@ == url
                        },
                        None => r == Err::<(InstallState, InstallAction), Error>(
                            Error::VersionNotFound(version),
                        ),
                    }
                },
                (
                    InstallState::UrlResolved { version, forced },
                    InstallEvent::Downloaded { temp_file },
                ) => {
                    &&& final(self).manifest.installed() == old(self).manifest.installed()
                    &&& r == Ok::<(InstallState, InstallAction), Error>(
                        (
                            InstallState::Downloaded { version, forced },
                            InstallAction::Place { temp_file, version, overwrite: forced },
                        ),
                    )
                },
                (InstallState::Downloaded { version, forced }, InstallEvent::Placed { bin_path }) => {
                    &&& final(self).manifest.installed() == old(self).manifest.installed().insert(
                        version,
                        bin_path@,
                    )
                    &&& r == Ok::<(InstallState, InstallAction), Error>(
                        (InstallState::Registered { version }, InstallAction::Persist),
                    )
                },
                _ => {
                    &&& final(self).manifest.installed() == old(self).manifest.installed()
                    &&& r == Err::<(InstallState, InstallAction), Error>(Error::Unknown)
                },
            },
    {
        match (state, event) {
            (InstallState::RequestedVersion { version, forced }, InstallEvent::Begin) => {
                match self.download_godot(platform, &version) {
                    Ok(url) => Ok(
                        (
                            InstallState::UrlResolved { version, forced },
                            InstallAction::Download { url },
                        ),
                    ),
                    Err(e) => Err(e),
                }
            },
            (
                InstallState::UrlResolved { version, forced },
                InstallEvent::Downloaded { temp_file },
            ) => Ok(
                (
                    InstallState::Downloaded { version, forced },
                    InstallAction::Place { temp_file, version, overwrite: forced },
                ),
            ),
            (InstallState::Downloaded { version, forced }, InstallEvent::Placed { bin_path }) => {
                self.register_version(GodotInfo { version, bin_path });
                Ok((InstallState::Registered { version }, InstallAction::Persist))
            },
            _ => Err(Error::Unknown),
        }
    }

    /// Makes `version` the version in use and gives the place of its
    /// binary. A version that is not installed is refused, and nothing
    /// changes.
    pub fn set_current(&mut self, version: &GodotVersion) -> (r: Result<String, Error>)
        requires
            old(self).wf(),
        ensures
            final(self).wf(),
            final(self).manifest.installed() == old(self).manifest.installed(),
            final(self).package_list == old(self).package_list,
            final(self).appconfig == old(self).appconfig,
            match r {
                Ok(path) => {
                    &&& old(self).manifest.installed().contains_key(*version)
                    &&& path@ == old(self).manifest.installed()[*version]
                    &&& final(self).manifest.current() == Some(*version)
                },
                Err(e) => {
                    &&& !old(self).manifest.installed().contains_key(*version)
                    &&& e == Error::NotInstalled(*version)
                    &&& final(self).manifest.current() == old(self).manifest.current()
                },
            },
    {
        match self.manifest.get(version) {
            Some(info) => {
                let _ = self.manifest.set_current(version);
                Ok(info.bin_path)
            },
            None => Err(Error::NotInstalled(*version)),
        }
    }

    /// What to set the two environment variables to, given which of them
    /// are set: a variable that is not set gets the place of the binary in
    /// use; nothing is set where no version is in use.
    pub fn check_env(&self, godot_bin_set: bool, godot_set: bool) -> (update: EnvUpdate)
        requires
            self.wf(),
        ensures
            text_of(update.godot_bin) == env_value(
                self.manifest.installed(),
                self.manifest.current(),
                godot_bin_set,
            ),
            text_of(update.godot) == env_value(
                self.manifest.installed(),
                self.manifest.current(),
                godot_set,
            ),
    {
        let current = match self.manifest.current_app() {
            Some(version) => {
                proof {
                    self.manifest.lemma_current_is_installed();
                }
                self.manifest.get(&version)
            },
            None => None,
        };
        match current {
            Some(info) => {
                let godot_bin = if godot_bin_set {
                    None
                } else {
                    Some(info.bin_path.clone())
                };
                let godot = if godot_set {
                    None
                } else {
                    Some(info.bin_path)
                };
                EnvUpdate { godot_bin, godot }
            },
            None => EnvUpdate { godot_bin: None, godot: None },
        }
    }

    /// Replaces the package list by one that was fetched anew.
    pub fn refresh_package_list(&mut self, fetched: PackageList)
        requires
            old(self).wf(),
            fetched.wf(),
        ensures
            final(self).wf(),
            final(self).package_list == fetched,
            final(self).manifest == old(self).manifest,
            final(self).appconfig == old(self).appconfig,
    {
        self.package_list = fetched;
    }
}

} // verus!
