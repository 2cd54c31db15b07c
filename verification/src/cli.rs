//! The commands of the program, and what each of them asks of the
//! framework.

use crate::magisk::is_kitsune;
use crate::text::{has_subseq, str_eq, texts, trim_of, trim_str};
use vstd::prelude::*;
use vstd::string::StringExecFns;

verus! {

/// The command line.
#[derive(Debug)]
pub struct Cli {
    pub command: Commands,
}

/// The commands.
#[derive(Debug)]
#[allow(inconsistent_fields)]
pub enum Commands {
    /// Show the status of the framework.
    Status,
    /// Install the framework.
    Install(InstallArgs),
    /// Run the additional setup.
    Setup,
    /// Remove the framework.
    Remove,
    /// Update the framework.
    Update,
    /// Manage the modules.
    Module { command: ModuleCommand },
    /// Manage the hide list of the legacy variant.
    Magiskhide { command: MagiskhideCommand },
    /// Manage the deny list of the modern variant.
    Denylist { command: DenylistCommand },
    /// Manage Zygisk.
    Zygisk { command: ZygiskCommand },
    /// Manage the apps that may become root.
    Superuser { command: SuperuserCommand },
}

/// What `install` takes.
#[derive(Debug)]
pub struct InstallArgs {
    /// The payload to install, in place of the one on offer.
    pub apk: Option<String>,
    /// Install the modern variant.
    pub new: bool,
}

/// The commands of the hide list.
#[derive(Debug)]
pub enum MagiskhideCommand {
    Status,
    Sulist { command: Option<SulistSubCommand> },
    Enable,
    Disable,
    Add(AddRemoveArgs),
    Rm(AddRemoveArgs),
    Ls,
}

/// The commands of the deny list.
#[derive(Debug)]
pub enum DenylistCommand {
    Status,
    Enable,
    Disable,
    Add(AddRemoveArgs),
    Rm(AddRemoveArgs),
    Ls,
}

/// The package that is added to a list or removed from it.
#[derive(Debug)]
pub struct AddRemoveArgs {
    pub pkg: String,
}

/// The commands of the apps that may become root.
#[derive(Debug)]
pub enum SuperuserCommand {
    Allow(AddRemoveArgs),
    Deny(AddRemoveArgs),
    List,
}

/// The commands of the su list.
#[derive(Clone, Copy, PartialEq, Eq, Debug, Structural)]
pub enum SulistSubCommand {
    Enable,
    Disable,
}

/// The commands of the modules.
#[derive(Debug)]
pub enum ModuleCommand {
    List,
    Remove(ModuleRemoveArg),
    Install(ModuleInstallArg),
    Disable(ModuleDisableEnableArg),
    Enable(ModuleDisableEnableArg),
}

/// The commands of Zygisk.
#[derive(Clone, Copy, PartialEq, Eq, Debug, Structural)]
pub enum ZygiskCommand {
    Status,
    Enable,
    Disable,
}

/// The archive of the module to install.
#[derive(Debug)]
pub struct ModuleInstallArg {
    pub module: String,
}

/// The name of the module to remove.
#[derive(Debug)]
pub struct ModuleRemoveArg {
    pub module: String,
}

/// The name of the module to switch on or off.
#[derive(Debug)]
pub struct ModuleDisableEnableArg {
    pub module: String,
}

/// Why the program cannot run at all.
#[derive(Clone, Copy, PartialEq, Eq, Debug, Structural)]
pub enum PreflightError {
    /// The container runtime is not installed.
    NoWaydroid,
    /// The container runtime is not initialized.
    NotInitialized,
    /// The user is not root.
    NotRoot,
}

/// Why an applet cannot be called.
#[derive(Clone, Copy, PartialEq, Eq, Debug, Structural)]
pub enum AppletError {
    /// The applet belongs to the legacy variant.
    OnlyKitsune,
    /// The applet belongs to the modern variant.
    OnlyMagisk,
}

/// What the program needs before any command: the container runtime is
/// installed and initialized, and the user is root. The first of these that
/// is missing is the error.
pub fn preflight(waydroid_found: bool, initialized: bool, is_root: bool) -> (r: Result<
    (),
    PreflightError,
>)
    ensures
        r == (if !waydroid_found {
            Err::<(), PreflightError>(PreflightError::NoWaydroid)
        } else if !initialized {
            Err::<(), PreflightError>(PreflightError::NotInitialized)
        } else if !is_root {
            Err::<(), PreflightError>(PreflightError::NotRoot)
        } else {
            Ok::<(), PreflightError>(())
        }),
{
    if !waydroid_found {
        Err(PreflightError::NoWaydroid)
    } else if !initialized {
        Err(PreflightError::NotInitialized)
    } else if !is_root {
        Err(PreflightError::NotRoot)
    } else {
        Ok(())
    }
}

/// The answer to a question is a yes: it is `y` or `Y`, not counting the
/// white space around it.
pub fn is_yes(answer: &str) -> (r: bool)
    ensures
        r == (trim_of(answer@) == "y"@ || trim_of(answer@) == "Y"@),
{
    let word = trim_str(answer);
    str_eq(word.as_str(), "y") || str_eq(word.as_str(), "Y")
}

/// The installed version is of the legacy kind.
pub open spec fn legacy_version(version: Seq<char>) -> bool {
    has_subseq(version, "kitsune"@) || has_subseq(version, "v27.2-Waydroid"@)
}

/// Whether an applet of the legacy variant can be called.
pub fn kitsune_or_err(version: &str) -> (r: Result<(), AppletError>)
    ensures
        r == (if legacy_version(version@) {
            Ok::<(), AppletError>(())
        } else {
            Err::<(), AppletError>(AppletError::OnlyKitsune)
        }),
{
    if is_kitsune(version) {
        Ok(())
    } else {
        Err(AppletError::OnlyKitsune)
    }
}

/// Whether an applet of the modern variant can be called.
pub fn magisk_or_err(version: &str) -> (r: Result<(), AppletError>)
    ensures
        r == (if legacy_version(version@) {
            Err::<(), AppletError>(AppletError::OnlyMagisk)
        } else {
            Ok::<(), AppletError>(())
        }),
{
    if is_kitsune(version) {
        Err(AppletError::OnlyMagisk)
    } else {
        Ok(())
    }
}

/// The payload that `install` names; nothing if it names none.
pub fn apk_path(args: &InstallArgs) -> (path: String)
    ensures
        path@ == (match args.apk {
            Some(apk) => apk@,
            None => Seq::<char>::empty(),
        }),
{
    match &args.apk {
        Some(apk) => String::from_str(apk.as_str()),
        None => String::new(),
    }
}

fn one(a: &str) -> (argv: Vec<String>)
    ensures
        texts(argv@) == seq![a@],
{
    let mut argv: Vec<String> = Vec::new();
    argv.push(String::from_str(a));
    assert(texts(argv@) =~= seq![a@]);
    argv
}

fn two(a: &str, b: &str) -> (argv: Vec<String>)
    ensures
        texts(argv@) == seq![a@, b@],
{
    let mut argv: Vec<String> = Vec::new();
    argv.push(String::from_str(a));
    argv.push(String::from_str(b));
    assert(texts(argv@) =~= seq![a@, b@]);
    argv
}

/// The arguments of the `magiskhide` applet for a command.
pub open spec fn magiskhide_args(command: MagiskhideCommand) -> Seq<Seq<char>> {
    match command {
        MagiskhideCommand::Status => seq!["status"@],
        MagiskhideCommand::Enable => seq!["enable"@],
        MagiskhideCommand::Disable => seq!["disable"@],
        MagiskhideCommand::Sulist { command: Some(SulistSubCommand::Enable) } => seq![
            "sulist"@,
            "enable"@,
        ],
        MagiskhideCommand::Sulist { command: Some(SulistSubCommand::Disable) } => seq![
            "sulist"@,
            "disable"@,
        ],
        MagiskhideCommand::Sulist { command: None } => seq!["sulist"@],
        MagiskhideCommand::Ls => seq!["ls"@],
        MagiskhideCommand::Add(arg) => seq!["add"@, arg.pkg@],
        MagiskhideCommand::Rm(arg) => seq!["rm"@, arg.pkg@],
    }
}

/// The arguments of the `magiskhide` applet for a command.
pub fn magiskhide_call(command: &MagiskhideCommand) -> (argv: Vec<String>)
    ensures
        texts(argv@) == magiskhide_args(*command),
{
    match command {
        MagiskhideCommand::Status => one("status"),
        MagiskhideCommand::Enable => one("enable"),
        MagiskhideCommand::Disable => one("disable"),
        MagiskhideCommand::Sulist { command: Some(SulistSubCommand::Enable) } => two(
            "sulist",
            "enable",
        ),
        MagiskhideCommand::Sulist { command: Some(SulistSubCommand::Disable) } => two(
            "sulist",
            "disable",
        ),
        MagiskhideCommand::Sulist { command: None } => one("sulist"),
        MagiskhideCommand::Ls => one("ls"),
        MagiskhideCommand::Add(arg) => two("add", arg.pkg.as_str()),
        MagiskhideCommand::Rm(arg) => two("rm", arg.pkg.as_str()),
    }
}

/// The arguments of the `--denylist` applet for a command.
pub open spec fn denylist_args(command: DenylistCommand) -> Seq<Seq<char>> {
    match command {
        DenylistCommand::Status => seq!["status"@],
        DenylistCommand::Enable => seq!["enable"@],
        DenylistCommand::Disable => seq!["disable"@],
        DenylistCommand::Ls => seq!["ls"@],
        DenylistCommand::Add(arg) => seq!["add"@, arg.pkg@],
        DenylistCommand::Rm(arg) => seq!["rm"@, arg.pkg@],
    }
}

/// The arguments of the `--denylist` applet for a command.
pub fn denylist_call(command: &DenylistCommand) -> (argv: Vec<String>)
    ensures
        texts(argv@) == denylist_args(*command),
{
    match command {
        DenylistCommand::Status => one("status"),
        DenylistCommand::Enable => one("enable"),
        DenylistCommand::Disable => one("disable"),
        DenylistCommand::Ls => one("ls"),
        DenylistCommand::Add(arg) => two("add", arg.pkg.as_str()),
        DenylistCommand::Rm(arg) => two("rm", arg.pkg.as_str()),
    }
}

} // verus!
