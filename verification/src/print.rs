//! What the user is told, as text. How it is printed is up to the caller.

use crate::cli::{AppletError, PreflightError};
use crate::container::ContainerError;
use crate::install::InstallError;
use crate::magisk::MagiskError;
use crate::magisk_files::PatchError;
use crate::su::SuError;
use crate::text::{decimal_chars, decimal_of, from_chars};
use crate::workflow::{Fault, Message};
use vstd::prelude::*;
use vstd::string::StringExecFns;

verus! {

/// How a message is set off from the others.
#[derive(Clone, Copy, PartialEq, Eq, Debug, Structural)]
pub enum Style {
    /// The title of a workflow.
    Main,
    /// A step of a workflow.
    Sub,
    /// The end of a workflow.
    End,
    /// A plain message.
    Regular,
    /// An error.
    Error,
}

/// The text of a message.
pub open spec fn message_text(message: Message) -> Seq<char> {
    match message {
        Message::Installing => "Installing Magisk..."@,
        Message::AlreadyInstalled => "Magisk is already installed!"@,
        Message::StoppingSession => "Stopping Waydroid session"@,
        Message::StoppingWaydroid => "Stopping Waydroid"@,
        Message::Extracting => "Extracting Magisk"@,
        Message::CopyingFiles => "Copying scripts and binaries"@,
        Message::Finishing => "Finishing installation"@,
        Message::StartingWaydroid => "Starting Waydroid"@,
        Message::CouldNotStart => "Couldn't start Waydroid container."@,
        Message::Downloading => "Downloading Magisk"@,
        Message::InstallDone => "Installation completed"@,
        Message::InstallDoneStartManually => "Installation completed, start Waydroid manually"@,
        Message::SetupHint => "Run 'sudo wsu setup' after Waydroid starts or install the manager."@,
        Message::Aborting => "Aborting..."@,
        Message::Removing => "Removing Magisk..."@,
        Message::RemovingFiles => "Removing files"@,
        Message::RemovalDone => "Removal completed."@,
        Message::StartManually => "Start Waydroid manually."@,
        Message::Updating => "Updating Magisk..."@,
        Message::UpToDate => "Magisk is up to date"@,
        Message::UpdateDone => "Update completed, restarting Waydroid."@,
        Message::UpdateFailed => "Update has failed, reinstall Magisk"@,
        Message::RunningSetup => "Running additional setup..."@,
        Message::ResizingSystem => "Resizing system image"@,
        Message::ResizingVendor => "Resizing vendor image"@,
        Message::MountingSystem => "Mounting system image"@,
        Message::MountingVendor => "Mounting vendor image"@,
        Message::Unmounting => "Umounting system and vendor image"@,
        Message::RestartIn(seconds) => "Restarting Waydroid in "@ + decimal_of(seconds as int),
    }
}

/// The style of a message.
pub open spec fn message_style(message: Message) -> Style {
    match message {
        Message::Installing => Style::Main,
        Message::Updating => Style::Main,
        Message::Removing => Style::Main,
        Message::RunningSetup => Style::Main,
        Message::AlreadyInstalled => Style::Regular,
        Message::SetupHint => Style::Regular,
        Message::StartManually => Style::Regular,
        Message::UpToDate => Style::Regular,
        Message::InstallDone => Style::End,
        Message::InstallDoneStartManually => Style::End,
        Message::Aborting => Style::End,
        Message::RemovalDone => Style::End,
        Message::UpdateDone => Style::End,
        Message::CouldNotStart => Style::Error,
        Message::UpdateFailed => Style::Error,
        _ => Style::Sub,
    }
}

/// The text and the style of a message.
pub fn describe(message: Message) -> (r: (String, Style))
    ensures
        r.0@ == message_text(message),
        r.1 == message_style(message),
{
    match message {
        Message::Installing => (String::from_str("Installing Magisk..."), Style::Main),
        Message::AlreadyInstalled => (
            String::from_str("Magisk is already installed!"),
            Style::Regular,
        ),
        Message::StoppingSession => (String::from_str("Stopping Waydroid session"), Style::Sub),
        Message::StoppingWaydroid => (String::from_str("Stopping Waydroid"), Style::Sub),
        Message::Extracting => (String::from_str("Extracting Magisk"), Style::Sub),
        Message::CopyingFiles => (String::from_str("Copying scripts and binaries"), Style::Sub),
        Message::Finishing => (String::from_str("Finishing installation"), Style::Sub),
        Message::StartingWaydroid => (String::from_str("Starting Waydroid"), Style::Sub),
        Message::CouldNotStart => (
            String::from_str("Couldn't start Waydroid container."),
            Style::Error,
        ),
        Message::Downloading => (String::from_str("Downloading Magisk"), Style::Sub),
        Message::InstallDone => (String::from_str("Installation completed"), Style::End),
        Message::InstallDoneStartManually => (
            String::from_str("Installation completed, start Waydroid manually"),
            Style::End,
        ),
        Message::SetupHint => (
            String::from_str("Run 'sudo wsu setup' after Waydroid starts or install the manager."),
            Style::Regular,
        ),
        Message::Aborting => (String::from_str("Aborting..."), Style::End),
        Message::Removing => (String::from_str("Removing Magisk..."), Style::Main),
        Message::RemovingFiles => (String::from_str("Removing files"), Style::Sub),
        Message::RemovalDone => (String::from_str("Removal completed."), Style::End),
        Message::StartManually => (String::from_str("Start Waydroid manually."), Style::Regular),
        Message::Updating => (String::from_str("Updating Magisk..."), Style::Main),
        Message::UpToDate => (String::from_str("Magisk is up to date"), Style::Regular),
        Message::UpdateDone => (
            String::from_str("Update completed, restarting Waydroid."),
            Style::End,
        ),
        Message::UpdateFailed => (
            String::from_str("Update has failed, reinstall Magisk"),
            Style::Error,
        ),
        Message::RunningSetup => (String::from_str("Running additional setup..."), Style::Main),
        Message::ResizingSystem => (String::from_str("Resizing system image"), Style::Sub),
        Message::ResizingVendor => (String::from_str("Resizing vendor image"), Style::Sub),
        Message::MountingSystem => (String::from_str("Mounting system image"), Style::Sub),
        Message::MountingVendor => (String::from_str("Mounting vendor image"), Style::Sub),
        Message::Unmounting => (
            String::from_str("Umounting system and vendor image"),
            Style::Sub,
        ),
        Message::RestartIn(seconds) => {
            let mut text = String::from_str("Restarting Waydroid in ");
            let digits = decimal_chars(seconds as i64);
            let number = from_chars(digits.as_slice());
            text.append(number.as_str());
            (text, Style::Sub)
        },
    }
}

/// The text of a fault. The fault of a step has none: the caller knows why
/// the step failed.
pub open spec fn fault_text(fault: Fault) -> Seq<char> {
    match fault {
        Fault::Step => Seq::empty(),
        Fault::Protocol => "The workflow was driven out of order."@,
        Fault::NotInstalled => "Magisk is not installed!"@,
        Fault::ContainerNotRunning => "Waydroid container isn't running!"@,
        Fault::Unrecognized => "Local version of Magisk not recognized, please reinstall!"@,
        Fault::NoSystemImage => "Couldn't find Waydroid system image!"@,
        Fault::NoVendorImage => "Couldn't find Waydroid vendor image!"@,
        Fault::SessionNotRunning => "Waydroid session isn't running!"@,
    }
}

/// The text of a fault.
pub fn describe_fault(fault: Fault) -> (text: String)
    ensures
        text@ == fault_text(fault),
{
    match fault {
        Fault::Step => String::new(),
        Fault::Protocol => String::from_str("The workflow was driven out of order."),
        Fault::NotInstalled => String::from_str("Magisk is not installed!"),
        Fault::ContainerNotRunning => String::from_str("Waydroid container isn't running!"),
        Fault::Unrecognized => String::from_str(
            "Local version of Magisk not recognized, please reinstall!",
        ),
        Fault::NoSystemImage => String::from_str("Couldn't find Waydroid system image!"),
        Fault::NoVendorImage => String::from_str("Couldn't find Waydroid vendor image!"),
        Fault::SessionNotRunning => String::from_str("Waydroid session isn't running!"),
    }
}

/// An error message, with what marks it as one before it.
pub fn msg_err_str(msg: &str) -> (text: String)
    ensures
        text@ == "error: "@ + msg@,
{
    let mut text = String::from_str("error: ");
    text.append(msg);
    text
}

/// The three values of the status report: the daemon, the version and
/// Zygisk. Without a daemon there is no version and nothing to say of
/// Zygisk.
pub fn print_status(daemon_running: bool, version: &str, zygisk: bool) -> (r: (
    String,
    String,
    String,
))
    ensures
        r.0@ == (if daemon_running {
            "Running"@
        } else {
            "Stopped"@
        }),
        r.1@ == (if daemon_running {
            version@
        } else {
            "No"@
        }),
        r.2@ == (if !daemon_running {
            "N/A"@
        } else if zygisk {
            "Yes"@
        } else {
            "No"@
        }),
{
    if daemon_running {
        (
            String::from_str("Running"),
            String::from_str(version),
            if zygisk {
                String::from_str("Yes")
            } else {
                String::from_str("No")
            },
        )
    } else {
        (String::from_str("Stopped"), String::from_str("No"), String::from_str("N/A"))
    }
}

/// The line of the list of apps that asked to become root.
pub fn print_superuser(package: &str, allowed: bool) -> (line: String)
    ensures
        line@ == "- "@ + package@ + " | "@ + (if allowed {
            "allowed"@
        } else {
            "denied"@
        }),
{
    let mut line = String::from_str("- ");
    line.append(package);
    line.append(" | ");
    if allowed {
        line.append("allowed");
    } else {
        line.append("denied");
    }
    line
}

/// The text of a failed patch or restore.
pub open spec fn patch_error_text(e: PatchError) -> Seq<char> {
    match e {
        PatchError::Compress => "Couldn't compress the backup."@,
        PatchError::Decompress => "Couldn't decompress the backup."@,
        PatchError::MissingStaged => "A file that the guest was to stage is missing."@,
        PatchError::NotText => "stream did not contain valid UTF-8"@,
    }
}

/// The text of a failed patch or restore.
pub fn describe_patch_error(e: PatchError) -> (text: String)
    ensures
        text@ == patch_error_text(e),
{
    match e {
        PatchError::Compress => String::from_str("Couldn't compress the backup."),
        PatchError::Decompress => String::from_str("Couldn't decompress the backup."),
        PatchError::MissingStaged => String::from_str(
            "A file that the guest was to stage is missing.",
        ),
        PatchError::NotText => String::from_str("stream did not contain valid UTF-8"),
    }
}

/// The text of a command that cannot be run in the guest.
pub open spec fn su_error_text(e: SuError) -> Seq<char> {
    match e {
        SuError::ContainerNotRunning => "Waydroid container isn't running!"@,
        SuError::NotInstalled => "Magisk is not installed!"@,
        SuError::EmptyArguments => "su arguments are empty"@,
    }
}

/// The text of a command that cannot be run in the guest.
pub fn describe_su_error(e: SuError) -> (text: String)
    ensures
        text@ == su_error_text(e),
{
    match e {
        SuError::ContainerNotRunning => String::from_str("Waydroid container isn't running!"),
        SuError::NotInstalled => String::from_str("Magisk is not installed!"),
        SuError::EmptyArguments => String::from_str("su arguments are empty"),
    }
}

/// The text of a request that the framework cannot serve. `subject` is the
/// module or the file that the request named.
pub open spec fn magisk_error_text(e: MagiskError, subject: Seq<char>) -> Seq<char> {
    match e {
        MagiskError::ContainerNotRunning => "Waydroid container isn't running!"@,
        MagiskError::SessionNotRunning => "Waydroid session isn't running!"@,
        MagiskError::NotInstalled => "Magisk isn't installed!"@,
        MagiskError::ModuleNotFound => "'"@ + subject + "' not found"@,
        MagiskError::AlreadyDisabled => "'"@ + subject + "' already disabled"@,
        MagiskError::AlreadyEnabled => "'"@ + subject + "' already enabled"@,
        MagiskError::NoSuchFile => "No such file or directory."@,
        MagiskError::NotZip => subject + " isn't a zip file"@,
        MagiskError::NoModuleName => "Couldn't get name of the module!"@,
        MagiskError::InvalidPackage => "Invalid package name!"@,
    }
}

fn quoted(subject: &str, tail: &str) -> (text: String)
    ensures
        text@ == "'"@ + subject@ + tail@,
{
    let mut text = String::from_str("'");
    text.append(subject);
    text.append(tail);
    text
}

/// The text of a request that the framework cannot serve.
pub fn describe_magisk_error(e: MagiskError, subject: &str) -> (text: String)
    ensures
        text@ == magisk_error_text(e, subject@),
{
    match e {
        MagiskError::ContainerNotRunning => String::from_str("Waydroid container isn't running!"),
        MagiskError::SessionNotRunning => String::from_str("Waydroid session isn't running!"),
        MagiskError::NotInstalled => String::from_str("Magisk isn't installed!"),
        MagiskError::ModuleNotFound => quoted(subject, "' not found"),
        MagiskError::AlreadyDisabled => quoted(subject, "' already disabled"),
        MagiskError::AlreadyEnabled => quoted(subject, "' already enabled"),
        MagiskError::NoSuchFile => String::from_str("No such file or directory."),
        MagiskError::NotZip => {
            let mut text = String::from_str(subject);
            text.append(" isn't a zip file");
            text
        },
        MagiskError::NoModuleName => String::from_str("Couldn't get name of the module!"),
        MagiskError::InvalidPackage => String::from_str("Invalid package name!"),
    }
}

/// The text of a payload that cannot be installed.
pub open spec fn install_error_text(e: InstallError) -> Seq<char> {
    match e {
        InstallError::UnknownLayout => "Structure of apk file hasn't been recognized."@,
        InstallError::NeedsNew => "Structure of this apk file requires flag '--new'/'-n'"@,
        InstallError::NotForNew =>
            "Structure of this apk file can't be installed with flag '--new'/'-n'"@,
    }
}

/// The text of a payload that cannot be installed.
pub fn describe_install_error(e: InstallError) -> (text: String)
    ensures
        text@ == install_error_text(e),
{
    match e {
        InstallError::UnknownLayout => String::from_str(
            "Structure of apk file hasn't been recognized.",
        ),
        InstallError::NeedsNew => String::from_str(
            "Structure of this apk file requires flag '--new'/'-n'",
        ),
        InstallError::NotForNew => String::from_str(
            "Structure of this apk file can't be installed with flag '--new'/'-n'",
        ),
    }
}

/// The text of what the container cannot do.
pub open spec fn container_error_text(e: ContainerError) -> Seq<char> {
    match e {
        ContainerError::NoSession =>
            "Can't start Waydroid container, because Waydroid session isn't running!"@,
        ContainerError::NoDataHome => "Couldn't get current xdg_data_home"@,
    }
}

/// The text of what the container cannot do.
pub fn describe_container_error(e: ContainerError) -> (text: String)
    ensures
        text@ == container_error_text(e),
{
    match e {
        ContainerError::NoSession => String::from_str(
            "Can't start Waydroid container, because Waydroid session isn't running!",
        ),
        ContainerError::NoDataHome => String::from_str("Couldn't get current xdg_data_home"),
    }
}

/// The text of what keeps the program from running.
pub open spec fn preflight_error_text(e: PreflightError) -> Seq<char> {
    match e {
        PreflightError::NoWaydroid => "Waydroid is not installed on your system!"@,
        PreflightError::NotInitialized => "Your Waydroid is not initialized!"@,
        PreflightError::NotRoot => "Needs to be ran as sudo!"@,
    }
}

/// The text of what keeps the program from running.
pub fn describe_preflight_error(e: PreflightError) -> (text: String)
    ensures
        text@ == preflight_error_text(e),
{
    match e {
        PreflightError::NoWaydroid => String::from_str("Waydroid is not installed on your system!"),
        PreflightError::NotInitialized => String::from_str("Your Waydroid is not initialized!"),
        PreflightError::NotRoot => String::from_str("Needs to be ran as sudo!"),
    }
}

/// The text of an applet that the installed variant lacks.
pub open spec fn applet_error_text(e: AppletError, applet: Seq<char>) -> Seq<char> {
    match e {
        AppletError::OnlyKitsune => applet + " - Is only available for Kitsune"@,
        AppletError::OnlyMagisk => applet + " - Is only available for Magisk"@,
    }
}

/// The text of an applet that the installed variant lacks.
pub fn describe_applet_error(e: AppletError, applet: &str) -> (text: String)
    ensures
        text@ == applet_error_text(e, applet@),
{
    let mut text = String::from_str(applet);
    match e {
        AppletError::OnlyKitsune => text.append(" - Is only available for Kitsune"),
        AppletError::OnlyMagisk => text.append(" - Is only available for Magisk"),
    }
    text
}

} // verus!
