//! The guest command runner: how a command is run inside the container, as
//! root or through the framework's `su`, and what its output means.

use crate::constants::WAYDROID_DIR;
use crate::paths::{join, join_path};
use crate::text::{lemma_texts_push, texts, trim_of, trim_str};
use crate::workflow::GuestStep;
use vstd::prelude::*;
use vstd::string::StringExecFns;
use vstd::string::StrSliceExecFns;

verus! {

/// The framework's `su` inside the guest.
pub const SU_PATH: &'static str = "/debug_ramdisk/su";

/// What is added to the search path of a command that runs in the guest.
pub const GUEST_PATH: &'static str = ":/system/bin:/vendor/bin:/product/bin";

/// How a command reaches the guest.
#[derive(Clone, Copy, PartialEq, Eq, Debug, Structural)]
pub enum ExecMode {
    /// `su` is called with the arguments as they are.
    Direct,
    /// The arguments are joined into one line that a shell runs.
    Shell,
}

/// Why a command is not run in the guest.
#[derive(Clone, Copy, PartialEq, Eq, Debug, Structural)]
pub enum SuError {
    ContainerNotRunning,
    NotInstalled,
    EmptyArguments,
}

/// A command to run on the host that attaches to the container.
#[derive(Debug)]
pub struct GuestCommand {
    /// The program to run.
    pub program: String,
    /// Its arguments.
    pub args: Vec<String>,
    /// The value of `PATH` in its environment.
    pub path: String,
    /// How the command reaches the guest.
    pub mode: ExecMode,
}

/// The mathematical content of a [`GuestCommand`].
pub struct GuestCommandView {
    pub program: Seq<char>,
    pub args: Seq<Seq<char>>,
    pub path: Seq<char>,
    pub mode: ExecMode,
}

impl View for GuestCommand {
    type V = GuestCommandView;

    open spec fn view(&self) -> GuestCommandView {
        GuestCommandView {
            program: self.program@,
            args: texts(self.args@),
            path: self.path@,
            mode: self.mode,
        }
    }
}

/// The arguments with a blank between neighbours.
pub open spec fn joined(args: Seq<Seq<char>>) -> Seq<char>
    decreases args.len(),
{
    if args.len() == 0 {
        Seq::empty()
    } else if args.len() == 1 {
        args[0]
    } else {
        joined(args.drop_last()) + seq![' '] + args.last()
    }
}

/// The arguments joined by blanks.
pub fn join_args(args: &Vec<String>) -> (line: String)
    ensures
        line@ == joined(texts(args@)),
{
    let mut line = String::new();
    let mut i: usize = 0;
    assert(texts(args@).subrange(0, 0) =~= Seq::<Seq<char>>::empty());
    while i < args.len()
        invariant
            i <= args@.len(),
            line@ == joined(texts(args@).subrange(0, i as int)),
        decreases args@.len() - i,
    {
        let ghost before = texts(args@).subrange(0, i as int);
        let ghost after = texts(args@).subrange(0, i + 1);
        proof {
            assert(after.drop_last() =~= before);
            assert(after.last() == args@[i as int]@);
        }
        if i > 0 {
            line.push(' ');
        }
        line.append(args[i].as_str());
        proof {
            if i == 0 {
                assert(line@ =~= args@[0]@);
            } else {
                assert(line@ =~= joined(before) + seq![' '] + args@[i as int]@);
            }
        }
        i += 1;
    }
    assert(texts(args@).subrange(0, args@.len() as int) =~= texts(args@));
    line
}

/// How a command reaches the guest: through a shell where the host enforces
/// its security policy, and where the framework's `su` is left out;
/// otherwise directly.
pub open spec fn exec_mode(force_no_su: bool, selinux_enforcing: bool) -> ExecMode {
    if selinux_enforcing || force_no_su {
        ExecMode::Shell
    } else {
        ExecMode::Direct
    }
}

/// The line that the shell runs.
pub open spec fn shell_line(args: Seq<Seq<char>>, force_no_su: bool) -> Seq<char> {
    if force_no_su {
        joined(args)
    } else {
        SU_PATH@ + " -c "@ + joined(args)
    }
}

/// The arguments of the program that attaches to the container.
pub open spec fn attach_args(
    args: Seq<Seq<char>>,
    force_no_su: bool,
    selinux_enforcing: bool,
) -> Seq<Seq<char>> {
    seq!["-P"@, trim_of(join_path(WAYDROID_DIR@, "lxc"@)), "-n"@, "waydroid"@, "--"@] + (
    match exec_mode(force_no_su, selinux_enforcing) {
        ExecMode::Shell => seq!["sh"@, "-c"@, shell_line(args, force_no_su)],
        ExecMode::Direct => seq![SU_PATH@, "-c"@] + args,
    })
}

/// The command that runs `args` inside the guest.
pub open spec fn spec_waydroid_su(
    args: Seq<Seq<char>>,
    force_no_su: bool,
    container_running: bool,
    installed: bool,
    selinux_enforcing: bool,
    path_var: Seq<char>,
) -> Result<GuestCommandView, SuError> {
    if !container_running {
        Err(SuError::ContainerNotRunning)
    } else if !installed && !force_no_su {
        Err(SuError::NotInstalled)
    } else if args.len() == 0 {
        Err(SuError::EmptyArguments)
    } else {
        Ok(
            GuestCommandView {
                program: "lxc-attach"@,
                args: attach_args(args, force_no_su, selinux_enforcing),
                path: path_var + GUEST_PATH@,
                mode: exec_mode(force_no_su, selinux_enforcing),
            },
        )
    }
}

/// The view of a result that holds a command.
pub open spec fn command_view(r: Result<GuestCommand, SuError>) -> Result<
    GuestCommandView,
    SuError,
> {
    match r {
        Ok(command) => Ok(command@),
        Err(e) => Err(e),
    }
}

/// Builds the command that runs `args` inside the guest, through the
/// framework's `su` unless `force_no_su` is set. The container has to run,
/// the framework has to be installed unless `su` is left out, and there has
/// to be an argument.
pub fn waydroid_su(
    args: &Vec<String>,
    force_no_su: bool,
    container_running: bool,
    installed: bool,
    selinux_enforcing: bool,
    path_var: &str,
) -> (r: Result<GuestCommand, SuError>)
    ensures
        command_view(r) == spec_waydroid_su(
            texts(args@),
            force_no_su,
            container_running,
            installed,
            selinux_enforcing,
            path_var@,
        ),
{
    if !container_running {
        return Err(SuError::ContainerNotRunning);
    }
    if !installed && !force_no_su {
        return Err(SuError::NotInstalled);
    }
    if args.len() == 0 {
        return Err(SuError::EmptyArguments);
    }
    let lxc = join(WAYDROID_DIR, "lxc");
    let mut argv: Vec<String> = Vec::new();
    argv.push(String::from_str("-P"));
    argv.push(trim_str(lxc.as_str()));
    argv.push(String::from_str("-n"));
    argv.push(String::from_str("waydroid"));
    argv.push(String::from_str("--"));
    let ghost head = texts(argv@);
    assert(head =~= seq![
        "-P"@,
        trim_of(join_path(WAYDROID_DIR@, "lxc"@)),
        "-n"@,
        "waydroid"@,
        "--"@,
    ]);
    if selinux_enforcing || force_no_su {
        let line = if force_no_su {
            join_args(args)
        } else {
            let mut line = String::from_str(SU_PATH);
            line.append(" -c ");
            let rest = join_args(args);
            line.append(rest.as_str());
            line
        };
        argv.push(String::from_str("sh"));
        argv.push(String::from_str("-c"));
        argv.push(line);
        assert(texts(argv@) =~= head + seq!["sh"@, "-c"@, shell_line(texts(args@), force_no_su)]);
    } else {
        argv.push(String::from_str(SU_PATH));
        argv.push(String::from_str("-c"));
        let mut i: usize = 0;
        assert(texts(args@).subrange(0, 0) =~= Seq::<Seq<char>>::empty());
        assert(texts(argv@) =~= head + (seq![SU_PATH@, "-c"@] + texts(args@).subrange(0, 0)));
        while i < args.len()
            invariant
                i <= args@.len(),
                texts(argv@) == head + (seq![SU_PATH@, "-c"@] + texts(args@).subrange(
                    0,
                    i as int,
                )),
            decreases args@.len() - i,
        {
            let arg = String::from_str(args[i].as_str());
            proof {
                lemma_texts_push(argv@, arg);
                assert(texts(args@).subrange(0, i + 1) =~= texts(args@).subrange(0, i as int).push(
                    args@[i as int]@,
                ));
                assert(texts(argv@).push(arg@) =~= head + (seq![SU_PATH@, "-c"@] + texts(
                    args@,
                ).subrange(0, i + 1)));
            }
            argv.push(arg);
            i += 1;
        }
        assert(texts(args@).subrange(0, args@.len() as int) =~= texts(args@));
    }
    let mut path = String::from_str(path_var);
    path.append(GUEST_PATH);
    let mode = if selinux_enforcing || force_no_su {
        ExecMode::Shell
    } else {
        ExecMode::Direct
    };
    Ok(GuestCommand { program: String::from_str("lxc-attach"), args: argv, path, mode })
}

/// What a command that ran in the guest says: the text it printed, without
/// the white space around it. A command that succeeded speaks through its
/// output, or through its error stream if the output is empty; a command
/// that failed speaks through its error stream, or through its output if the
/// error stream is empty.
pub open spec fn spec_su_result(success: bool, stdout: Seq<char>, stderr: Seq<char>) -> Result<
    Seq<char>,
    Seq<char>,
> {
    if success {
        Ok(
            trim_of(
                if stdout.len() == 0 {
                    stderr
                } else {
                    stdout
                },
            ),
        )
    } else {
        Err(
            trim_of(
                if stderr.len() == 0 {
                    stdout
                } else {
                    stderr
                },
            ),
        )
    }
}

/// The view of a result that holds texts.
pub open spec fn result_texts(r: Result<String, String>) -> Result<Seq<char>, Seq<char>> {
    match r {
        Ok(s) => Ok(s@),
        Err(s) => Err(s@),
    }
}

/// Reads the outcome of a command that ran in the guest.
pub fn su_result(success: bool, stdout: &str, stderr: &str) -> (r: Result<String, String>)
    ensures
        result_texts(r) == spec_su_result(success, stdout@, stderr@),
{
    if success {
        if stdout.unicode_len() == 0 {
            Ok(trim_str(stderr))
        } else {
            Ok(trim_str(stdout))
        }
    } else {
        if stderr.unicode_len() == 0 {
            Err(trim_str(stdout))
        } else {
            Err(trim_str(stderr))
        }
    }
}

/// The arguments of a guest step.
pub open spec fn guest_args(step: GuestStep) -> Seq<Seq<char>> {
    match step {
        GuestStep::ClearData => seq!["rm"@, "-rf"@, "/data/adb/magisk"@],
        GuestStep::MakeData => seq!["mkdir"@, "-p"@, "/data/adb/magisk"@],
        GuestStep::LockAdb => seq!["chmod"@, "700"@, "/data/adb"@],
        GuestStep::CopyTreeToData => seq![
            "cp"@,
            "-r"@,
            "/system/etc/init/magisk/*"@,
            "/data/adb/magisk"@,
        ],
        GuestStep::ChmodData => seq!["chmod"@, "-R"@, "755"@, "/data/adb/magisk/"@],
        GuestStep::ChownData => seq!["chown"@, "-R"@, "0:0"@, "/data/adb/magisk"@],
        GuestStep::StageApkFromTree => seq![
            "cp"@,
            "/system/etc/init/magisk/magisk.apk"@,
            "/data/local/tmp"@,
        ],
        GuestStep::StageApkFromData => seq![
            "cp"@,
            "/data/adb/magisk/magisk.apk"@,
            "/data/local/tmp"@,
        ],
        GuestStep::UninstallManager => seq!["pm"@, "uninstall"@, "com.topjohnwu.magisk"@],
        GuestStep::UninstallLegacyManager => seq!["pm"@, "uninstall"@, "io.github.huskydg.magisk"@],
        GuestStep::InstallApk => seq!["pm"@, "install"@, "/data/local/tmp/magisk.apk"@],
        GuestStep::RemoveStagedApk => seq!["rm"@, "/data/local/tmp/magisk.apk"@],
        GuestStep::ChmodPolicyTool => seq!["chmod"@, "755"@, "/data/local/tmp/magiskpolicy"@],
        GuestStep::BuildPolicy => seq![
            "/data/local/tmp/magiskpolicy"@,
            "--load"@,
            "/vendor/etc/selinux/precompiled_sepolicy"@,
            "--save"@,
            "/data/local/tmp/precompiled_sepolicy"@,
        ],
        GuestStep::StageContexts => seq![
            "cp"@,
            "/vendor/etc/selinux/vendor_file_contexts"@,
            "/data/local/tmp/"@,
        ],
        GuestStep::RemovePolicyTool => seq!["rm"@, "/data/local/tmp/magiskpolicy"@],
        GuestStep::StageZygote => seq![
            "cp"@,
            "/system/etc/init/hw/init.zygote*"@,
            "/data/local/tmp/"@,
        ],
    }
}

/// Whether a guest step runs without the framework's `su`: the steps that
/// prepare an installation do, since the framework is not there yet.
pub open spec fn guest_without_su(step: GuestStep) -> bool {
    step == GuestStep::ChmodPolicyTool || step == GuestStep::BuildPolicy || step
        == GuestStep::StageContexts || step == GuestStep::RemovePolicyTool || step
        == GuestStep::StageZygote
}

fn words3(a: &str, b: &str, c: &str) -> (argv: Vec<String>)
    ensures
        texts(argv@) == seq![a@, b@, c@],
{
    let mut argv: Vec<String> = Vec::new();
    argv.push(String::from_str(a));
    argv.push(String::from_str(b));
    argv.push(String::from_str(c));
    assert(texts(argv@) =~= seq![a@, b@, c@]);
    argv
}

fn words4(a: &str, b: &str, c: &str, d: &str) -> (argv: Vec<String>)
    ensures
        texts(argv@) == seq![a@, b@, c@, d@],
{
    let mut argv: Vec<String> = Vec::new();
    argv.push(String::from_str(a));
    argv.push(String::from_str(b));
    argv.push(String::from_str(c));
    argv.push(String::from_str(d));
    assert(texts(argv@) =~= seq![a@, b@, c@, d@]);
    argv
}

fn words2(a: &str, b: &str) -> (argv: Vec<String>)
    ensures
        texts(argv@) == seq![a@, b@],
{
    let mut argv: Vec<String> = Vec::new();
    argv.push(String::from_str(a));
    argv.push(String::from_str(b));
    assert(texts(argv@) =~= seq![a@, b@]);
    argv
}

/// The arguments of a guest step, and whether it runs without the
/// framework's `su`.
pub fn guest_command(step: GuestStep) -> (r: (Vec<String>, bool))
    ensures
        texts(r.0@) == guest_args(step),
        r.1 == guest_without_su(step),
{
    match step {
        GuestStep::ClearData => (words3("rm", "-rf", "/data/adb/magisk"), false),
        GuestStep::MakeData => (words3("mkdir", "-p", "/data/adb/magisk"), false),
        GuestStep::LockAdb => (words3("chmod", "700", "/data/adb"), false),
        GuestStep::CopyTreeToData => (
            words4("cp", "-r", "/system/etc/init/magisk/*", "/data/adb/magisk"),
            false,
        ),
        GuestStep::ChmodData => (words4("chmod", "-R", "755", "/data/adb/magisk/"), false),
        GuestStep::ChownData => (words4("chown", "-R", "0:0", "/data/adb/magisk"), false),
        GuestStep::StageApkFromTree => (
            words3("cp", "/system/etc/init/magisk/magisk.apk", "/data/local/tmp"),
            false,
        ),
        GuestStep::StageApkFromData => (
            words3("cp", "/data/adb/magisk/magisk.apk", "/data/local/tmp"),
            false,
        ),
        GuestStep::UninstallManager => (words3("pm", "uninstall", "com.topjohnwu.magisk"), false),
        GuestStep::UninstallLegacyManager => (
            words3("pm", "uninstall", "io.github.huskydg.magisk"),
            false,
        ),
        GuestStep::InstallApk => (words3("pm", "install", "/data/local/tmp/magisk.apk"), false),
        GuestStep::RemoveStagedApk => (words2("rm", "/data/local/tmp/magisk.apk"), false),
        GuestStep::ChmodPolicyTool => (
            words3("chmod", "755", "/data/local/tmp/magiskpolicy"),
            true,
        ),
        GuestStep::BuildPolicy => {
            let mut argv = words4(
                "/data/local/tmp/magiskpolicy",
                "--load",
                "/vendor/etc/selinux/precompiled_sepolicy",
                "--save",
            );
            let last = String::from_str("/data/local/tmp/precompiled_sepolicy");
            proof {
                lemma_texts_push(argv@, last);
            }
            argv.push(last);
            assert(texts(argv@) =~= guest_args(step));
            (argv, true)
        },
        GuestStep::StageContexts => (
            words3("cp", "/vendor/etc/selinux/vendor_file_contexts", "/data/local/tmp/"),
            true,
        ),
        GuestStep::RemovePolicyTool => (words2("rm", "/data/local/tmp/magiskpolicy"), true),
        GuestStep::StageZygote => (
            words3("cp", "/system/etc/init/hw/init.zygote*", "/data/local/tmp/"),
            true,
        ),
    }
}

} // verus!
