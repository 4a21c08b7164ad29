//! The service lifecycle controller: decides which external commands keep
//! the USB-over-IP service installed, firewalled and up to date, and
//! classifies what each command's outcome means.
//!
//! The core never talks to the operating system. Every operation is a pure
//! step: it builds a [`CmdSpec`] describing the command to run, or reads a
//! [`RunOutcome`] the caller captured, and returns the decision. Launch
//! failure (the executable could not be started) and execution failure
//! (it ran and exited non-success) are classified separately throughout.

use crate::text::{contains_sub, copy_range, find_sub, lemma_find_sub_bounds, str_contains_sub,
    str_find_sub, trim, trim_range};
use vstd::prelude::*;
use vstd::string::*;

verus! {

/// One external command: a program and its argument vector. Arguments are
/// passed as a vector, never joined into a shell string, so an argument
/// with spaces (such as the firewall rule name) stays one argument.
#[derive(Debug, Clone, PartialEq, Eq)]
pub struct CmdSpec {
    pub program: String,
    pub args: Vec<String>,
}

/// Mathematical view of a command: its program name and arguments as
/// character sequences.
#[verifier::ext_equal]
pub struct CmdView {
    pub program: Seq<char>,
    pub args: Seq<Seq<char>>,
}

impl View for CmdSpec {
    type V = CmdView;

    open spec fn view(&self) -> CmdView {
        CmdView { program: self.program@, args: self.args.deep_view() }
    }
}

/// What the process-execution collaborator reports of one completed
/// command: whether it exited successfully, and the captured streams.
#[derive(Debug, Clone, PartialEq, Eq)]
pub struct CommandOutput {
    pub success: bool,
    pub stdout: String,
    pub stderr: String,
}

/// The result of attempting to run one external command: either the
/// executable could not be started at all, or it ran to completion.
#[derive(Debug, Clone, PartialEq, Eq)]
pub enum RunOutcome {
    LaunchFailed,
    Exited(CommandOutput),
}

/// Why a lifecycle operation failed. `LaunchFailure` means the external
/// executable could not be started (missing or permission denied);
/// `ExecutionFailure` means it ran and exited non-success, and carries the
/// captured diagnostic text verbatim.
#[derive(Debug, Clone, PartialEq, Eq)]
pub enum OrchestrationError {
    LaunchFailure,
    ExecutionFailure(String),
}

/// The name of the firewall allow-rule the controller maintains.
pub open spec fn rule_name() -> Seq<char> {
    "_Plex (Port 3240)"@
}

/// The status command: asks the sharing tool to report its devices.
pub open spec fn list_cmd() -> CmdView {
    CmdView { program: "usbipd"@, args: seq!["list"@] }
}

/// The presence probe: succeeds exactly when the tool is on the path.
pub open spec fn probe_cmd() -> CmdView {
    CmdView { program: "where.exe"@, args: seq!["usbipd.exe"@] }
}

/// The version query of the sharing tool.
pub open spec fn version_cmd() -> CmdView {
    CmdView { program: "usbipd"@, args: seq!["--version"@] }
}

/// The bind command for one device, forced so it asks no questions.
pub open spec fn bind_cmd(busid: Seq<char>) -> CmdView {
    CmdView { program: "usbipd"@, args: seq!["bind"@, "-f"@, "-b"@, busid] }
}

/// The unbind command for one device.
pub open spec fn unbind_cmd(busid: Seq<char>) -> CmdView {
    CmdView { program: "usbipd"@, args: seq!["unbind"@, "-b"@, busid] }
}

/// The firewall listing command: shows the rule with the fixed name, and
/// prints text containing that name exactly when the rule exists.
pub open spec fn firewall_show_cmd() -> CmdView {
    CmdView {
        program: "netsh"@,
        args: seq![
            "advfirewall"@,
            "firewall"@,
            "show"@,
            "rule"@,
            "name=_Plex (Port 3240)"@,
        ],
    }
}

/// The firewall creation command: one inbound TCP allow-rule on the
/// sharing tool's port, under the fixed rule name.
pub open spec fn firewall_add_cmd() -> CmdView {
    CmdView {
        program: "netsh"@,
        args: seq![
            "advfirewall"@,
            "firewall"@,
            "add"@,
            "rule"@,
            "name=_Plex (Port 3240)"@,
            "dir=in"@,
            "action=allow"@,
            "protocol=TCP"@,
            "localport=3240"@,
            "edge=yes"@,
        ],
    }
}

/// The package manager settings step the install requires first.
pub open spec fn settings_cmd() -> CmdView {
    CmdView { program: "winget"@, args: seq!["settings"@, "--enable"@, "InstallerHashOverride"@] }
}

/// The non-interactive install of the exact service package.
pub open spec fn install_cmd() -> CmdView {
    CmdView {
        program: "winget"@,
        args: seq![
            "install"@,
            "--accept-source-agreements"@,
            "--ignore-security-hash"@,
            "--nowarn"@,
            "--force"@,
            "--accept-package-agreements"@,
            "--silent"@,
            "--disable-interactivity"@,
            "--ignore-security-hash"@,
            "--exact"@,
            "dorssel.usbipd-win"@,
        ],
    }
}

/// The non-interactive upgrade of the exact service package.
pub open spec fn upgrade_cmd() -> CmdView {
    CmdView {
        program: "winget"@,
        args: seq![
            "upgrade"@,
            "--silent"@,
            "--disable-interactivity"@,
            "--exact"@,
            "dorssel.usbipd-win"@,
        ],
    }
}

/// The headless uninstall of the exact service package.
pub open spec fn uninstall_cmd() -> CmdView {
    CmdView { program: "winget"@, args: seq!["uninstall"@, "-h"@, "dorssel.usbipd-win"@] }
}

fn push_arg(args: &mut Vec<String>, a: &str)
    ensures
        final(args).deep_view() == old(args).deep_view().push(a@),
{
    args.push(String::from_str(a));
    proof {
        assert(args.deep_view() =~= old(args).deep_view().push(a@));
    }
}

/// Builds the status command.
pub fn list_command() -> (c: CmdSpec)
    ensures
        c@ == list_cmd(),
{
    let mut args: Vec<String> = Vec::new();
    proof {
        assert(args.deep_view() =~= Seq::<Seq<char>>::empty());
    }
    push_arg(&mut args, "list");
    let c = CmdSpec { program: String::from_str("usbipd"), args };
    proof {
        assert(c@ =~= list_cmd());
    }
    c
}

/// Builds the presence probe command.
pub fn probe_command() -> (c: CmdSpec)
    ensures
        c@ == probe_cmd(),
{
    let mut args: Vec<String> = Vec::new();
    proof {
        assert(args.deep_view() =~= Seq::<Seq<char>>::empty());
    }
    push_arg(&mut args, "usbipd.exe");
    let c = CmdSpec { program: String::from_str("where.exe"), args };
    proof {
        assert(c@ =~= probe_cmd());
    }
    c
}

/// Builds the version query command.
pub fn version_command() -> (c: CmdSpec)
    ensures
        c@ == version_cmd(),
{
    let mut args: Vec<String> = Vec::new();
    proof {
        assert(args.deep_view() =~= Seq::<Seq<char>>::empty());
    }
    push_arg(&mut args, "--version");
    let c = CmdSpec { program: String::from_str("usbipd"), args };
    proof {
        assert(c@ =~= version_cmd());
    }
    c
}

/// Builds the bind command for the device with the given bus id.
pub fn bind_command(busid: &str) -> (c: CmdSpec)
    ensures
        c@ == bind_cmd(busid@),
{
    let mut args: Vec<String> = Vec::new();
    proof {
        assert(args.deep_view() =~= Seq::<Seq<char>>::empty());
    }
    push_arg(&mut args, "bind");
    push_arg(&mut args, "-f");
    push_arg(&mut args, "-b");
    push_arg(&mut args, busid);
    let c = CmdSpec { program: String::from_str("usbipd"), args };
    proof {
        assert(c@ =~= bind_cmd(busid@));
    }
    c
}

/// Builds the unbind command for the device with the given bus id.
pub fn unbind_command(busid: &str) -> (c: CmdSpec)
    ensures
        c@ == unbind_cmd(busid@),
{
    let mut args: Vec<String> = Vec::new();
    proof {
        assert(args.deep_view() =~= Seq::<Seq<char>>::empty());
    }
    push_arg(&mut args, "unbind");
    push_arg(&mut args, "-b");
    push_arg(&mut args, busid);
    let c = CmdSpec { program: String::from_str("usbipd"), args };
    proof {
        assert(c@ =~= unbind_cmd(busid@));
    }
    c
}

/// Builds the firewall listing command.
pub fn firewall_show_command() -> (c: CmdSpec)
    ensures
        c@ == firewall_show_cmd(),
{
    let mut args: Vec<String> = Vec::new();
    proof {
        assert(args.deep_view() =~= Seq::<Seq<char>>::empty());
    }
    push_arg(&mut args, "advfirewall");
    push_arg(&mut args, "firewall");
    push_arg(&mut args, "show");
    push_arg(&mut args, "rule");
    push_arg(&mut args, "name=_Plex (Port 3240)");
    let c = CmdSpec { program: String::from_str("netsh"), args };
    proof {
        assert(c@ =~= firewall_show_cmd());
    }
    c
}

/// Builds the firewall creation command.
pub fn firewall_add_command() -> (c: CmdSpec)
    ensures
        c@ == firewall_add_cmd(),
{
    let mut args: Vec<String> = Vec::new();
    proof {
        assert(args.deep_view() =~= Seq::<Seq<char>>::empty());
    }
    push_arg(&mut args, "advfirewall");
    push_arg(&mut args, "firewall");
    push_arg(&mut args, "add");
    push_arg(&mut args, "rule");
    push_arg(&mut args, "name=_Plex (Port 3240)");
    push_arg(&mut args, "dir=in");
    push_arg(&mut args, "action=allow");
    push_arg(&mut args, "protocol=TCP");
    push_arg(&mut args, "localport=3240");
    push_arg(&mut args, "edge=yes");
    let c = CmdSpec { program: String::from_str("netsh"), args };
    proof {
        assert(c@ =~= firewall_add_cmd());
    }
    c
}

/// Builds the package manager settings step.
pub fn settings_command() -> (c: CmdSpec)
    ensures
        c@ == settings_cmd(),
{
    let mut args: Vec<String> = Vec::new();
    proof {
        assert(args.deep_view() =~= Seq::<Seq<char>>::empty());
    }
    push_arg(&mut args, "settings");
    push_arg(&mut args, "--enable");
    push_arg(&mut args, "InstallerHashOverride");
    let c = CmdSpec { program: String::from_str("winget"), args };
    proof {
        assert(c@ =~= settings_cmd());
    }
    c
}

/// Builds the install command.
pub fn install_command() -> (c: CmdSpec)
    ensures
        c@ == install_cmd(),
{
    let mut args: Vec<String> = Vec::new();
    proof {
        assert(args.deep_view() =~= Seq::<Seq<char>>::empty());
    }
    push_arg(&mut args, "install");
    push_arg(&mut args, "--accept-source-agreements");
    push_arg(&mut args, "--ignore-security-hash");
    push_arg(&mut args, "--nowarn");
    push_arg(&mut args, "--force");
    push_arg(&mut args, "--accept-package-agreements");
    push_arg(&mut args, "--silent");
    push_arg(&mut args, "--disable-interactivity");
    push_arg(&mut args, "--ignore-security-hash");
    push_arg(&mut args, "--exact");
    push_arg(&mut args, "dorssel.usbipd-win");
    let c = CmdSpec { program: String::from_str("winget"), args };
    proof {
        assert(c@ =~= install_cmd());
    }
    c
}

/// Builds the upgrade command.
pub fn upgrade_command() -> (c: CmdSpec)
    ensures
        c@ == upgrade_cmd(),
{
    let mut args: Vec<String> = Vec::new();
    proof {
        assert(args.deep_view() =~= Seq::<Seq<char>>::empty());
    }
    push_arg(&mut args, "upgrade");
    push_arg(&mut args, "--silent");
    push_arg(&mut args, "--disable-interactivity");
    push_arg(&mut args, "--exact");
    push_arg(&mut args, "dorssel.usbipd-win");
    let c = CmdSpec { program: String::from_str("winget"), args };
    proof {
        assert(c@ =~= upgrade_cmd());
    }
    c
}

/// Builds the uninstall command.
pub fn uninstall_command() -> (c: CmdSpec)
    ensures
        c@ == uninstall_cmd(),
{
    let mut args: Vec<String> = Vec::new();
    proof {
        assert(args.deep_view() =~= Seq::<Seq<char>>::empty());
    }
    push_arg(&mut args, "uninstall");
    push_arg(&mut args, "-h");
    push_arg(&mut args, "dorssel.usbipd-win");
    let c = CmdSpec { program: String::from_str("winget"), args };
    proof {
        assert(c@ =~= uninstall_cmd());
    }
    c
}

/// The presence fact: the tool counts as installed exactly when the probe
/// command launched and exited successfully. A launch failure is folded
/// into `false`; this operation never surfaces an error.
pub fn probe_installed(probe: &RunOutcome) -> (installed: bool)
    ensures
        installed == (probe is Exited && probe->Exited_0.success),
{
    match probe {
        RunOutcome::Exited(o) => o.success,
        RunOutcome::LaunchFailed => false,
    }
}

/// Decides the firewall step from the listing outcome. When the captured
/// listing text already contains the fixed rule name, no creation command
/// is issued at all (`Ok(None)`), so repeated invocation never creates a
/// duplicate rule; otherwise the one creation command to run is returned.
/// Only a launch failure of the listing is an error.
pub fn firewall_decision(listing: &RunOutcome) -> (r: Result<Option<CmdSpec>, OrchestrationError>)
    ensures
        listing is LaunchFailed ==> r == Err::<Option<CmdSpec>, OrchestrationError>(
            OrchestrationError::LaunchFailure,
        ),
        listing is Exited && contains_sub(listing->Exited_0.stdout@, rule_name()) ==> r is Ok
            && r->Ok_0 is None,
        listing is Exited && !contains_sub(listing->Exited_0.stdout@, rule_name()) ==> r is Ok
            && r->Ok_0 is Some && r->Ok_0->Some_0@ == firewall_add_cmd(),
{
    match listing {
        RunOutcome::LaunchFailed => Err(OrchestrationError::LaunchFailure),
        RunOutcome::Exited(o) => {
            if str_contains_sub(o.stdout.as_str(), "_Plex (Port 3240)") {
                Ok(None)
            } else {
                Ok(Some(firewall_add_command()))
            }
        },
    }
}

/// Classifies the outcome of the firewall creation command: an error
/// unless it launched and exited successfully. An execution failure
/// carries the captured standard-error text verbatim.
pub fn firewall_finish(creation: &RunOutcome) -> (r: Result<(), OrchestrationError>)
    ensures
        creation is LaunchFailed ==> r == Err::<(), OrchestrationError>(
            OrchestrationError::LaunchFailure,
        ),
        creation is Exited && creation->Exited_0.success ==> r is Ok,
        creation is Exited && !creation->Exited_0.success ==> r is Err
            && r->Err_0 is ExecutionFailure && r->Err_0->ExecutionFailure_0@
            == creation->Exited_0.stderr@,
{
    match creation {
        RunOutcome::LaunchFailed => Err(OrchestrationError::LaunchFailure),
        RunOutcome::Exited(o) => {
            if o.success {
                Ok(())
            } else {
                Err(OrchestrationError::ExecutionFailure(o.stderr.clone()))
            }
        },
    }
}

/// The install sequence's first decision.
#[derive(Debug)]
pub enum InstallStep {
    /// The prerequisite settings step did not succeed: the install is not
    /// attempted, and the whole operation reports `false` (not installed)
    /// rather than an error.
    SettingsRejected,
    /// The settings step succeeded: run this install command next.
    RunInstall(CmdSpec),
}

/// Decides the install step from the settings outcome: a launch failure of
/// the package manager is an error; a settings step that ran but failed
/// short-circuits the install; a successful settings step hands back the
/// install command to run.
pub fn install_plan(settings: &RunOutcome) -> (r: Result<InstallStep, OrchestrationError>)
    ensures
        settings is LaunchFailed ==> r == Err::<InstallStep, OrchestrationError>(
            OrchestrationError::LaunchFailure,
        ),
        settings is Exited && !settings->Exited_0.success ==> r is Ok
            && r->Ok_0 is SettingsRejected,
        settings is Exited && settings->Exited_0.success ==> r is Ok && r->Ok_0 is RunInstall
            && r->Ok_0->RunInstall_0@ == install_cmd(),
{
    match settings {
        RunOutcome::LaunchFailed => Err(OrchestrationError::LaunchFailure),
        RunOutcome::Exited(o) => {
            if o.success {
                Ok(InstallStep::RunInstall(install_command()))
            } else {
                Ok(InstallStep::SettingsRejected)
            }
        },
    }
}

/// Classifies an install-family command (install or uninstall): `Ok(true)`
/// when it launched and exited successfully, `Ok(false)` when it ran but
/// failed — failure is data here, not an error — and an error only when
/// the package manager itself could not be launched.
pub fn classify_completion(outcome: &RunOutcome) -> (r: Result<bool, OrchestrationError>)
    ensures
        outcome is LaunchFailed ==> r == Err::<bool, OrchestrationError>(
            OrchestrationError::LaunchFailure,
        ),
        outcome is Exited ==> r == Ok::<bool, OrchestrationError>(outcome->Exited_0.success),
{
    match outcome {
        RunOutcome::LaunchFailed => Err(OrchestrationError::LaunchFailure),
        RunOutcome::Exited(o) => Ok(o.success),
    }
}

/// The upgrade sequence's first decision.
#[derive(Debug)]
pub enum UpgradePlan {
    /// The tool is not installed: degrade to the install sequence.
    InstallInstead,
    /// The tool is installed: run this upgrade command.
    RunUpgrade(CmdSpec),
}

/// Decides the upgrade step from the presence probe: upgrade when the tool
/// is present, install when it is absent.
pub fn upgrade_plan(probe: &RunOutcome) -> (p: UpgradePlan)
    ensures
        p is RunUpgrade <==> (probe is Exited && probe->Exited_0.success),
        p is RunUpgrade ==> p->RunUpgrade_0@ == upgrade_cmd(),
{
    if probe_installed(probe) {
        UpgradePlan::RunUpgrade(upgrade_command())
    } else {
        UpgradePlan::InstallInstead
    }
}

/// What an upgrade attempt came to. The command's exit status cannot tell
/// "already at the latest version" from a genuine upgrade failure, so both
/// collapse into one outcome.
#[derive(Debug, Clone, PartialEq, Eq)]
pub enum UpgradeOutcome {
    Upgraded,
    AlreadyUpToDateOrFailed,
}

/// Classifies the upgrade command's outcome: a launch failure of the
/// package manager is an error; otherwise the exit status decides between
/// the two outcomes.
pub fn upgrade_finish(upgrade: &RunOutcome) -> (r: Result<UpgradeOutcome, OrchestrationError>)
    ensures
        upgrade is LaunchFailed ==> r == Err::<UpgradeOutcome, OrchestrationError>(
            OrchestrationError::LaunchFailure,
        ),
        upgrade is Exited && upgrade->Exited_0.success ==> r == Ok::<
            UpgradeOutcome,
            OrchestrationError,
        >(UpgradeOutcome::Upgraded),
        upgrade is Exited && !upgrade->Exited_0.success ==> r == Ok::<
            UpgradeOutcome,
            OrchestrationError,
        >(UpgradeOutcome::AlreadyUpToDateOrFailed),
{
    match upgrade {
        RunOutcome::LaunchFailed => Err(OrchestrationError::LaunchFailure),
        RunOutcome::Exited(o) => {
            if o.success {
                Ok(UpgradeOutcome::Upgraded)
            } else {
                Ok(UpgradeOutcome::AlreadyUpToDateOrFailed)
            }
        },
    }
}

/// The diagnostic for a failed upgrade, chosen by re-probing presence: an
/// installed tool most likely means the package was already current.
pub fn upgrade_failure_diagnostic(still_installed: bool) -> (m: String)
    ensures
        still_installed ==> m@
            == "Winget failed to upgrade the package. The package is probably already installed."@,
        !still_installed ==> m@ == "Winget failed to upgrade the package."@,
{
    if still_installed {
        String::from_str(
            "Winget failed to upgrade the package. The package is probably already installed.",
        )
    } else {
        String::from_str("Winget failed to upgrade the package.")
    }
}

/// Decides the uninstall step from the caller-supplied confirmation: the
/// uninstall command is issued exactly when the operator confirmed.
pub fn uninstall_plan(confirmed: bool) -> (p: Option<CmdSpec>)
    ensures
        p is Some <==> confirmed,
        confirmed ==> p->Some_0@ == uninstall_cmd(),
{
    if confirmed {
        Some(uninstall_command())
    } else {
        None
    }
}

/// Classifies a bind or unbind outcome: success exactly when the command
/// launched and exited successfully; an execution failure carries the
/// captured standard-error text verbatim for operator diagnosis.
pub fn classify_action(outcome: &RunOutcome) -> (r: Result<(), OrchestrationError>)
    ensures
        outcome is LaunchFailed ==> r == Err::<(), OrchestrationError>(
            OrchestrationError::LaunchFailure,
        ),
        outcome is Exited && outcome->Exited_0.success ==> r is Ok,
        outcome is Exited && !outcome->Exited_0.success ==> r is Err
            && r->Err_0 is ExecutionFailure && r->Err_0->ExecutionFailure_0@
            == outcome->Exited_0.stderr@,
{
    match outcome {
        RunOutcome::LaunchFailed => Err(OrchestrationError::LaunchFailure),
        RunOutcome::Exited(o) => {
            if o.success {
                Ok(())
            } else {
                Err(OrchestrationError::ExecutionFailure(o.stderr.clone()))
            }
        },
    }
}

/// The display text of a lifecycle error: the captured diagnostic text
/// verbatim for an execution failure — no detail is discarded — and a
/// fixed sentence for a launch failure, which has no captured text.
pub fn error_text(e: &OrchestrationError) -> (m: String)
    ensures
        e is LaunchFailure ==> m@ == "the command could not be launched"@,
        e is ExecutionFailure ==> m@ == e->ExecutionFailure_0@,
{
    match e {
        OrchestrationError::LaunchFailure => String::from_str("the command could not be launched"),
        OrchestrationError::ExecutionFailure(diagnostic) => diagnostic.clone(),
    }
}

/// What the version banner is reduced to: everything after the fixed
/// build/branch marker is noise and is cut off just past the marker's
/// first occurrence; the kept text is trimmed of surrounding whitespace.
pub open spec fn version_text(out: Seq<char>) -> Seq<char> {
    match find_sub(out, "Branch.master"@) {
        Some(i) => trim(out.take(i + "Branch.master"@.len())),
        None => trim(out),
    }
}

/// Formats the version query's outcome. A launch failure yields the fixed
/// sentinel diagnostic instead of an error — this operation is best-effort
/// and never aborts the caller.
pub fn format_version(outcome: &RunOutcome) -> (v: String)
    ensures
        outcome is LaunchFailed ==> v@ == "Error: Could not execute usbipd"@,
        outcome is Exited ==> v@ == version_text(outcome->Exited_0.stdout@),
{
    match outcome {
        RunOutcome::LaunchFailed => String::from_str("Error: Could not execute usbipd"),
        RunOutcome::Exited(o) => {
            let s: &str = o.stdout.as_str();
            let marker = "Branch.master";
            let n: usize = s.unicode_len();
            let cut: usize = match str_find_sub(s, marker) {
                Some(i) => {
                    proof {
                        lemma_find_sub_bounds(s@, marker@, i as int);
                    }
                    i + marker.unicode_len()
                },
                None => n,
            };
            let (a, b) = trim_range(s, 0, cut);
            proof {
                assert(s@.subrange(0, cut as int) =~= s@.take(cut as int));
                if find_sub(s@, marker@) is None {
                    assert(s@.take(n as int) =~= s@);
                }
            }
            copy_range(s, a, b)
        },
    }
}

} // verus!
