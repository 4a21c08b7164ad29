use usbip_core::lifecycle::{
    bind_command, classify_action, classify_completion, error_text, firewall_decision,
    firewall_finish, format_version, install_plan, list_command, probe_command, probe_installed,
    settings_command, unbind_command, uninstall_plan, upgrade_failure_diagnostic, upgrade_finish,
    upgrade_plan, version_command, CommandOutput, InstallStep, OrchestrationError, RunOutcome,
    UpgradeOutcome, UpgradePlan,
};

fn exited(success: bool, stdout: &str, stderr: &str) -> RunOutcome {
    RunOutcome::Exited(CommandOutput {
        success,
        stdout: stdout.to_string(),
        stderr: stderr.to_string(),
    })
}

#[test]
fn probe_success_means_installed() {
    assert!(probe_installed(&exited(true, "", "")));
}

#[test]
fn probe_failure_exit_means_not_installed() {
    assert!(!probe_installed(&exited(false, "", "")));
}

#[test]
fn probe_launch_failure_folds_into_false() {
    assert!(!probe_installed(&RunOutcome::LaunchFailed));
}

#[test]
fn firewall_rule_already_present_issues_no_creation() {
    let listing = exited(
        true,
        "Rule Name: _Plex (Port 3240)\nEnabled: Yes\nDirection: In\n",
        "",
    );
    assert_eq!(firewall_decision(&listing), Ok(None));
}

#[test]
fn firewall_rule_absent_issues_exactly_one_creation() {
    let listing = exited(true, "No rules match the specified criteria.\n", "");
    let cmd = firewall_decision(&listing).unwrap().unwrap();
    assert_eq!(cmd.program, "netsh");
    assert_eq!(
        cmd.args,
        vec![
            "advfirewall",
            "firewall",
            "add",
            "rule",
            "name=_Plex (Port 3240)",
            "dir=in",
            "action=allow",
            "protocol=TCP",
            "localport=3240",
            "edge=yes",
        ]
    );
}

#[test]
fn firewall_rule_name_with_spaces_stays_one_argument() {
    let listing = exited(true, "", "");
    let cmd = firewall_decision(&listing).unwrap().unwrap();
    assert_eq!(cmd.args[4], "name=_Plex (Port 3240)");
}

#[test]
fn firewall_listing_exit_status_does_not_matter() {
    // Only the captured text decides: a failed listing without the rule
    // name still leads to creation, and one with the name still skips it.
    let failed_with_name = exited(false, "Rule Name: _Plex (Port 3240)\n", "");
    assert_eq!(firewall_decision(&failed_with_name), Ok(None));
    let failed_without_name = exited(false, "", "");
    assert!(firewall_decision(&failed_without_name).unwrap().is_some());
}

#[test]
fn firewall_listing_launch_failure_is_an_error() {
    assert_eq!(
        firewall_decision(&RunOutcome::LaunchFailed),
        Err(OrchestrationError::LaunchFailure)
    );
}

#[test]
fn firewall_creation_success_is_ok() {
    assert_eq!(firewall_finish(&exited(true, "", "")), Ok(()));
}

#[test]
fn firewall_creation_failure_carries_stderr() {
    assert_eq!(
        firewall_finish(&exited(false, "", "The requested operation requires elevation.")),
        Err(OrchestrationError::ExecutionFailure(
            "The requested operation requires elevation.".to_string()
        ))
    );
}

#[test]
fn firewall_creation_launch_failure_is_an_error() {
    assert_eq!(
        firewall_finish(&RunOutcome::LaunchFailed),
        Err(OrchestrationError::LaunchFailure)
    );
}

#[test]
fn settings_rejection_short_circuits_install() {
    match install_plan(&exited(false, "", "")) {
        Ok(InstallStep::SettingsRejected) => {}
        other => panic!("expected the settings rejection, got {:?}", other),
    }
}

#[test]
fn settings_success_hands_back_the_install_command() {
    match install_plan(&exited(true, "", "")) {
        Ok(InstallStep::RunInstall(cmd)) => {
            assert_eq!(cmd.program, "winget");
            assert_eq!(
                cmd.args,
                vec![
                    "install",
                    "--accept-source-agreements",
                    "--ignore-security-hash",
                    "--nowarn",
                    "--force",
                    "--accept-package-agreements",
                    "--silent",
                    "--disable-interactivity",
                    "--ignore-security-hash",
                    "--exact",
                    "dorssel.usbipd-win",
                ]
            );
        }
        other => panic!("expected the install command, got {:?}", other),
    }
}

#[test]
fn settings_launch_failure_is_an_error() {
    match install_plan(&RunOutcome::LaunchFailed) {
        Err(OrchestrationError::LaunchFailure) => {}
        other => panic!("expected a launch failure, got {:?}", other),
    }
}

#[test]
fn completion_classifies_exit_status_as_data() {
    assert_eq!(classify_completion(&exited(true, "", "")), Ok(true));
    assert_eq!(classify_completion(&exited(false, "", "")), Ok(false));
    assert_eq!(
        classify_completion(&RunOutcome::LaunchFailed),
        Err(OrchestrationError::LaunchFailure)
    );
}

#[test]
fn upgrade_on_installed_tool_runs_the_upgrade_command() {
    match upgrade_plan(&exited(true, "", "")) {
        UpgradePlan::RunUpgrade(cmd) => {
            assert_eq!(cmd.program, "winget");
            assert_eq!(
                cmd.args,
                vec![
                    "upgrade",
                    "--silent",
                    "--disable-interactivity",
                    "--exact",
                    "dorssel.usbipd-win",
                ]
            );
        }
        UpgradePlan::InstallInstead => panic!("expected an upgrade command"),
    }
}

#[test]
fn upgrade_on_absent_tool_degrades_to_install() {
    assert!(matches!(
        upgrade_plan(&RunOutcome::LaunchFailed),
        UpgradePlan::InstallInstead
    ));
    assert!(matches!(
        upgrade_plan(&exited(false, "", "")),
        UpgradePlan::InstallInstead
    ));
}

#[test]
fn upgrade_outcome_collapses_exit_status() {
    assert_eq!(upgrade_finish(&exited(true, "", "")), Ok(UpgradeOutcome::Upgraded));
    assert_eq!(
        upgrade_finish(&exited(false, "", "")),
        Ok(UpgradeOutcome::AlreadyUpToDateOrFailed)
    );
    assert_eq!(
        upgrade_finish(&RunOutcome::LaunchFailed),
        Err(OrchestrationError::LaunchFailure)
    );
}

#[test]
fn upgrade_failure_diagnostic_depends_on_reprobe() {
    assert_eq!(
        upgrade_failure_diagnostic(true),
        "Winget failed to upgrade the package. The package is probably already installed."
    );
    assert_eq!(
        upgrade_failure_diagnostic(false),
        "Winget failed to upgrade the package."
    );
}

#[test]
fn uninstall_needs_confirmation() {
    assert!(uninstall_plan(false).is_none());
    let cmd = uninstall_plan(true).unwrap();
    assert_eq!(cmd.program, "winget");
    assert_eq!(cmd.args, vec!["uninstall", "-h", "dorssel.usbipd-win"]);
}

#[test]
fn bind_failure_passes_stderr_through_verbatim() {
    let outcome = exited(false, "", "usbipd: error: There is no device with busid '9-9'.\n");
    assert_eq!(
        classify_action(&outcome),
        Err(OrchestrationError::ExecutionFailure(
            "usbipd: error: There is no device with busid '9-9'.\n".to_string()
        ))
    );
}

#[test]
fn action_success_and_launch_failure_classify() {
    assert_eq!(classify_action(&exited(true, "", "")), Ok(()));
    assert_eq!(
        classify_action(&RunOutcome::LaunchFailed),
        Err(OrchestrationError::LaunchFailure)
    );
}

#[test]
fn bind_and_unbind_commands_carry_the_busid() {
    let bind = bind_command("1-1");
    assert_eq!(bind.program, "usbipd");
    assert_eq!(bind.args, vec!["bind", "-f", "-b", "1-1"]);
    let unbind = unbind_command("1-1");
    assert_eq!(unbind.program, "usbipd");
    assert_eq!(unbind.args, vec!["unbind", "-b", "1-1"]);
}

#[test]
fn fixed_commands_have_their_exact_vectors() {
    let list = list_command();
    assert_eq!(list.program, "usbipd");
    assert_eq!(list.args, vec!["list"]);
    let probe = probe_command();
    assert_eq!(probe.program, "where.exe");
    assert_eq!(probe.args, vec!["usbipd.exe"]);
    let version = version_command();
    assert_eq!(version.program, "usbipd");
    assert_eq!(version.args, vec!["--version"]);
    let settings = settings_command();
    assert_eq!(settings.program, "winget");
    assert_eq!(settings.args, vec!["settings", "--enable", "InstallerHashOverride"]);
}

#[test]
fn error_text_keeps_the_diagnostic_verbatim() {
    assert_eq!(
        error_text(&OrchestrationError::ExecutionFailure("access denied\n".to_string())),
        "access denied\n"
    );
    assert_eq!(
        error_text(&OrchestrationError::LaunchFailure),
        "the command could not be launched"
    );
}

#[test]
fn version_launch_failure_yields_the_sentinel() {
    assert_eq!(
        format_version(&RunOutcome::LaunchFailed),
        "Error: Could not execute usbipd"
    );
}

#[test]
fn version_truncates_after_the_branch_marker() {
    let outcome = exited(
        true,
        "usbipd-win 4.3.0+Branch.master.Sha.deadbeef extra banner noise\n",
        "",
    );
    assert_eq!(format_version(&outcome), "usbipd-win 4.3.0+Branch.master");
}

#[test]
fn version_without_marker_is_trimmed_whole() {
    let outcome = exited(true, "  usbipd-win 4.3.0  \n", "");
    assert_eq!(format_version(&outcome), "usbipd-win 4.3.0");
}

#[test]
fn version_of_empty_output_is_empty() {
    assert_eq!(format_version(&exited(true, "", "")), "");
}
