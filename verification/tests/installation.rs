use flame::install::{
    all_binaries, pip_outcome, PipOutcome, asset_mode, binary_action, quoted_versions, required_directories, install_components, uv_fallbacks, uv_from_which, InstallStep, is_missing_interpreter, is_yes, needs_migrations, needs_uv,
    removal_plan, select_profiles, summary_plan, systemd_phase, uid_is_root, validate_config,
    BinaryAction, InstallConfig, InstallDir, InstallProfile, InstallationManager, ServiceSection, SystemdPhase,
    TestHint, UserManager, sdk_install_result, debug_list, example_file_step, ExampleFile, InstallRun,
    RunAction, sdk_install_start, wheel_build_result, SdkStart, step_needed, uv_install_source,
    migrations_start,
};
use flame::error::FlameError;

#[test]
fn single_profile_control_plane() {
    let manager = InstallationManager::new();
    let profiles = vec![InstallProfile::ControlPlane];
    let components = manager.get_components_to_install(&profiles);

    assert!(components.contains(&"flame-session-manager".to_string()));
    assert!(components.contains(&"flmctl".to_string()));
    assert!(components.contains(&"flmadm".to_string()));
    assert!(!components.contains(&"flamepy".to_string()));
}

#[test]
fn single_profile_worker() {
    let manager = InstallationManager::new();
    let profiles = vec![InstallProfile::Worker];
    let components = manager.get_components_to_install(&profiles);

    assert!(components.contains(&"flame-executor-manager".to_string()));
    assert!(components.contains(&"flamepy".to_string()));
    assert!(!components.contains(&"flame-session-manager".to_string()));
}

#[test]
fn single_profile_client() {
    let manager = InstallationManager::new();
    let profiles = vec![InstallProfile::Client];
    let components = manager.get_components_to_install(&profiles);

    assert!(components.contains(&"flmctl".to_string()));
    assert!(components.contains(&"flmping".to_string()));
    assert!(components.contains(&"flamepy".to_string()));
}

#[test]
fn multiple_profiles_no_duplicates() {
    let manager = InstallationManager::new();
    let profiles = vec![InstallProfile::Worker, InstallProfile::Client];
    let components = manager.get_components_to_install(&profiles);

    let flamepy_count = components.iter().filter(|c| *c == "flamepy").count();
    assert_eq!(flamepy_count, 1);
}

#[test]
fn all_profiles() {
    let manager = InstallationManager::new();
    let profiles = vec![
        InstallProfile::ControlPlane,
        InstallProfile::Worker,
        InstallProfile::Client,
    ];
    let components = manager.get_components_to_install(&profiles);

    assert!(components.contains(&"flame-session-manager".to_string()));
    assert!(components.contains(&"flame-executor-manager".to_string()));
    assert!(components.contains(&"flmctl".to_string()));
    assert!(components.contains(&"flamepy".to_string()));
}

#[test]
fn empty_profiles() {
    let manager = InstallationManager::new();
    let profiles: Vec<InstallProfile> = vec![];
    let components = manager.get_components_to_install(&profiles);

    assert!(components.is_empty());
}

#[test]
fn components_keep_first_occurrence_order() {
    let manager = InstallationManager::new();
    let profiles = vec![InstallProfile::ControlPlane, InstallProfile::Client];
    let components = manager.get_components_to_install(&profiles);
    assert_eq!(
        components,
        vec!["flame-session-manager", "flmctl", "flmadm", "flmping", "flmexec", "flamepy"]
    );
}

#[test]
fn profile_names_and_components() {
    assert_eq!(InstallProfile::ControlPlane.display_name(), "Control Plane");
    assert_eq!(InstallProfile::Worker.display_name(), "Worker");
    assert_eq!(InstallProfile::Client.display_name(), "Client");
    assert!(InstallProfile::Worker.includes_component("flamepy"));
    assert!(!InstallProfile::ControlPlane.includes_component("flamepy"));
}

#[test]
fn selects_all_profiles_when_none_is_flagged() {
    assert_eq!(
        select_profiles(false, false, false),
        vec![InstallProfile::ControlPlane, InstallProfile::Worker, InstallProfile::Client]
    );
    assert_eq!(select_profiles(false, true, true), vec![InstallProfile::Worker, InstallProfile::Client]);
}

fn config(prefix: &str, profiles: Vec<InstallProfile>, systemd: bool, enable: bool) -> InstallConfig {
    InstallConfig {
        src_dir: None,
        prefix: prefix.to_string(),
        systemd,
        enable,
        skip_build: false,
        clean: false,
        verbose: false,
        profiles,
        force_overwrite: false,
    }
}

fn refusal(r: Result<bool, flame::error::FlameError>) -> String {
    match r {
        Err(flame::error::FlameError::InvalidConfig(m)) => m,
        _ => panic!("expected an invalid configuration"),
    }
}

#[test]
fn validation_refusals() {
    let c = config("relative/path", vec![InstallProfile::Client], false, false);
    assert_eq!(refusal(validate_config(&c, true, true)), "Installation prefix must be an absolute path");

    let c = config("/opt/flame", vec![InstallProfile::Client], true, true);
    assert_eq!(refusal(validate_config(&c, true, true)), "Cannot use --enable with --client profile only.\n  The client profile doesn't install any services.\n  Use --control-plane and/or --worker to install services.");

    let c = config("/opt/flame", vec![InstallProfile::Worker], true, false);
    assert_eq!(
        refusal(validate_config(&c, false, true)),
        "Root privileges required for system-wide installation with systemd.\n  Run with sudo or use --no-systemd for user-local installation."
    );

    let c = config("/opt/flame", vec![InstallProfile::ControlPlane], false, true);
    assert_eq!(refusal(validate_config(&c, true, true)), "Cannot use --enable without systemd (--no-systemd conflicts with --enable)");

    let c = config("/opt/flame", vec![InstallProfile::Worker], false, false);
    assert_eq!(
        refusal(validate_config(&c, true, false)),
        "uv is not found in PATH (required by worker and client profiles)\nPlease install uv using one of these methods:\n1. curl -LsSf https://astral.sh/uv/install.sh | sh\n2. Or install uv via your package manager"
    );
}

#[test]
fn validation_accepts_and_notes_client_only_systemd() {
    let c = config("/opt/flame", vec![InstallProfile::Client], true, false);
    assert_eq!(validate_config(&c, false, true).unwrap(), true);
    let c = config("/opt/flame", vec![InstallProfile::ControlPlane], true, true);
    assert_eq!(validate_config(&c, true, false).unwrap(), false);
}

#[test]
fn uv_and_migrations_follow_profiles() {
    assert!(needs_uv(&vec![InstallProfile::Client]));
    assert!(!needs_uv(&vec![InstallProfile::ControlPlane]));
    assert!(needs_migrations(&vec![InstallProfile::ControlPlane]));
    assert!(!needs_migrations(&vec![InstallProfile::Worker]));
}

#[test]
fn systemd_phase_and_summary() {
    assert_eq!(systemd_phase(&vec![InstallProfile::Worker], true), SystemdPhase::Setup);
    assert_eq!(systemd_phase(&vec![InstallProfile::Worker], false), SystemdPhase::SkipDisabled);
    assert_eq!(systemd_phase(&vec![InstallProfile::Client], true), SystemdPhase::SkipNoServices);

    let p = summary_plan(&vec![InstallProfile::ControlPlane], true, false);
    assert!(!p.show_sdk);
    assert_eq!(p.services, ServiceSection::Systemd { enabled: false });
    assert_eq!(p.test_hint, TestHint::Flmctl);

    let p = summary_plan(&vec![InstallProfile::Client], false, false);
    assert!(p.show_sdk);
    assert_eq!(p.services, ServiceSection::Nothing);
    assert_eq!(p.test_hint, TestHint::Flmping);

    let p = summary_plan(&vec![InstallProfile::Worker], false, false);
    assert_eq!(p.services, ServiceSection::Manual);
    assert_eq!(p.test_hint, TestHint::Nothing);
}

#[test]
fn prompt_answers() {
    assert!(is_yes("y\n"));
    assert!(is_yes("  YeS "));
    assert!(!is_yes("no"));
    assert!(!is_yes(""));
    assert!(!is_yes("yess"));
}

#[test]
fn missing_interpreter_messages() {
    assert!(is_missing_interpreter("error: No interpreter found for Python 3.9"));
    assert!(is_missing_interpreter("python3.13 not found"));
    assert!(!is_missing_interpreter("build failed"));
}

#[test]
fn assets_get_modes() {
    assert_eq!(asset_mode("deploy.sh"), 0o755);
    assert_eq!(asset_mode("README.md"), 0o644);
}

#[test]
fn removal_keeps_preserved_directories() {
    let all = removal_plan(false, false, false);
    let kept = removal_plan(true, true, true);
    assert!(all.contains(&InstallDir::Data));
    assert!(!kept.contains(&InstallDir::Data));
    assert!(!kept.contains(&InstallDir::Conf));
    assert!(!kept.contains(&InstallDir::Logs));
    assert!(kept.len() < all.len());
}

#[test]
fn root_is_user_zero() {
    assert!(uid_is_root(0));
    assert!(!uid_is_root(1000));
    let m = UserManager::new();
    assert_eq!(m.is_root(), users::get_current_uid() == 0);
}

#[test]
fn binary_actions() {
    let comps = vec!["flmctl".to_string(), "flmadm".to_string()];
    assert_eq!(binary_action("flamepy", &comps, false, false, false), BinaryAction::SkipNotSelected);
    assert_eq!(binary_action("flmctl", &comps, true, false, false), BinaryAction::SkipExisting);
    assert_eq!(binary_action("flmctl", &comps, true, false, true), BinaryAction::Install);
    assert_eq!(binary_action("flmadm", &comps, true, true, false), BinaryAction::Install);
    assert_eq!(binary_action("flmadm", &comps, false, false, false), BinaryAction::Install);
}

#[test]
fn install_steps_follow_profiles() {
    let all = vec![
        InstallStep::CreateDirectories,
        InstallStep::InstallBinaries,
        InstallStep::InstallUv,
        InstallStep::InstallPythonSdk,
        InstallStep::InstallMigrations,
        InstallStep::GenerateConfig,
    ];
    assert_eq!(install_components(), all);
    let cp = vec![InstallProfile::ControlPlane];
    let needed: Vec<InstallStep> = all.iter().copied().filter(|s| step_needed(*s, &cp)).collect();
    assert_eq!(
        needed,
        vec![
            InstallStep::CreateDirectories,
            InstallStep::InstallBinaries,
            InstallStep::InstallMigrations,
            InstallStep::GenerateConfig
        ]
    );
    let client = vec![InstallProfile::Client];
    let needed: Vec<InstallStep> = all.iter().copied().filter(|s| step_needed(*s, &client)).collect();
    assert_eq!(
        needed,
        vec![
            InstallStep::CreateDirectories,
            InstallStep::InstallBinaries,
            InstallStep::InstallUv,
            InstallStep::InstallPythonSdk,
            InstallStep::GenerateConfig
        ]
    );
}

#[test]
fn uv_and_migration_steps_decide() {
    assert!(matches!(uv_install_source(&vec![InstallProfile::ControlPlane], None), Ok(None)));
    assert_eq!(
        uv_install_source(&vec![InstallProfile::Worker], Some("/usr/bin/uv".to_string())).unwrap(),
        Some("/usr/bin/uv".to_string())
    );
    match uv_install_source(&vec![InstallProfile::Client], None) {
        Err(FlameError::Internal(m)) => assert_eq!(
            m,
            "uv not found in system. Please install uv first:\n1. curl -LsSf https://astral.sh/uv/install.sh | sh\n2. Or install via your package manager"
        ),
        other => panic!("unexpected {:?}", other),
    }
    assert!(!migrations_start(&vec![InstallProfile::Worker], "/s", false).unwrap());
    assert!(migrations_start(&vec![InstallProfile::ControlPlane], "/s", true).unwrap());
    match migrations_start(&vec![InstallProfile::ControlPlane], "/src/session_manager/migrations/sqlite", false) {
        Err(FlameError::Internal(m)) => assert_eq!(
            m,
            format!(
                "Migrations source not found at: {:?}",
                std::path::Path::new("/src/session_manager/migrations/sqlite")
            )
        ),
        other => panic!("unexpected {:?}", other),
    }
}

#[test]
fn uv_lookup_places() {
    assert_eq!(uv_from_which("/usr/bin/uv\n"), Some("/usr/bin/uv".to_string()));
    assert_eq!(uv_from_which("  \n"), None);
    assert_eq!(
        uv_fallbacks(&Some("/home/flame".to_string())),
        vec!["/usr/bin/uv", "/usr/local/bin/uv", "/opt/homebrew/bin/uv", "/home/flame/.local/bin/uv"]
    );
    assert_eq!(uv_fallbacks(&None).len(), 3);
}

#[test]
fn binaries_directories_and_versions() {
    let b = all_binaries();
    assert_eq!(b.len(), 9);
    assert_eq!(b[0], "flame-session-manager");
    assert!(b.contains(&"flmexec-service"));
    let d = required_directories();
    assert!(d.contains(&"work/sessions"));
    assert!(d.contains(&"migrations/sqlite"));
    assert_eq!(
        quoted_versions(&vec!["3.11".to_string(), "3.12".to_string()]),
        "\"3.11\" \"3.12\""
    );
    assert_eq!(quoted_versions(&vec![]), "");
}

#[test]
fn sdk_install_outcomes() {
    assert_eq!(pip_outcome(true, "No interpreter found"), PipOutcome::Installed);
    assert_eq!(pip_outcome(false, "error: No interpreter found for Python 3.8"), PipOutcome::Skipped);
    assert_eq!(
        pip_outcome(false, "error: network unreachable"),
        PipOutcome::Failed("error: network unreachable".to_string())
    );
}

fn versions(vs: &[&str]) -> Vec<String> {
    vs.iter().map(|v| v.to_string()).collect()
}

fn internal_message(r: Result<Vec<String>, FlameError>) -> String {
    match r {
        Err(FlameError::Internal(m)) => m,
        other => panic!("expected an internal error, got {:?}", other),
    }
}

#[test]
fn sdk_install_keeps_installed_versions_in_order() {
    let vs = versions(&["3.8", "3.11", "3.12"]);
    let outs = vec![PipOutcome::Skipped, PipOutcome::Installed, PipOutcome::Installed];
    assert_eq!(sdk_install_result(&vs, &outs).unwrap(), versions(&["3.11", "3.12"]));
}

#[test]
fn sdk_install_stops_at_first_failure() {
    let vs = versions(&["3.11", "3.12", "3.13"]);
    let outs = vec![
        PipOutcome::Installed,
        PipOutcome::Failed("disk full".to_string()),
        PipOutcome::Failed("later".to_string()),
    ];
    assert_eq!(
        internal_message(sdk_install_result(&vs, &outs)),
        "Failed to install flamepy for Python 3.12: disk full"
    );
}

#[test]
fn sdk_install_without_interpreters_fails() {
    let vs = versions(&["3.9", "3.10"]);
    let outs = vec![PipOutcome::Skipped, PipOutcome::Skipped];
    let m = internal_message(sdk_install_result(&vs, &outs));
    assert_eq!(
        m,
        "Failed to install flamepy: no Python interpreters found for versions [\"3.9\", \"3.10\"]"
    );
    assert_eq!(m, format!("Failed to install flamepy: no Python interpreters found for versions {:?}", vs));
    let odd = versions(&["3\"x\\y"]);
    assert_eq!(debug_list(&odd), format!("{:?}", odd));
    assert_eq!(debug_list(&vec![]), "[]");
}

#[test]
fn example_files_follow_sources_and_overwrite_rules() {
    match example_file_step(ExampleFile::Binary, "/src/target/release/pi", "pi", false, false, false, false) {
        Err(FlameError::Internal(m)) => assert_eq!(
            m,
            "Example binary not found: /src/target/release/pi. Build package 'pi' first or run without --skip-build."
        ),
        other => panic!("unexpected {:?}", other),
    }
    match example_file_step(ExampleFile::Asset, "/src/examples/pi/run.sh", "pi", false, true, true, true) {
        Err(FlameError::Internal(m)) => {
            assert_eq!(m, "Example asset not found: /src/examples/pi/run.sh for example 'pi'.")
        }
        other => panic!("unexpected {:?}", other),
    }
    assert_eq!(
        example_file_step(ExampleFile::Asset, "a", "pi", true, true, false, false).unwrap(),
        BinaryAction::SkipExisting
    );
    assert_eq!(
        example_file_step(ExampleFile::Asset, "a", "pi", true, true, false, true).unwrap(),
        BinaryAction::Install
    );
    assert_eq!(
        example_file_step(ExampleFile::Binary, "a", "pi", true, true, true, false).unwrap(),
        BinaryAction::Install
    );
    assert_eq!(
        example_file_step(ExampleFile::Binary, "a", "pi", true, false, false, false).unwrap(),
        BinaryAction::Install
    );
}

#[test]
fn install_run_performs_steps_in_order_until_done() {
    let mut run = InstallRun::new();
    let mut seen = Vec::new();
    let mut action = run.start();
    loop {
        match action {
            RunAction::Perform(step) => {
                seen.push(step);
                action = run.on_result(Ok(()));
            }
            RunAction::Finished(r) => {
                assert!(r.is_ok());
                break;
            }
        }
    }
    assert_eq!(seen, install_components());
}

#[test]
fn install_run_stops_at_first_failing_step() {
    let mut run = InstallRun::new();
    assert!(matches!(run.start(), RunAction::Perform(InstallStep::CreateDirectories)));
    assert!(matches!(run.on_result(Ok(())), RunAction::Perform(InstallStep::InstallBinaries)));
    match run.on_result(Err(FlameError::Internal("copy failed".to_string()))) {
        RunAction::Finished(Err(FlameError::Internal(m))) => assert_eq!(m, "copy failed"),
        other => panic!("unexpected {:?}", other),
    }
}

fn strings(vs: &[&str]) -> Vec<String> {
    vs.iter().map(|v| v.to_string()).collect()
}

#[test]
fn sdk_checks_before_building() {
    let with_sdk = strings(&["flmctl", "flamepy"]);
    let without = strings(&["flmctl"]);
    assert_eq!(
        sdk_install_start(&without, "/src/sdk/python", false, true, false, false, "/p/bin/uv", false).unwrap(),
        SdkStart::SkipNotSelected
    );
    match sdk_install_start(&with_sdk, "/src/sdk/python", false, false, false, false, "/p/bin/uv", true) {
        Err(FlameError::Internal(m)) => assert_eq!(
            m,
            format!("Python SDK source not found at: {:?}", std::path::Path::new("/src/sdk/python"))
        ),
        other => panic!("unexpected {:?}", other),
    }
    assert_eq!(
        sdk_install_start(&with_sdk, "/src/sdk/python", true, true, false, false, "/p/bin/uv", false).unwrap(),
        SdkStart::SkipExisting
    );
    match sdk_install_start(&with_sdk, "/src/sdk/python", true, true, false, true, "/p/bin/uv", false) {
        Err(FlameError::Internal(m)) => assert_eq!(m, "uv not found at /p/bin/uv. Install uv first."),
        other => panic!("unexpected {:?}", other),
    }
    assert_eq!(
        sdk_install_start(&with_sdk, "/src/sdk/python", true, true, true, false, "/p/bin/uv", true).unwrap(),
        SdkStart::Build
    );
    assert!(wheel_build_result(true, "").is_ok());
    match wheel_build_result(false, "no pyproject.toml") {
        Err(FlameError::Internal(m)) => assert_eq!(m, "Failed to build wheel: no pyproject.toml"),
        other => panic!("unexpected {:?}", other),
    }
}
