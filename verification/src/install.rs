use vstd::prelude::*;

use crate::error::{framed, text, FlameError};
use crate::strs::{spec_starts_with, spec_trim, starts_with, str_eq, trim, trim_bounds};

verus! {

/// What a machine is installed for.
#[derive(Debug, Clone, Copy, PartialEq, Eq, Structural)]
pub enum InstallProfile {
    ControlPlane,
    Worker,
    Client,
}

/// The components each profile installs.
pub open spec fn spec_components(p: InstallProfile) -> Seq<Seq<char>> {
    match p {
        InstallProfile::ControlPlane => seq!["flame-session-manager"@, "flmctl"@, "flmadm"@],
        InstallProfile::Worker => seq![
            "flame-executor-manager"@,
            "flmping-service"@,
            "flmexec-service"@,
            "flamepy"@,
        ],
        InstallProfile::Client => seq!["flmctl"@, "flmping"@, "flmexec"@, "flamepy"@],
    }
}

/// The components of the profiles, in order, each time it occurs.
pub open spec fn all_components(ps: Seq<InstallProfile>) -> Seq<Seq<char>>
    decreases ps.len(),
{
    if ps.len() == 0 {
        Seq::empty()
    } else {
        all_components(ps.drop_last()) + spec_components(ps.last())
    }
}

/// `s` without repeats, each item where it first occurs.
pub open spec fn dedup(s: Seq<Seq<char>>) -> Seq<Seq<char>>
    decreases s.len(),
{
    if s.len() == 0 {
        Seq::empty()
    } else if dedup(s.drop_last()).contains(s.last()) {
        dedup(s.drop_last())
    } else {
        dedup(s.drop_last()).push(s.last())
    }
}

impl InstallProfile {
    /// The components this profile installs.
    pub fn components(&self) -> (r: Vec<&'static str>)
        ensures
            r@.map_values(|s: &str| s@) == spec_components(*self),
    {
        let r = match self {
            InstallProfile::ControlPlane => vec!["flame-session-manager", "flmctl", "flmadm"],
            InstallProfile::Worker => vec![
                "flame-executor-manager",
                "flmping-service",
                "flmexec-service",
                "flamepy",
            ],
            InstallProfile::Client => vec!["flmctl", "flmping", "flmexec", "flamepy"],
        };
        assert(r@.map_values(|s: &str| s@) =~= spec_components(*self));
        r
    }

    /// The profile's name for people.
    pub fn display_name(&self) -> (r: &'static str)
        ensures
            r@ == match *self {
                InstallProfile::ControlPlane => "Control Plane"@,
                InstallProfile::Worker => "Worker"@,
                InstallProfile::Client => "Client"@,
            },
    {
        match self {
            InstallProfile::ControlPlane => "Control Plane",
            InstallProfile::Worker => "Worker",
            InstallProfile::Client => "Client",
        }
    }
}

/// The profiles a command line selects: the ones flagged, in the order control
/// plane, worker, client; all three when none is flagged.
pub fn select_profiles(control_plane: bool, worker: bool, client: bool) -> (r: Vec<InstallProfile>)
    ensures
        !(control_plane || worker || client) ==> r@ == seq![
            InstallProfile::ControlPlane,
            InstallProfile::Worker,
            InstallProfile::Client,
        ],
        control_plane || worker || client ==> r@ == (if control_plane {
            seq![InstallProfile::ControlPlane]
        } else {
            Seq::empty()
        }) + (if worker {
            seq![InstallProfile::Worker]
        } else {
            Seq::empty()
        }) + (if client {
            seq![InstallProfile::Client]
        } else {
            Seq::empty()
        }),
{
    let mut r: Vec<InstallProfile> = Vec::new();
    if control_plane || worker || client {
        if control_plane {
            r.push(InstallProfile::ControlPlane);
        }
        if worker {
            r.push(InstallProfile::Worker);
        }
        if client {
            r.push(InstallProfile::Client);
        }
    } else {
        r.push(InstallProfile::ControlPlane);
        r.push(InstallProfile::Worker);
        r.push(InstallProfile::Client);
    }
    proof {
        assert(r@ =~= (if control_plane || worker || client {
            (if control_plane {
                seq![InstallProfile::ControlPlane]
            } else {
                Seq::empty()
            }) + (if worker {
                seq![InstallProfile::Worker]
            } else {
                Seq::empty()
            }) + (if client {
                seq![InstallProfile::Client]
            } else {
                Seq::empty()
            })
        } else {
            seq![InstallProfile::ControlPlane, InstallProfile::Worker, InstallProfile::Client]
        }));
    }
    r
}

/// Installs a Flame machine.
pub struct InstallationManager;

fn contains_string(v: &Vec<String>, s: &str) -> (r: bool)
    ensures
        r == v@.map_values(|x: String| x@).contains(s@),
{
    let ghost vs = v@.map_values(|x: String| x@);
    let mut i: usize = 0;
    while i < v.len()
        invariant
            i <= v.len(),
            vs == v@.map_values(|x: String| x@),
            forall|j: int| 0 <= j < i ==> vs[j] != s@,
        decreases v.len() - i,
    {
        if str_eq(v[i].as_str(), s) {
            assert(vs[i as int] == s@);
            return true;
        }
        i = i + 1;
    }
    false
}

impl InstallationManager {
    pub fn new() -> (r: Self) {
        InstallationManager
    }

    /// Every component of the profiles, once each, in the order it first occurs.
    pub fn get_components_to_install(&self, profiles: &[InstallProfile]) -> (r: Vec<String>)
        ensures
            r@.map_values(|s: String| s@) == dedup(all_components(profiles@)),
    {
        let mut components: Vec<String> = Vec::new();
        let mut i: usize = 0;
        while i < profiles.len()
            invariant
                i <= profiles@.len(),
                components@.map_values(|s: String| s@) == dedup(
                    all_components(profiles@.subrange(0, i as int)),
                ),
            decreases profiles.len() - i,
        {
            let comps = profiles[i].components();
            let ghost before = all_components(profiles@.subrange(0, i as int));
            let ghost cs = spec_components(profiles@[i as int]);
            proof {
                let sub = profiles@.subrange(0, i + 1);
                assert(sub.drop_last() =~= profiles@.subrange(0, i as int));
                assert(all_components(sub) == before + cs);
            }
            let mut j: usize = 0;
            while j < comps.len()
                invariant
                    j <= comps@.len(),
                    comps@.map_values(|s: &str| s@) == cs,
                    components@.map_values(|s: String| s@) == dedup(
                        before + cs.subrange(0, j as int),
                    ),
                decreases comps.len() - j,
            {
                let c = comps[j];
                let ghost prev = before + cs.subrange(0, j as int);
                let ghost next = before + cs.subrange(0, j + 1);
                proof {
                    assert(next.drop_last() =~= prev);
                    assert(next.last() == c@);
                }
                if !contains_string(&components, c) {
                    components.push(c.to_string());
                    proof {
                        assert(components@.map_values(|s: String| s@) =~= dedup(prev).push(c@));
                    }
                }
                j = j + 1;
            }
            proof {
                assert(cs.subrange(0, comps.len() as int) =~= cs);
            }
            i = i + 1;
        }
        proof {
            assert(profiles@.subrange(0, profiles.len() as int) =~= profiles@);
        }
        components
    }
}

pub proof fn lemma_dedup(s: Seq<Seq<char>>)
    ensures
        dedup(s).no_duplicates(),
        forall|c: Seq<char>| #[trigger] dedup(s).contains(c) <==> s.contains(c),
    decreases s.len(),
{
    if s.len() > 0 {
        let p = s.drop_last();
        lemma_dedup(p);
        assert forall|c: Seq<char>| #[trigger] dedup(s).contains(c) <==> s.contains(c) by {
            if s.contains(c) {
                let i = choose|i: int| 0 <= i < s.len() && s[i] == c;
                if i < s.len() - 1 {
                    assert(p[i] == c);
                    assert(p.contains(c));
                }
            }
            if p.contains(c) {
                let i = choose|i: int| 0 <= i < p.len() && p[i] == c;
                assert(s[i] == c);
            }
            if dedup(s).contains(c) && !dedup(p).contains(c) {
                assert(dedup(s) == dedup(p).push(s.last()));
                let i = choose|i: int| 0 <= i < dedup(s).len() && dedup(s)[i] == c;
                if i < dedup(p).len() {
                    assert(dedup(p)[i] == c);
                }
                assert(s[s.len() - 1] == c);
            }
            if !dedup(p).contains(s.last()) {
                assert(dedup(s)[dedup(s).len() - 1] == s.last());
                if dedup(p).contains(c) {
                    let i = choose|i: int| 0 <= i < dedup(p).len() && dedup(p)[i] == c;
                    assert(dedup(s)[i] == c);
                }
            }
        }
    }
}

/// The components to install are those of the selected profiles, each once.
pub proof fn law_components_once_each(profiles: Seq<InstallProfile>)
    ensures
        dedup(all_components(profiles)).no_duplicates(),
        forall|c: Seq<char>| #[trigger]
            dedup(all_components(profiles)).contains(c) <==> all_components(profiles).contains(c),
{
    lemma_dedup(all_components(profiles));
}

/// The settings of an installation.
pub struct InstallConfig {
    pub src_dir: Option<String>,
    pub prefix: String,
    pub systemd: bool,
    pub enable: bool,
    pub skip_build: bool,
    pub clean: bool,
    pub verbose: bool,
    pub profiles: Vec<InstallProfile>,
    pub force_overwrite: bool,
}

fn contains_profile(ps: &Vec<InstallProfile>, p: InstallProfile) -> (r: bool)
    ensures
        r == ps@.contains(p),
{
    let mut i: usize = 0;
    while i < ps.len()
        invariant
            i <= ps.len(),
            forall|j: int| 0 <= j < i ==> ps@[j] != p,
        decreases ps.len() - i,
    {
        if ps[i] == p {
            return true;
        }
        i = i + 1;
    }
    false
}

/// Why an installation setting is refused, in the order they are tested.
pub open spec fn spec_validate(c: InstallConfig, is_root: bool, uv_found: bool) -> Option<Seq<char>> {
    let ps = c.profiles@;
    let cp = ps.contains(InstallProfile::ControlPlane);
    let worker = ps.contains(InstallProfile::Worker);
    let client_only = ps.len() == 1 && ps.contains(InstallProfile::Client);
    if !spec_starts_with(c.prefix@, "/"@) {
        Some("Installation prefix must be an absolute path"@)
    } else if client_only && c.enable {
        Some("Cannot use --enable with --client profile only.\n  The client profile doesn't install any services.\n  Use --control-plane and/or --worker to install services."@)
    } else if c.systemd && (cp || worker) && !is_root {
        Some("Root privileges required for system-wide installation with systemd.\n  Run with sudo or use --no-systemd for user-local installation."@)
    } else if c.enable && !c.systemd {
        Some("Cannot use --enable without systemd (--no-systemd conflicts with --enable)"@)
    } else if (worker || ps.contains(InstallProfile::Client)) && !uv_found {
        Some("uv is not found in PATH (required by worker and client profiles)\nPlease install uv using one of these methods:\n1. curl -LsSf https://astral.sh/uv/install.sh | sh\n2. Or install uv via your package manager"@)
    } else {
        None
    }
}

/// Checks an installation's settings before anything is touched: the prefix is
/// absolute, a client-only installation is not enabled, a system-wide service
/// installation runs as root, enabling needs systemd, and worker and client
/// profiles find `uv`. On success, tells whether systemd settings are ignored
/// because only the client profile is installed.
pub fn validate_config(config: &InstallConfig, is_root: bool, uv_found: bool) -> (r: Result<
    bool,
    FlameError,
>)
    ensures
        match spec_validate(*config, is_root, uv_found) {
            Some(m) => r matches Err(FlameError::InvalidConfig(e)) && e@ == m,
            None => r == Ok::<bool, FlameError>(
                config.profiles@.len() == 1 && config.profiles@.contains(InstallProfile::Client)
                    && config.systemd,
            ),
        },
        r is Ok <==> settings_acceptable(*config, is_root, uv_found),
        spec_starts_with(config.prefix@, "/"@) && !(config.profiles@.len() == 1
            && config.profiles@.contains(InstallProfile::Client) && config.enable) && config.systemd
            && (config.profiles@.contains(InstallProfile::ControlPlane) || config.profiles@.contains(
            InstallProfile::Worker,
        )) && !is_root ==> (r matches Err(FlameError::InvalidConfig(m)) && m@ == root_required_message()),
{
    proof {
        law_validation_refuses_exactly(*config, is_root, uv_found);
    }
    proof {
        reveal_strlit("/");
        reveal_strlit("Installation prefix must be an absolute path");
        reveal_strlit("Cannot use --enable with --client profile only.\n  The client profile doesn't install any services.\n  Use --control-plane and/or --worker to install services.");
        reveal_strlit("Root privileges required for system-wide installation with systemd.\n  Run with sudo or use --no-systemd for user-local installation.");
        reveal_strlit("Cannot use --enable without systemd (--no-systemd conflicts with --enable)");
        reveal_strlit("uv is not found in PATH (required by worker and client profiles)\nPlease install uv using one of these methods:\n1. curl -LsSf https://astral.sh/uv/install.sh | sh\n2. Or install uv via your package manager");
    }
    if !starts_with(config.prefix.as_str(), "/") {
        return Err(FlameError::InvalidConfig(text("Installation prefix must be an absolute path")));
    }
    let cp = contains_profile(&config.profiles, InstallProfile::ControlPlane);
    let worker = contains_profile(&config.profiles, InstallProfile::Worker);
    let client = contains_profile(&config.profiles, InstallProfile::Client);
    let client_only = config.profiles.len() == 1 && client;
    if client_only && config.enable {
        return Err(FlameError::InvalidConfig(text("Cannot use --enable with --client profile only.\n  The client profile doesn't install any services.\n  Use --control-plane and/or --worker to install services.")));
    }
    if config.systemd && (cp || worker) && !is_root {
        return Err(
            FlameError::InvalidConfig(
                text("Root privileges required for system-wide installation with systemd.\n  Run with sudo or use --no-systemd for user-local installation."),
            ),
        );
    }
    if config.enable && !config.systemd {
        return Err(FlameError::InvalidConfig(text("Cannot use --enable without systemd (--no-systemd conflicts with --enable)")));
    }
    if (worker || client) && !uv_found {
        return Err(FlameError::InvalidConfig(text("uv is not found in PATH (required by worker and client profiles)\nPlease install uv using one of these methods:\n1. curl -LsSf https://astral.sh/uv/install.sh | sh\n2. Or install uv via your package manager")));
    }
    Ok(client_only && config.systemd)
}

/// The refusal given when services would be installed system-wide by a user
/// who is not root.
pub open spec fn root_required_message() -> Seq<char> {
    "Root privileges required for system-wide installation with systemd.\n  Run with sudo or use --no-systemd for user-local installation."@
}

/// Settings an installation accepts: an absolute prefix; no `--enable` for a
/// client-only installation; root for a systemd installation of the control
/// plane or a worker; `--enable` only with systemd; `uv` on the machine for
/// the worker and client profiles.
pub open spec fn settings_acceptable(c: InstallConfig, is_root: bool, uv_found: bool) -> bool {
    let ps = c.profiles@;
    &&& spec_starts_with(c.prefix@, "/"@)
    &&& !(ps.len() == 1 && ps.contains(InstallProfile::Client) && c.enable)
    &&& !(c.systemd && (ps.contains(InstallProfile::ControlPlane) || ps.contains(
        InstallProfile::Worker,
    )) && !is_root)
    &&& !(c.enable && !c.systemd)
    &&& !((ps.contains(InstallProfile::Worker) || ps.contains(InstallProfile::Client)) && !uv_found)
}

/// Validation refuses exactly the settings that break one of the rules of
/// `settings_acceptable`; and a systemd installation of the control plane or
/// a worker by a user who is not root (with an absolute prefix and no
/// client-only `--enable`) is refused for lack of root privileges.
pub proof fn law_validation_refuses_exactly(c: InstallConfig, is_root: bool, uv_found: bool)
    ensures
        spec_validate(c, is_root, uv_found) is None <==> settings_acceptable(c, is_root, uv_found),
        spec_starts_with(c.prefix@, "/"@) && !(c.profiles@.len() == 1 && c.profiles@.contains(
            InstallProfile::Client,
        ) && c.enable) && c.systemd && (c.profiles@.contains(InstallProfile::ControlPlane)
            || c.profiles@.contains(InstallProfile::Worker)) && !is_root ==> spec_validate(
            c,
            is_root,
            uv_found,
        ) == Some(root_required_message()),
{
}

/// What the installation does about system services.
#[derive(Debug, Clone, Copy, PartialEq, Eq, Structural)]
pub enum SystemdPhase {
    /// Install the services of the control plane and worker.
    Setup,
    /// Services are not wanted.
    SkipDisabled,
    /// No installed profile has a service.
    SkipNoServices,
}

/// Services are set up when systemd is wanted and the control plane or the
/// worker is installed.
pub fn systemd_phase(profiles: &Vec<InstallProfile>, systemd: bool) -> (r: SystemdPhase)
    ensures
        r == (if systemd && (profiles@.contains(InstallProfile::ControlPlane) || profiles@.contains(
            InstallProfile::Worker,
        )) {
            SystemdPhase::Setup
        } else if !systemd {
            SystemdPhase::SkipDisabled
        } else {
            SystemdPhase::SkipNoServices
        }),
{
    let cp = contains_profile(profiles, InstallProfile::ControlPlane);
    let worker = contains_profile(profiles, InstallProfile::Worker);
    if systemd && (cp || worker) {
        SystemdPhase::Setup
    } else if !systemd {
        SystemdPhase::SkipDisabled
    } else {
        SystemdPhase::SkipNoServices
    }
}

/// How the summary after an installation speaks of services.
#[derive(Debug, Clone, Copy, PartialEq, Eq, Structural)]
pub enum ServiceSection {
    /// The services were installed, and enabled or not.
    Systemd { enabled: bool },
    /// No systemd: how to start the managers by hand.
    Manual,
    /// Nothing to say: no service was installed.
    Nothing,
}

/// Which command the summary suggests to test the installation.
#[derive(Debug, Clone, Copy, PartialEq, Eq, Structural)]
pub enum TestHint {
    Flmctl,
    Flmping,
    Nothing,
}

/// What the summary after an installation shows.
#[derive(Debug, Clone, Copy, PartialEq, Eq, Structural)]
pub struct SummaryPlan {
    /// The Python SDK's directory, when a profile installs `flamepy`.
    pub show_sdk: bool,
    /// The session manager's lines.
    pub control_plane: bool,
    /// The executor manager's lines.
    pub worker: bool,
    pub services: ServiceSection,
    pub test_hint: TestHint,
}

/// The profiles that install `flamepy`.
pub open spec fn installs_sdk(ps: Seq<InstallProfile>) -> bool {
    exists|i: int| 0 <= i < ps.len() && spec_components(ps[i]).contains("flamepy"@)
}

impl InstallProfile {
    /// Whether the profile installs the component `name`.
    pub fn includes_component(&self, name: &str) -> (r: bool)
        ensures
            r == spec_components(*self).contains(name@),
    {
        let comps = self.components();
        let ghost cs = spec_components(*self);
        let mut i: usize = 0;
        while i < comps.len()
            invariant
                i <= comps@.len(),
                comps@.map_values(|s: &str| s@) == cs,
                cs == spec_components(*self),
                forall|j: int| 0 <= j < i ==> cs[j] != name@,
            decreases comps.len() - i,
        {
            if str_eq(comps[i], name) {
                assert(comps@.map_values(|s: &str| s@)[i as int] == comps@[i as int]@);
                assert(cs[i as int] == name@);
                assert(cs.contains(name@));
                return true;
            }
            i = i + 1;
        }
        false
    }
}

/// What the summary after an installation of `profiles` shows: the SDK when
/// a profile installs `flamepy`; the services' state when systemd was used
/// for the control plane or worker, how to start them by hand when it was
/// not; and `flmctl` to test a control plane, else `flmping` for a client.
pub fn summary_plan(profiles: &Vec<InstallProfile>, systemd: bool, enable: bool) -> (r: SummaryPlan)
    ensures
        r.show_sdk == installs_sdk(profiles@),
        r.control_plane == profiles@.contains(InstallProfile::ControlPlane),
        r.worker == profiles@.contains(InstallProfile::Worker),
        r.services == (if !(r.control_plane || r.worker) {
            ServiceSection::Nothing
        } else if systemd {
            ServiceSection::Systemd { enabled: enable }
        } else {
            ServiceSection::Manual
        }),
        r.test_hint == (if r.control_plane {
            TestHint::Flmctl
        } else if profiles@.contains(InstallProfile::Client) {
            TestHint::Flmping
        } else {
            TestHint::Nothing
        }),
{
    let mut show_sdk = false;
    let mut i: usize = 0;
    let f = "flamepy";
    proof {
        reveal_strlit("flamepy");
    }
    while i < profiles.len()
        invariant
            i <= profiles@.len(),
            f@ == "flamepy"@,
            show_sdk == exists|j: int| 0 <= j < i && spec_components(profiles@[j]).contains("flamepy"@),
        decreases profiles.len() - i,
    {
        if profiles[i].includes_component(f) {
            show_sdk = true;
        }
        i = i + 1;
    }
    let cp = contains_profile(profiles, InstallProfile::ControlPlane);
    let worker = contains_profile(profiles, InstallProfile::Worker);
    let client = contains_profile(profiles, InstallProfile::Client);
    let services = if !(cp || worker) {
        ServiceSection::Nothing
    } else if systemd {
        ServiceSection::Systemd { enabled: enable }
    } else {
        ServiceSection::Manual
    };
    let test_hint = if cp {
        TestHint::Flmctl
    } else if client {
        TestHint::Flmping
    } else {
        TestHint::Nothing
    };
    SummaryPlan { show_sdk, control_plane: cp, worker, services, test_hint }
}

/// `uv` is installed for the worker and client profiles.
pub fn needs_uv(profiles: &Vec<InstallProfile>) -> (r: bool)
    ensures
        r == (profiles@.contains(InstallProfile::Worker) || profiles@.contains(
            InstallProfile::Client,
        )),
{
    contains_profile(profiles, InstallProfile::Worker) || contains_profile(
        profiles,
        InstallProfile::Client,
    )
}

/// Database migrations are installed for the control plane only.
pub fn needs_migrations(profiles: &Vec<InstallProfile>) -> (r: bool)
    ensures
        r == profiles@.contains(InstallProfile::ControlPlane),
{
    contains_profile(profiles, InstallProfile::ControlPlane)
}

/// The binaries an installation may copy, in order.
pub open spec fn spec_all_binaries() -> Seq<Seq<char>> {
    seq![
        "flame-session-manager"@,
        "flame-executor-manager"@,
        "flame-object-cache"@,
        "flmctl"@,
        "flmadm"@,
        "flmping"@,
        "flmping-service"@,
        "flmexec"@,
        "flmexec-service"@,
    ]
}

pub fn all_binaries() -> (r: Vec<&'static str>)
    ensures
        r@.map_values(|s: &str| s@) == spec_all_binaries(),
{
    let r = vec![
        "flame-session-manager",
        "flame-executor-manager",
        "flame-object-cache",
        "flmctl",
        "flmadm",
        "flmping",
        "flmping-service",
        "flmexec",
        "flmexec-service",
    ];
    assert(r@.map_values(|s: &str| s@) =~= spec_all_binaries());
    r
}

/// What happens to one binary.
#[derive(Debug, Clone, Copy, PartialEq, Eq, Structural)]
pub enum BinaryAction {
    /// Not in the selected profiles.
    SkipNotSelected,
    /// Already there and not to be overwritten.
    SkipExisting,
    Install,
}

/// Whether `name` is copied: only components of the selected profiles, and an
/// existing file only when overwriting is forced or confirmed.
pub fn binary_action(
    name: &str,
    components: &Vec<String>,
    exists: bool,
    force_overwrite: bool,
    confirmed: bool,
) -> (r: BinaryAction)
    ensures
        !components@.map_values(|s: String| s@).contains(name@) ==> r
            == BinaryAction::SkipNotSelected,
        components@.map_values(|s: String| s@).contains(name@) && exists && !force_overwrite
            && !confirmed ==> r == BinaryAction::SkipExisting,
        components@.map_values(|s: String| s@).contains(name@) && !(exists && !force_overwrite
            && !confirmed) ==> r == BinaryAction::Install,
{
    if !contains_string(components, name) {
        BinaryAction::SkipNotSelected
    } else if exists && !force_overwrite && !confirmed {
        BinaryAction::SkipExisting
    } else {
        BinaryAction::Install
    }
}

/// The two kinds of file an example brings.
#[derive(Debug, Clone, Copy, PartialEq, Eq, Structural)]
pub enum ExampleFile {
    /// A built program, named with the package that builds it.
    Binary,
    /// A file of the example's sources, named with the example.
    Asset,
}

/// The message for an example file whose source is missing; `owner` is the
/// package of a binary or the name of the example of an asset.
pub open spec fn example_missing_message(kind: ExampleFile, src: Seq<char>, owner: Seq<char>) -> Seq<
    char,
> {
    match kind {
        ExampleFile::Binary => "Example binary not found: "@ + src
            + ". Build package '"@ + owner + "' first or run without --skip-build."@,
        ExampleFile::Asset => "Example asset not found: "@ + src + " for example '"@ + owner
            + "'."@,
    }
}

/// What happens to one file of an example: a missing source stops the
/// installation with an error; an existing target is kept unless overwriting
/// is forced or confirmed; otherwise the file is copied.
pub fn example_file_step(
    kind: ExampleFile,
    src: &str,
    owner: &str,
    src_exists: bool,
    dst_exists: bool,
    force_overwrite: bool,
    confirmed: bool,
) -> (r: Result<BinaryAction, FlameError>)
    ensures
        !src_exists ==> (r matches Err(FlameError::Internal(m)) && m@ == example_missing_message(
            kind,
            src@,
            owner@,
        )),
        src_exists && dst_exists && !force_overwrite && !confirmed ==> r == Ok::<
            BinaryAction,
            FlameError,
        >(BinaryAction::SkipExisting),
        src_exists && !(dst_exists && !force_overwrite && !confirmed) ==> r == Ok::<
            BinaryAction,
            FlameError,
        >(BinaryAction::Install),
{
    if !src_exists {
        let m = match kind {
            ExampleFile::Binary => {
                let mut m = framed("Example binary not found: ", src, ". Build package '");
                m.append(owner);
                m.append("' first or run without --skip-build.");
                m
            },
            ExampleFile::Asset => {
                let mut m = framed("Example asset not found: ", src, " for example '");
                m.append(owner);
                m.append("'.");
                m
            },
        };
        Err(FlameError::Internal(m))
    } else if dst_exists && !force_overwrite && !confirmed {
        Ok(BinaryAction::SkipExisting)
    } else {
        Ok(BinaryAction::Install)
    }
}

/// The directories an installation creates, relative to its prefix.
pub open spec fn spec_required_directories() -> Seq<Seq<char>> {
    seq![
        "bin"@,
        "sbin"@,
        "examples"@,
        "work"@,
        "work/sessions"@,
        "work/executors"@,
        "logs"@,
        "conf"@,
        "data"@,
        "data/cache"@,
        "data/packages"@,
        "migrations"@,
        "migrations/sqlite"@,
    ]
}

pub fn required_directories() -> (r: Vec<&'static str>)
    ensures
        r@.map_values(|s: &str| s@) == spec_required_directories(),
{
    let r = vec![
        "bin",
        "sbin",
        "examples",
        "work",
        "work/sessions",
        "work/executors",
        "logs",
        "conf",
        "data",
        "data/cache",
        "data/packages",
        "migrations",
        "migrations/sqlite",
    ];
    assert(r@.map_values(|s: &str| s@) =~= spec_required_directories());
    r
}

/// The directories of an installation.
#[derive(Debug, Clone, Copy, PartialEq, Eq, Structural)]
pub enum InstallDir {
    Bin,
    Lib,
    Examples,
    Wheels,
    Migrations,
    Work,
    Events,
    Data,
    Conf,
    Logs,
}

/// What an uninstall removes, in order; the data, configuration and logs stay
/// when asked to.
pub open spec fn spec_removal_plan(preserve_data: bool, preserve_config: bool, preserve_logs: bool) -> Seq<
    InstallDir,
> {
    seq![
        InstallDir::Bin,
        InstallDir::Lib,
        InstallDir::Examples,
        InstallDir::Wheels,
        InstallDir::Migrations,
        InstallDir::Work,
        InstallDir::Events,
    ] + (if preserve_data {
        Seq::empty()
    } else {
        seq![InstallDir::Data]
    }) + (if preserve_config {
        Seq::empty()
    } else {
        seq![InstallDir::Conf]
    }) + (if preserve_logs {
        Seq::empty()
    } else {
        seq![InstallDir::Logs]
    })
}

pub fn removal_plan(preserve_data: bool, preserve_config: bool, preserve_logs: bool) -> (r: Vec<
    InstallDir,
>)
    ensures
        r@ == spec_removal_plan(preserve_data, preserve_config, preserve_logs),
        forall|d: InstallDir|
            #[trigger] r@.contains(d) <==> ((d == InstallDir::Data ==> !preserve_data) && (d
                == InstallDir::Conf ==> !preserve_config) && (d == InstallDir::Logs
                ==> !preserve_logs)),
        r@.no_duplicates(),
{
    proof {
        law_removal_plan_removes_all_but_preserved(preserve_data, preserve_config, preserve_logs);
    }
    let mut r = vec![
        InstallDir::Bin,
        InstallDir::Lib,
        InstallDir::Examples,
        InstallDir::Wheels,
        InstallDir::Migrations,
        InstallDir::Work,
        InstallDir::Events,
    ];
    if !preserve_data {
        r.push(InstallDir::Data);
    }
    if !preserve_config {
        r.push(InstallDir::Conf);
    }
    if !preserve_logs {
        r.push(InstallDir::Logs);
    }
    assert(r@ =~= spec_removal_plan(preserve_data, preserve_config, preserve_logs));
    r
}

/// A preserved directory is never in the removal plan.
pub proof fn law_preserved_dirs_stay(preserve_data: bool, preserve_config: bool, preserve_logs: bool)
    ensures
        preserve_data ==> !spec_removal_plan(preserve_data, preserve_config, preserve_logs).contains(
            InstallDir::Data,
        ),
        preserve_config ==> !spec_removal_plan(preserve_data, preserve_config, preserve_logs).contains(
            InstallDir::Conf,
        ),
        preserve_logs ==> !spec_removal_plan(preserve_data, preserve_config, preserve_logs).contains(
            InstallDir::Logs,
        ),
        spec_removal_plan(preserve_data, preserve_config, preserve_logs).contains(InstallDir::Bin),
{
    let p = spec_removal_plan(preserve_data, preserve_config, preserve_logs);
    assert(p[0] == InstallDir::Bin);
    assert forall|i: int| 0 <= i < p.len() implies p[i] != InstallDir::Data || !preserve_data by {}
    assert forall|i: int| 0 <= i < p.len() implies p[i] != InstallDir::Conf || !preserve_config by {}
    assert forall|i: int| 0 <= i < p.len() implies p[i] != InstallDir::Logs || !preserve_logs by {}
}

/// An uninstall removes every directory of the installation exactly once,
/// except the data, configuration and logs directories that are asked to be
/// preserved: a directory is in the plan if and only if it is not preserved.
pub proof fn law_removal_plan_removes_all_but_preserved(
    preserve_data: bool,
    preserve_config: bool,
    preserve_logs: bool,
)
    ensures
        forall|d: InstallDir|
            #[trigger] spec_removal_plan(preserve_data, preserve_config, preserve_logs).contains(d)
                <==> ((d == InstallDir::Data ==> !preserve_data) && (d == InstallDir::Conf
                ==> !preserve_config) && (d == InstallDir::Logs ==> !preserve_logs)),
        spec_removal_plan(preserve_data, preserve_config, preserve_logs).no_duplicates(),
{
    let p = spec_removal_plan(preserve_data, preserve_config, preserve_logs);
    let n: int = 7;
    assert(p[0] == InstallDir::Bin);
    assert(p[1] == InstallDir::Lib);
    assert(p[2] == InstallDir::Examples);
    assert(p[3] == InstallDir::Wheels);
    assert(p[4] == InstallDir::Migrations);
    assert(p[5] == InstallDir::Work);
    assert(p[6] == InstallDir::Events);
    let k0: int = if preserve_data { n } else { n + 1 };
    let k1: int = if preserve_config { k0 } else { k0 + 1 };
    assert(p.len() == (if preserve_logs { k1 } else { k1 + 1 }));
    if !preserve_data {
        assert(p[n] == InstallDir::Data);
    }
    if !preserve_config {
        assert(p[k0] == InstallDir::Conf);
    }
    if !preserve_logs {
        assert(p[k1] == InstallDir::Logs);
    }
    assert forall|d: InstallDir|
        #[trigger] p.contains(d) <==> ((d == InstallDir::Data ==> !preserve_data) && (d
            == InstallDir::Conf ==> !preserve_config) && (d == InstallDir::Logs
            ==> !preserve_logs)) by {
        if (d == InstallDir::Data ==> !preserve_data) && (d == InstallDir::Conf ==> !preserve_config)
            && (d == InstallDir::Logs ==> !preserve_logs) {
            match d {
                InstallDir::Bin => assert(p[0] == d),
                InstallDir::Lib => assert(p[1] == d),
                InstallDir::Examples => assert(p[2] == d),
                InstallDir::Wheels => assert(p[3] == d),
                InstallDir::Migrations => assert(p[4] == d),
                InstallDir::Work => assert(p[5] == d),
                InstallDir::Events => assert(p[6] == d),
                InstallDir::Data => assert(p[n] == d),
                InstallDir::Conf => assert(p[k0] == d),
                InstallDir::Logs => assert(p[k1] == d),
            }
        }
    }
    assert forall|i: int, j: int| 0 <= i < p.len() && 0 <= j < p.len() && i != j implies p[i]
        != p[j] by {}
}

/// The file mode of an example asset: scripts are executable.
pub fn asset_mode(asset: &str) -> (r: u32)
    ensures
        r == (if asset@.len() >= 3 && asset@.subrange(asset@.len() - 3, asset@.len() as int)
            == ".sh"@ {
            0o755u32
        } else {
            0o644u32
        }),
{
    let n = asset.unicode_len();
    proof {
        reveal_strlit(".sh");
    }
    if n >= 3 && asset.get_char(n - 3) == '.' && asset.get_char(n - 2) == 's' && asset.get_char(n - 1)
        == 'h' {
        assert(asset@.subrange(n - 3, n as int) =~= ".sh"@);
        0o755
    } else {
        proof {
            if n >= 3 && asset@.subrange(n - 3, n as int) == ".sh"@ {
                assert(asset@.subrange(n - 3, n as int)[0] == asset@[n - 3]);
                assert(asset@.subrange(n - 3, n as int)[1] == asset@[n - 2]);
                assert(asset@.subrange(n - 3, n as int)[2] == asset@[n - 1]);
            }
        }
        0o644
    }
}

/// `"v1" "v2" ...`: the Python versions quoted and separated by spaces.
pub open spec fn spec_quoted_versions(vs: Seq<Seq<char>>) -> Seq<char>
    decreases vs.len(),
{
    if vs.len() == 0 {
        Seq::empty()
    } else if vs.len() == 1 {
        "\""@ + vs[0] + "\""@
    } else {
        spec_quoted_versions(vs.drop_last()) + " "@ + "\""@ + vs.last() + "\""@
    }
}

pub fn quoted_versions(versions: &Vec<String>) -> (r: String)
    ensures
        r@ == spec_quoted_versions(versions@.map_values(|s: String| s@)),
{
    let ghost vs = versions@.map_values(|s: String| s@);
    let mut out = text("");
    let mut i: usize = 0;
    proof {
        reveal_strlit("");
        assert(out@ =~= spec_quoted_versions(vs.subrange(0, 0)));
    }
    while i < versions.len()
        invariant
            i <= versions.len(),
            vs == versions@.map_values(|s: String| s@),
            out@ == spec_quoted_versions(vs.subrange(0, i as int)),
        decreases versions.len() - i,
    {
        if i > 0 {
            out.append(" ");
        }
        out.append("\"");
        out.append(versions[i].as_str());
        out.append("\"");
        proof {
            let sub = vs.subrange(0, i + 1);
            assert(sub.drop_last() =~= vs.subrange(0, i as int));
            assert(sub.last() == versions@[i as int]@);
            if i == 0 {
                assert(out@ =~= spec_quoted_versions(sub));
            }
        }
        i = i + 1;
    }
    assert(vs.subrange(0, versions.len() as int) =~= vs);
    out
}

/// Whether a failed `pip install` only reports a missing Python interpreter.
pub open spec fn spec_contains(s: Seq<char>, p: Seq<char>) -> bool {
    exists|i: int| 0 <= i && i + p.len() <= s.len() && #[trigger] s.subrange(i, i + p.len()) == p
}

pub fn contains_text(s: &str, p: &str) -> (r: bool)
    ensures
        r == spec_contains(s@, p@),
{
    let n = s.unicode_len();
    let m = p.unicode_len();
    if m > n {
        proof {
            assert forall|i: int| 0 <= i && i + m <= n implies #[trigger] s@.subrange(i, i + m)
                != p@ by {}
        }
        return false;
    }
    let mut i: usize = 0;
    while i <= n - m
        invariant
            n == s@.len(),
            m == p@.len(),
            m <= n,
            i <= n - m + 1,
            forall|k: int| 0 <= k < i ==> #[trigger] s@.subrange(k, k + m) != p@,
        decreases n - i,
    {
        let mut j: usize = 0;
        let mut same = true;
        while j < m
            invariant
                i + m <= n,
                n == s@.len(),
                m == p@.len(),
                j <= m,
                same <==> forall|t: int| 0 <= t < j ==> s@[i + t] == p@[t],
            decreases m - j,
        {
            if s.get_char(i + j) != p.get_char(j) {
                same = false;
            }
            j = j + 1;
        }
        if same {
            assert(s@.subrange(i as int, i + m) =~= p@);
            return true;
        } else {
            proof {
                let t = choose|t: int| 0 <= t < m && s@[i + t] != p@[t];
                assert(s@.subrange(i as int, i + m)[t] != p@[t]);
            }
        }
        i = i + 1;
    }
    proof {
        assert forall|k: int| 0 <= k && k + m <= n implies #[trigger] s@.subrange(k, k + m) != p@ by {
            assert(k < i);
        }
    }
    false
}

/// Whether a failed `uv pip install` reports only that the Python version is
/// not there, so that version is skipped.
pub fn is_missing_interpreter(stderr: &str) -> (r: bool)
    ensures
        r == (spec_contains(stderr@, "No interpreter found"@) || spec_contains(
            stderr@,
            "not found"@,
        ) || spec_contains(stderr@, "Cannot find"@)),
{
    contains_text(stderr, "No interpreter found") || contains_text(stderr, "not found")
        || contains_text(stderr, "Cannot find")
}

/// What one `uv pip install` of the SDK for a Python version came to.
#[derive(Debug, Clone, PartialEq, Eq)]
pub enum PipOutcome {
    /// The SDK is installed for that version.
    Installed,
    /// That Python is not on the machine: the version is passed over.
    Skipped,
    /// Any other failure ends the installation; holds what the command
    /// printed on its error stream.
    Failed(String),
}

/// The outcome of installing the SDK for one Python version, from whether
/// the command succeeded and what it printed on its error stream.
pub fn pip_outcome(success: bool, stderr: &str) -> (r: PipOutcome)
    ensures
        success ==> r == PipOutcome::Installed,
        !success && (spec_contains(stderr@, "No interpreter found"@) || spec_contains(
            stderr@,
            "not found"@,
        ) || spec_contains(stderr@, "Cannot find"@)) ==> r == PipOutcome::Skipped,
        !success && !(spec_contains(stderr@, "No interpreter found"@) || spec_contains(
            stderr@,
            "not found"@,
        ) || spec_contains(stderr@, "Cannot find"@)) ==> (r matches PipOutcome::Failed(e)
            && e@ == stderr@),
{
    if success {
        PipOutcome::Installed
    } else if is_missing_interpreter(stderr) {
        PipOutcome::Skipped
    } else {
        PipOutcome::Failed(stderr.to_string())
    }
}

/// A character as `{:?}` writes it inside a quoted string, for the quote,
/// the backslash and the usual control characters.
pub open spec fn spec_escape_char(c: char) -> Seq<char> {
    if c == '"' {
        "\\\""@
    } else if c == '\\' {
        "\\\\"@
    } else if c == '\n' {
        "\\n"@
    } else if c == '\r' {
        "\\r"@
    } else if c == '\t' {
        "\\t"@
    } else {
        seq![c]
    }
}

/// `s` with each character escaped as above.
pub open spec fn spec_escape(s: Seq<char>) -> Seq<char>
    decreases s.len(),
{
    if s.len() == 0 {
        Seq::empty()
    } else {
        spec_escape(s.drop_last()) + spec_escape_char(s.last())
    }
}

/// The items of a list of strings as `{:?}` writes them: each quoted and
/// escaped, separated by a comma and a space.
pub open spec fn spec_debug_items(vs: Seq<Seq<char>>) -> Seq<char>
    decreases vs.len(),
{
    if vs.len() == 0 {
        Seq::empty()
    } else if vs.len() == 1 {
        "\""@ + spec_escape(vs[0]) + "\""@
    } else {
        spec_debug_items(vs.drop_last()) + ", "@ + "\""@ + spec_escape(vs.last()) + "\""@
    }
}

/// A list of strings in square brackets, as `{:?}` writes it.
pub open spec fn spec_debug_list(vs: Seq<Seq<char>>) -> Seq<char> {
    "["@ + spec_debug_items(vs) + "]"@
}

/// `s` escaped as `{:?}` escapes it inside quotes.
fn escape_text(s: &str) -> (r: String)
    ensures
        r@ == spec_escape(s@),
{
    proof {
        reveal_strlit("");
    }
    let n = s.unicode_len();
    let mut out = text("");
    let mut i: usize = 0;
    assert(s@.subrange(0, 0) =~= Seq::<char>::empty());
    while i < n
        invariant
            n == s@.len(),
            i <= n,
            out@ == spec_escape(s@.subrange(0, i as int)),
        decreases n - i,
    {
        let c = s.get_char(i);
        if c == '"' {
            out.append("\\\"");
        } else if c == '\\' {
            out.append("\\\\");
        } else if c == '\n' {
            out.append("\\n");
        } else if c == '\r' {
            out.append("\\r");
        } else if c == '\t' {
            out.append("\\t");
        } else {
            let one = s.substring_char(i, i + 1);
            assert(one@ =~= seq![c]);
            out.append(one);
        }
        proof {
            let sub = s@.subrange(0, i + 1);
            assert(sub.drop_last() =~= s@.subrange(0, i as int));
            assert(sub.last() == c);
            assert(out@ =~= spec_escape(sub));
        }
        i = i + 1;
    }
    assert(s@.subrange(0, n as int) =~= s@);
    out
}

/// A list of strings rendered as `{:?}` renders it.
pub fn debug_list(vs: &Vec<String>) -> (r: String)
    ensures
        r@ == spec_debug_list(vs@.map_values(|s: String| s@)),
{
    let ghost ws = vs@.map_values(|s: String| s@);
    proof {
        reveal_strlit("");
        reveal_strlit("[");
        reveal_strlit("]");
        reveal_strlit(", ");
        reveal_strlit("\"");
    }
    let mut items = text("");
    let mut i: usize = 0;
    assert(ws.subrange(0, 0) =~= Seq::<Seq<char>>::empty());
    while i < vs.len()
        invariant
            i <= vs.len(),
            ws == vs@.map_values(|s: String| s@),
            items@ == spec_debug_items(ws.subrange(0, i as int)),
        decreases vs.len() - i,
    {
        if i > 0 {
            items.append(", ");
        }
        items.append("\"");
        let e = escape_text(vs[i].as_str());
        items.append(e.as_str());
        items.append("\"");
        proof {
            let sub = ws.subrange(0, i + 1);
            assert(sub.drop_last() =~= ws.subrange(0, i as int));
            assert(sub.last() == vs@[i as int]@);
            if i == 0 {
                assert(sub.len() == 1 && sub[0] == vs@[0]@);
            }
        }
        i = i + 1;
    }
    assert(ws.subrange(0, vs.len() as int) =~= ws);
    let mut r = text("[");
    r.append(items.as_str());
    r.append("]");
    r
}

/// How installing the Python SDK begins.
#[derive(Debug, Clone, Copy, PartialEq, Eq, Structural)]
pub enum SdkStart {
    /// No selected profile installs `flamepy`: nothing is installed.
    SkipNotSelected,
    /// The libraries are already there and overwriting was declined: nothing
    /// is installed.
    SkipExisting,
    /// Build the wheel, then install it for each Python version.
    Build,
}

/// The message for an SDK source directory that is missing: the path as
/// `{:?}` writes it.
pub open spec fn sdk_source_missing_message(src: Seq<char>) -> Seq<char> {
    "Python SDK source not found at: "@ + "\""@ + spec_escape(src) + "\""@
}

/// The message for a `uv` that is not where the installation put it.
pub open spec fn uv_missing_message(uv: Seq<char>) -> Seq<char> {
    "uv not found at "@ + uv + ". Install uv first."@
}

/// The checks before the Python SDK is built, in the order they are made:
/// skipped when no selected profile installs `flamepy`; an error when the
/// SDK sources are missing; skipped when libraries are already installed and
/// overwriting is neither forced nor confirmed; an error when `uv` is
/// missing; otherwise the wheel is built.
pub fn sdk_install_start(
    components: &Vec<String>,
    sdk_src: &str,
    sdk_src_exists: bool,
    libs_present: bool,
    force_overwrite: bool,
    confirmed: bool,
    uv_path: &str,
    uv_exists: bool,
) -> (r: Result<SdkStart, FlameError>)
    ensures
        !components@.map_values(|s: String| s@).contains("flamepy"@) ==> r == Ok::<
            SdkStart,
            FlameError,
        >(SdkStart::SkipNotSelected),
        components@.map_values(|s: String| s@).contains("flamepy"@) ==> {
            if !sdk_src_exists {
                r matches Err(FlameError::Internal(m)) && m@ == sdk_source_missing_message(sdk_src@)
            } else if libs_present && !force_overwrite && !confirmed {
                r == Ok::<SdkStart, FlameError>(SdkStart::SkipExisting)
            } else if !uv_exists {
                r matches Err(FlameError::Internal(m)) && m@ == uv_missing_message(uv_path@)
            } else {
                r == Ok::<SdkStart, FlameError>(SdkStart::Build)
            }
        },
{
    proof {
        reveal_strlit("\"");
    }
    if !contains_string(components, "flamepy") {
        return Ok(SdkStart::SkipNotSelected);
    }
    if !sdk_src_exists {
        let mut m = text("Python SDK source not found at: ");
        m.append("\"");
        let e = escape_text(sdk_src);
        m.append(e.as_str());
        m.append("\"");
        return Err(FlameError::Internal(m));
    }
    if libs_present && !force_overwrite && !confirmed {
        return Ok(SdkStart::SkipExisting);
    }
    if !uv_exists {
        let m = framed("uv not found at ", uv_path, ". Install uv first.");
        return Err(FlameError::Internal(m));
    }
    Ok(SdkStart::Build)
}

/// The message for a wheel build that failed, with what it printed on its
/// error stream.
pub open spec fn wheel_failed_message(stderr: Seq<char>) -> Seq<char> {
    "Failed to build wheel: "@ + stderr
}

/// Whether building the SDK wheel went through: an error with its error
/// output when the command failed.
pub fn wheel_build_result(success: bool, stderr: &str) -> (r: Result<(), FlameError>)
    ensures
        success <==> r is Ok,
        !success ==> (r matches Err(FlameError::Internal(m)) && m@ == wheel_failed_message(
            stderr@,
        )),
{
    if success {
        Ok(())
    } else {
        let mut m = text("Failed to build wheel: ");
        m.append(stderr);
        Err(FlameError::Internal(m))
    }
}

/// The versions installed among the first `n` outcomes, or the message of
/// the first failure among them.
pub open spec fn sdk_scan(vs: Seq<Seq<char>>, outs: Seq<PipOutcome>, n: int) -> Result<
    Seq<Seq<char>>,
    Seq<char>,
>
    decreases n,
{
    if n <= 0 {
        Ok(Seq::empty())
    } else {
        match sdk_scan(vs, outs, n - 1) {
            Err(m) => Err(m),
            Ok(l) => match outs[n - 1] {
                PipOutcome::Installed => Ok(l.push(vs[n - 1])),
                PipOutcome::Skipped => Ok(l),
                PipOutcome::Failed(e) => Err(
                    "Failed to install flamepy for Python "@ + vs[n - 1] + ": "@ + e@,
                ),
            },
        }
    }
}

/// Once a failure is met, the scan's answer stays that failure.
proof fn lemma_sdk_scan_stops(vs: Seq<Seq<char>>, outs: Seq<PipOutcome>, k: int, n: int)
    requires
        0 <= k <= n,
        sdk_scan(vs, outs, k) is Err,
    ensures
        sdk_scan(vs, outs, n) == sdk_scan(vs, outs, k),
    decreases n - k,
{
    if n > k {
        lemma_sdk_scan_stops(vs, outs, k, n - 1);
    }
}

/// What installing the SDK for each version came to: the first failure ends
/// it with its message; else the versions that were installed, in order, and
/// an error when there is none.
pub open spec fn spec_sdk_install_result(vs: Seq<Seq<char>>, outs: Seq<PipOutcome>) -> Result<
    Seq<Seq<char>>,
    Seq<char>,
> {
    match sdk_scan(vs, outs, vs.len() as int) {
        Err(m) => Err(m),
        Ok(l) => if l.len() == 0 {
            Err(
                "Failed to install flamepy: no Python interpreters found for versions "@
                    + spec_debug_list(vs),
            )
        } else {
            Ok(l)
        },
    }
}

proof fn lemma_sdk_scan_prefix(vs: Seq<Seq<char>>, outs: Seq<PipOutcome>, n: int)
    requires
        0 <= n <= vs.len(),
        vs.len() == outs.len(),
        forall|i: int| 0 <= i < n ==> !(#[trigger] outs[i] is Failed),
    ensures
        sdk_scan(vs, outs, n) is Ok,
        (forall|i: int| 0 <= i < n ==> #[trigger] outs[i] == PipOutcome::Installed) ==> sdk_scan(
            vs,
            outs,
            n,
        ) == Ok::<Seq<Seq<char>>, Seq<char>>(vs.subrange(0, n)),
        (forall|i: int| 0 <= i < n ==> #[trigger] outs[i] == PipOutcome::Skipped) ==> sdk_scan(
            vs,
            outs,
            n,
        ) == Ok::<Seq<Seq<char>>, Seq<char>>(Seq::empty()),
    decreases n,
{
    if n > 0 {
        lemma_sdk_scan_prefix(vs, outs, n - 1);
        assert(!(outs[n - 1] is Failed));
        if forall|i: int| 0 <= i < n ==> #[trigger] outs[i] == PipOutcome::Installed {
            assert(outs[n - 1] == PipOutcome::Installed);
            assert(forall|i: int| 0 <= i < n - 1 ==> #[trigger] outs[i] == PipOutcome::Installed);
            assert(vs.subrange(0, n - 1).push(vs[n - 1]) =~= vs.subrange(0, n));
        }
        if forall|i: int| 0 <= i < n ==> #[trigger] outs[i] == PipOutcome::Skipped {
            assert(outs[n - 1] == PipOutcome::Skipped);
            assert(forall|i: int| 0 <= i < n - 1 ==> #[trigger] outs[i] == PipOutcome::Skipped);
        }
    } else {
        assert(vs.subrange(0, 0) =~= Seq::<Seq<char>>::empty());
    }
}

/// Installing the SDK for each Python version ends as follows: the first
/// failure is the error, naming its version and what the command printed;
/// when every version was installed, all of them, in order; when every
/// version was skipped for want of its Python, the error that none was
/// found.
pub proof fn law_sdk_install_outcomes(vs: Seq<Seq<char>>, outs: Seq<PipOutcome>)
    requires
        vs.len() == outs.len(),
    ensures
        forall|k: int|
            0 <= k < outs.len() && #[trigger] outs[k] is Failed && (forall|i: int|
                0 <= i < k ==> !(#[trigger] outs[i] is Failed)) ==> spec_sdk_install_result(vs, outs)
                == Err::<Seq<Seq<char>>, Seq<char>>(
                "Failed to install flamepy for Python "@ + vs[k] + ": "@ + outs[k]->Failed_0@,
            ),
        vs.len() > 0 && (forall|i: int| 0 <= i < outs.len() ==> #[trigger] outs[i]
            == PipOutcome::Installed) ==> spec_sdk_install_result(vs, outs) == Ok::<
            Seq<Seq<char>>,
            Seq<char>,
        >(vs),
        (forall|i: int| 0 <= i < outs.len() ==> #[trigger] outs[i] == PipOutcome::Skipped)
            ==> spec_sdk_install_result(vs, outs) == Err::<Seq<Seq<char>>, Seq<char>>(
            "Failed to install flamepy: no Python interpreters found for versions "@
                + spec_debug_list(vs),
        ),
{
    assert forall|k: int|
        0 <= k < outs.len() && #[trigger] outs[k] is Failed && (forall|i: int|
            0 <= i < k ==> !(#[trigger] outs[i] is Failed)) implies spec_sdk_install_result(vs, outs)
        == Err::<Seq<Seq<char>>, Seq<char>>(
        "Failed to install flamepy for Python "@ + vs[k] + ": "@ + outs[k]->Failed_0@,
    ) by {
        lemma_sdk_scan_prefix(vs, outs, k);
        assert(sdk_scan(vs, outs, k + 1) == Err::<Seq<Seq<char>>, Seq<char>>(
            "Failed to install flamepy for Python "@ + vs[k] + ": "@ + outs[k]->Failed_0@,
        ));
        lemma_sdk_scan_stops(vs, outs, k + 1, vs.len() as int);
    }
    if forall|i: int| 0 <= i < outs.len() ==> #[trigger] outs[i] == PipOutcome::Installed {
        lemma_sdk_scan_prefix(vs, outs, vs.len() as int);
        assert(vs.subrange(0, vs.len() as int) =~= vs);
    }
    if forall|i: int| 0 <= i < outs.len() ==> #[trigger] outs[i] == PipOutcome::Skipped {
        lemma_sdk_scan_prefix(vs, outs, vs.len() as int);
    }
}

/// The Python versions the SDK went to, from the outcome of installing it
/// for each of `versions` in turn: the first failure is the error, with its
/// version and error output; a version whose Python is missing is passed
/// over; and when no version was installed, that is an error too.
pub fn sdk_install_result(versions: &Vec<String>, outcomes: &Vec<PipOutcome>) -> (r: Result<
    Vec<String>,
    FlameError,
>)
    requires
        versions.len() == outcomes.len(),
    ensures
        match spec_sdk_install_result(versions@.map_values(|s: String| s@), outcomes@) {
            Ok(l) => r matches Ok(v) && v@.map_values(|s: String| s@) == l,
            Err(m) => r matches Err(FlameError::Internal(e)) && e@ == m,
        },
        forall|k: int|
            0 <= k < outcomes@.len() && #[trigger] outcomes@[k] is Failed && (forall|i: int|
                0 <= i < k ==> !(#[trigger] outcomes@[i] is Failed)) ==> (r matches Err(
                FlameError::Internal(e),
            ) && e@ == "Failed to install flamepy for Python "@ + versions@[k]@ + ": "@
                + outcomes@[k]->Failed_0@),
        versions.len() > 0 && (forall|i: int| 0 <= i < outcomes@.len() ==> #[trigger] outcomes@[i]
            == PipOutcome::Installed) ==> (r matches Ok(v) && v@.map_values(|s: String| s@)
            == versions@.map_values(|s: String| s@)),
{
    proof {
        let vs = versions@.map_values(|s: String| s@);
        law_sdk_install_outcomes(vs, outcomes@);
        assert forall|k: int|
            0 <= k < outcomes@.len() && #[trigger] outcomes@[k] is Failed && (forall|i: int|
                0 <= i < k ==> !(#[trigger] outcomes@[i] is Failed)) implies spec_sdk_install_result(
            vs,
            outcomes@,
        ) == Err::<Seq<Seq<char>>, Seq<char>>(
            "Failed to install flamepy for Python "@ + versions@[k]@ + ": "@
                + outcomes@[k]->Failed_0@,
        ) by {
            assert(vs[k] == versions@[k]@);
        }
    }
    let ghost vs = versions@.map_values(|s: String| s@);
    let mut installed: Vec<String> = Vec::new();
    let mut i: usize = 0;
    assert(installed@.map_values(|s: String| s@) =~= Seq::<Seq<char>>::empty());
    while i < versions.len()
        invariant
            i <= versions.len(),
            versions.len() == outcomes.len(),
            vs == versions@.map_values(|s: String| s@),
            sdk_scan(vs, outcomes@, i as int) == Ok::<Seq<Seq<char>>, Seq<char>>(
                installed@.map_values(|s: String| s@),
            ),
            forall|k: int|
                0 <= k < outcomes@.len() && #[trigger] outcomes@[k] is Failed && (forall|j: int|
                    0 <= j < k ==> !(#[trigger] outcomes@[j] is Failed)) ==> spec_sdk_install_result(
                    vs,
                    outcomes@,
                ) == Err::<Seq<Seq<char>>, Seq<char>>(
                    "Failed to install flamepy for Python "@ + versions@[k]@ + ": "@
                        + outcomes@[k]->Failed_0@,
                ),
        decreases versions.len() - i,
    {
        match &outcomes[i] {
            PipOutcome::Installed => {
                installed.push(versions[i].clone());
                assert(installed@.map_values(|s: String| s@) =~= sdk_scan(
                    vs,
                    outcomes@,
                    i as int,
                )->Ok_0.push(vs[i as int]));
            },
            PipOutcome::Skipped => {},
            PipOutcome::Failed(e) => {
                let mut m = framed("Failed to install flamepy for Python ", versions[i].as_str(), ": ");
                m.append(e.as_str());
                proof {
                    lemma_sdk_scan_stops(vs, outcomes@, i + 1, versions.len() as int);
                }
                return Err(FlameError::Internal(m));
            },
        }
        i = i + 1;
    }
    if installed.len() == 0 {
        let mut m = text("Failed to install flamepy: no Python interpreters found for versions ");
        let l = debug_list(versions);
        m.append(l.as_str());
        return Err(FlameError::Internal(m));
    }
    Ok(installed)
}

/// `c` is the lower-case ASCII letter `l` in either case.
pub open spec fn lower_is(c: char, l: char) -> bool {
    c == l || c as u32 == l as u32 - 32
}

/// The answer to an overwrite prompt is yes: `y` or `yes` in any case, with
/// white space around it.
pub open spec fn spec_is_yes(s: Seq<char>) -> bool {
    let t = spec_trim(s);
    (t.len() == 1 && lower_is(t[0], 'y')) || (t.len() == 3 && lower_is(t[0], 'y') && lower_is(
        t[1],
        'e',
    ) && lower_is(t[2], 's'))
}

/// Whether a prompt answer means yes.
pub fn is_yes(input: &str) -> (r: bool)
    ensures
        r == spec_is_yes(input@),
{
    let (a, b) = trim_bounds(input);
    let ghost t = input@.subrange(a as int, b as int);
    let len = b - a;
    if len == 1 {
        let c = input.get_char(a);
        assert(c == t[0]);
        c == 'y' || c == 'Y'
    } else if len == 3 {
        let c0 = input.get_char(a);
        let c1 = input.get_char(a + 1);
        let c2 = input.get_char(a + 2);
        assert(c0 == t[0] && c1 == t[1] && c2 == t[2]);
        (c0 == 'y' || c0 == 'Y') && (c1 == 'e' || c1 == 'E') && (c2 == 's' || c2 == 'S')
    } else {
        false
    }
}

/// A step of an installation.
#[derive(Debug, Clone, Copy, PartialEq, Eq, Structural)]
pub enum InstallStep {
    CreateDirectories,
    InstallBinaries,
    InstallUv,
    InstallPythonSdk,
    InstallMigrations,
    GenerateConfig,
}

/// The steps of an installation, in order. Each is carried out for every
/// installation and has something to do or not depending on the profiles
/// (`spec_step_needed`).
pub open spec fn spec_install_steps() -> Seq<InstallStep> {
    seq![
        InstallStep::CreateDirectories,
        InstallStep::InstallBinaries,
        InstallStep::InstallUv,
        InstallStep::InstallPythonSdk,
        InstallStep::InstallMigrations,
        InstallStep::GenerateConfig,
    ]
}

/// Whether a step has something to do for the profiles `ps`: `uv` for the
/// worker and client; the Python SDK when a profile installs `flamepy`; the
/// database migrations for the control plane; the other steps always.
pub open spec fn spec_step_needed(step: InstallStep, ps: Seq<InstallProfile>) -> bool {
    match step {
        InstallStep::InstallUv => ps.contains(InstallProfile::Worker) || ps.contains(
            InstallProfile::Client,
        ),
        InstallStep::InstallPythonSdk => installs_sdk(ps),
        InstallStep::InstallMigrations => ps.contains(InstallProfile::ControlPlane),
        _ => true,
    }
}

/// The steps of an installation, in order: directories, binaries, `uv`, the
/// Python SDK, the database migrations, then the configuration.
pub fn install_components() -> (r: Vec<InstallStep>)
    ensures
        r@ == spec_install_steps(),
{
    let r = vec![
        InstallStep::CreateDirectories,
        InstallStep::InstallBinaries,
        InstallStep::InstallUv,
        InstallStep::InstallPythonSdk,
        InstallStep::InstallMigrations,
        InstallStep::GenerateConfig,
    ];
    assert(r@ =~= spec_install_steps());
    r
}

/// Whether `step` has something to do for `profiles`; a step that has not
/// reports itself skipped.
pub fn step_needed(step: InstallStep, profiles: &Vec<InstallProfile>) -> (r: bool)
    ensures
        r == spec_step_needed(step, profiles@),
{
    match step {
        InstallStep::InstallUv => needs_uv(profiles),
        InstallStep::InstallPythonSdk => summary_plan(profiles, false, false).show_sdk,
        InstallStep::InstallMigrations => needs_migrations(profiles),
        _ => true,
    }
}

/// The message when `uv` is needed and cannot be found on the machine.
pub open spec fn uv_not_found_message() -> Seq<char> {
    "uv not found in system. Please install uv first:\n1. curl -LsSf https://astral.sh/uv/install.sh | sh\n2. Or install via your package manager"@
}

/// Where `uv` is copied from: nothing to copy when no profile needs it;
/// an error when one does and none was `found` on the machine.
pub fn uv_install_source(profiles: &Vec<InstallProfile>, found: Option<String>) -> (r: Result<
    Option<String>,
    FlameError,
>)
    ensures
        !spec_step_needed(InstallStep::InstallUv, profiles@) ==> r matches Ok(None),
        spec_step_needed(InstallStep::InstallUv, profiles@) ==> match found {
            Some(p) => r matches Ok(Some(q)) && q@ == p@,
            None => r matches Err(FlameError::Internal(m)) && m@ == uv_not_found_message(),
        },
{
    if !needs_uv(profiles) {
        return Ok(None);
    }
    match found {
        Some(p) => Ok(Some(p)),
        None => {
            proof {
                reveal_strlit("uv not found in system. Please install uv first:\n1. curl -LsSf https://astral.sh/uv/install.sh | sh\n2. Or install via your package manager");
            }
            Err(FlameError::Internal(text("uv not found in system. Please install uv first:\n1. curl -LsSf https://astral.sh/uv/install.sh | sh\n2. Or install via your package manager")))
        },
    }
}

/// The message for a migrations source directory that is missing: the path
/// as `{:?}` writes it.
pub open spec fn migrations_missing_message(src: Seq<char>) -> Seq<char> {
    "Migrations source not found at: "@ + "\""@ + spec_escape(src) + "\""@
}

/// Whether the database migrations are copied: not when the control plane
/// is not installed; an error when it is and the migrations source is
/// missing.
pub fn migrations_start(profiles: &Vec<InstallProfile>, src: &str, src_exists: bool) -> (r: Result<
    bool,
    FlameError,
>)
    ensures
        !spec_step_needed(InstallStep::InstallMigrations, profiles@) ==> r matches Ok(false),
        spec_step_needed(InstallStep::InstallMigrations, profiles@) && !src_exists ==> (r matches Err(
            FlameError::Internal(m),
        ) && m@ == migrations_missing_message(src@)),
        spec_step_needed(InstallStep::InstallMigrations, profiles@) && src_exists ==> r matches Ok(
            true,
        ),
{
    proof {
        reveal_strlit("\"");
    }
    if !needs_migrations(profiles) {
        return Ok(false);
    }
    if !src_exists {
        let mut m = text("Migrations source not found at: ");
        m.append("\"");
        let e = escape_text(src);
        m.append(e.as_str());
        m.append("\"");
        return Err(FlameError::Internal(m));
    }
    Ok(true)
}

/// What an installation run asks for next.
#[derive(Debug)]
pub enum RunAction {
    /// Carry out this step and report how it went.
    Perform(InstallStep),
    /// The run is over, with this result.
    Finished(Result<(), FlameError>),
}

/// An installation in progress: its steps are carried out one at a time, in
/// order, and the first that fails ends the run with its error.
pub struct InstallRun {
    steps: Vec<InstallStep>,
    performed: usize,
    finished: bool,
    reported: Ghost<Seq<Result<(), FlameError>>>,
}

impl InstallRun {
    /// The steps of the run, in order.
    pub closed spec fn steps(&self) -> Seq<InstallStep> {
        self.steps@
    }

    /// How many steps were handed out to be carried out.
    pub closed spec fn performed(&self) -> nat {
        self.performed as nat
    }

    /// Whether the run is over.
    pub closed spec fn is_finished(&self) -> bool {
        self.finished
    }

    /// The results reported so far, one per step carried out.
    pub closed spec fn reported(&self) -> Seq<Result<(), FlameError>> {
        self.reported@
    }

    /// Steps are handed out no further than the last; while the run goes on,
    /// each step handed out before the current one has reported success.
    pub closed spec fn wf(&self) -> bool {
        &&& 1 <= self.steps@.len()
        &&& self.performed <= self.steps@.len()
        &&& !self.finished ==> self.reported@.len() + 1 == self.performed || (self.performed
            == 0 && self.reported@.len() == 0)
        &&& !self.finished ==> forall|i: int|
            0 <= i < self.reported@.len() ==> #[trigger] self.reported@[i] is Ok
    }

    /// A run of the installation steps that has not begun.
    pub fn new() -> (r: Self)
        ensures
            r.wf(),
            r.steps() == spec_install_steps(),
            r.performed() == 0,
            r.reported() == Seq::<Result<(), FlameError>>::empty(),
            !r.is_finished(),
    {
        InstallRun {
            steps: install_components(),
            performed: 0,
            finished: false,
            reported: Ghost(Seq::empty()),
        }
    }

    /// Begins the run: its first step is to be carried out.
    pub fn start(&mut self) -> (a: RunAction)
        requires
            old(self).wf(),
            old(self).performed() == 0,
            !old(self).is_finished(),
        ensures
            final(self).wf(),
            final(self).steps() == old(self).steps(),
            final(self).reported() == old(self).reported(),
            a == RunAction::Perform(old(self).steps()[0]),
            final(self).performed() == 1,
            !final(self).is_finished(),
    {
        self.performed = 1;
        RunAction::Perform(self.steps[0])
    }

    /// Takes the result of the step carried out last: a failure ends the run
    /// with that error; a success hands out the next step, or ends the run
    /// with success after the last one.
    pub fn on_result(&mut self, result: Result<(), FlameError>) -> (a: RunAction)
        requires
            old(self).wf(),
            old(self).performed() >= 1,
            !old(self).is_finished(),
        ensures
            final(self).wf(),
            final(self).steps() == old(self).steps(),
            final(self).reported() == old(self).reported().push(result),
            result is Err ==> a == RunAction::Finished(result) && final(self).is_finished()
                && final(self).performed() == old(self).performed(),
            result is Ok && old(self).performed() < old(self).steps().len() ==> a
                == RunAction::Perform(old(self).steps()[old(self).performed() as int])
                && final(self).performed() == old(self).performed() + 1 && !final(self).is_finished(),
            result is Ok && old(self).performed() == old(self).steps().len() ==> a
                == RunAction::Finished(Ok(())) && final(self).is_finished() && final(self).performed() == old(self).performed(),
            a == RunAction::Finished(Ok(())) ==> final(self).reported().len() == final(self).steps().len() && forall|i: int|
                0 <= i < final(self).reported().len() ==> #[trigger] final(self).reported()[i] is Ok,
    {
        let ghost before = self.reported@;
        self.reported = Ghost(self.reported@.push(result));
        match result {
            Err(e) => {
                self.finished = true;
                RunAction::Finished(Err(e))
            },
            Ok(()) => {
                if self.performed < self.steps.len() {
                    let step = self.steps[self.performed];
                    self.performed = self.performed + 1;
                    proof {
                        assert forall|i: int| 0 <= i < self.reported@.len() implies #[trigger] self.reported@[i] is Ok by {
                            if i < before.len() {
                                assert(self.reported@[i] == before[i]);
                            }
                        }
                    }
                    RunAction::Perform(step)
                } else {
                    self.finished = true;
                    proof {
                        assert forall|i: int| 0 <= i < self.reported@.len() implies #[trigger] self.reported@[i] is Ok by {
                            if i < before.len() {
                                assert(self.reported@[i] == before[i]);
                            }
                        }
                    }
                    RunAction::Finished(Ok(()))
                }
            },
        }
    }
}

/// Where `uv` is first looked for: the path `which uv` printed, trimmed,
/// when it printed one.
pub fn uv_from_which(stdout: &str) -> (r: Option<String>)
    ensures
        spec_trim(stdout@).len() > 0 ==> (r matches Some(p) && p@ == spec_trim(stdout@)),
        spec_trim(stdout@).len() == 0 ==> r is None,
{
    let t = trim(stdout);
    if t.unicode_len() > 0 {
        Some(t)
    } else {
        None
    }
}

/// The places `uv` is looked for next, in order: the usual system
/// locations, then `.local/bin/uv` under the home directory when it is known.
pub fn uv_fallbacks(home: &Option<String>) -> (r: Vec<String>)
    ensures
        r@.map_values(|s: String| s@) == seq!["/usr/bin/uv"@, "/usr/local/bin/uv"@, "/opt/homebrew/bin/uv"@]
            + match home {
            Some(h) => seq![crate::shims::spec_join(h@, ".local/bin/uv"@)],
            None => Seq::empty(),
        },
{
    proof {
        reveal_strlit("/usr/bin/uv");
        reveal_strlit("/usr/local/bin/uv");
        reveal_strlit("/opt/homebrew/bin/uv");
        reveal_strlit(".local/bin/uv");
    }
    let mut r: Vec<String> = Vec::new();
    r.push(text("/usr/bin/uv"));
    r.push(text("/usr/local/bin/uv"));
    r.push(text("/opt/homebrew/bin/uv"));
    match home {
        Some(h) => r.push(crate::shims::join_path(h.as_str(), ".local/bin/uv")),
        None => {},
    }
    assert(r@.map_values(|s: String| s@) =~= seq!["/usr/bin/uv"@, "/usr/local/bin/uv"@, "/opt/homebrew/bin/uv"@]
        + match home {
        Some(h) => seq![crate::shims::spec_join(h@, ".local/bin/uv"@)],
        None => Seq::empty(),
    });
    r
}

/// The user id of the running process, from `users::get_current_uid`. It
/// depends on the process, so nothing is claimed of it.
#[verifier::external_body]
fn current_uid() -> (r: u32) {
    users::get_current_uid()
}

/// Whether a user id is root's.
pub fn uid_is_root(uid: u32) -> (r: bool)
    ensures
        r == (uid == 0),
{
    uid == 0
}

/// Checks for root.
pub struct UserManager;

impl UserManager {
    pub fn new() -> (r: Self) {
        UserManager
    }

    /// Whether the process runs as root: the current user id is 0.
    pub fn is_root(&self) -> (r: bool) {
        uid_is_root(current_uid())
    }
}

} // verus!
