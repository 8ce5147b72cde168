use vstd::prelude::*;

use crate::deps::{is_uuid_v4_text, is_ascii_alphanumeric, new_uuid, now_timestamp, random_alphanumeric};
use crate::error::{text, FlameError};
use crate::strs::str_eq;

verus! {

/// What a pod is started for: an application, its image and command line,
/// environment and working directory.
pub struct ApplicationContext {
    pub name: String,
    pub image: Option<String>,
    pub command: Option<String>,
    pub arguments: Vec<String>,
    /// The environment, each name once (`distinct_names`); a pod's
    /// container keeps it so.
    pub environments: Vec<(String, String)>,
    pub working_directory: Option<String>,
}

/// A container of a pod.
pub struct Container {
    pub name: String,
    pub image: String,
    pub command: Option<String>,
    pub args: Vec<String>,
    /// The environment, each name once (`distinct_names`).
    pub envs: Vec<(String, String)>,
    pub working_directory: String,
}

/// The texts of a container, as contracts speak of them.
pub struct ContainerModel {
    pub name: Seq<char>,
    pub image: Seq<char>,
    pub command: Option<Seq<char>>,
    pub args: Seq<Seq<char>>,
    pub envs: Seq<(Seq<char>, Seq<char>)>,
    pub working_directory: Seq<char>,
}

pub open spec fn opt_text(s: Option<String>) -> Option<Seq<char>> {
    match s {
        Some(s) => Some(s@),
        None => None,
    }
}

pub open spec fn texts(v: Seq<String>) -> Seq<Seq<char>> {
    v.map_values(|s: String| s@)
}

pub open spec fn pairs(v: Seq<(String, String)>) -> Seq<(Seq<char>, Seq<char>)> {
    v.map_values(|p: (String, String)| (p.0@, p.1@))
}

/// Each variable of an environment is named once, as in a map from names to
/// values.
pub open spec fn distinct_names(envs: Seq<(Seq<char>, Seq<char>)>) -> bool {
    forall|i: int, j: int|
        0 <= i < j < envs.len() ==> #[trigger] envs[i].0 != #[trigger] envs[j].0
}

impl View for Container {
    type V = ContainerModel;

    open spec fn view(&self) -> ContainerModel {
        ContainerModel {
            name: self.name@,
            image: self.image@,
            command: opt_text(self.command),
            args: texts(self.args@),
            envs: pairs(self.envs@),
            working_directory: self.working_directory@,
        }
    }
}

/// DNS settings handed to a pod's sandbox.
pub struct DnsConfig {
    pub servers: Vec<String>,
    pub searches: Vec<String>,
    pub options: Vec<String>,
}

/// Name, namespace and id of a pod, and when it was made (seconds since the
/// epoch).
pub struct PodMetadata {
    pub name: String,
    pub namespace: String,
    pub uid: String,
    pub creation_time: i64,
}

/// The containers of a pod.
pub struct PodSpec {
    pub containers: Vec<Container>,
}

#[derive(Debug, Clone, Copy, PartialEq, Eq, Structural)]
pub enum PodState {
    Ready,
    NotReady,
}

/// The id of a pod in the container runtime, and its state.
pub struct PodStatus {
    pub id: String,
    pub state: PodState,
}

/// A pod: its metadata, containers and, once it runs, its status.
pub struct Pod {
    pub metadata: PodMetadata,
    pub spec: PodSpec,
    pub status: Option<PodStatus>,
}

pub struct SecurityContext {
    pub privileged: bool,
}

/// How pods are run: the runtime handler, where logs go, the cgroup parent,
/// DNS and security settings.
pub struct PodRuntime {
    pub runtime_handler: String,
    pub log_directory: String,
    pub cgroup_parent: String,
    pub dns_config: DnsConfig,
    pub security_context: SecurityContext,
}

fn copy_text(s: &String) -> (r: String)
    ensures
        r@ == s@,
{
    s.clone()
}

fn copy_opt(s: &Option<String>) -> (r: Option<String>)
    ensures
        opt_text(r) == opt_text(*s),
{
    match s {
        Some(s) => Some(s.clone()),
        None => None,
    }
}

fn copy_texts(v: &Vec<String>) -> (r: Vec<String>)
    ensures
        texts(r@) == texts(v@),
{
    let mut r: Vec<String> = Vec::new();
    let mut i: usize = 0;
    while i < v.len()
        invariant
            i <= v@.len(),
            r@.len() == i,
            forall|j: int| 0 <= j < i ==> #[trigger] r@[j]@ == v@[j]@,
        decreases v.len() - i,
    {
        r.push(v[i].clone());
        i = i + 1;
    }
    assert(texts(r@) =~= texts(v@));
    r
}

fn copy_pairs(v: &Vec<(String, String)>) -> (r: Vec<(String, String)>)
    ensures
        pairs(r@) == pairs(v@),
{
    let mut r: Vec<(String, String)> = Vec::new();
    let mut i: usize = 0;
    while i < v.len()
        invariant
            i <= v@.len(),
            r@.len() == i,
            forall|j: int| 0 <= j < i ==> #[trigger] r@[j].0@ == v@[j].0@ && r@[j].1@ == v@[j].1@,
        decreases v.len() - i,
    {
        let p = (v[i].0.clone(), v[i].1.clone());
        r.push(p);
        i = i + 1;
    }
    assert(pairs(r@) =~= pairs(v@));
    r
}

/// The message for an application without an image.
pub open spec fn no_image_message(app: Seq<char>) -> Seq<char> {
    "image is empty for application "@ + app
}

/// The one container of a new pod for `app`, named `name`.
pub open spec fn pod_container(app: ApplicationContext, name: Seq<char>, image: Seq<char>) -> ContainerModel {
    ContainerModel {
        name,
        image,
        command: opt_text(app.command),
        args: texts(app.arguments@),
        envs: pairs(app.environments@),
        working_directory: match app.working_directory {
            Some(w) => w@,
            None => Seq::empty(),
        },
    }
}

/// The container of a new pod runs what the application says: its image,
/// command and arguments, its environment, and its working directory when it
/// names one (none otherwise).
pub proof fn law_pod_container_follows_application(app: ApplicationContext)
    ensures
        forall|name: Seq<char>, image: Seq<char>|
            {
                let c = #[trigger] pod_container(app, name, image);
                &&& c.name == name
                &&& c.image == image
                &&& (app.working_directory matches Some(w) ==> c.working_directory == w@)
                &&& (app.working_directory is None ==> c.working_directory.len() == 0)
                &&& (app.command matches Some(x) ==> c.command == Some(x@))
                &&& (app.command is None ==> c.command is None)
                &&& c.args.len() == app.arguments@.len()
                &&& forall|i: int|
                    0 <= i < app.arguments@.len() ==> #[trigger] c.args[i] == app.arguments@[i]@
                &&& c.envs.len() == app.environments@.len()
                &&& forall|i: int|
                    0 <= i < app.environments@.len() ==> #[trigger] c.envs[i] == (
                        app.environments@[i].0@,
                        app.environments@[i].1@,
                    )
            },
{
}

impl Pod {
    /// A new pod for `app`: named after the application, a hyphen and eight
    /// random letters or digits, in the application's namespace, with a
    /// fresh random id and one container of the same name that runs the
    /// application's image. `InvalidConfig` when the application has no image.
    pub fn new(app: &ApplicationContext) -> (r: Result<Pod, FlameError>)
        ensures
            app.image is None <==> r is Err,
            app.image is None ==> (r matches Err(FlameError::InvalidConfig(m)) && m@
                == no_image_message(app.name@)),
            r matches Ok(pod) ==> {
                let name = pod.metadata.name@;
                &&& name.len() == app.name@.len() + 9
                &&& name.subrange(0, app.name@.len() as int + 1) == app.name@ + "-"@
                &&& forall|i: int|
                    app.name@.len() + 1 <= i < name.len() ==> is_ascii_alphanumeric(
                        #[trigger] name[i],
                    )
                &&& pod.metadata.namespace@ == app.name@
                &&& is_uuid_v4_text(pod.metadata.uid@)
                &&& pod.spec.containers@.len() == 1
                &&& app.image matches Some(img) && pod.spec.containers@[0]@ == pod_container(
                    *app,
                    name,
                    img@,
                )
                &&& pod.status is None
                &&& distinct_names(pairs(app.environments@)) ==> distinct_names(
                    pairs(pod.spec.containers@[0].envs@),
                )
                &&& app.working_directory matches Some(w) ==> pod.spec.containers@[0].working_directory@
                    == w@
                &&& app.working_directory is None ==> pod.spec.containers@[0].working_directory@.len()
                    == 0
                &&& app.image matches Some(img) && pod.spec.containers@[0].image@ == img@
                &&& pod.spec.containers@[0].name@ == name
                &&& pod.spec.containers@[0].args@.len() == app.arguments@.len()
                &&& forall|i: int|
                    0 <= i < app.arguments@.len() ==> #[trigger] pod.spec.containers@[0].args@[i]@
                        == app.arguments@[i]@
                &&& (app.command matches Some(c) ==> pod.spec.containers@[0].command matches Some(
                    cc,
                ) && cc@ == c@)
                &&& (app.command is None ==> pod.spec.containers@[0].command is None)
            },
    {
        proof {
            law_pod_container_follows_application(*app);
        }
        let image = match &app.image {
            Some(i) => i.clone(),
            None => {
                let mut m = text("image is empty for application ");
                m.append(app.name.as_str());
                proof {
                    reveal_strlit("image is empty for application ");
                }
                return Err(FlameError::InvalidConfig(m));
            },
        };
        let suffix = random_alphanumeric(8);
        let mut name = copy_text(&app.name);
        name.append("-");
        name.append(suffix.as_str());
        proof {
            reveal_strlit("-");
            assert(name@.subrange(0, app.name@.len() as int + 1) =~= app.name@ + "-"@);
            assert forall|i: int| app.name@.len() + 1 <= i < name@.len() implies is_ascii_alphanumeric(
                #[trigger] name@[i],
            ) by {
                assert(name@[i] == suffix@[i - app.name@.len() - 1]);
            }
        }
        let uid = new_uuid();
        let container = Container {
            name: copy_text(&name),
            image,
            command: copy_opt(&app.command),
            args: copy_texts(&app.arguments),
            envs: copy_pairs(&app.environments),
            working_directory: match &app.working_directory {
                Some(w) => w.clone(),
                None => String::new(),
            },
        };
        let mut containers: Vec<Container> = Vec::new();
        containers.push(container);
        let pod = Pod {
            metadata: PodMetadata {
                name,
                namespace: copy_text(&app.name),
                uid,
                creation_time: now_timestamp(),
            },
            spec: PodSpec { containers },
            status: None,
        };
        proof {
            assert(pod.spec.containers@[0]@.working_directory == (match app.working_directory {
                Some(w) => w@,
                None => Seq::<char>::empty(),
            }));
            assert(pod.spec.containers@[0]@ == pod_container(*app, pod.metadata.name@, pod.spec.containers@[0].image@));
            let c = pod.spec.containers@[0];
            assert(texts(c.args@) == texts(app.arguments@));
            assert forall|i: int| 0 <= i < app.arguments@.len() implies #[trigger] c.args@[i]@
                == app.arguments@[i]@ by {
                assert(texts(c.args@)[i] == c.args@[i]@);
                assert(texts(app.arguments@)[i] == app.arguments@[i]@);
            }
            assert(opt_text(c.command) == opt_text(app.command));
        }
        Ok(pod)
    }
}

/// A container as the runtime lists it: its sandbox, and the name and image
/// it reports, when it reports them.
pub struct RuntimeContainer {
    pub id: String,
    pub pod_sandbox_id: String,
    pub name: Option<String>,
    pub image: Option<String>,
}

/// The container the library makes of a listed one: its name and image,
/// no command line or environment, working in `/tmp`.
pub open spec fn listed_container(name: Seq<char>, image: Seq<char>) -> ContainerModel {
    ContainerModel {
        name,
        image,
        command: None,
        args: Seq::empty(),
        envs: Seq::empty(),
        working_directory: "/tmp"@,
    }
}

/// The error a listed container gives, if any: no name, then no image.
pub open spec fn listed_error(c: RuntimeContainer) -> Option<Seq<char>> {
    if c.name is None {
        Some("container metadata is empty"@)
    } else if c.image is None {
        Some("container image is empty"@)
    } else {
        None
    }
}

impl Container {
    /// The container the runtime lists as `c`; `InvalidState` when it reports
    /// no name or no image.
    pub fn from_runtime(c: &RuntimeContainer) -> (r: Result<Container, FlameError>)
        ensures
            match listed_error(*c) {
                Some(m) => r matches Err(FlameError::InvalidState(e)) && e@ == m,
                None => r matches Ok(k) && k@ == listed_container(
                    c.name->Some_0@,
                    c.image->Some_0@,
                ),
            },
    {
        let name = match &c.name {
            Some(n) => n.clone(),
            None => {
                let m = text("container metadata is empty");
                proof {
                    reveal_strlit("container metadata is empty");
                }
                return Err(FlameError::InvalidState(m));
            },
        };
        let image = match &c.image {
            Some(i) => i.clone(),
            None => {
                let m = text("container image is empty");
                proof {
                    reveal_strlit("container image is empty");
                }
                return Err(FlameError::InvalidState(m));
            },
        };
        let wd = text("/tmp");
        proof {
            reveal_strlit("/tmp");
        }
        let k = Container {
            name,
            image,
            command: None,
            args: Vec::new(),
            envs: Vec::new(),
            working_directory: wd,
        };
        proof {
            assert(k@.args =~= Seq::<Seq<char>>::empty());
            assert(k@.envs =~= Seq::<(Seq<char>, Seq<char>)>::empty());
        }
        Ok(k)
    }
}

/// The error of the first listed container of the sandbox `id` that
/// reports no name or image, if any.
pub open spec fn first_sandbox_error(cs: Seq<RuntimeContainer>, id: Seq<char>) -> Option<Seq<char>>
    decreases cs.len(),
{
    if cs.len() == 0 {
        None
    } else {
        match first_sandbox_error(cs.drop_last(), id) {
            Some(m) => Some(m),
            None => if cs.last().pod_sandbox_id@ == id {
                listed_error(cs.last())
            } else {
                None
            },
        }
    }
}

/// An error in a prefix is the error of the whole list.
proof fn lemma_first_error_extends(cs: Seq<RuntimeContainer>, k: int, id: Seq<char>)
    requires
        0 <= k <= cs.len(),
        first_sandbox_error(cs.subrange(0, k), id) is Some,
    ensures
        first_sandbox_error(cs, id) == first_sandbox_error(cs.subrange(0, k), id),
    decreases cs.len() - k,
{
    if k < cs.len() {
        let next = cs.subrange(0, k + 1);
        assert(next.drop_last() =~= cs.subrange(0, k));
        lemma_first_error_extends(cs, k + 1, id);
    } else {
        assert(cs.subrange(0, k) =~= cs);
    }
}

/// The containers of the sandbox `id`, in the order listed.
pub open spec fn sandbox_containers(cs: Seq<RuntimeContainer>, id: Seq<char>) -> Seq<ContainerModel>
    decreases cs.len(),
{
    if cs.len() == 0 {
        Seq::empty()
    } else {
        let rest = sandbox_containers(cs.drop_last(), id);
        let c = cs.last();
        if c.pod_sandbox_id@ == id {
            rest.push(listed_container(c.name->Some_0@, c.image->Some_0@))
        } else {
            rest
        }
    }
}

pub open spec fn models(v: Seq<Container>) -> Seq<ContainerModel> {
    v.map_values(|c: Container| c@)
}

/// The containers of the sandbox `id` among those the runtime lists, in the
/// order listed; the error of the first listed container of that sandbox
/// that reports no name or image.
pub fn containers_of_sandbox(id: &str, listed: &Vec<RuntimeContainer>) -> (r: Result<
    Vec<Container>,
    FlameError,
>)
    ensures
        match first_sandbox_error(listed@, id@) {
            Some(m) => r matches Err(FlameError::InvalidState(e)) && e@ == m,
            None => r matches Ok(v) && models(v@) == sandbox_containers(listed@, id@),
        },
{
    let mut out: Vec<Container> = Vec::new();
    let mut i: usize = 0;
    while i < listed.len()
        invariant
            i <= listed@.len(),
            first_sandbox_error(listed@.subrange(0, i as int), id@) is None,
            models(out@) == sandbox_containers(listed@.subrange(0, i as int), id@),
        decreases listed.len() - i,
    {
        let ghost pre = listed@.subrange(0, i as int);
        let ghost next = listed@.subrange(0, i + 1);
        proof {
            assert(next.drop_last() =~= pre);
            assert(next.last() == listed@[i as int]);
        }
        let c = &listed[i];
        if str_eq(c.pod_sandbox_id.as_str(), id) {
            match Container::from_runtime(c) {
                Ok(k) => {
                    out.push(k);
                    proof {
                        assert(models(out@) =~= sandbox_containers(next, id@));
                    }
                },
                Err(e) => {
                    proof {
                        lemma_first_error_extends(listed@, i as int + 1, id@);
                    }
                    return Err(e);
                },
            }
        }
        i = i + 1;
    }
    assert(listed@.subrange(0, listed@.len() as int) =~= listed@);
    Ok(out)
}

/// Where a container's log is written: `<log directory>/<name>.log`.
pub open spec fn spec_log_path(dir: Seq<char>, name: Seq<char>) -> Seq<char> {
    dir + "/"@ + name + ".log"@
}

/// The signal a runtime stops a container with.
#[derive(Debug, Clone, Copy, PartialEq, Eq, Structural)]
pub enum StopSignal {
    RuntimeDefault,
    Sigterm,
}

/// What the runtime is asked to create for a container.
pub struct ContainerConfig {
    pub name: String,
    /// The creation attempt of the container's metadata.
    pub attempt: u32,
    pub image: String,
    pub runtime_handler: String,
    pub command: Vec<String>,
    pub args: Vec<String>,
    pub envs: Vec<(String, String)>,
    pub working_dir: String,
    pub log_path: String,
    pub stdin: bool,
    pub stdin_once: bool,
    pub tty: bool,
    pub stop_signal: StopSignal,
}

impl ContainerConfig {
    /// The request for `container` under `runtime`: its first attempt; its
    /// command, when it has one, as the only word of the command line; its log
    /// in the runtime's log directory; no standard input or terminal; stopped
    /// with `SIGTERM`.
    pub fn new(container: &Container, runtime: &PodRuntime) -> (r: ContainerConfig)
        ensures
            r.name@ == container.name@,
            r.attempt == 0,
            !r.stdin && !r.stdin_once && !r.tty,
            r.stop_signal == StopSignal::Sigterm,
            r.image@ == container.image@,
            r.runtime_handler@ == runtime.runtime_handler@,
            texts(r.command@) == match container.command {
                Some(c) => seq![c@],
                None => Seq::empty(),
            },
            texts(r.args@) == texts(container.args@),
            pairs(r.envs@) == pairs(container.envs@),
            distinct_names(pairs(container.envs@)) ==> distinct_names(pairs(r.envs@)),
            r.working_dir@ == container.working_directory@,
            r.log_path@ == spec_log_path(runtime.log_directory@, container.name@),
            r.log_path@ == runtime.log_directory@ + "/"@ + container.name@ + ".log"@,
            r.name@ == container.name@,
    {
        let mut command: Vec<String> = Vec::new();
        match &container.command {
            Some(c) => command.push(c.clone()),
            None => {},
        }
        let mut log_path = copy_text(&runtime.log_directory);
        log_path.append("/");
        log_path.append(container.name.as_str());
        log_path.append(".log");
        proof {
            reveal_strlit("/");
            reveal_strlit(".log");
            assert(texts(command@) =~= match container.command {
                Some(c) => seq![c@],
                None => Seq::empty(),
            });
        }
        ContainerConfig {
            name: copy_text(&container.name),
            attempt: 0,
            image: copy_text(&container.image),
            runtime_handler: copy_text(&runtime.runtime_handler),
            command,
            args: copy_texts(&container.args),
            envs: copy_pairs(&container.envs),
            working_dir: copy_text(&container.working_directory),
            log_path,
            stdin: false,
            stdin_once: false,
            tty: false,
            stop_signal: StopSignal::Sigterm,
        }
    }
}

/// The pod once the runtime has created its sandbox: its uid becomes the
/// sandbox's id, and nothing else changes.
pub fn with_sandbox_id(pod: Pod, id: &str) -> (r: Pod)
    ensures
        r.metadata.uid@ == id@,
        r.metadata.name == pod.metadata.name,
        r.metadata.namespace == pod.metadata.namespace,
        r.metadata.creation_time == pod.metadata.creation_time,
        r.spec == pod.spec,
        r.status == pod.status,
{
    let Pod { metadata, spec, status } = pod;
    let PodMetadata { name, namespace, uid: _, creation_time } = metadata;
    Pod { metadata: PodMetadata { name, namespace, uid: id.to_string(), creation_time }, spec, status }
}

/// What the runtime is asked to create for a pod's sandbox.
pub struct PodSandboxConfig {
    pub name: String,
    /// The creation attempt of the sandbox's metadata.
    pub attempt: u32,
    pub uid: String,
    pub namespace: String,
    pub hostname: String,
    pub log_directory: String,
    pub dns_servers: Vec<String>,
    pub dns_searches: Vec<String>,
    pub dns_options: Vec<String>,
    pub cgroup_parent: String,
    pub privileged: bool,
}

impl PodSandboxConfig {
    /// The sandbox request for `pod` under `runtime`: named and identified as
    /// the pod, with the pod's name as host name, and the runtime's log
    /// directory, DNS, cgroup parent and privilege.
    pub fn new(pod: &Pod, runtime: &PodRuntime) -> (r: PodSandboxConfig)
        ensures
            r.name@ == pod.metadata.name@,
            r.attempt == 0,
            r.uid@ == pod.metadata.uid@,
            r.namespace@ == pod.metadata.namespace@,
            r.hostname@ == pod.metadata.name@,
            r.log_directory@ == runtime.log_directory@,
            texts(r.dns_servers@) == texts(runtime.dns_config.servers@),
            texts(r.dns_searches@) == texts(runtime.dns_config.searches@),
            texts(r.dns_options@) == texts(runtime.dns_config.options@),
            r.cgroup_parent@ == runtime.cgroup_parent@,
            r.privileged == runtime.security_context.privileged,
    {
        PodSandboxConfig {
            name: copy_text(&pod.metadata.name),
            attempt: 0,
            uid: copy_text(&pod.metadata.uid),
            namespace: copy_text(&pod.metadata.namespace),
            hostname: copy_text(&pod.metadata.name),
            log_directory: copy_text(&runtime.log_directory),
            dns_servers: copy_texts(&runtime.dns_config.servers),
            dns_searches: copy_texts(&runtime.dns_config.searches),
            dns_options: copy_texts(&runtime.dns_config.options),
            cgroup_parent: copy_text(&runtime.cgroup_parent),
            privileged: runtime.security_context.privileged,
        }
    }
}

/// The message for a sandbox state code the runtime does not define.
pub open spec fn bad_state_message() -> Seq<char> {
    "unknown pod sandbox state"@
}

impl PodState {
    /// The state a runtime's sandbox state code stands for: 0 ready, 1 not
    /// ready; `InvalidState` for any other code.
    pub fn from_sandbox_state(code: i32) -> (r: Result<PodState, FlameError>)
        ensures
            code == 0 ==> r == Ok::<PodState, FlameError>(PodState::Ready),
            code == 1 ==> r == Ok::<PodState, FlameError>(PodState::NotReady),
            code != 0 && code != 1 ==> (r matches Err(FlameError::InvalidState(m)) && m@
                == bad_state_message()),
    {
        if code == 0 {
            Ok(PodState::Ready)
        } else if code == 1 {
            Ok(PodState::NotReady)
        } else {
            let m = text("unknown pod sandbox state");
            proof {
                reveal_strlit("unknown pod sandbox state");
            }
            Err(FlameError::InvalidState(m))
        }
    }
}

/// A pod sandbox as the runtime lists it: its id, state code and the
/// metadata it reports, when it reports it.
pub struct RuntimeSandbox {
    pub id: String,
    pub state: i32,
    pub metadata: Option<(String, String, String)>,
}

/// The error a listed sandbox gives, if any: an unknown state, then no
/// metadata.
pub open spec fn sandbox_error(s: RuntimeSandbox) -> Option<Seq<char>> {
    if s.state != 0 && s.state != 1 {
        Some(bad_state_message())
    } else if s.metadata is None {
        Some("pod metadata is empty"@)
    } else {
        None
    }
}

pub open spec fn state_of(code: i32) -> PodState {
    if code == 0 {
        PodState::Ready
    } else {
        PodState::NotReady
    }
}

/// The pod made of a listed sandbox: named, placed and identified by its
/// metadata, with the sandbox's id and state as status.
pub open spec fn sandbox_pod(p: Pod, s: RuntimeSandbox) -> bool {
    &&& s.metadata matches Some(m) && p.metadata.name@ == m.0@ && p.metadata.namespace@ == m.1@
        && p.metadata.uid@ == m.2@
    &&& p.status matches Some(st) && st.id@ == s.id@ && st.state == state_of(s.state)
}

impl Pod {
    /// The pod the runtime lists as the sandbox `s`, with no containers yet;
    /// `InvalidState` when its state code is unknown or it reports no metadata.
    pub fn from_sandbox(s: &RuntimeSandbox) -> (r: Result<Pod, FlameError>)
        ensures
            match sandbox_error(*s) {
                Some(m) => r matches Err(FlameError::InvalidState(e)) && e@ == m,
                None => r matches Ok(p) && sandbox_pod(p, *s) && p.spec.containers@.len() == 0,
            },
    {
        let state = PodState::from_sandbox_state(s.state)?;
        let (name, namespace, uid) = match &s.metadata {
            Some(m) => (m.0.clone(), m.1.clone(), m.2.clone()),
            None => {
                let m = text("pod metadata is empty");
                proof {
                    reveal_strlit("pod metadata is empty");
                }
                return Err(FlameError::InvalidState(m));
            },
        };
        Ok(Pod {
            metadata: PodMetadata { name, namespace, uid, creation_time: now_timestamp() },
            spec: PodSpec { containers: Vec::new() },
            status: Some(PodStatus { id: s.id.clone(), state }),
        })
    }
}

/// The error of the first listed container that reports no name or image.
pub open spec fn first_container_error(cs: Seq<RuntimeContainer>) -> Option<Seq<char>>
    decreases cs.len(),
{
    if cs.len() == 0 {
        None
    } else {
        match first_container_error(cs.drop_last()) {
            Some(m) => Some(m),
            None => listed_error(cs.last()),
        }
    }
}

/// The error of the first listed sandbox that gives one.
pub open spec fn first_pod_error(ss: Seq<RuntimeSandbox>) -> Option<Seq<char>>
    decreases ss.len(),
{
    if ss.len() == 0 {
        None
    } else {
        match first_pod_error(ss.drop_last()) {
            Some(m) => Some(m),
            None => sandbox_error(ss.last()),
        }
    }
}

proof fn lemma_no_container_error(cs: Seq<RuntimeContainer>, id: Seq<char>)
    requires
        first_container_error(cs) is None,
    ensures
        first_sandbox_error(cs, id) is None,
    decreases cs.len(),
{
    if cs.len() > 0 {
        lemma_no_container_error(cs.drop_last(), id);
    }
}

proof fn lemma_container_error_extends(cs: Seq<RuntimeContainer>, k: int)
    requires
        0 <= k <= cs.len(),
        first_container_error(cs.subrange(0, k)) is Some,
    ensures
        first_container_error(cs) == first_container_error(cs.subrange(0, k)),
    decreases cs.len() - k,
{
    if k < cs.len() {
        assert(cs.subrange(0, k + 1).drop_last() =~= cs.subrange(0, k));
        lemma_container_error_extends(cs, k + 1);
    } else {
        assert(cs.subrange(0, k) =~= cs);
    }
}

proof fn lemma_pod_error_extends(ss: Seq<RuntimeSandbox>, k: int)
    requires
        0 <= k <= ss.len(),
        first_pod_error(ss.subrange(0, k)) is Some,
    ensures
        first_pod_error(ss) == first_pod_error(ss.subrange(0, k)),
    decreases ss.len() - k,
{
    if k < ss.len() {
        assert(ss.subrange(0, k + 1).drop_last() =~= ss.subrange(0, k));
        lemma_pod_error_extends(ss, k + 1);
    } else {
        assert(ss.subrange(0, k) =~= ss);
    }
}

/// The sandboxes that are ready, in the order listed: a stopped sandbox is
/// no longer a running pod.
pub open spec fn ready_sandboxes(ss: Seq<RuntimeSandbox>) -> Seq<RuntimeSandbox>
    decreases ss.len(),
{
    if ss.len() == 0 {
        Seq::empty()
    } else if ss.last().state == 0 {
        ready_sandboxes(ss.drop_last()).push(ss.last())
    } else {
        ready_sandboxes(ss.drop_last())
    }
}

/// The running pods are the sandboxes whose state code is ready (0), in the
/// order listed: each of them, and no other; so once every sandbox is
/// stopped, no pod is listed.
pub proof fn law_only_ready_sandboxes_are_pods(ss: Seq<RuntimeSandbox>)
    ensures
        ready_sandboxes(ss) == ss.filter(|s: RuntimeSandbox| s.state == 0),
        forall|k: int| 0 <= k < ready_sandboxes(ss).len() ==> #[trigger] ready_sandboxes(ss)[k].state == 0,
        (forall|i: int| 0 <= i < ss.len() ==> #[trigger] ss[i].state != 0) ==> ready_sandboxes(
            ss,
        ).len() == 0,
    decreases ss.len(),
{
    reveal_with_fuel(Seq::filter, 1);
    if ss.len() > 0 {
        law_only_ready_sandboxes_are_pods(ss.drop_last());
        assert(ss.filter(|s: RuntimeSandbox| s.state == 0) == {
            let sub = ss.drop_last().filter(|s: RuntimeSandbox| s.state == 0);
            if ss.last().state == 0 {
                sub.push(ss.last())
            } else {
                sub
            }
        });
        if forall|i: int| 0 <= i < ss.len() ==> #[trigger] ss[i].state != 0 {
            assert(ss.last().state != 0);
            assert forall|i: int| 0 <= i < ss.drop_last().len() implies #[trigger] ss.drop_last()[i].state
                != 0 by {
                assert(ss.drop_last()[i] == ss[i]);
            }
        }
    }
}

/// The running pods: one for each ready sandbox, each with the listed
/// containers of its sandbox, in the order listed. The listed containers are
/// read first: the first that reports no name or image is the error; then the
/// first sandbox with an unknown state or no metadata.
pub fn pods_with_containers(
    sandboxes: &Vec<RuntimeSandbox>,
    listed: &Vec<RuntimeContainer>,
) -> (r: Result<Vec<Pod>, FlameError>)
    ensures
        first_container_error(listed@) matches Some(m) ==> (r matches Err(
            FlameError::InvalidState(e),
        ) && e@ == m),
        first_container_error(listed@) is None ==> match first_pod_error(sandboxes@) {
            Some(m) => r matches Err(FlameError::InvalidState(e)) && e@ == m,
            None => r matches Ok(pods) && (forall|k: int|
                0 <= k < pods@.len() ==> ((#[trigger] pods@[k]).status matches Some(st) && st.state
                    == PodState::Ready)) && ((forall|i: int|
                0 <= i < sandboxes@.len() ==> #[trigger] sandboxes@[i].state != 0) ==> pods@.len()
                == 0) && pods@.len() == ready_sandboxes(sandboxes@).len()
                && forall|k: int|
                0 <= k < pods@.len() ==> sandbox_pod(
                    #[trigger] pods@[k],
                    ready_sandboxes(sandboxes@)[k],
                ) && models(pods@[k].spec.containers@) == sandbox_containers(
                    listed@,
                    ready_sandboxes(sandboxes@)[k].id@,
                ),
        },
{
    proof {
        law_only_ready_sandboxes_are_pods(sandboxes@);
    }
    let mut i: usize = 0;
    while i < listed.len()
        invariant
            i <= listed@.len(),
            first_container_error(listed@.subrange(0, i as int)) is None,
        decreases listed.len() - i,
    {
        proof {
            assert(listed@.subrange(0, i + 1).drop_last() =~= listed@.subrange(0, i as int));
            assert(listed@.subrange(0, i + 1).last() == listed@[i as int]);
        }
        if let Err(e) = Container::from_runtime(&listed[i]) {
            proof {
                lemma_container_error_extends(listed@, i + 1);
            }
            return Err(e);
        }
        i = i + 1;
    }
    proof {
        assert(listed@.subrange(0, listed@.len() as int) =~= listed@);
    }
    let mut pods: Vec<Pod> = Vec::new();
    let mut k: usize = 0;
    while k < sandboxes.len()
        invariant
            k <= sandboxes@.len(),
            first_container_error(listed@) is None,
            first_pod_error(sandboxes@.subrange(0, k as int)) is None,
            pods@.len() == ready_sandboxes(sandboxes@.subrange(0, k as int)).len(),
            forall|j: int|
                0 <= j < pods@.len() ==> sandbox_pod(
                    #[trigger] pods@[j],
                    ready_sandboxes(sandboxes@.subrange(0, k as int))[j],
                ) && models(pods@[j].spec.containers@) == sandbox_containers(
                    listed@,
                    ready_sandboxes(sandboxes@.subrange(0, k as int))[j].id@,
                ),
        decreases sandboxes.len() - k,
    {
        proof {
            assert(sandboxes@.subrange(0, k + 1).drop_last() =~= sandboxes@.subrange(0, k as int));
            assert(sandboxes@.subrange(0, k + 1).last() == sandboxes@[k as int]);
        }
        let ghost before = ready_sandboxes(sandboxes@.subrange(0, k as int));
        match Pod::from_sandbox(&sandboxes[k]) {
            Ok(mut pod) => {
                proof {
                    lemma_no_container_error(listed@, sandboxes@[k as int].id@);
                }
                let cs = match containers_of_sandbox(sandboxes[k].id.as_str(), listed) {
                    Ok(cs) => cs,
                    Err(e) => {
                        return Err(e);
                    },
                };
                pod.spec.containers = cs;
                if sandboxes[k].state == 0 {
                    pods.push(pod);
                    proof {
                        assert(ready_sandboxes(sandboxes@.subrange(0, k + 1)) =~= before.push(
                            sandboxes@[k as int],
                        ));
                    }
                } else {
                    proof {
                        assert(ready_sandboxes(sandboxes@.subrange(0, k + 1)) =~= before);
                    }
                }
            },
            Err(e) => {
                proof {
                    lemma_pod_error_extends(sandboxes@, k + 1);
                }
                return Err(e);
            },
        }
        k = k + 1;
    }
    proof {
        assert(sandboxes@.subrange(0, sandboxes@.len() as int) =~= sandboxes@);
    }
    Ok(pods)
}

/// The runtime settings the end-to-end checks run pods with: the `runc`
/// handler, logs under `/var/log/flame`, the `/system.slice` cgroup, no
/// privilege and no DNS settings.
pub fn default_test_runtime() -> (r: PodRuntime)
    ensures
        r.runtime_handler@ == "runc"@,
        r.log_directory@ == "/var/log/flame"@,
        r.cgroup_parent@ == "/system.slice"@,
        !r.security_context.privileged,
        r.dns_config.servers@.len() == 0,
        r.dns_config.searches@.len() == 0,
        r.dns_config.options@.len() == 0,
{
    proof {
        reveal_strlit("runc");
        reveal_strlit("/var/log/flame");
        reveal_strlit("/system.slice");
    }
    PodRuntime {
        runtime_handler: text("runc"),
        log_directory: text("/var/log/flame"),
        cgroup_parent: text("/system.slice"),
        security_context: SecurityContext { privileged: false },
        dns_config: DnsConfig { servers: Vec::new(), searches: Vec::new(), options: Vec::new() },
    }
}

} // verus!
