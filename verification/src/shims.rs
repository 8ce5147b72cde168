use vstd::prelude::*;

use crate::error::{text, FlameError};
use crate::keyed::KeyedStore;
use crate::sdk::service::{SessionContext, TaskContext};

verus! {

/// `part` appended to the path `base` as a further component: an absolute
/// `part` replaces `base`; otherwise one `/` stands between the two unless
/// `base` is empty or already ends with one.
pub open spec fn spec_join(base: Seq<char>, part: Seq<char>) -> Seq<char> {
    if part.len() > 0 && part[0] == '/' {
        part
    } else if base.len() == 0 {
        part
    } else if base.last() == '/' {
        base + part
    } else {
        base + "/"@ + part
    }
}

/// Joining a relative part to a directory path puts exactly one `/` between
/// them; an absolute part stands alone; an empty base leaves the part.
pub proof fn law_join(base: Seq<char>, part: Seq<char>)
    ensures
        part.len() > 0 && part[0] == '/' ==> spec_join(base, part) == part,
        !(part.len() > 0 && part[0] == '/') && base.len() > 0 && base.last() != '/' ==> spec_join(
            base,
            part,
        ) == base + seq!['/'] + part,
        !(part.len() > 0 && part[0] == '/') && base.len() > 0 && base.last() == '/' ==> spec_join(
            base,
            part,
        ) == base + part,
        !(part.len() > 0 && part[0] == '/') && base.len() == 0 ==> spec_join(base, part) == part,
{
    reveal_strlit("/");
    assert("/"@ =~= seq!['/']);
}

/// The path `base` joined with `part`.
pub fn join_path(base: &str, part: &str) -> (r: String)
    ensures
        r@ == spec_join(base@, part@),
{
    let bn = base.unicode_len();
    let pn = part.unicode_len();
    if pn > 0 && part.get_char(0) == '/' {
        return part.to_string();
    }
    if bn == 0 {
        return part.to_string();
    }
    let mut r = base.to_string();
    if base.get_char(bn - 1) != '/' {
        r.append("/");
        proof {
            reveal_strlit("/");
        }
    }
    r.append(part);
    r
}

/// The directories of an executor's process:
///   the top directory, where the process runs and writes its logs;
///   `<top>/work/<application>`, for its temporary files and caches;
///   `<top>/work/<executor id>.sock`, the socket it serves on.
/// When the application names no working directory, the top directory is
/// made for the executor, `<base>/<executor id>`, and removed with it.
pub struct ExecutorWorkDir {
    top_dir: String,
    app_dir: String,
    socket: String,
    auto_dir: bool,
}

/// The top directory: the application's working directory when it names a
/// non-empty one, else `<base>/<executor id>`.
pub open spec fn spec_top_dir(wd: Option<Seq<char>>, base: Seq<char>, id: Seq<char>) -> Seq<char> {
    match wd {
        Some(w) => if w.len() > 0 {
            w
        } else {
            spec_join(base, id)
        },
        None => spec_join(base, id),
    }
}

pub open spec fn spec_auto_dir(wd: Option<Seq<char>>) -> bool {
    match wd {
        Some(w) => w.len() == 0,
        None => true,
    }
}

pub open spec fn spec_work_dir(top: Seq<char>) -> Seq<char> {
    spec_join(top, "work"@)
}

pub open spec fn opt_text(s: Option<String>) -> Option<Seq<char>> {
    match s {
        Some(s) => Some(s@),
        None => None,
    }
}

impl ExecutorWorkDir {
    /// The directories of executor `executor_id` running application
    /// `app_name`, whose working directory setting is `working_directory`;
    /// `base` is where executors get a directory made for them.
    pub fn new(
        app_name: &str,
        working_directory: &Option<String>,
        base: &str,
        executor_id: &str,
    ) -> (r: Self)
        ensures
            r.process_dir_view() == spec_top_dir(opt_text(*working_directory), base@, executor_id@),
            r.app_dir_view() == spec_join(spec_work_dir(r.process_dir_view()), app_name@),
            r.socket_view() == spec_join(
                spec_work_dir(r.process_dir_view()),
                executor_id@ + ".sock"@,
            ),
            r.is_auto() == spec_auto_dir(opt_text(*working_directory)),
            working_directory matches Some(w) ==> (w@.len() > 0 ==> r.process_dir_view() == w@
                && !r.is_auto()),
            !(working_directory matches Some(w) && w@.len() > 0) ==> r.process_dir_view()
                == spec_join(base@, executor_id@) && r.is_auto(),
    {
        let (top_dir, auto_dir) = match working_directory {
            Some(wd) => if wd.unicode_len() > 0 {
                (wd.clone(), false)
            } else {
                (join_path(base, executor_id), true)
            },
            None => (join_path(base, executor_id), true),
        };
        let w = "work";
        proof {
            reveal_strlit("work");
        }
        let work_dir = join_path(top_dir.as_str(), w);
        let app_dir = join_path(work_dir.as_str(), app_name);
        let mut sock = executor_id.to_string();
        sock.append(".sock");
        proof {
            reveal_strlit(".sock");
        }
        let socket = join_path(work_dir.as_str(), sock.as_str());
        ExecutorWorkDir { top_dir, app_dir, socket, auto_dir }
    }

    pub closed spec fn process_dir_view(&self) -> Seq<char> {
        self.top_dir@
    }

    pub closed spec fn app_dir_view(&self) -> Seq<char> {
        self.app_dir@
    }

    pub closed spec fn socket_view(&self) -> Seq<char> {
        self.socket@
    }

    pub closed spec fn is_auto(&self) -> bool {
        self.auto_dir
    }

    /// The application's directory, for temporary files and caches.
    pub fn app_dir(&self) -> (r: &str)
        ensures
            r@ == self.app_dir_view(),
    {
        self.app_dir.as_str()
    }

    /// Where the process runs: the top directory.
    pub fn process_dir(&self) -> (r: &str)
        ensures
            r@ == self.process_dir_view(),
    {
        self.top_dir.as_str()
    }

    /// The socket the process serves on.
    pub fn socket(&self) -> (r: &str)
        ensures
            r@ == self.socket_view(),
    {
        self.socket.as_str()
    }

    /// The directories to create, in order: the top directory when it is
    /// made for the executor, then the work directory and the application's.
    pub fn directories(&self) -> (r: Vec<String>)
        ensures
            r@.map_values(|s: String| s@) == (if self.is_auto() {
                seq![self.process_dir_view()]
            } else {
                Seq::empty()
            }) + seq![spec_work_dir(self.process_dir_view()), self.app_dir_view()],
    {
        let mut r: Vec<String> = Vec::new();
        if self.auto_dir {
            r.push(self.top_dir.clone());
        }
        let w = "work";
        proof {
            reveal_strlit("work");
        }
        r.push(join_path(self.top_dir.as_str(), w));
        r.push(self.app_dir.clone());
        assert(r@.map_values(|s: String| s@) =~= (if self.is_auto() {
            seq![self.process_dir_view()]
        } else {
            Seq::empty()
        }) + seq![spec_work_dir(self.process_dir_view()), self.app_dir_view()]);
        r
    }

    /// What goes when the executor does, in order: the socket, the
    /// application's directory, and the top directory when it was made for
    /// the executor.
    pub fn cleanup_paths(&self) -> (r: Vec<String>)
        ensures
            r@.map_values(|s: String| s@) == seq![self.socket_view(), self.app_dir_view()] + (
            if self.is_auto() {
                seq![self.process_dir_view()]
            } else {
                Seq::empty()
            }),
    {
        let mut r: Vec<String> = Vec::new();
        r.push(self.socket.clone());
        r.push(self.app_dir.clone());
        if self.auto_dir {
            r.push(self.top_dir.clone());
        }
        assert(r@.map_values(|s: String| s@) =~= seq![self.socket_view(), self.app_dir_view()] + (
        if self.is_auto() {
            seq![self.process_dir_view()]
        } else {
            Seq::empty()
        }));
        r
    }
}

/// Where a host instance runs: the application's working directory when it
/// names one, else `<base>/<executor id>/work/<application>`.
pub open spec fn spec_instance_dir(
    wd: Option<Seq<char>>,
    base: Seq<char>,
    id: Seq<char>,
    app: Seq<char>,
) -> Seq<char> {
    match wd {
        Some(w) => w,
        None => spec_join(spec_join(spec_join(base, id), "work"@), app),
    }
}

/// The directory a host instance runs in.
pub fn instance_dir(
    working_directory: &Option<String>,
    base: &str,
    executor_id: &str,
    app_name: &str,
) -> (r: String)
    ensures
        r@ == spec_instance_dir(opt_text(*working_directory), base@, executor_id@, app_name@),
        working_directory matches Some(w) ==> r@ == w@,
        working_directory is None ==> r@ == spec_join(
            spec_join(spec_join(base@, executor_id@), "work"@),
            app_name@,
        ),
{
    match working_directory {
        Some(wd) => wd.clone(),
        None => {
            let w = "work";
            proof {
                reveal_strlit("work");
            }
            let d = join_path(base, executor_id);
            let d = join_path(d.as_str(), w);
            join_path(d.as_str(), app_name)
        },
    }
}

/// The directories a host instance needs under its working directory `wd`:
/// `wd`, its `tmp`, and the `.uv` and `.pip` caches.
pub fn instance_directories(wd: &str) -> (r: Vec<String>)
    ensures
        r@.map_values(|s: String| s@) == seq![
            wd@,
            spec_join(wd@, "tmp"@),
            spec_join(wd@, ".uv"@),
            spec_join(wd@, ".pip"@),
        ],
{
    proof {
        reveal_strlit("tmp");
        reveal_strlit(".uv");
        reveal_strlit(".pip");
    }
    let mut r: Vec<String> = Vec::new();
    r.push(wd.to_string());
    r.push(join_path(wd, "tmp"));
    r.push(join_path(wd, ".uv"));
    r.push(join_path(wd, ".pip"));
    assert(r@.map_values(|s: String| s@) =~= seq![
        wd@,
        spec_join(wd@, "tmp"@),
        spec_join(wd@, ".uv"@),
        spec_join(wd@, ".pip"@),
    ]);
    r
}

/// The log files of instance `executor_id` in `wd`: `<id>.out` and `<id>.err`.
pub fn instance_log_files(wd: &str, executor_id: &str) -> (r: (String, String))
    ensures
        r.0@ == spec_join(wd@, executor_id@ + ".out"@),
        r.1@ == spec_join(wd@, executor_id@ + ".err"@),
{
    proof {
        reveal_strlit(".out");
        reveal_strlit(".err");
    }
    let mut out = executor_id.to_string();
    out.append(".out");
    let mut err = executor_id.to_string();
    err.append(".err");
    (join_path(wd, out.as_str()), join_path(wd, err.as_str()))
}

/// The environment variable that carries the log level.
pub open spec fn rust_log() -> Seq<char> {
    "RUST_LOG"@
}

pub open spec fn instance_endpoint_var() -> Seq<char> {
    "FLAME_INSTANCE_ENDPOINT"@
}

pub open spec fn cache_endpoint_var() -> Seq<char> {
    "FLAME_CACHE_ENDPOINT"@
}

/// The map the pairs `ps` give, a later pair for a name winning.
pub open spec fn pairs_map(ps: Seq<(Seq<char>, Seq<char>)>) -> Map<Seq<char>, Seq<char>>
    decreases ps.len(),
{
    if ps.len() == 0 {
        Map::empty()
    } else {
        pairs_map(ps.drop_last()).insert(ps.last().0, ps.last().1)
    }
}

pub open spec fn pairs_view(ps: Seq<(String, String)>) -> Seq<(Seq<char>, Seq<char>)> {
    ps.map_values(|p: (String, String)| (p.0@, p.1@))
}

/// The variables that point a host instance's temporary files and caches
/// into its working directory `wd`.
pub open spec fn work_dir_envs(wd: Seq<char>) -> Map<Seq<char>, Seq<char>> {
    let tmp = spec_join(wd, "tmp"@);
    map![
        "TMPDIR"@ => tmp,
        "TEMP"@ => tmp,
        "TMP"@ => tmp,
        "UV_CACHE_DIR"@ => spec_join(wd, ".uv"@),
        "PIP_CACHE_DIR"@ => spec_join(wd, ".pip"@),
    ]
}

/// The environment of a host instance: the application's variables; the
/// log level; the endpoint it serves on; the cache's endpoint when the
/// executor has one; `HOME` when set and the application sets none; and
/// the variables of its working directory, which win over the others.
pub open spec fn spec_instance_envs(
    app_envs: Seq<(Seq<char>, Seq<char>)>,
    log_level: Seq<char>,
    endpoint: Seq<char>,
    cache_endpoint: Option<Seq<char>>,
    home: Option<Seq<char>>,
    wd: Seq<char>,
) -> Map<Seq<char>, Seq<char>> {
    let m1 = pairs_map(app_envs).insert(rust_log(), log_level).insert(
        instance_endpoint_var(),
        endpoint,
    );
    let m2 = match cache_endpoint {
        Some(c) => m1.insert(cache_endpoint_var(), c),
        None => m1,
    };
    let m3 = match home {
        Some(h) => if m2.dom().contains("HOME"@) {
            m2
        } else {
            m2.insert("HOME"@, h)
        },
        None => m2,
    };
    m3.union_prefer_right(work_dir_envs(wd))
}

/// The environment of a host instance (see `spec_instance_envs`), as pairs
/// with each name once.
pub fn instance_envs(
    app_envs: &Vec<(String, String)>,
    log_level: &str,
    endpoint: &str,
    cache_endpoint: &Option<String>,
    home: &Option<String>,
    wd: &str,
) -> (r: Vec<(String, String)>)
    ensures
        pairs_map(pairs_view(r@)) == spec_instance_envs(
            pairs_view(app_envs@),
            log_level@,
            endpoint@,
            opt_text(*cache_endpoint),
            opt_text(*home),
            wd@,
        ),
{
    let mut m: KeyedStore<String, String> = KeyedStore::new();
    let mut i: usize = 0;
    while i < app_envs.len()
        invariant
            i <= app_envs@.len(),
            m.wf(),
            m@ == pairs_map(pairs_view(app_envs@.subrange(0, i as int))),
        decreases app_envs.len() - i,
    {
        proof {
            assert(pairs_view(app_envs@.subrange(0, i + 1)).drop_last() =~= pairs_view(
                app_envs@.subrange(0, i as int),
            ));
        }
        m.insert(app_envs[i].0.clone(), app_envs[i].1.clone());
        i = i + 1;
    }
    proof {
        assert(app_envs@.subrange(0, app_envs@.len() as int) =~= app_envs@);
        reveal_strlit("RUST_LOG");
        reveal_strlit("FLAME_INSTANCE_ENDPOINT");
        reveal_strlit("FLAME_CACHE_ENDPOINT");
        reveal_strlit("HOME");
    }
    m.insert(text("RUST_LOG"), log_level.to_string());
    m.insert(text("FLAME_INSTANCE_ENDPOINT"), endpoint.to_string());
    match cache_endpoint {
        Some(c) => m.insert(text("FLAME_CACHE_ENDPOINT"), c.clone()),
        None => {},
    }
    match home {
        Some(h) => {
            let key = text("HOME");
            if m.get(&key).is_none() {
                m.insert(key, h.clone());
            }
        },
        None => {},
    }
    let ghost m3 = m@;
    let tmp = join_path(wd, "tmp");
    proof {
        reveal_strlit("tmp");
        reveal_strlit(".uv");
        reveal_strlit(".pip");
        reveal_strlit("TMPDIR");
        reveal_strlit("TEMP");
        reveal_strlit("TMP");
        reveal_strlit("UV_CACHE_DIR");
        reveal_strlit("PIP_CACHE_DIR");
    }
    m.insert(text("TMPDIR"), tmp.clone());
    m.insert(text("TEMP"), tmp.clone());
    m.insert(text("TMP"), tmp);
    m.insert(text("UV_CACHE_DIR"), join_path(wd, ".uv"));
    m.insert(text("PIP_CACHE_DIR"), join_path(wd, ".pip"));
    proof {
        assert(m@ =~= m3.union_prefer_right(work_dir_envs(wd@)));
    }
    let r = m.into_entries();
    proof {
        lemma_pairs_map_entries(r@);
    }
    r
}

/// Whatever the application sets, a host instance keeps its temporary
/// files and caches in its working directory, and serves on its endpoint.
pub proof fn law_instance_env_overrides(
    app_envs: Seq<(Seq<char>, Seq<char>)>,
    log_level: Seq<char>,
    endpoint: Seq<char>,
    cache_endpoint: Option<Seq<char>>,
    home: Option<Seq<char>>,
    wd: Seq<char>,
)
    ensures
        ({
            let m = spec_instance_envs(app_envs, log_level, endpoint, cache_endpoint, home, wd);
            &&& m["TMPDIR"@] == spec_join(wd, "tmp"@)
            &&& m["TMP"@] == spec_join(wd, "tmp"@)
            &&& m["TEMP"@] == spec_join(wd, "tmp"@)
            &&& m["UV_CACHE_DIR"@] == spec_join(wd, ".uv"@)
            &&& m["PIP_CACHE_DIR"@] == spec_join(wd, ".pip"@)
            &&& m[instance_endpoint_var()] == endpoint
            &&& m[rust_log()] == log_level
        }),
{
    reveal_strlit("TMPDIR");
    reveal_strlit("TMP");
    reveal_strlit("TEMP");
    reveal_strlit("UV_CACHE_DIR");
    reveal_strlit("PIP_CACHE_DIR");
    reveal_strlit("FLAME_INSTANCE_ENDPOINT");
    reveal_strlit("FLAME_CACHE_ENDPOINT");
    reveal_strlit("RUST_LOG");
    reveal_strlit("HOME");
    let w = work_dir_envs(wd);
    let keys = seq!["TMPDIR"@, "TEMP"@, "TMP"@, "UV_CACHE_DIR"@, "PIP_CACHE_DIR"@];
    assert forall|i: int| 0 <= i < 5 implies keys[i].len() != instance_endpoint_var().len()
        && keys[i].len() != rust_log().len() by {}
    assert(w.dom() =~= set!["TMPDIR"@, "TEMP"@, "TMP"@, "UV_CACHE_DIR"@, "PIP_CACHE_DIR"@]);
    assert(keys[0] != instance_endpoint_var() && keys[1] != instance_endpoint_var() && keys[2]
        != instance_endpoint_var() && keys[3] != instance_endpoint_var() && keys[4]
        != instance_endpoint_var());
    assert(keys[0] != rust_log() && keys[1] != rust_log() && keys[2] != rust_log() && keys[3]
        != rust_log() && keys[4] != rust_log());
    assert(!w.dom().contains(instance_endpoint_var()));
    assert(!w.dom().contains(rust_log()));
}

/// A list of name and value pairs is the map its entries make.
proof fn lemma_pairs_map_entries(es: Seq<(String, String)>)
    ensures
        pairs_map(pairs_view(es)) == crate::keyed::entries_map(es),
    decreases es.len(),
{
    if es.len() > 0 {
        assert(pairs_view(es).drop_last() =~= pairs_view(es.drop_last()));
        lemma_pairs_map_entries(es.drop_last());
    }
}

/// What each executor runs: the instance of an application that enters
/// sessions and runs their tasks.
pub trait Shim {
    fn on_session_enter(&mut self, ctx: &SessionContext) -> Result<(), FlameError>;

    fn on_task_invoke(&mut self, ctx: &TaskContext) -> Result<Option<Vec<u8>>, FlameError>;

    fn on_session_leave(&mut self) -> Result<(), FlameError>;
}

/// A shim that only records the session it serves and answers every task
/// with no output.
pub struct LogShim {
    session_id: Option<String>,
}

impl LogShim {
    pub fn new() -> (r: Self)
        ensures
            r.session() is None,
    {
        LogShim { session_id: None }
    }

    /// The session the shim entered last, if any.
    pub closed spec fn session(&self) -> Option<Seq<char>> {
        opt_text(self.session_id)
    }
}

impl Shim for LogShim {
    fn on_session_enter(&mut self, ctx: &SessionContext) -> (r: Result<(), FlameError>)
        ensures
            r is Ok,
            final(self).session() == Some(ctx.session_id@),
    {
        self.session_id = Some(ctx.session_id.clone());
        Ok(())
    }

    fn on_task_invoke(&mut self, ctx: &TaskContext) -> (r: Result<Option<Vec<u8>>, FlameError>)
        ensures
            r matches Ok(None),
            final(self).session() == old(self).session(),
    {
        Ok(None)
    }

    fn on_session_leave(&mut self) -> (r: Result<(), FlameError>)
        ensures
            r is Ok,
            final(self).session() == old(self).session(),
    {
        Ok(())
    }
}

/// The message when a shim has no connection to its instance.
pub open spec fn no_connection_message(endpoint: Seq<char>) -> Seq<char> {
    "no connection to service at <"@ + endpoint + ">"@
}

/// A shim that talks to its instance over the socket of its working
/// directory.
pub struct GrpcShim {
    endpoint: String,
    connected: bool,
}

impl GrpcShim {
    /// A shim for the instance serving on the socket of `work_dir`, not yet
    /// connected.
    pub fn new(work_dir: &ExecutorWorkDir) -> (r: Result<Self, FlameError>)
        ensures
            r matches Ok(s) && s.endpoint_view() == work_dir.socket_view() && !s.is_connected(),
    {
        Ok(GrpcShim { endpoint: work_dir.socket().to_string(), connected: false })
    }

    pub closed spec fn endpoint_view(&self) -> Seq<char> {
        self.endpoint@
    }

    pub closed spec fn is_connected(&self) -> bool {
        self.connected
    }

    pub fn endpoint(&self) -> (r: &str)
        ensures
            r@ == self.endpoint_view(),
    {
        self.endpoint.as_str()
    }

    /// Records that the connection to the instance is made.
    pub fn connected(&mut self)
        ensures
            final(self).is_connected(),
            final(self).endpoint_view() == old(self).endpoint_view(),
    {
        self.connected = true;
    }

    /// Drops the connection.
    pub fn close(&mut self)
        ensures
            !final(self).is_connected(),
            final(self).endpoint_view() == old(self).endpoint_view(),
    {
        self.connected = false;
    }

    /// The error for a call made with no connection.
    pub fn no_connection(&self) -> (r: FlameError)
        ensures
            r matches FlameError::Internal(m) && m@ == no_connection_message(self.endpoint_view()),
    {
        let mut m = text("no connection to service at <");
        m.append(self.endpoint.as_str());
        m.append(">");
        proof {
            reveal_strlit("no connection to service at <");
            reveal_strlit(">");
        }
        FlameError::Internal(m)
    }
}

/// What the shim makes of an instance's answer to a session call: success
/// for code 0, else an `Internal` error with the instance's message, empty
/// when it sent none.
pub fn check_reply(return_code: i32, message: Option<String>) -> (r: Result<(), FlameError>)
    ensures
        return_code == 0 ==> r is Ok,
        return_code != 0 ==> (r matches Err(FlameError::Internal(m)) && m@ == match message {
            Some(t) => t@,
            None => Seq::<char>::empty(),
        }),
{
    if return_code == 0 {
        Ok(())
    } else {
        match message {
            Some(t) => Err(FlameError::Internal(t)),
            None => Err(FlameError::Internal(String::new())),
        }
    }
}

/// A wait for an instance's socket to appear at `path`.
pub struct WaitForSvcSocketFuture {
    pub path: String,
}

impl WaitForSvcSocketFuture {
    pub fn new(path: String) -> (r: Self)
        ensures
            r.path == path,
    {
        WaitForSvcSocketFuture { path }
    }

    /// One look: done once the socket exists.
    pub fn poll(&self, exists: bool) -> (r: bool)
        ensures
            r == exists,
    {
        exists
    }
}

} // verus!
