//! Reuse of the environment that a `BASH_ENV` startup file sets up.
//!
//! A non-interactive `bash -c` reads the file named by `BASH_ENV` before it runs its script. Where a
//! scope allows it, the environment which that file leaves behind is captured once, and later
//! launches with the same settings start from it.
use vstd::prelude::*;
use vstd::string::*;

use crate::environment::Environment;
use crate::text::{
    clone_optional_text, optional_text, same_optional_text, same_text, texts,
};
use crate::unix_path::{file_name, path_file_name};

verus! {

/// What decides how a process is launched.
#[derive(Debug)]
pub struct ExecParams {
    pub argv: Vec<String>,
    /// The working directory, as a path URI.
    pub cwd: String,
    pub arg0: Option<String>,
    pub tty: bool,
    pub pipe_stdin: bool,
    /// The directory, as a path URI, in which startup environments may be reused.
    pub bash_env_cache_scope: Option<String>,
    /// The file system sandbox, in its serialized form.
    pub sandbox: Option<String>,
    pub enforce_managed_network: bool,
    /// The managed network, in its serialized form.
    pub managed_network: Option<String>,
}

/// The value of [`ExecParams`].
pub struct ExecParamsView {
    pub argv: Seq<Seq<char>>,
    pub cwd: Seq<char>,
    pub arg0: Option<Seq<char>>,
    pub tty: bool,
    pub pipe_stdin: bool,
    pub bash_env_cache_scope: Option<Seq<char>>,
    pub sandbox: Option<Seq<char>>,
    pub enforce_managed_network: bool,
    pub managed_network: Option<Seq<char>>,
}

impl View for ExecParams {
    type V = ExecParamsView;

    open spec fn view(&self) -> ExecParamsView {
        ExecParamsView {
            argv: texts(self.argv@),
            cwd: self.cwd@,
            arg0: optional_text(self.arg0),
            tty: self.tty,
            pipe_stdin: self.pipe_stdin,
            bash_env_cache_scope: optional_text(self.bash_env_cache_scope),
            sandbox: optional_text(self.sandbox),
            enforce_managed_network: self.enforce_managed_network,
            managed_network: optional_text(self.managed_network),
        }
    }
}

/// Everything that a captured environment depends on.
#[derive(Debug)]
pub struct CacheKey {
    scope: String,
    shell: String,
    cwd: String,
    environment: Environment,
    sandbox: Option<String>,
    enforce_managed_network: bool,
    managed_network: Option<String>,
}

/// The value of a [`CacheKey`].
pub struct CacheKeyView {
    pub scope: Seq<char>,
    pub shell: Seq<char>,
    pub cwd: Seq<char>,
    pub environment: Map<Seq<char>, Seq<char>>,
    pub sandbox: Option<Seq<char>>,
    pub enforce_managed_network: bool,
    pub managed_network: Option<Seq<char>>,
}

impl View for CacheKey {
    type V = CacheKeyView;

    closed spec fn view(&self) -> CacheKeyView {
        CacheKeyView {
            scope: self.scope@,
            shell: self.shell@,
            cwd: self.cwd@,
            environment: self.environment@,
            sandbox: optional_text(self.sandbox),
            enforce_managed_network: self.enforce_managed_network,
            managed_network: optional_text(self.managed_network),
        }
    }
}

/// Whether a launch is a plain `bash -c <script>` inside the scope, with a startup file to read.
pub open spec fn reads_startup_file(
    params: ExecParamsView,
    environment: Map<Seq<char>, Seq<char>>,
    cwd_in_scope: bool,
) -> bool {
    &&& params.bash_env_cache_scope is Some
    &&& params.argv.len() == 3
    &&& params.argv[1] == "-c"@
    &&& file_name(params.argv[0]) == Some("bash"@)
    &&& !params.tty
    &&& !params.pipe_stdin
    &&& params.arg0 is None
    &&& cwd_in_scope
    &&& environment.contains_key("BASH_ENV"@)
    &&& environment["BASH_ENV"@].len() > 0
}

/// The key of a launch; none where its environment is not reused.
pub open spec fn cache_key(
    params: ExecParamsView,
    environment: Map<Seq<char>, Seq<char>>,
    cwd_in_scope: bool,
) -> Option<CacheKeyView> {
    if reads_startup_file(params, environment, cwd_in_scope) {
        Some(
            CacheKeyView {
                scope: params.bash_env_cache_scope->Some_0,
                shell: params.argv[0],
                cwd: params.cwd,
                environment,
                sandbox: params.sandbox,
                enforce_managed_network: params.enforce_managed_network,
                managed_network: params.managed_network,
            },
        )
    } else {
        None
    }
}

/// The value of an optional key.
pub open spec fn optional_key(key: Option<CacheKey>) -> Option<CacheKeyView> {
    match key {
        Some(key) => Some(key@),
        None => None,
    }
}

impl CacheKey {
    /// The key of a launch. `cwd_in_scope` says whether the working directory lies in the scope.
    pub fn new(params: &ExecParams, environment: &Environment, cwd_in_scope: bool) -> (key: Option<
        CacheKey,
    >)
        ensures
            optional_key(key) == cache_key(params@, environment@, cwd_in_scope),
    {
        let scope = match &params.bash_env_cache_scope {
            Some(scope) => scope.clone(),
            None => {
                return None;
            },
        };
        if params.argv.len() != 3 {
            return None;
        }
        let shell = params.argv[0].clone();
        let is_bash = match path_file_name(shell.as_str()) {
            Some(name) => same_text(name.as_str(), "bash"),
            None => false,
        };
        let has_startup_file = match environment.get("BASH_ENV") {
            Some(value) => !value.as_str().is_empty(),
            None => false,
        };
        proof {
            assert(params@.argv[0] == params.argv@[0]@);
            assert(params@.argv[1] == params.argv@[1]@);
        }
        if params.tty || params.pipe_stdin || params.arg0.is_some() || !same_text(
            params.argv[1].as_str(),
            "-c",
        ) || !is_bash || !cwd_in_scope || !has_startup_file {
            return None;
        }
        Some(
            CacheKey {
                scope,
                shell,
                cwd: params.cwd.clone(),
                environment: environment.clone(),
                sandbox: clone_optional_text(&params.sandbox),
                enforce_managed_network: params.enforce_managed_network,
                managed_network: clone_optional_text(&params.managed_network),
            },
        )
    }

    /// Whether two launches depend on the same settings.
    pub fn same(&self, other: &CacheKey) -> (same: bool)
        ensures
            same == (self@ == other@),
    {
        same_text(self.scope.as_str(), other.scope.as_str()) && same_text(
            self.shell.as_str(),
            other.shell.as_str(),
        ) && same_text(self.cwd.as_str(), other.cwd.as_str()) && self.environment.same(
            &other.environment,
        ) && same_optional_text(&self.sandbox, &other.sandbox) && self.enforce_managed_network
            == other.enforce_managed_network && same_optional_text(
            &self.managed_network,
            &other.managed_network,
        )
    }
}

/// The value of an optional environment.
pub open spec fn optional_environment(environment: Option<Environment>) -> Option<
    Map<Seq<char>, Seq<char>>,
> {
    match environment {
        Some(environment) => Some(environment@),
        None => None,
    }
}

struct CacheEntry {
    key: CacheKey,
    environment: Option<Environment>,
}

/// The latest capture: its key, and the environment that it yielded. A capture that failed is kept
/// too, without an environment.
pub struct CacheEntryView {
    pub key: CacheKeyView,
    pub environment: Option<Map<Seq<char>, Seq<char>>>,
}

/// Remembers the latest capture.
pub struct BashEnvCache {
    entry: Option<CacheEntry>,
}

impl View for BashEnvCache {
    type V = Option<CacheEntryView>;

    closed spec fn view(&self) -> Option<CacheEntryView> {
        match self.entry {
            Some(entry) => Some(
                CacheEntryView {
                    key: entry.key@,
                    environment: optional_environment(entry.environment),
                },
            ),
            None => None,
        }
    }
}

/// How a launch goes on.
pub enum LaunchStep {
    /// Launch with this environment.
    Launch { environment: Environment },
    /// Capture the environment first, then report what came of it.
    Capture { key: CacheKey, environment: Environment },
}

/// The value of a [`LaunchStep`].
pub enum LaunchStepView {
    Launch { environment: Map<Seq<char>, Seq<char>> },
    Capture { key: CacheKeyView, environment: Map<Seq<char>, Seq<char>> },
}

impl View for LaunchStep {
    type V = LaunchStepView;

    open spec fn view(&self) -> LaunchStepView {
        match *self {
            LaunchStep::Launch { environment } => LaunchStepView::Launch {
                environment: environment@,
            },
            LaunchStep::Capture { key, environment } => LaunchStepView::Capture {
                key: key@,
                environment: environment@,
            },
        }
    }
}

/// The environment that a capture leads to: the captured one, or the inherited one where the
/// capture failed.
pub open spec fn launched_environment(
    captured: Option<Map<Seq<char>, Seq<char>>>,
    inherited: Map<Seq<char>, Seq<char>>,
) -> Map<Seq<char>, Seq<char>> {
    match captured {
        Some(captured) => captured,
        None => inherited,
    }
}

/// How a launch goes on, given its key and the latest capture.
pub open spec fn launch_step(
    entry: Option<CacheEntryView>,
    key: Option<CacheKeyView>,
    environment: Map<Seq<char>, Seq<char>>,
) -> LaunchStepView {
    match (key, entry) {
        (None, _) => LaunchStepView::Launch { environment },
        (Some(key), Some(entry)) if entry.key == key => LaunchStepView::Launch {
            environment: launched_environment(entry.environment, environment),
        },
        (Some(key), _) => LaunchStepView::Capture { key, environment },
    }
}

impl Default for BashEnvCache {
    /// A cache without a capture.
    fn default() -> (cache: Self)
        ensures
            cache@ is None,
    {
        BashEnvCache { entry: None }
    }
}

impl BashEnvCache {
    /// Decides with which environment to launch. `cwd_in_scope` says whether the working directory
    /// lies in the scope that the parameters name.
    pub fn environment_for_launch(
        &self,
        params: &ExecParams,
        environment: Environment,
        cwd_in_scope: bool,
    ) -> (step: LaunchStep)
        ensures
            step@ == launch_step(
                self@,
                cache_key(params@, environment@, cwd_in_scope),
                environment@,
            ),
    {
        let key = match CacheKey::new(params, &environment, cwd_in_scope) {
            Some(key) => key,
            None => {
                return LaunchStep::Launch { environment };
            },
        };
        self.environment_for_key(key, environment)
    }

    /// Decides with which environment to launch where the launch has a key.
    pub fn environment_for_key(&self, key: CacheKey, environment: Environment) -> (step: LaunchStep)
        ensures
            step@ == launch_step(self@, Some(key@), environment@),
    {
        match &self.entry {
            Some(cached) => {
                if cached.key.same(&key) {
                    return LaunchStep::Launch {
                        environment: match &cached.environment {
                            Some(captured) => captured.clone(),
                            None => environment,
                        },
                    };
                }
            },
            None => {},
        }
        LaunchStep::Capture { key, environment }
    }

    /// Records what came of a capture, and returns the environment to launch with.
    pub fn capture_finished(
        &mut self,
        key: CacheKey,
        environment: Environment,
        captured: Option<Environment>,
    ) -> (launched: Environment)
        ensures
            final(self)@ == Some(
                (CacheEntryView { key: key@, environment: optional_environment(captured) }),
            ),
            launched@ == launched_environment(optional_environment(captured), environment@),
    {
        let launched = match &captured {
            Some(captured) => captured.clone(),
            None => environment,
        };
        self.entry = Some(CacheEntry { key, environment: captured });
        launched
    }
}

/// One launch: its key, the environment that it inherits, and what a capture would yield.
pub struct Launch {
    pub key: Option<CacheKeyView>,
    pub environment: Map<Seq<char>, Seq<char>>,
    pub captured: Option<Map<Seq<char>, Seq<char>>>,
}

/// What launches lead to: the latest capture, the environments used, and how often a capture was
/// made.
pub struct Launches {
    pub entry: Option<CacheEntryView>,
    pub environments: Seq<Map<Seq<char>, Seq<char>>>,
    pub captures: nat,
}

/// Makes launches one after the other, from a cache with the given capture.
pub open spec fn after_launches(entry: Option<CacheEntryView>, launches: Seq<Launch>) -> Launches
    decreases launches.len(),
{
    if launches.len() == 0 {
        Launches { entry, environments: Seq::empty(), captures: 0 }
    } else {
        let before = after_launches(entry, launches.drop_last());
        let launch = launches.last();
        match launch_step(before.entry, launch.key, launch.environment) {
            LaunchStepView::Launch { environment } => Launches {
                environments: before.environments.push(environment),
                ..before
            },
            LaunchStepView::Capture { key, environment } => Launches {
                entry: Some(CacheEntryView { key, environment: launch.captured }),
                environments: before.environments.push(
                    launched_environment(launch.captured, environment),
                ),
                captures: before.captures + 1,
            },
        }
    }
}

/// Whether a cache holds a capture for a key.
pub open spec fn holds_capture(entry: Option<CacheEntryView>, key: CacheKeyView) -> bool {
    entry matches Some(entry) && entry.key == key
}

/// What the capture for a key came to: the one that the cache held from the start, or else the one that
/// the first launch with the key makes. None where there is no such launch.
pub open spec fn serving_capture(
    entry: Option<CacheEntryView>,
    launches: Seq<Launch>,
    key: CacheKeyView,
) -> Option<Option<Map<Seq<char>, Seq<char>>>>
    decreases launches.len(),
{
    if holds_capture(entry, key) {
        Some(entry->Some_0.environment)
    } else if launches.len() == 0 {
        None
    } else {
        match serving_capture(entry, launches.drop_last(), key) {
            None if launches.last().key == Some(key) => Some(launches.last().captured),
            serving => serving,
        }
    }
}

/// One capture serves all launches with the same settings: whatever the cache held before, and whatever
/// launches without a key come in between, at most one of them captures, and all start from what that
/// capture led to. None captures where the cache held the capture from the start. A capture that failed
/// is not tried again either. Launches without a key use what they inherit.
pub proof fn lemma_one_capture_serves_equal_launches(
    entry: Option<CacheEntryView>,
    launches: Seq<Launch>,
    key: CacheKeyView,
)
    requires
        forall|i: int|
            0 <= i < launches.len() ==> (#[trigger] launches[i]).key is None || launches[i].key
                == Some(key) && launches[i].environment == key.environment,
    ensures
        ({
            let after = after_launches(entry, launches);
            let serving = serving_capture(entry, launches, key);
            &&& after.captures == if !holds_capture(entry, key) && serving is Some {
                1nat
            } else {
                0nat
            }
            &&& after.entry == match serving {
                Some(captured) => Some(CacheEntryView { key, environment: captured }),
                None => entry,
            }
            &&& after.environments.len() == launches.len()
            &&& forall|i: int|
                0 <= i < launches.len() ==> #[trigger] after.environments[i] == if launches[i].key
                    == Some(key) {
                    launched_environment(serving->Some_0, key.environment)
                } else {
                    launches[i].environment
                }
            &&& (exists|i: int| 0 <= i < launches.len() && (#[trigger] launches[i]).key == Some(key))
                ==> serving is Some
        }),
    decreases launches.len(),
{
    if launches.len() > 0 {
        let earlier = launches.drop_last();
        let last = launches.len() - 1;
        assert forall|i: int| 0 <= i < earlier.len() implies (#[trigger] earlier[i]).key is None
            || earlier[i].key == Some(key) && earlier[i].environment == key.environment by {
            assert(earlier[i] == launches[i]);
        }
        lemma_one_capture_serves_equal_launches(entry, earlier, key);
        assert(launches.last() == launches[last]);
        let before = after_launches(entry, earlier);
        let after = after_launches(entry, launches);
        let serving = serving_capture(entry, launches, key);
        assert forall|i: int| 0 <= i < launches.len() implies #[trigger] after.environments[i]
            == if launches[i].key == Some(key) {
            launched_environment(serving->Some_0, key.environment)
        } else {
            launches[i].environment
        } by {
            if i < last {
                assert(earlier[i] == launches[i]);
                assert(after.environments[i] == before.environments[i]);
                if launches[i].key == Some(key) {
                    assert(earlier[i].key == Some(key));
                }
            }
        }
        if exists|i: int| 0 <= i < launches.len() && (#[trigger] launches[i]).key == Some(key) {
            let i = choose|i: int|
                0 <= i < launches.len() && (#[trigger] launches[i]).key == Some(key);
            if i < last {
                assert(earlier[i].key == Some(key));
            }
        }
    }
}

/// The key of a launch carries the environment that the launch inherits, so equal keys mean equal
/// inherited environments.
pub proof fn lemma_key_carries_the_environment(
    params: ExecParamsView,
    environment: Map<Seq<char>, Seq<char>>,
    cwd_in_scope: bool,
)
    ensures
        cache_key(params, environment, cwd_in_scope) matches Some(key) ==> key.environment
            == environment,
{
}

/// A launch with other settings does not use what was captured: any difference in the shell, the
/// working directory, the inherited environment, the scope, the sandbox or the network leads to a
/// capture of its own.
pub proof fn lemma_other_settings_capture_again(
    first: ExecParamsView,
    first_environment: Map<Seq<char>, Seq<char>>,
    second: ExecParamsView,
    second_environment: Map<Seq<char>, Seq<char>>,
    captured: Option<Map<Seq<char>, Seq<char>>>,
)
    requires
        reads_startup_file(first, first_environment, true),
        reads_startup_file(second, second_environment, true),
    ensures
        launch_step(
            Some(
                (CacheEntryView {
                    key: cache_key(first, first_environment, true)->Some_0,
                    environment: captured,
                }),
            ),
            cache_key(second, second_environment, true),
            second_environment,
        ) is Capture <==> {
            ||| first.argv[0] != second.argv[0]
            ||| first.cwd != second.cwd
            ||| first_environment != second_environment
            ||| first.bash_env_cache_scope != second.bash_env_cache_scope
            ||| first.sandbox != second.sandbox
            ||| first.enforce_managed_network != second.enforce_managed_network
            ||| first.managed_network != second.managed_network
        },
{
}

/// A launch reuses a captured environment only under every one of these conditions, and always under all
/// of them: a scope is given and holds the working directory; the command is `bash`, `-c` and a script; it
/// has no terminal, no piped input and no other name for itself; and `BASH_ENV` is set to something. Its
/// key then holds all that the startup file could see.
pub proof fn lemma_which_launches_share_a_capture(
    params: ExecParams,
    environment: Map<Seq<char>, Seq<char>>,
    cwd_in_scope: bool,
)
    ensures
        cache_key(params@, environment, cwd_in_scope) is Some <==> {
            &&& params.bash_env_cache_scope is Some && cwd_in_scope
            &&& params.argv@.len() == 3 && params.argv@[1]@ == "-c"@ && file_name(
                params.argv@[0]@,
            ) == Some("bash"@)
            &&& !params.tty && !params.pipe_stdin && params.arg0 is None
            &&& environment.contains_key("BASH_ENV"@) && environment["BASH_ENV"@] != ""@
        },
        cache_key(params@, environment, cwd_in_scope) matches Some(key) ==> {
            &&& params.bash_env_cache_scope matches Some(scope) && scope@ == key.scope
            &&& key.shell == params.argv@[0]@
            &&& key.cwd == params.cwd@
            &&& key.environment == environment
            &&& key.sandbox == optional_text(params.sandbox)
            &&& key.enforce_managed_network == params.enforce_managed_network
            &&& key.managed_network == optional_text(params.managed_network)
        },
{
    reveal_strlit("");
    if environment.contains_key("BASH_ENV"@) && environment["BASH_ENV"@].len() == 0 {
        assert(environment["BASH_ENV"@] =~= ""@);
    }
}

/// The script of a launch does not count: launches that differ in nothing else have one key.
pub proof fn lemma_scripts_share_a_capture(
    params: ExecParamsView,
    script: Seq<char>,
    environment: Map<Seq<char>, Seq<char>>,
    cwd_in_scope: bool,
)
    requires
        params.argv.len() == 3,
    ensures
        cache_key(
            ExecParamsView { argv: params.argv.update(2, script), ..params },
            environment,
            cwd_in_scope,
        ) == cache_key(params, environment, cwd_in_scope),
{
}

/// A launch without a key starts from what it inherits. One with a key captures unless the latest capture
/// is for that key; then it starts from what was captured, or from what it inherits where that capture had
/// failed.
pub proof fn lemma_what_a_launch_starts_from(
    entry: Option<CacheEntryView>,
    key: CacheKeyView,
    environment: Map<Seq<char>, Seq<char>>,
    captured: Map<Seq<char>, Seq<char>>,
)
    ensures
        launch_step(entry, None, environment) == (LaunchStepView::Launch { environment }),
        launch_step(None, Some(key), environment) == (LaunchStepView::Capture { key, environment }),
        launch_step(
            Some((CacheEntryView { key, environment: Some(captured) })),
            Some(key),
            environment,
        ) == (LaunchStepView::Launch { environment: captured }),
        launch_step(Some((CacheEntryView { key, environment: None })), Some(key), environment) == (
        LaunchStepView::Launch { environment }),
        entry matches Some(other) && other.key != key ==> launch_step(entry, Some(key), environment)
            == (LaunchStepView::Capture { key, environment }),
        launched_environment(Some(captured), environment) == captured,
        launched_environment(None, environment) == environment,
{
}

} // verus!
