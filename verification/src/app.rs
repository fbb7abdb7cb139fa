//! The builder/lifecycle staging area: the mutable, single-owner Builder of
//! the Building state, the frozen App it becomes, and the web starter that
//! turns accumulated router fragments and the server configuration into one
//! scheduled serving task.
//!
//! Building is strictly sequential: starters run in the order the caller
//! composes them, each with exclusive access to the builder. Freezing is
//! one-way: `build` seals the registry and yields the immutable App the run
//! loop consumes exactly once.

use vstd::prelude::*;

use std::sync::Arc;

use crate::component::Component;
use crate::component::ComponentView;
use crate::component::components_deep;
use crate::config::ConfigTree;
use crate::config::ConfigValue;
use crate::config::FieldShape;
use crate::config::FieldShapeView;
use crate::config::ShapeDef;
use crate::config::spec_extract;
use crate::config::ValueKind;
use crate::config::ValueView;
use crate::errors::BootError;
use crate::errors::ErrView;
use crate::inject::CtorOutcome;
use crate::inject::Service;
use crate::inject::ServiceDescriptor;
use crate::inject::ctors_deep;
use crate::inject::resolve_service;
use crate::inject::spec_resolve_service;
use crate::lifecycle::RunState;
use crate::lifecycle::StateView;
use crate::lifecycle::OutcomeView;
use crate::lifecycle::RunOutcome;
use crate::registry::ComponentRegistry;
use crate::registry::SealedRegistry;
use crate::registry::spec_assoc;
use crate::route::RouteBinding;
use crate::route::RouteBindingView;
use crate::route::bindings_deep;
use crate::route::clone_bindings;
use crate::route::lemma_bindings_deep_concat;

verus! {

/// The type key under which the accumulated router fragments live.
pub const ROUTERS_KEY: u64 = 1;

/// The server settings a web starter schedules with.
#[derive(Clone, Copy, PartialEq, Eq, Structural, Debug)]
pub struct ServerConfig {
    pub port: u16,
    pub graceful: bool,
    pub connect_info: bool,
}

impl View for ServerConfig {
    type V = ServerConfig;

    open spec fn view(&self) -> ServerConfig {
        *self
    }
}

/// The server settings are themselves a config-backed service: they are built
/// from the `web` section alone, ignoring the registry.
impl Service for ServerConfig {
    open spec fn build_spec(
        reg: Seq<(u64, ComponentView)>,
        cfg: Seq<(Seq<char>, ValueView)>,
    ) -> Result<ServerConfig, ErrView> {
        match spec_extract(cfg, "web"@, spec_web_fields()) {
            Err(e) => Err(e),
            Ok(vals) => spec_server_config(vals),
        }
    }

    fn build(registry: &ComponentRegistry, config: &ConfigTree) -> (r: Result<
        ServerConfig,
        BootError,
    >) {
        let shape = web_shape();
        let values = match config.extract("web", &shape) {
            Err(e) => {
                return Err(e);
            },
            Ok(values) => values,
        };
        server_config_from_values(&values)
    }
}

/// The plan of one serving task: the merged router and the server settings.
#[derive(PartialEq, Eq, Debug)]
pub struct ServePlan {
    pub routes: Vec<RouteBinding>,
    pub server: ServerConfig,
}

/// The mathematical value of a [`ServePlan`].
pub struct ServePlanView {
    pub routes: Seq<RouteBindingView>,
    pub server: ServerConfig,
}

impl View for ServePlan {
    type V = ServePlanView;

    open spec fn view(&self) -> ServePlanView {
        ServePlanView { routes: bindings_deep(self.routes@), server: self.server }
    }
}

/// What one scheduled task does.
#[derive(PartialEq, Eq, Debug)]
pub enum TaskKind {
    /// Serve the merged router with the given settings.
    Serve(ServePlan),
    /// Any other unit of concurrent work, by name; the embedding application
    /// gives it its behaviour.
    Custom(String),
}

/// The mathematical value of a [`TaskKind`].
pub enum TaskKindView {
    Serve(ServePlanView),
    Custom(Seq<char>),
}

impl View for TaskKind {
    type V = TaskKindView;

    open spec fn view(&self) -> TaskKindView {
        match self {
            TaskKind::Serve(p) => TaskKindView::Serve(p@),
            TaskKind::Custom(s) => TaskKindView::Custom(s@),
        }
    }
}

/// One scheduled task: contributed during Building, run during Running.
#[derive(PartialEq, Eq, Debug)]
pub struct TaskSpec {
    pub id: u64,
    pub kind: TaskKind,
}

/// The mathematical value of a [`TaskSpec`].
pub struct TaskView {
    pub id: u64,
    pub kind: TaskKindView,
}

impl View for TaskSpec {
    type V = TaskView;

    open spec fn view(&self) -> TaskView {
        TaskView { id: self.id, kind: self.kind@ }
    }
}

/// The mathematical values of a task list, in order.
pub open spec fn tasks_deep(s: Seq<TaskSpec>) -> Seq<TaskView> {
    s.map(|i: int, t: TaskSpec| t@)
}

/// The mathematical value of a builder or an application: the configuration,
/// the registry's singletons and groups, the scheduled tasks, and the log of
/// installed plugin entries.
pub struct BuilderView {
    pub config: Seq<(Seq<char>, ValueView)>,
    pub singles: Seq<(u64, ComponentView)>,
    pub groups: Seq<(u64, Seq<ComponentView>)>,
    pub tasks: Seq<TaskView>,
    pub install_log: Seq<u64>,
}

/// The mutable, single-owner staging area of the Building state.
pub struct AppBuilder {
    config: ConfigTree,
    registry: ComponentRegistry,
    tasks: Vec<TaskSpec>,
    install_log: Vec<u64>,
}

impl View for AppBuilder {
    type V = BuilderView;

    closed spec fn view(&self) -> BuilderView {
        BuilderView {
            config: self.config@,
            singles: self.registry@.singles,
            groups: self.registry@.groups,
            tasks: tasks_deep(self.tasks@),
            install_log: self.install_log@,
        }
    }
}

impl AppBuilder {
    /// A fresh builder over a loaded configuration: nothing registered,
    /// nothing scheduled, nothing installed.
    pub fn new(config: ConfigTree) -> (r: AppBuilder)
        ensures
            r@.config == config@,
            r@.singles == Seq::<(u64, ComponentView)>::empty(),
            r@.groups == Seq::<(u64, Seq<ComponentView>)>::empty(),
            r@.tasks == Seq::<TaskView>::empty(),
            r@.install_log == Seq::<u64>::empty(),
    {
        let r = AppBuilder {
            config,
            registry: ComponentRegistry::new(),
            tasks: Vec::new(),
            install_log: Vec::new(),
        };
        proof {
            assert(r@.tasks =~= Seq::<TaskView>::empty());
        }
        r
    }

    /// Typed extraction from the configuration at the shape's own prefix.
    pub fn get_config(&self, shape: &ShapeDef) -> (r: Result<Vec<ConfigValue>, BootError>)
        ensures
            match r {
                Ok(values) => spec_extract(self@.config, shape@.prefix, shape@.fields) == Ok::<
                    Seq<ValueView>,
                    ErrView,
                >(values@.map(|i: int, v: ConfigValue| v@)),
                Err(e) => spec_extract(self@.config, shape@.prefix, shape@.fields) == Err::<
                    Seq<ValueView>,
                    ErrView,
                >(e@),
            },
    {
        self.config.extract(shape.prefix.clone().as_str(), shape)
    }

    /// Registers a singleton; one-shot, rejecting a taken key.
    pub fn add_component(&mut self, type_key: u64, value: Component) -> (r: Result<(), BootError>)
        ensures
            final(self)@.config == old(self)@.config,
            final(self)@.tasks == old(self)@.tasks,
            final(self)@.install_log == old(self)@.install_log,
            final(self)@.groups == old(self)@.groups,
            match r {
                Ok(_) => spec_assoc(old(self)@.singles, type_key) is None && final(self)@.singles
                    == old(self)@.singles.push((type_key, value@)),
                Err(e) => e@ == (ErrView::DuplicateComponent { type_key }) && spec_assoc(
                    old(self)@.singles,
                    type_key,
                ) is Some && final(self)@ == old(self)@,
            },
    {
        self.registry.insert(type_key, value)
    }

    /// The singleton under `type_key`, as a shared read-only handle.
    pub fn get_component(&self, type_key: u64) -> (r: Option<&Component>)
        ensures
            match r {
                Option::Some(c) => spec_assoc(self@.singles, type_key) == Some(c@),
                Option::None => spec_assoc(self@.singles, type_key) is None,
            },
    {
        self.registry.get(type_key)
    }

    /// The accumulating group under `type_key`, if any.
    pub fn get_group(&self, type_key: u64) -> (r: Option<&Vec<Component>>)
        ensures
            match r {
                Option::Some(g) => spec_assoc(self@.groups, type_key) == Some(components_deep(g@)),
                Option::None => spec_assoc(self@.groups, type_key) is None,
            },
    {
        self.registry.get_group(type_key)
    }

    /// Contributes one router fragment to the accumulating router group; each
    /// independent plugin adds its own without knowing about the others.
    pub fn push_router(&mut self, fragment: Vec<RouteBinding>)
        ensures
            final(self)@.config == old(self)@.config,
            final(self)@.tasks == old(self)@.tasks,
            final(self)@.install_log == old(self)@.install_log,
            final(self)@.singles == old(self)@.singles,
            spec_assoc(final(self)@.groups, ROUTERS_KEY) == Some(
                match spec_assoc(old(self)@.groups, ROUTERS_KEY) {
                    Option::Some(items) => items.push(
                        ComponentView::Routes(bindings_deep(fragment@)),
                    ),
                    Option::None => seq![ComponentView::Routes(bindings_deep(fragment@))],
                },
            ),
            forall|k2: u64|
                k2 != ROUTERS_KEY ==> spec_assoc(final(self)@.groups, k2) == spec_assoc(
                    old(self)@.groups,
                    k2,
                ),
    {
        self.registry.accumulate(ROUTERS_KEY, Component::Routes(fragment))
    }

    /// Appends one scheduled task; its id is its position in the schedule.
    pub fn add_scheduler(&mut self, kind: TaskKind) -> (r: u64)
        ensures
            r == old(self)@.tasks.len() as u64,
            final(self)@.tasks == old(self)@.tasks.push(
                TaskView { id: old(self)@.tasks.len() as u64, kind: kind@ },
            ),
            final(self)@.config == old(self)@.config,
            final(self)@.singles == old(self)@.singles,
            final(self)@.groups == old(self)@.groups,
            final(self)@.install_log == old(self)@.install_log,
    {
        let id = self.tasks.len() as u64;
        let ghost before = tasks_deep(self.tasks@);
        let ghost kv = kind@;
        self.tasks.push(TaskSpec { id, kind });
        proof {
            assert(tasks_deep(self.tasks@) =~= before.push(TaskView { id, kind: kv }));
        }
        id
    }

    /// Records that one plugin entry was installed.
    pub fn log_install(&mut self, entry_id: u64)
        ensures
            final(self)@.install_log == old(self)@.install_log.push(entry_id),
            final(self)@.config == old(self)@.config,
            final(self)@.singles == old(self)@.singles,
            final(self)@.groups == old(self)@.groups,
            final(self)@.tasks == old(self)@.tasks,
    {
        self.install_log.push(entry_id);
    }

    /// The log of installed plugin entries, in installation order.
    pub fn install_log(&self) -> (r: &Vec<u64>)
        ensures
            r@ == self@.install_log,
    {
        &self.install_log
    }

    /// Resolves one service descriptor against the registry and the
    /// configuration, with the constructor outcomes the embedding application
    /// reports, and registers the resolved service as a singleton when the
    /// descriptor asks for one. Fail-fast: a resolution error, or a taken
    /// type key, leaves the builder untouched.
    pub fn install_service(
        &mut self,
        desc: &ServiceDescriptor,
        ctors: &Vec<CtorOutcome>,
    ) -> (r: Result<(), BootError>)
        ensures
            final(self)@.config == old(self)@.config,
            final(self)@.groups == old(self)@.groups,
            final(self)@.tasks == old(self)@.tasks,
            final(self)@.install_log == old(self)@.install_log,
            match spec_resolve_service(
                desc@,
                old(self)@.singles,
                old(self)@.config,
                ctors_deep(ctors@),
            ) {
                Err(e) => r == Err::<(), BootError>(r->Err_0) && r->Err_0@ == e && final(self)@
                    == old(self)@,
                Ok(rsv) => {
                    if desc@.singleton {
                        if spec_assoc(old(self)@.singles, desc@.type_key) is Some {
                            r is Err && r->Err_0@ == (ErrView::DuplicateComponent {
                                type_key: desc@.type_key,
                            }) && final(self)@ == old(self)@
                        } else {
                            r is Ok && final(self)@.singles == old(self)@.singles.push(
                                (desc@.type_key, ComponentView::Service(rsv)),
                            )
                        }
                    } else {
                        r is Ok && final(self)@ == old(self)@
                    }
                },
            },
    {
        let resolved = match resolve_service(desc, &self.registry, &self.config, ctors) {
            Err(e) => {
                return Err(e);
            },
            Ok(rs) => rs,
        };
        if desc.singleton {
            match self.registry.insert(desc.type_key, Component::Service(resolved)) {
                Err(e) => Err(e),
                Ok(_) => Ok(()),
            }
        } else {
            Ok(())
        }
    }

    /// Runs one starter, handing it exclusive access to the builder; what it
    /// did is its declared effect.
    pub fn run_starter<S: Starter>(&mut self, starter: &S) -> (r: Result<(), BootError>)
        ensures
            starter.effect(
                old(self)@,
                final(self)@,
                match r {
                    Ok(_) => None,
                    Err(e) => Some(e@),
                },
            ),
    {
        starter.build(self)
    }

    /// The one-way freeze: seals the registry and yields the immutable
    /// application the run loop consumes. Nothing can be registered,
    /// accumulated or scheduled afterwards.
    pub fn build(self) -> (r: App)
        ensures
            r@ == self@,
    {
        App {
            config: self.config,
            registry: self.registry.seal(),
            tasks: self.tasks,
            install_log: self.install_log,
        }
    }
}

/// The frozen, immutable result of a completed builder; owned and consumed
/// exactly once by the run loop.
pub struct App {
    config: ConfigTree,
    registry: SealedRegistry,
    tasks: Vec<TaskSpec>,
    install_log: Vec<u64>,
}

impl View for App {
    type V = BuilderView;

    closed spec fn view(&self) -> BuilderView {
        BuilderView {
            config: self.config@,
            singles: self.registry@.singles,
            groups: self.registry@.groups,
            tasks: tasks_deep(self.tasks@),
            install_log: self.install_log@,
        }
    }
}

impl App {
    /// The sealed, read-only registry.
    pub fn registry(&self) -> (r: &SealedRegistry)
        ensures
            r@.singles == self@.singles,
            r@.groups == self@.groups,
    {
        &self.registry
    }

    /// The loaded configuration, immutable since load.
    pub fn config(&self) -> (r: &ConfigTree)
        ensures
            r@ == self@.config,
    {
        &self.config
    }

    /// The scheduled tasks, in schedule order.
    pub fn tasks(&self) -> (r: &Vec<TaskSpec>)
        ensures
            tasks_deep(r@) == self@.tasks,
    {
        &self.tasks
    }

    /// The log of installed plugin entries, in installation order.
    pub fn install_log(&self) -> (r: &Vec<u64>)
        ensures
            r@ == self@.install_log,
    {
        &self.install_log
    }
}

/// The ids of the scheduled tasks, in schedule order.
pub open spec fn spec_task_ids(tasks: Seq<TaskView>) -> Seq<u64> {
    tasks.map(|i: int, t: TaskView| t.id)
}

/// Enters the Running state: every scheduled task becomes pending; with no
/// tasks at all the run is complete at once.
pub fn start_run(app: &App) -> (r: RunState)
    ensures
        r@ == if app@.tasks.len() == 0 {
            StateView::Terminated { outcome: OutcomeView::AllCompleted }
        } else {
            StateView::Running { pending: spec_task_ids(app@.tasks) }
        },
{
    let tasks = app.tasks();
    if tasks.len() == 0 {
        proof {
            assert(app@.tasks.len() == 0);
        }
        return RunState::Terminated { outcome: RunOutcome::AllCompleted };
    }
    let mut pending: Vec<u64> = Vec::new();
    let mut i: usize = 0;
    while i < tasks.len()
        invariant
            i <= tasks.len(),
            tasks_deep(tasks@) == app@.tasks,
            app@.tasks.len() == tasks.len(),
            pending@.len() == i as int,
            forall|j: int| 0 <= j < i ==> pending@[j] == spec_task_ids(app@.tasks)[j],
        decreases tasks.len() - i,
    {
        pending.push(tasks[i].id);
        proof {
            assert(app@.tasks[i as int] == tasks@[i as int]@);
        }
        i += 1;
    }
    proof {
        assert(pending@ =~= spec_task_ids(app@.tasks));
    }
    RunState::Running { pending }
}

/// The shared state handed to request handlers while the application runs.
#[derive(Clone)]
pub struct AppState {
    /// A shared reference to the frozen application.
    pub app: Arc<App>,
}

/// A build-time participant: it configures components, contributes router
/// fragments, and may schedule one task, with exclusive access to the
/// builder. What a starter's `build` does to the builder is pinned by its own
/// declared [`Starter::effect`].
pub trait Starter {
    /// Exactly how `build` relates the builder before and after, and which
    /// error it reports.
    spec fn effect(&self, pre: BuilderView, post: BuilderView, err: Option<ErrView>) -> bool;

    /// Configures the builder; runs during Building, exactly once.
    fn build(&self, app: &mut AppBuilder) -> (r: Result<(), BootError>)
        ensures
            self.effect(
                old(app)@,
                final(app)@,
                match r {
                    Ok(_) => None,
                    Err(e) => Some(e@),
                },
            ),
    ;
}

/// A web configurator can take router fragments from independent plugins.
/// `add_router` must do exactly one thing: append the fragment to the
/// accumulated router group, disturbing nothing else the configurator holds.
pub trait WebConfigurator {
    /// The builder-shaped value this configurator shows to contracts.
    spec fn cfg(&self) -> BuilderView;

    /// Contributes one router fragment to the router under construction: the
    /// group under [`ROUTERS_KEY`] gains exactly this fragment — appended to
    /// the contributions so far, or opening the group when it is the first —
    /// and the configuration, singletons, other groups, tasks and install log
    /// are untouched.
    fn add_router(&mut self, router: Vec<RouteBinding>)
        ensures
            final(self).cfg().config == old(self).cfg().config,
            final(self).cfg().singles == old(self).cfg().singles,
            final(self).cfg().tasks == old(self).cfg().tasks,
            final(self).cfg().install_log == old(self).cfg().install_log,
            spec_assoc(final(self).cfg().groups, ROUTERS_KEY) == Some(
                match spec_assoc(old(self).cfg().groups, ROUTERS_KEY) {
                    Option::Some(items) => items.push(
                        ComponentView::Routes(bindings_deep(router@)),
                    ),
                    Option::None => seq![ComponentView::Routes(bindings_deep(router@))],
                },
            ),
            forall|k2: u64|
                k2 != ROUTERS_KEY ==> spec_assoc(final(self).cfg().groups, k2) == spec_assoc(
                    old(self).cfg().groups,
                    k2,
                ),
    ;
}

impl WebConfigurator for AppBuilder {
    open spec fn cfg(&self) -> BuilderView {
        self@
    }

    fn add_router(&mut self, router: Vec<RouteBinding>) {
        self.push_router(router)
    }
}

/// The shape of the web section of the configuration.
pub open spec fn spec_web_fields() -> Seq<FieldShapeView> {
    seq![
        FieldShapeView { name: "port"@, kind: ValueKind::Number },
        FieldShapeView { name: "graceful"@, kind: ValueKind::Truth },
        FieldShapeView { name: "connect_info"@, kind: ValueKind::Truth },
    ]
}

/// The web section's shape: prefix `web`, a port number and two flags.
pub fn web_shape() -> (r: ShapeDef)
    ensures
        r@.prefix == "web"@,
        r@.fields == spec_web_fields(),
{
    let r = ShapeDef {
        prefix: "web".to_owned(),
        fields: vec![
            FieldShape { name: "port".to_owned(), kind: ValueKind::Number },
            FieldShape { name: "graceful".to_owned(), kind: ValueKind::Truth },
            FieldShape { name: "connect_info".to_owned(), kind: ValueKind::Truth },
        ],
    };
    proof {
        assert(r@.fields =~= spec_web_fields());
    }
    r
}

/// The server settings read from the extracted web section: the port must
/// fit a port number; the two flags are taken as they are.
pub open spec fn spec_server_config(vals: Seq<ValueView>) -> Result<ServerConfig, ErrView> {
    if vals.len() != 3 {
        Err(ErrView::ConfigTypeMismatch { prefix: "web"@, detail: "port"@ })
    } else {
        match (vals[0], vals[1], vals[2]) {
            (ValueView::Number(n), ValueView::Truth(g), ValueView::Truth(c)) => {
                if 0 <= n <= 65535 {
                    Ok(ServerConfig { port: n as u16, graceful: g, connect_info: c })
                } else {
                    Err(ErrView::ConfigTypeMismatch { prefix: "web"@, detail: "port"@ })
                }
            },
            _ => Err(ErrView::ConfigTypeMismatch { prefix: "web"@, detail: "port"@ }),
        }
    }
}

/// Reads the server settings out of the extracted web section.
pub fn server_config_from_values(values: &Vec<ConfigValue>) -> (r: Result<ServerConfig, BootError>)
    ensures
        match r {
            Ok(sc) => spec_server_config(values@.map(|i: int, v: ConfigValue| v@)) == Ok::<
                ServerConfig,
                ErrView,
            >(sc),
            Err(e) => spec_server_config(values@.map(|i: int, v: ConfigValue| v@)) == Err::<
                ServerConfig,
                ErrView,
            >(e@),
        },
{
    let ghost vv = values@.map(|i: int, v: ConfigValue| v@);
    if values.len() != 3 {
        return Err(
            BootError::ConfigTypeMismatch { prefix: "web".to_owned(), detail: "port".to_owned() },
        );
    }
    proof {
        assert(vv[0] == values@[0]@);
        assert(vv[1] == values@[1]@);
        assert(vv[2] == values@[2]@);
    }
    match (&values[0], &values[1], &values[2]) {
        (ConfigValue::Number(n), ConfigValue::Truth(g), ConfigValue::Truth(c)) => {
            if 0 <= *n && *n <= 65535 {
                Ok(ServerConfig { port: *n as u16, graceful: *g, connect_info: *c })
            } else {
                Err(
                    BootError::ConfigTypeMismatch {
                        prefix: "web".to_owned(),
                        detail: "port".to_owned(),
                    },
                )
            }
        },
        _ => Err(
            BootError::ConfigTypeMismatch { prefix: "web".to_owned(), detail: "port".to_owned() },
        ),
    }
}

/// The router fragments found in the accumulated group, merged in
/// contribution order, from item `i` on; anything that is not a fragment is
/// passed over.
pub open spec fn spec_merge_routes(items: Seq<ComponentView>, i: int) -> Seq<RouteBindingView>
    decreases items.len() - i,
{
    if i < 0 || i >= items.len() {
        Seq::empty()
    } else {
        match items[i] {
            ComponentView::Routes(bs) => bs + spec_merge_routes(items, i + 1),
            _ => spec_merge_routes(items, i + 1),
        }
    }
}

/// Merges the accumulated router fragments into one router, in the order
/// they were contributed.
pub fn merge_route_group(items: &Vec<Component>) -> (r: Vec<RouteBinding>)
    ensures
        bindings_deep(r@) == spec_merge_routes(components_deep(items@), 0),
{
    let ghost iv = components_deep(items@);
    let mut r: Vec<RouteBinding> = Vec::new();
    proof {
        assert(bindings_deep(r@) =~= Seq::<RouteBindingView>::empty());
    }
    let mut i: usize = 0;
    while i < items.len()
        invariant
            i <= items.len(),
            iv == components_deep(items@),
            iv.len() == items.len(),
            spec_merge_routes(iv, 0) == bindings_deep(r@) + spec_merge_routes(iv, i as int),
        decreases items.len() - i,
    {
        let ghost racc = bindings_deep(r@);
        proof {
            assert(iv[i as int] == items@[i as int]@);
        }
        match &items[i] {
            Component::Routes(bs) => {
                let mut cloned = clone_bindings(bs);
                let ghost clonedv = cloned@;
                let ghost rv0 = r@;
                r.append(&mut cloned);
                proof {
                    assert(r@ == rv0 + clonedv);
                    lemma_bindings_deep_concat(rv0, clonedv);
                    assert(racc + (bindings_deep(clonedv) + spec_merge_routes(iv, i + 1)) =~= (racc
                        + bindings_deep(clonedv)) + spec_merge_routes(iv, i + 1));
                }
            },
            _ => {
            },
        }
        i += 1;
    }
    proof {
        assert(bindings_deep(r@) + Seq::<RouteBindingView>::empty() =~= bindings_deep(r@));
    }
    r
}

/// What the web starter does to a builder, exactly: on a readable web
/// section with a valid port, one serving task is scheduled over the merged
/// router fragments and nothing else changes; otherwise the configuration
/// error is reported and the builder is left untouched.
pub open spec fn spec_web_build(pre: BuilderView) -> Result<(ServerConfig, Seq<RouteBindingView>), ErrView> {
    match spec_extract(pre.config, "web"@, spec_web_fields()) {
        Err(e) => Err(e),
        Ok(vals) => match spec_server_config(vals) {
            Err(e) => Err(e),
            Ok(sc) => {
                let items = match spec_assoc(pre.groups, ROUTERS_KEY) {
                    Option::Some(items) => items,
                    Option::None => Seq::empty(),
                };
                Ok((sc, spec_merge_routes(items, 0)))
            },
        },
    }
}

/// The effect of [`WebStarter::build`].
pub open spec fn spec_web_effect(pre: BuilderView, post: BuilderView, err: Option<ErrView>) -> bool {
    match spec_web_build(pre) {
        Err(e) => err == Some(e) && post == pre,
        Ok((sc, routes)) => err.is_none() && post == (BuilderView {
            tasks: pre.tasks.push(
                TaskView {
                    id: pre.tasks.len() as u64,
                    kind: TaskKindView::Serve(ServePlanView { routes, server: sc }),
                },
            ),
            ..pre
        }),
    }
}

/// The web starter: reads the web section of the configuration, merges the
/// router fragments contributed so far into one router, and schedules the
/// serving task.
pub struct WebStarter;

impl WebStarter {
    /// Reads the web configuration, merges the contributed router fragments,
    /// and schedules one serving task; on a configuration error nothing
    /// changes and the error propagates.
    pub fn build_web(&self, app: &mut AppBuilder) -> (r: Result<(), BootError>)
        ensures
            spec_web_effect(
                old(app)@,
                final(app)@,
                match r {
                    Ok(_) => None,
                    Err(e) => Some(e@),
                },
            ),
    {
        let shape = web_shape();
        let values = match app.get_config(&shape) {
            Err(e) => {
                return Err(e);
            },
            Ok(values) => values,
        };
        let server = match server_config_from_values(&values) {
            Err(e) => {
                return Err(e);
            },
            Ok(sc) => sc,
        };
        let routes = match app.get_group(ROUTERS_KEY) {
            Option::Some(items) => merge_route_group(items),
            Option::None => Vec::new(),
        };
        proof {
            assert(bindings_deep(Seq::<RouteBinding>::empty()) =~= Seq::<RouteBindingView>::empty());
        }
        app.add_scheduler(TaskKind::Serve(ServePlan { routes, server }));
        Ok(())
    }
}

impl Starter for WebStarter {
    open spec fn effect(&self, pre: BuilderView, post: BuilderView, err: Option<ErrView>) -> bool {
        spec_web_effect(pre, post, err)
    }

    fn build(&self, app: &mut AppBuilder) -> (r: Result<(), BootError>) {
        self.build_web(app)
    }
}

} // verus!
