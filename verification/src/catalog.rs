//! The static plugin catalog: the process-wide, append-only collection of
//! self-registering plugin entries. Each plugin-bearing declaration (a
//! service or a route handler) contributes exactly one entry, with no module
//! needing to know about any other. At startup the catalog is walked exactly
//! once and every entry installs itself.
//!
//! Iteration order is the submission order of one process run; it is not
//! guaranteed to match source declaration order, so installation must be
//! order-independent (a documented limitation, not worked around here).

use vstd::prelude::*;

use crate::app::AppBuilder;
use crate::component::ComponentView;
use crate::config::ValueView;
use crate::errors::BootError;
use crate::errors::ErrView;
use crate::inject::CtorOutcome;
use crate::inject::CtorOutcomeView;
use crate::inject::ServiceDescriptor;
use crate::inject::ServiceDescView;
use crate::inject::ctors_deep;
use crate::inject::spec_resolve_service;
use crate::registry::spec_assoc;
use crate::route::HandlerRegistrar;
use crate::route::Route;
use crate::route::RouteBinding;
use crate::route::RouteView;
use crate::route::RouteBindingView;
use crate::route::bindings_deep;
use crate::route::spec_bindings;

verus! {

/// One self-registering plugin entry: a service to resolve and register, or
/// a route handler contributing its bindings.
#[derive(Debug)]
pub enum PluginEntry {
    ServicePlugin { entry_id: u64, desc: ServiceDescriptor },
    HandlerPlugin { entry_id: u64, route: Route },
}

/// The mathematical value of a [`PluginEntry`].
pub enum PluginEntryView {
    ServicePlugin { entry_id: u64, desc: ServiceDescView },
    HandlerPlugin { entry_id: u64, route: RouteView },
}

impl View for PluginEntry {
    type V = PluginEntryView;

    open spec fn view(&self) -> PluginEntryView {
        match self {
            PluginEntry::ServicePlugin { entry_id, desc } => PluginEntryView::ServicePlugin {
                entry_id: *entry_id,
                desc: desc@,
            },
            PluginEntry::HandlerPlugin { entry_id, route } => PluginEntryView::HandlerPlugin {
                entry_id: *entry_id,
                route: route@,
            },
        }
    }
}

/// The process-wide, append-only plugin catalog, assembled before any control
/// logic runs.
pub struct PluginCatalog {
    entries: Vec<PluginEntry>,
}

impl View for PluginCatalog {
    type V = Seq<PluginEntryView>;

    closed spec fn view(&self) -> Seq<PluginEntryView> {
        self.entries@.map(|i: int, e: PluginEntry| e@)
    }
}

impl PluginCatalog {
    /// An empty catalog.
    pub fn new() -> (r: PluginCatalog)
        ensures
            r@ == Seq::<PluginEntryView>::empty(),
    {
        let r = PluginCatalog { entries: Vec::new() };
        proof {
            assert(r@ =~= Seq::<PluginEntryView>::empty());
        }
        r
    }

    /// Submits one entry; the catalog is append-only.
    pub fn submit(&mut self, entry: PluginEntry)
        ensures
            final(self)@ == old(self)@.push(entry@),
    {
        let ghost before = self@;
        let ghost ev = entry@;
        self.entries.push(entry);
        proof {
            assert(self@ =~= before.push(ev));
        }
    }

    /// How many entries were contributed.
    pub fn len(&self) -> (r: usize)
        ensures
            r == self@.len(),
    {
        self.entries.len()
    }
}

/// The router contributed by the handler entries, walked once from entry `i`
/// on: each handler's bindings, in catalog order; service entries contribute
/// nothing here.
pub open spec fn spec_auto_router(entries: Seq<PluginEntryView>, i: int) -> Seq<RouteBindingView>
    decreases entries.len() - i,
{
    if i < 0 || i >= entries.len() {
        Seq::empty()
    } else {
        match entries[i] {
            PluginEntryView::HandlerPlugin { route, .. } => spec_bindings(route)
                + spec_auto_router(entries, i + 1),
            _ => spec_auto_router(entries, i + 1),
        }
    }
}

/// Builds the router by walking the catalog exactly once and letting every
/// handler entry register itself; each entry's bindings appear exactly once,
/// in catalog order.
pub fn auto_router(catalog: &PluginCatalog) -> (r: Vec<RouteBinding>)
    ensures
        bindings_deep(r@) == spec_auto_router(catalog@, 0),
{
    let ghost cv = catalog@;
    let mut router: Vec<RouteBinding> = Vec::new();
    proof {
        assert(bindings_deep(router@) =~= Seq::<RouteBindingView>::empty());
    }
    let mut i: usize = 0;
    while i < catalog.entries.len()
        invariant
            i <= catalog.entries.len(),
            cv == catalog@,
            cv.len() == catalog.entries.len(),
            spec_auto_router(cv, 0) == bindings_deep(router@) + spec_auto_router(cv, i as int),
        decreases catalog.entries.len() - i,
    {
        let ghost racc = bindings_deep(router@);
        proof {
            assert(cv[i as int] == catalog.entries@[i as int]@);
        }
        match &catalog.entries[i] {
            PluginEntry::HandlerPlugin { entry_id: _, route } => {
                router = route.register(router);
                proof {
                    assert(racc + (spec_bindings(route@) + spec_auto_router(cv, i + 1)) =~= (racc
                        + spec_bindings(route@)) + spec_auto_router(cv, i + 1));
                }
            },
            _ => {
            },
        }
        i += 1;
    }
    proof {
        assert(bindings_deep(router@) + Seq::<RouteBindingView>::empty() =~= bindings_deep(
            router@,
        ));
    }
    router
}

/// The mathematical values of the per-entry constructor outcome lists.
pub open spec fn ctorss_deep(s: Seq<Vec<CtorOutcome>>) -> Seq<Seq<CtorOutcomeView>> {
    s.map(|i: int, v: Vec<CtorOutcome>| ctors_deep(v@))
}

/// One pass of service installation over the catalog from entry `i` on, with
/// the registry singletons as they stand: the final singletons, the ids of
/// the entries installed, and the first error if one stopped the pass.
/// Handler entries are passed over; a resolved service is registered when
/// declared a singleton, and each installed entry's id is logged once.
pub open spec fn spec_inject_from(
    entries: Seq<PluginEntryView>,
    ctorss: Seq<Seq<CtorOutcomeView>>,
    singles: Seq<(u64, ComponentView)>,
    cfg: Seq<(Seq<char>, ValueView)>,
    i: int,
) -> (Seq<(u64, ComponentView)>, Seq<u64>, Option<ErrView>)
    decreases entries.len() - i,
{
    if i < 0 || i >= entries.len() {
        (singles, Seq::empty(), None)
    } else {
        match entries[i] {
            PluginEntryView::HandlerPlugin { .. } => spec_inject_from(
                entries,
                ctorss,
                singles,
                cfg,
                i + 1,
            ),
            PluginEntryView::ServicePlugin { entry_id, desc } => {
                match spec_resolve_service(desc, singles, cfg, ctorss[i]) {
                    Err(e) => (singles, Seq::empty(), Some(e)),
                    Ok(rsv) => {
                        if desc.singleton {
                            if spec_assoc(singles, desc.type_key) is Some {
                                (
                                    singles,
                                    Seq::empty(),
                                    Some(ErrView::DuplicateComponent { type_key: desc.type_key }),
                                )
                            } else {
                                let rec = spec_inject_from(
                                    entries,
                                    ctorss,
                                    singles.push((desc.type_key, ComponentView::Service(rsv))),
                                    cfg,
                                    i + 1,
                                );
                                (rec.0, seq![entry_id] + rec.1, rec.2)
                            }
                        } else {
                            let rec = spec_inject_from(entries, ctorss, singles, cfg, i + 1);
                            (rec.0, seq![entry_id] + rec.1, rec.2)
                        }
                    },
                }
            },
        }
    }
}

/// Walks the catalog exactly once and installs every service entry into the
/// builder, in catalog order and fail-fast: each resolved service is
/// registered when declared a singleton, and each installed entry's id is
/// appended once to the builder's install log. Handler entries are left to
/// [`auto_router`]. `ctorss` holds, per catalog entry, the constructor
/// outcomes the embedding application reports for that entry's service.
pub fn auto_inject_service(
    app: &mut AppBuilder,
    catalog: &PluginCatalog,
    ctorss: &Vec<Vec<CtorOutcome>>,
) -> (r: Result<(), BootError>)
    requires
        ctorss@.len() == catalog@.len(),
    ensures
        final(app)@.config == old(app)@.config,
        final(app)@.groups == old(app)@.groups,
        final(app)@.tasks == old(app)@.tasks,
        ({
            let walk = spec_inject_from(
                catalog@,
                ctorss_deep(ctorss@),
                old(app)@.singles,
                old(app)@.config,
                0,
            );
            final(app)@.singles == walk.0 && final(app)@.install_log == old(app)@.install_log
                + walk.1 && (match r {
                Ok(_) => walk.2 is None,
                Err(e) => walk.2 == Some(e@),
            })
        }),
{
    let ghost cv = catalog@;
    let ghost ctv = ctorss_deep(ctorss@);
    let ghost cfg = old(app)@.config;
    let ghost singles0 = old(app)@.singles;
    let ghost log0 = old(app)@.install_log;
    let ghost groups0 = old(app)@.groups;
    let ghost tasks0 = old(app)@.tasks;
    let mut i: usize = 0;
    proof {
        assert(old(app)@.install_log + Seq::<u64>::empty() =~= old(app)@.install_log);
    }
    while i < catalog.entries.len()
        invariant
            i <= catalog.entries.len(),
            cv == catalog@,
            ctv == ctorss_deep(ctorss@),
            cv.len() == catalog.entries.len(),
            ctorss@.len() == cv.len(),
            cfg == old(app)@.config,
            singles0 == old(app)@.singles,
            log0 == old(app)@.install_log,
            groups0 == old(app)@.groups,
            tasks0 == old(app)@.tasks,
            app@.config == cfg,
            app@.groups == groups0,
            app@.tasks == tasks0,
            ({
                let whole = spec_inject_from(cv, ctv, singles0, cfg, 0);
                let rest = spec_inject_from(cv, ctv, app@.singles, cfg, i as int);
                whole.0 == rest.0 && whole.1 == app@.install_log.skip(log0.len() as int) + rest.1
                    && whole.2 == rest.2 && app@.install_log.subrange(0, log0.len() as int) == log0
                    && app@.install_log.len() >= log0.len()
            }),
        decreases catalog.entries.len() - i,
    {
        proof {
            assert(cv[i as int] == catalog.entries@[i as int]@);
            assert(ctv[i as int] == ctors_deep(ctorss@[i as int]@));
        }
        let ghost added = app@.install_log.skip(log0.len() as int);
        match &catalog.entries[i] {
            PluginEntry::HandlerPlugin { .. } => {
            },
            PluginEntry::ServicePlugin { entry_id, desc } => {
                match app.install_service(desc, &ctorss[i]) {
                    Err(e) => {
                        proof {
                            let rest = spec_inject_from(cv, ctv, app@.singles, cfg, i as int);
                            assert(rest.2 == Some(e@));
                            assert(rest.1 =~= Seq::<u64>::empty());
                            assert(added + Seq::<u64>::empty() =~= added);
                            assert(app@.install_log.subrange(0, log0.len() as int)
                                + app@.install_log.skip(log0.len() as int) =~= app@.install_log);
                        }
                        return Err(e);
                    },
                    Ok(_) => {
                        app.log_install(*entry_id);
                        proof {
                            assert(app@.install_log.skip(log0.len() as int) =~= added.push(
                                *entry_id,
                            ));
                            assert(app@.install_log.subrange(0, log0.len() as int) =~= log0);
                            assert(added.push(*entry_id) + spec_inject_from(
                                cv,
                                ctv,
                                app@.singles,
                                cfg,
                                i + 1,
                            ).1 =~= added + (seq![*entry_id] + spec_inject_from(
                                cv,
                                ctv,
                                app@.singles,
                                cfg,
                                i + 1,
                            ).1));
                        }
                    },
                }
            },
        }
        i += 1;
    }
    proof {
        let whole = spec_inject_from(cv, ctv, singles0, cfg, 0);
        assert(log0 + app@.install_log.skip(log0.len() as int) =~= app@.install_log.subrange(
            0,
            log0.len() as int,
        ) + app@.install_log.skip(log0.len() as int));
        assert(app@.install_log.subrange(0, log0.len() as int) + app@.install_log.skip(
            log0.len() as int,
        ) =~= app@.install_log);
        assert(app@.install_log.skip(log0.len() as int) + Seq::<u64>::empty()
            =~= app@.install_log.skip(log0.len() as int));
    }
    Ok(())
}

/// The ids of the service entries, in catalog order, from entry `i` on.
pub open spec fn spec_service_ids(entries: Seq<PluginEntryView>, i: int) -> Seq<u64>
    decreases entries.len() - i,
{
    if i < 0 || i >= entries.len() {
        Seq::empty()
    } else {
        match entries[i] {
            PluginEntryView::ServicePlugin { entry_id, .. } => seq![entry_id] + spec_service_ids(
                entries,
                i + 1,
            ),
            _ => spec_service_ids(entries, i + 1),
        }
    }
}

/// One startup pass installs every service entry exactly once: when the walk
/// reports no error, the logged ids are exactly the service entries' ids in
/// catalog order — N entries, N install calls — whatever order the modules
/// contributed their entries in. With pairwise distinct ids, each id is
/// logged exactly once.
pub proof fn lemma_each_plugin_installed_once(
    entries: Seq<PluginEntryView>,
    ctorss: Seq<Seq<CtorOutcomeView>>,
    singles: Seq<(u64, ComponentView)>,
    cfg: Seq<(Seq<char>, ValueView)>,
    i: int,
)
    requires
        spec_inject_from(entries, ctorss, singles, cfg, i).2 is None,
    ensures
        spec_inject_from(entries, ctorss, singles, cfg, i).1 == spec_service_ids(entries, i),
    decreases entries.len() - i,
{
    if i < 0 || i >= entries.len() {
    } else {
        match entries[i] {
            PluginEntryView::HandlerPlugin { .. } => {
                lemma_each_plugin_installed_once(entries, ctorss, singles, cfg, i + 1);
            },
            PluginEntryView::ServicePlugin { entry_id, desc } => {
                match spec_resolve_service(desc, singles, cfg, ctorss[i]) {
                    Err(_) => {},
                    Ok(rsv) => {
                        if desc.singleton {
                            lemma_each_plugin_installed_once(
                                entries,
                                ctorss,
                                singles.push((desc.type_key, ComponentView::Service(rsv))),
                                cfg,
                                i + 1,
                            );
                        } else {
                            lemma_each_plugin_installed_once(entries, ctorss, singles, cfg, i + 1);
                        }
                    },
                }
            },
        }
    }
}

} // verus!
