//! Dependency injection: per-service field plans and their resolution.
//!
//! A service declares its fields in order; each is resolved by one of three
//! kinds: *component* (a singleton already registered under the field's type
//! key), *config* (values extracted from the configuration under a prefix),
//! or *constructor* (a user-supplied function the embedding application runs,
//! handing its outcome in). Resolution is strictly in declaration order and
//! fail-fast: the first field that cannot be resolved aborts the service's
//! construction whole, naming the offending field.

use vstd::prelude::*;

use crate::component::FieldValue;
use crate::component::FieldValueView;
use crate::component::PrimView;
use crate::component::Primitive;
use crate::component::ResolvedField;
use crate::component::ResolvedFieldView;
use crate::component::ResolvedService;
use crate::component::ResolvedServiceView;
use crate::config::ConfigTree;
use crate::config::ShapeDef;
use crate::config::ShapeView;
use crate::config::spec_extract;
use crate::config::ValueView;
use crate::errors::BootError;
use crate::errors::ErrView;
use crate::registry::ComponentRegistry;
use crate::registry::spec_assoc;
use crate::component::ComponentView;

verus! {

/// How one service field is resolved.
#[derive(Debug)]
pub enum InjectKind {
    /// Resolve an already-registered singleton of the field's type.
    ComponentRef { type_key: u64 },
    /// Deserialize the field from a configuration prefix: the declared
    /// override, or the shape's own prefix.
    ConfigShape { prefix_override: Option<String>, shape: ShapeDef },
    /// Invoke a user-supplied constructor; it may only use fields declared
    /// earlier, named here by their indices.
    Constructor { arg_fields: Vec<usize> },
}

/// The mathematical value of an [`InjectKind`].
pub enum InjectKindView {
    ComponentRef { type_key: u64 },
    ConfigShape { prefix_override: Option<Seq<char>>, shape: ShapeView },
    Constructor { arg_fields: Seq<usize> },
}

impl View for InjectKind {
    type V = InjectKindView;

    open spec fn view(&self) -> InjectKindView {
        match self {
            InjectKind::ComponentRef { type_key } => InjectKindView::ComponentRef {
                type_key: *type_key,
            },
            InjectKind::ConfigShape { prefix_override, shape } => InjectKindView::ConfigShape {
                prefix_override: match prefix_override {
                    Option::Some(p) => Some(p@),
                    Option::None => None,
                },
                shape: shape@,
            },
            InjectKind::Constructor { arg_fields } => InjectKindView::Constructor {
                arg_fields: arg_fields@,
            },
        }
    }
}

/// One field of a service's injection plan.
#[derive(Debug)]
pub struct FieldPlan {
    pub name: String,
    pub kind: InjectKind,
}

/// The mathematical value of a [`FieldPlan`].
pub struct FieldPlanView {
    pub name: Seq<char>,
    pub kind: InjectKindView,
}

impl View for FieldPlan {
    type V = FieldPlanView;

    open spec fn view(&self) -> FieldPlanView {
        FieldPlanView { name: self.name@, kind: self.kind@ }
    }
}

/// A service's injection plan: its own type key and name, whether the
/// resolved service is registered as a singleton, and its fields in
/// declaration order.
#[derive(Debug)]
pub struct ServiceDescriptor {
    pub type_key: u64,
    pub name: String,
    pub singleton: bool,
    pub fields: Vec<FieldPlan>,
}

/// The mathematical value of a [`ServiceDescriptor`].
pub struct ServiceDescView {
    pub type_key: u64,
    pub name: Seq<char>,
    pub singleton: bool,
    pub fields: Seq<FieldPlanView>,
}

impl View for ServiceDescriptor {
    type V = ServiceDescView;

    open spec fn view(&self) -> ServiceDescView {
        ServiceDescView {
            type_key: self.type_key,
            name: self.name@,
            singleton: self.singleton,
            fields: self.fields@.map(|i: int, f: FieldPlan| f@),
        }
    }
}

/// What the embedding application reports of one constructor invocation.
#[derive(PartialEq, Eq, Debug)]
pub enum CtorOutcome {
    Built(Primitive),
    CtorFailed(String),
}

/// The mathematical value of a [`CtorOutcome`].
pub enum CtorOutcomeView {
    Built(PrimView),
    CtorFailed(Seq<char>),
}

impl View for CtorOutcome {
    type V = CtorOutcomeView;

    open spec fn view(&self) -> CtorOutcomeView {
        match self {
            CtorOutcome::Built(p) => CtorOutcomeView::Built(p@),
            CtorOutcome::CtorFailed(d) => CtorOutcomeView::CtorFailed(d@),
        }
    }
}

/// The mathematical values of the reported constructor outcomes, in order.
pub open spec fn ctors_deep(s: Seq<CtorOutcome>) -> Seq<CtorOutcomeView> {
    s.map(|i: int, c: CtorOutcome| c@)
}

/// Every index in `af` lies strictly before position `i`.
pub open spec fn args_before(af: Seq<usize>, i: int) -> bool {
    forall|j: int| 0 <= j < af.len() ==> (#[trigger] af[j]) < i
}

/// A constructor field at position `i` may only reference fields declared
/// before it.
pub open spec fn ctor_args_ok(kind: InjectKindView, i: int) -> bool {
    match kind {
        InjectKindView::Constructor { arg_fields } => args_before(arg_fields, i),
        _ => true,
    }
}

/// What [`ctor_args_ok`] says of each referenced index.
pub proof fn lemma_ctor_args_ok_elim(kind: InjectKindView, i: int, af: Seq<usize>, j: int)
    requires
        kind == (InjectKindView::Constructor { arg_fields: af }),
        ctor_args_ok(kind, i),
        0 <= j < af.len(),
    ensures
        af[j] < i,
{
    assert(args_before(af, i));
}

/// A descriptor is well shaped when every constructor field references only
/// fields declared before it: forward references are a shape violation, not
/// a runtime condition.
pub open spec fn desc_wf(fields: Seq<FieldPlanView>) -> bool {
    forall|i: int| 0 <= i < fields.len() ==> ctor_args_ok(#[trigger] fields[i].kind, i)
}

/// Checks the static shape of a descriptor: every constructor field may only
/// reference fields declared before it.
pub fn validate_descriptor(desc: &ServiceDescriptor) -> (r: bool)
    ensures
        r == desc_wf(desc@.fields),
{
    let mut i: usize = 0;
    while i < desc.fields.len()
        invariant
            i <= desc.fields.len(),
            desc@.fields.len() == desc.fields.len(),
            forall|x: int| 0 <= x < i ==> ctor_args_ok((#[trigger] desc@.fields[x]).kind, x),
        decreases desc.fields.len() - i,
    {
        proof {
            assert(desc@.fields[i as int] == desc.fields@[i as int]@);
        }
        match &desc.fields[i].kind {
            InjectKind::Constructor { arg_fields } => {
                let mut j: usize = 0;
                while j < arg_fields.len()
                    invariant
                        j <= arg_fields.len(),
                        i < desc.fields.len(),
                        desc@.fields.len() == desc.fields.len(),
                        desc@.fields[i as int].kind == (InjectKindView::Constructor {
                            arg_fields: arg_fields@,
                        }),
                        forall|y: int| 0 <= y < j ==> (#[trigger] arg_fields@[y]) < i,
                    decreases arg_fields.len() - j,
                {
                    if arg_fields[j] >= i {
                        proof {
                            let af = arg_fields@;
                            let kind_i = desc@.fields[i as int].kind;
                            assert(kind_i == (InjectKindView::Constructor { arg_fields: af }));
                            assert(af[j as int] >= i as int);
                            if desc_wf(desc@.fields) {
                                assert(ctor_args_ok(kind_i, i as int));
                                lemma_ctor_args_ok_elim(kind_i, i as int, af, j as int);
                                assert(false);
                            }
                        }
                        return false;
                    }
                    j += 1;
                }
            },
            _ => {
            },
        }
        i += 1;
    }
    true
}

/// The number of constructor fields among the first `i` fields: how many
/// reported outcomes resolution will have consumed when it reaches field `i`.
pub open spec fn spec_ctor_count(fields: Seq<FieldPlanView>, i: int) -> int
    decreases i,
{
    if i <= 0 || i > fields.len() {
        0
    } else {
        spec_ctor_count(fields, i - 1) + match fields[i - 1].kind {
            InjectKindView::Constructor { .. } => 1int,
            _ => 0int,
        }
    }
}

/// Resolution of a service's fields from field `i` on, with `c` constructor
/// outcomes already consumed. Each field resolves in declaration order:
/// a component field demands its singleton be registered; a config field
/// extracts its shape under its prefix; a constructor field takes the next
/// reported outcome, whose failure becomes the construction failure.
pub open spec fn spec_resolve_from(
    fields: Seq<FieldPlanView>,
    reg: Seq<(u64, ComponentView)>,
    cfg: Seq<(Seq<char>, ValueView)>,
    ctors: Seq<CtorOutcomeView>,
    i: int,
    c: int,
) -> Result<Seq<ResolvedFieldView>, ErrView>
    decreases fields.len() - i,
{
    if i < 0 || i >= fields.len() {
        Ok(Seq::empty())
    } else {
        let f = fields[i];
        match f.kind {
            InjectKindView::ComponentRef { type_key } => {
                if spec_assoc(reg, type_key) is None {
                    Err(ErrView::ComponentNotFound { field: f.name, type_key })
                } else {
                    match spec_resolve_from(fields, reg, cfg, ctors, i + 1, c) {
                        Ok(rest) => Ok(
                            seq![
                                ResolvedFieldView {
                                    name: f.name,
                                    value: FieldValueView::Injected { type_key },
                                },
                            ] + rest,
                        ),
                        Err(e) => Err(e),
                    }
                }
            },
            InjectKindView::ConfigShape { prefix_override, shape } => {
                let prefix = match prefix_override {
                    Option::Some(p) => p,
                    Option::None => shape.prefix,
                };
                match spec_extract(cfg, prefix, shape.fields) {
                    Err(e) => Err(e),
                    Ok(vals) => match spec_resolve_from(fields, reg, cfg, ctors, i + 1, c) {
                        Ok(rest) => Ok(
                            seq![
                                ResolvedFieldView {
                                    name: f.name,
                                    value: FieldValueView::FromConfig(vals),
                                },
                            ] + rest,
                        ),
                        Err(e) => Err(e),
                    },
                }
            },
            InjectKindView::Constructor { .. } => {
                if c < 0 || c >= ctors.len() {
                    Err(ErrView::ConstructorFailure { field: f.name, detail: Seq::empty() })
                } else {
                    match ctors[c] {
                        CtorOutcomeView::CtorFailed(detail) => Err(
                            ErrView::ConstructorFailure { field: f.name, detail },
                        ),
                        CtorOutcomeView::Built(p) => {
                            match spec_resolve_from(fields, reg, cfg, ctors, i + 1, c + 1) {
                                Ok(rest) => Ok(
                                    seq![
                                        ResolvedFieldView {
                                            name: f.name,
                                            value: FieldValueView::Constructed(p),
                                        },
                                    ] + rest,
                                ),
                                Err(e) => Err(e),
                            }
                        },
                    }
                }
            },
        }
    }
}

/// Resolution of a whole service.
pub open spec fn spec_resolve_service(
    d: ServiceDescView,
    reg: Seq<(u64, ComponentView)>,
    cfg: Seq<(Seq<char>, ValueView)>,
    ctors: Seq<CtorOutcomeView>,
) -> Result<ResolvedServiceView, ErrView> {
    match spec_resolve_from(d.fields, reg, cfg, ctors, 0, 0) {
        Ok(fs) => Ok(
            ResolvedServiceView { type_key: d.type_key, name: d.name, fields: fs },
        ),
        Err(e) => Err(e),
    }
}

/// An exact copy of a primitive.
pub fn clone_primitive(p: &Primitive) -> (r: Primitive)
    ensures
        r@ == p@,
{
    match p {
        Primitive::Num(n) => Primitive::Num(*n),
        Primitive::Text(s) => Primitive::Text(s.clone()),
        Primitive::Flag(b) => Primitive::Flag(*b),
        Primitive::Handle(h) => Primitive::Handle(*h),
    }
}

/// Resolves a service against the registry, the configuration, and the
/// constructor outcomes the embedding application reports, strictly in
/// declaration order and fail-fast. A component field whose type key was
/// never registered fails with `ComponentNotFound` naming the field and the
/// key; config errors propagate; a failed constructor becomes the service's
/// construction failure.
pub fn resolve_service(
    desc: &ServiceDescriptor,
    registry: &ComponentRegistry,
    config: &ConfigTree,
    ctors: &Vec<CtorOutcome>,
) -> (r: Result<ResolvedService, BootError>)
    ensures
        match r {
            Ok(rs) => spec_resolve_service(desc@, registry@.singles, config@, ctors_deep(ctors@))
                == Ok::<ResolvedServiceView, ErrView>(rs@),
            Err(e) => spec_resolve_service(desc@, registry@.singles, config@, ctors_deep(ctors@))
                == Err::<ResolvedServiceView, ErrView>(e@),
        },
{
    let ghost fs = desc@.fields;
    let ghost regv = registry@.singles;
    let ghost cfgv = config@;
    let ghost ctv = ctors_deep(ctors@);
    let mut resolved: Vec<ResolvedField> = Vec::new();
    let mut c: usize = 0;
    let mut i: usize = 0;
    proof {
        assert(resolved@.map(|k: int, f: ResolvedField| f@) =~= Seq::<ResolvedFieldView>::empty());
    }
    while i < desc.fields.len()
        invariant
            i <= desc.fields.len(),
            c <= ctors.len(),
            fs == desc@.fields,
            regv == registry@.singles,
            cfgv == config@,
            ctv == ctors_deep(ctors@),
            ctv.len() == ctors.len(),
            fs.len() == desc.fields.len(),
            spec_resolve_from(fs, regv, cfgv, ctv, 0, 0) == match spec_resolve_from(
                fs,
                regv,
                cfgv,
                ctv,
                i as int,
                c as int,
            ) {
                Ok(rest) => Ok::<Seq<ResolvedFieldView>, ErrView>(
                    resolved@.map(|k: int, f: ResolvedField| f@) + rest,
                ),
                Err(e) => Err(e),
            },
        decreases desc.fields.len() - i,
    {
        let ghost acc = resolved@.map(|k: int, f: ResolvedField| f@);
        let field = &desc.fields[i];
        proof {
            assert(fs[i as int] == desc.fields@[i as int]@);
        }
        match &field.kind {
            InjectKind::ComponentRef { type_key } => {
                match registry.get(*type_key) {
                    Option::None => {
                        return Err(
                            BootError::ComponentNotFound {
                                field: field.name.clone(),
                                type_key: *type_key,
                            },
                        );
                    },
                    Option::Some(_) => {
                        let rf = ResolvedField {
                            name: field.name.clone(),
                            value: FieldValue::Injected { type_key: *type_key },
                        };
                        let ghost rfv = rf@;
                        resolved.push(rf);
                        proof {
                            assert(resolved@.map(|k: int, f: ResolvedField| f@) =~= acc.push(rfv));
                            lemma_acc_assoc(acc, rfv, spec_resolve_from(
                                fs,
                                regv,
                                cfgv,
                                ctv,
                                i + 1,
                                c as int,
                            ));
                        }
                    },
                }
            },
            InjectKind::ConfigShape { prefix_override, shape } => {
                let prefix: &str = match prefix_override {
                    Option::Some(p) => p.as_str(),
                    Option::None => shape.prefix.as_str(),
                };
                match config.extract(prefix, shape) {
                    Err(e) => {
                        return Err(e);
                    },
                    Ok(vals) => {
                        let ghost valsv = vals@.map(|k: int, v: crate::config::ConfigValue| v@);
                        let rf = ResolvedField {
                            name: field.name.clone(),
                            value: FieldValue::FromConfig(vals),
                        };
                        let ghost rfv = rf@;
                        resolved.push(rf);
                        proof {
                            assert(resolved@.map(|k: int, f: ResolvedField| f@) =~= acc.push(rfv));
                            lemma_acc_assoc(acc, rfv, spec_resolve_from(
                                fs,
                                regv,
                                cfgv,
                                ctv,
                                i + 1,
                                c as int,
                            ));
                        }
                    },
                }
            },
            InjectKind::Constructor { arg_fields: _ } => {
                if c >= ctors.len() {
                    return Err(
                        BootError::ConstructorFailure {
                            field: field.name.clone(),
                            detail: String::new(),
                        },
                    );
                }
                proof {
                    assert(ctv[c as int] == ctors@[c as int]@);
                }
                match &ctors[c] {
                    CtorOutcome::CtorFailed(detail) => {
                        return Err(
                            BootError::ConstructorFailure {
                                field: field.name.clone(),
                                detail: detail.clone(),
                            },
                        );
                    },
                    CtorOutcome::Built(p) => {
                        let rf = ResolvedField {
                            name: field.name.clone(),
                            value: FieldValue::Constructed(clone_primitive(p)),
                        };
                        let ghost rfv = rf@;
                        resolved.push(rf);
                        c += 1;
                        proof {
                            assert(resolved@.map(|k: int, f: ResolvedField| f@) =~= acc.push(rfv));
                            lemma_acc_assoc(acc, rfv, spec_resolve_from(
                                fs,
                                regv,
                                cfgv,
                                ctv,
                                i + 1,
                                c as int,
                            ));
                        }
                    },
                }
            },
        }
        i += 1;
    }
    let rs = ResolvedService {
        type_key: desc.type_key,
        name: desc.name.clone(),
        fields: resolved,
    };
    proof {
        assert(spec_resolve_from(fs, regv, cfgv, ctv, i as int, c as int) == Ok::<
            Seq<ResolvedFieldView>,
            ErrView,
        >(Seq::empty()));
        assert(rs@.fields + Seq::<ResolvedFieldView>::empty() =~= rs@.fields);
    }
    Ok(rs)
}

/// Appending one element and then a rest is the same as appending the element
/// into the accumulated prefix first: the bookkeeping step of the resolution
/// loop.
proof fn lemma_acc_assoc(
    acc: Seq<ResolvedFieldView>,
    x: ResolvedFieldView,
    rest: Result<Seq<ResolvedFieldView>, ErrView>,
)
    ensures
        match rest {
            Ok(r) => acc + (seq![x] + r) == acc.push(x) + r,
            Err(_) => true,
        },
{
    match rest {
        Ok(r) => {
            assert(acc + (seq![x] + r) =~= acc.push(x) + r);
        },
        Err(_) => {},
    }
}

/// Resolving a service whose component-injected field's type key was never
/// registered fails with `ComponentNotFound` naming that field and key,
/// whenever every field before it resolves.
pub proof fn lemma_component_not_found(
    fields: Seq<FieldPlanView>,
    reg: Seq<(u64, ComponentView)>,
    cfg: Seq<(Seq<char>, ValueView)>,
    ctors: Seq<CtorOutcomeView>,
    i: int,
    k: u64,
)
    requires
        0 <= i < fields.len(),
        fields[i].kind == (InjectKindView::ComponentRef { type_key: k }),
        spec_assoc(reg, k) is None,
        spec_resolve_from(fields.subrange(0, i), reg, cfg, ctors, 0, 0) is Ok,
    ensures
        spec_resolve_from(fields, reg, cfg, ctors, 0, 0) == Err::<Seq<ResolvedFieldView>, ErrView>(
            ErrView::ComponentNotFound { field: fields[i].name, type_key: k },
        ),
{
    lemma_cnf_rec(fields, reg, cfg, ctors, i, k, 0, 0);
}

/// The same, stated of the whole service: resolving a service one of whose
/// component-injected fields names an unregistered type key fails with
/// `ComponentNotFound` naming that field and key, whenever every field
/// declared before it resolves — which is exactly what declaration-order,
/// fail-fast resolution leaves open: the first unresolvable field decides.
/// The statement is a function of the registry state, so the same state gives
/// the same error on every attempt; and by the contract of the installing
/// functions (`AppBuilder::install_service`, `auto_inject_service`), a
/// resolution error leaves the registry exactly as it was — no partial
/// construction, nothing registered for the failed service.
pub proof fn lemma_component_not_found_fails_service(
    d: ServiceDescView,
    reg: Seq<(u64, ComponentView)>,
    cfg: Seq<(Seq<char>, ValueView)>,
    ctors: Seq<CtorOutcomeView>,
    i: int,
    k: u64,
)
    requires
        0 <= i < d.fields.len(),
        d.fields[i].kind == (InjectKindView::ComponentRef { type_key: k }),
        spec_assoc(reg, k) is None,
        spec_resolve_from(d.fields.subrange(0, i), reg, cfg, ctors, 0, 0) is Ok,
    ensures
        spec_resolve_service(d, reg, cfg, ctors) == Err::<ResolvedServiceView, ErrView>(
            ErrView::ComponentNotFound { field: d.fields[i].name, type_key: k },
        ),
{
    lemma_component_not_found(d.fields, reg, cfg, ctors, i, k);
}

/// The induction behind [`lemma_component_not_found`]: walking from field `j`
/// with cursor `c`, if the truncated plan resolves, the full plan runs into
/// the missing component.
proof fn lemma_cnf_rec(
    fields: Seq<FieldPlanView>,
    reg: Seq<(u64, ComponentView)>,
    cfg: Seq<(Seq<char>, ValueView)>,
    ctors: Seq<CtorOutcomeView>,
    i: int,
    k: u64,
    j: int,
    c: int,
)
    requires
        0 <= j <= i < fields.len(),
        fields[i].kind == (InjectKindView::ComponentRef { type_key: k }),
        spec_assoc(reg, k) is None,
        spec_resolve_from(fields.subrange(0, i), reg, cfg, ctors, j, c) is Ok,
    ensures
        spec_resolve_from(fields, reg, cfg, ctors, j, c) == Err::<Seq<ResolvedFieldView>, ErrView>(
            ErrView::ComponentNotFound { field: fields[i].name, type_key: k },
        ),
    decreases i - j,
{
    let sub = fields.subrange(0, i);
    if j == i {
    } else {
        assert(sub[j] == fields[j]);
        match fields[j].kind {
            InjectKindView::ComponentRef { type_key } => {
                lemma_cnf_rec(fields, reg, cfg, ctors, i, k, j + 1, c);
            },
            InjectKindView::ConfigShape { prefix_override, shape } => {
                lemma_cnf_rec(fields, reg, cfg, ctors, i, k, j + 1, c);
            },
            InjectKindView::Constructor { .. } => {
                lemma_cnf_rec(fields, reg, cfg, ctors, i, k, j + 1, c + 1);
            },
        }
    }
}

/// A special component that can inject dependent components as fields; it is
/// implemented once per service type, built from the registry and the
/// configuration. What `build` returns is pinned by the type's own declared
/// [`Service::build_spec`].
pub trait Service: Sized + View {
    /// The value this service type is built as, for the given registry
    /// singletons and configuration — or the construction error it reports.
    spec fn build_spec(
        reg: Seq<(u64, ComponentView)>,
        cfg: Seq<(Seq<char>, ValueView)>,
    ) -> Result<Self::V, ErrView>;

    /// Constructs the service from what is registered and configured so far.
    fn build(registry: &ComponentRegistry, config: &ConfigTree) -> (r: Result<Self, BootError>)
        ensures
            match r {
                Ok(v) => Self::build_spec(registry@.singles, config@) == Ok::<Self::V, ErrView>(
                    v@,
                ),
                Err(e) => Self::build_spec(registry@.singles, config@) == Err::<Self::V, ErrView>(
                    e@,
                ),
            },
    ;
}

/// Installs one service component into the builder; every service-bearing
/// declaration stands behind one registrar. What installing does is pinned by
/// the registrar's own declared plan and constructor outcomes: resolution
/// against the builder's registry and configuration, fail-fast, registering
/// the resolved service as a singleton when the plan says so, and leaving the
/// builder untouched on any failure.
pub trait ServiceRegistrar {
    /// The injection plan this registrar installs.
    spec fn descriptor(&self) -> ServiceDescView;

    /// The constructor outcomes this registrar resolves its plan with.
    spec fn outcomes(&self) -> Seq<CtorOutcomeView>;

    /// Installs the service into the builder, exactly once, during Building.
    fn install_service(&self, app: &mut crate::app::AppBuilder) -> (r: Result<(), BootError>)
        ensures
            final(app)@.config == old(app)@.config,
            final(app)@.groups == old(app)@.groups,
            final(app)@.tasks == old(app)@.tasks,
            final(app)@.install_log == old(app)@.install_log,
            match spec_resolve_service(
                self.descriptor(),
                old(app)@.singles,
                old(app)@.config,
                self.outcomes(),
            ) {
                Err(e) => r is Err && r->Err_0@ == e && final(app)@ == old(app)@,
                Ok(rsv) => {
                    if self.descriptor().singleton {
                        if spec_assoc(old(app)@.singles, self.descriptor().type_key) is Some {
                            r is Err && r->Err_0@ == (ErrView::DuplicateComponent {
                                type_key: self.descriptor().type_key,
                            }) && final(app)@ == old(app)@
                        } else {
                            r is Ok && final(app)@.singles == old(app)@.singles.push(
                                (self.descriptor().type_key, ComponentView::Service(rsv)),
                            )
                        }
                    } else {
                        r is Ok && final(app)@ == old(app)@
                    }
                },
            },
    ;
}

impl ServiceRegistrar for ServiceDescriptor {
    open spec fn descriptor(&self) -> ServiceDescView {
        self@
    }

    open spec fn outcomes(&self) -> Seq<CtorOutcomeView> {
        Seq::empty()
    }

    fn install_service(&self, app: &mut crate::app::AppBuilder) -> (r: Result<(), BootError>) {
        let no_ctors: Vec<CtorOutcome> = Vec::new();
        proof {
            assert(ctors_deep(no_ctors@) =~= Seq::<CtorOutcomeView>::empty());
        }
        app.install_service(self, &no_ctors)
    }
}

} // verus!
