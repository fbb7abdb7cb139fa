//! Route declarations: HTTP verb tokens, the checking of routing attributes,
//! the bindings a handler contributes to the router, and scope prefixes.
//!
//! A routing attribute names one path and, in its multi-verb form, `method`
//! options. Checking rejects unknown option keys, non-literal method values,
//! verbs outside the fixed set, verbs named twice, declarations with no verb
//! at all, and handlers without a result type — before anything is installed.

use vstd::prelude::*;

use crate::errors::BootError;
use crate::errors::ErrView;
use crate::strutil::scope_path;
use crate::strutil::spec_scope_path;
use crate::strutil::str_eq;

verus! {

/// The fixed set of HTTP verbs a route may name.
#[derive(Clone, Copy, PartialEq, Eq, Structural, Debug)]
pub enum MethodType {
    Get,
    Post,
    Put,
    Delete,
    Head,
    Options,
    Trace,
    Patch,
}

/// The upper-case token of a verb.
pub open spec fn spec_method_name(m: MethodType) -> Seq<char> {
    match m {
        MethodType::Get => "GET"@,
        MethodType::Post => "POST"@,
        MethodType::Put => "PUT"@,
        MethodType::Delete => "DELETE"@,
        MethodType::Head => "HEAD"@,
        MethodType::Options => "OPTIONS"@,
        MethodType::Trace => "TRACE"@,
        MethodType::Patch => "PATCH"@,
    }
}

/// The verb a token names. Tokens must be upper-case; anything else is an
/// unknown verb.
pub open spec fn spec_parse_method(s: Seq<char>) -> Result<MethodType, ErrView> {
    if s == "GET"@ {
        Ok(MethodType::Get)
    } else if s == "POST"@ {
        Ok(MethodType::Post)
    } else if s == "PUT"@ {
        Ok(MethodType::Put)
    } else if s == "DELETE"@ {
        Ok(MethodType::Delete)
    } else if s == "HEAD"@ {
        Ok(MethodType::Head)
    } else if s == "OPTIONS"@ {
        Ok(MethodType::Options)
    } else if s == "TRACE"@ {
        Ok(MethodType::Trace)
    } else if s == "PATCH"@ {
        Ok(MethodType::Patch)
    } else {
        Err(ErrView::UnknownVerb { verb: s })
    }
}

/// The verb an attribute name (lower-case) stands for, if any; a `None` means
/// the attribute is not a routing attribute at all.
pub open spec fn spec_method_from_attr(s: Seq<char>) -> Option<MethodType> {
    if s == "get"@ {
        Some(MethodType::Get)
    } else if s == "post"@ {
        Some(MethodType::Post)
    } else if s == "put"@ {
        Some(MethodType::Put)
    } else if s == "delete"@ {
        Some(MethodType::Delete)
    } else if s == "head"@ {
        Some(MethodType::Head)
    } else if s == "options"@ {
        Some(MethodType::Options)
    } else if s == "trace"@ {
        Some(MethodType::Trace)
    } else if s == "patch"@ {
        Some(MethodType::Patch)
    } else {
        None
    }
}

/// The verb of an upper-case token.
pub fn parse_method(s: &str) -> (r: Result<MethodType, BootError>)
    ensures
        match r {
            Ok(m) => spec_parse_method(s@) == Ok::<MethodType, ErrView>(m),
            Err(e) => spec_parse_method(s@) == Err::<MethodType, ErrView>(e@),
        },
{
    if str_eq(s, "GET") {
        Ok(MethodType::Get)
    } else if str_eq(s, "POST") {
        Ok(MethodType::Post)
    } else if str_eq(s, "PUT") {
        Ok(MethodType::Put)
    } else if str_eq(s, "DELETE") {
        Ok(MethodType::Delete)
    } else if str_eq(s, "HEAD") {
        Ok(MethodType::Head)
    } else if str_eq(s, "OPTIONS") {
        Ok(MethodType::Options)
    } else if str_eq(s, "TRACE") {
        Ok(MethodType::Trace)
    } else if str_eq(s, "PATCH") {
        Ok(MethodType::Patch)
    } else {
        Err(BootError::UnknownVerb { verb: s.to_owned() })
    }
}

/// The verb an attribute name stands for, if any.
pub fn method_from_attr(s: &str) -> (r: Option<MethodType>)
    ensures
        r == spec_method_from_attr(s@),
{
    if str_eq(s, "get") {
        Some(MethodType::Get)
    } else if str_eq(s, "post") {
        Some(MethodType::Post)
    } else if str_eq(s, "put") {
        Some(MethodType::Put)
    } else if str_eq(s, "delete") {
        Some(MethodType::Delete)
    } else if str_eq(s, "head") {
        Some(MethodType::Head)
    } else if str_eq(s, "options") {
        Some(MethodType::Options)
    } else if str_eq(s, "trace") {
        Some(MethodType::Trace)
    } else if str_eq(s, "patch") {
        Some(MethodType::Patch)
    } else {
        None
    }
}

/// The upper-case token of a verb.
pub fn method_name(m: MethodType) -> (r: &'static str)
    ensures
        r@ == spec_method_name(m),
{
    match m {
        MethodType::Get => "GET",
        MethodType::Post => "POST",
        MethodType::Put => "PUT",
        MethodType::Delete => "DELETE",
        MethodType::Head => "HEAD",
        MethodType::Options => "OPTIONS",
        MethodType::Trace => "TRACE",
        MethodType::Patch => "PATCH",
    }
}

/// The value of one attribute option: a literal string, or anything else.
#[derive(PartialEq, Eq, Debug)]
pub enum OptValue {
    StrLit(String),
    NotLiteral,
}

/// The mathematical value of an [`OptValue`].
pub enum OptView {
    StrLit(Seq<char>),
    NotLiteral,
}

impl View for OptValue {
    type V = OptView;

    open spec fn view(&self) -> OptView {
        match self {
            OptValue::StrLit(s) => OptView::StrLit(s@),
            OptValue::NotLiteral => OptView::NotLiteral,
        }
    }
}

/// One `key = value` option of a routing attribute.
#[derive(Debug)]
pub struct AttrOption {
    pub key: String,
    pub value: OptValue,
}

/// The mathematical value of an [`AttrOption`].
pub struct AttrOptionView {
    pub key: Seq<char>,
    pub value: OptView,
}

impl View for AttrOption {
    type V = AttrOptionView;

    open spec fn view(&self) -> AttrOptionView {
        AttrOptionView { key: self.key@, value: self.value@ }
    }
}

/// A routing attribute as declared: its path and its options in order.
#[derive(Debug)]
pub struct RouteArgs {
    pub path: String,
    pub options: Vec<AttrOption>,
}

/// The mathematical value of a [`RouteArgs`].
pub struct RouteArgsView {
    pub path: Seq<char>,
    pub options: Seq<AttrOptionView>,
}

impl View for RouteArgs {
    type V = RouteArgsView;

    open spec fn view(&self) -> RouteArgsView {
        RouteArgsView {
            path: self.path@,
            options: self.options@.map(|i: int, o: AttrOption| o@),
        }
    }
}

/// A checked routing attribute: its path and its duplicate-free verb set.
#[derive(Debug)]
pub struct Args {
    pub path: String,
    pub methods: Vec<MethodType>,
}

/// The mathematical value of an [`Args`].
pub struct ArgsView {
    pub path: Seq<char>,
    pub methods: Seq<MethodType>,
}

impl View for Args {
    type V = ArgsView;

    open spec fn view(&self) -> ArgsView {
        ArgsView { path: self.path@, methods: self.methods@ }
    }
}

/// Checking of the options of one routing attribute, from option `i` on, with
/// the verbs collected so far. `single` says the attribute already fixes one
/// verb by its own name, so `method` options are forbidden in it.
pub open spec fn spec_args_options(
    options: Seq<AttrOptionView>,
    single: bool,
    methods: Seq<MethodType>,
    i: int,
) -> Result<Seq<MethodType>, ErrView>
    decreases options.len() - i,
{
    if i < 0 || i >= options.len() {
        Ok(methods)
    } else {
        let o = options[i];
        if o.key != "method"@ {
            Err(ErrView::UnknownAttributeKey { key: o.key })
        } else if single {
            Err(ErrView::MethodForbiddenHere)
        } else {
            match o.value {
                OptView::NotLiteral => Err(ErrView::AttributeValueNotString { key: o.key }),
                OptView::StrLit(v) => match spec_parse_method(v) {
                    Err(e) => Err(e),
                    Ok(m) => {
                        if methods.contains(m) {
                            Err(ErrView::DuplicateVerbDeclaration { verb: v })
                        } else {
                            spec_args_options(options, single, methods.push(m), i + 1)
                        }
                    },
                },
            }
        }
    }
}

/// Checking of one routing attribute against an optional verb fixed by the
/// attribute's own name.
pub open spec fn spec_args_new(a: RouteArgsView, method: Option<MethodType>) -> Result<
    ArgsView,
    ErrView,
> {
    let init = match method {
        Option::Some(m) => seq![m],
        Option::None => Seq::empty(),
    };
    match spec_args_options(a.options, method is Some, init, 0) {
        Ok(ms) => Ok(ArgsView { path: a.path, methods: ms }),
        Err(e) => Err(e),
    }
}

/// The collected verbs never hold a verb twice.
pub proof fn lemma_args_options_no_dup(
    options: Seq<AttrOptionView>,
    single: bool,
    methods: Seq<MethodType>,
    i: int,
)
    requires
        methods.no_duplicates(),
    ensures
        match spec_args_options(options, single, methods, i) {
            Ok(ms) => ms.no_duplicates(),
            Err(_) => true,
        },
    decreases options.len() - i,
{
    if i < 0 || i >= options.len() {
    } else {
        let o = options[i];
        if o.key == "method"@ && !single {
            match o.value {
                OptView::NotLiteral => {},
                OptView::StrLit(v) => match spec_parse_method(v) {
                    Err(_) => {},
                    Ok(m) => {
                        if !methods.contains(m) {
                            lemma_args_options_no_dup(options, single, methods.push(m), i + 1);
                        }
                    },
                },
            }
        }
    }
}

/// Whether `v` already holds verb `m`.
pub fn methods_contain(v: &Vec<MethodType>, m: MethodType) -> (r: bool)
    ensures
        r == v@.contains(m),
{
    let mut i: usize = 0;
    while i < v.len()
        invariant
            i <= v.len(),
            forall|j: int| 0 <= j < i ==> v@[j] != m,
        decreases v.len() - i,
    {
        if v[i] == m {
            return true;
        }
        i += 1;
    }
    false
}

/// Checks one routing attribute. Every option must be `method = "<verb>"`,
/// with a literal upper-case verb of the fixed set, each verb at most once;
/// in the single-verb form (`method` fixed by the attribute name) no `method`
/// option is allowed at all.
pub fn args_new(args: &RouteArgs, method: Option<MethodType>) -> (r: Result<Args, BootError>)
    ensures
        match r {
            Ok(a) => spec_args_new(args@, method) == Ok::<ArgsView, ErrView>(a@),
            Err(e) => spec_args_new(args@, method) == Err::<ArgsView, ErrView>(e@),
        },
{
    let single = method.is_some();
    let mut methods: Vec<MethodType> = Vec::new();
    if let Option::Some(m) = method {
        methods.push(m);
    }
    let ghost init = methods@;
    let ghost opts = args@.options;
    proof {
        match method {
            Option::Some(m) => {
                assert(init =~= seq![m]);
            },
            Option::None => {
                assert(init =~= Seq::<MethodType>::empty());
            },
        }
    }
    let mut i: usize = 0;
    while i < args.options.len()
        invariant
            i <= args.options.len(),
            opts == args@.options,
            opts.len() == args.options.len(),
            single == (method is Some),
            spec_args_new(args@, method) == (match spec_args_options(
                opts,
                single,
                methods@,
                i as int,
            ) {
                Ok(ms) => Ok::<ArgsView, ErrView>(ArgsView { path: args@.path, methods: ms }),
                Err(e) => Err::<ArgsView, ErrView>(e),
            }),
        decreases args.options.len() - i,
    {
        let o = &args.options[i];
        proof {
            assert(opts[i as int] == args.options@[i as int]@);
        }
        if !str_eq(o.key.as_str(), "method") {
            return Err(BootError::UnknownAttributeKey { key: o.key.clone() });
        }
        if single {
            return Err(BootError::MethodForbiddenHere);
        }
        match &o.value {
            OptValue::NotLiteral => {
                return Err(BootError::AttributeValueNotString { key: o.key.clone() });
            },
            OptValue::StrLit(v) => {
                match parse_method(v.as_str()) {
                    Err(e) => {
                        return Err(e);
                    },
                    Ok(m) => {
                        if methods_contain(&methods, m) {
                            return Err(BootError::DuplicateVerbDeclaration { verb: v.clone() });
                        }
                        methods.push(m);
                    },
                }
            },
        }
        i += 1;
    }
    Ok(Args { path: args.path.clone(), methods })
}

/// What a handler declaration shows of itself: its name, and whether it
/// declares a result type.
#[derive(Debug)]
pub struct HandlerSig {
    pub name: String,
    pub has_return_type: bool,
}

/// The mathematical value of a [`HandlerSig`].
pub struct HandlerSigView {
    pub name: Seq<char>,
    pub has_return_type: bool,
}

impl View for HandlerSig {
    type V = HandlerSigView;

    open spec fn view(&self) -> HandlerSigView {
        HandlerSigView { name: self.name@, has_return_type: self.has_return_type }
    }
}

/// A checked route declaration: the handler's name and one checked attribute
/// per declared verb/path pair.
#[derive(Debug)]
pub struct Route {
    pub name: String,
    pub args: Vec<Args>,
}

/// The mathematical value of a [`Route`].
pub struct RouteView {
    pub name: Seq<char>,
    pub args: Seq<ArgsView>,
}

impl View for Route {
    type V = RouteView;

    open spec fn view(&self) -> RouteView {
        RouteView { name: self.name@, args: self.args@.map(|i: int, a: Args| a@) }
    }
}

/// Checking of a single-attribute route declaration: the attribute is
/// checked, at least one verb must remain, and the handler must declare a
/// result type.
pub open spec fn spec_route_new(
    a: RouteArgsView,
    sig: HandlerSigView,
    method: Option<MethodType>,
) -> Result<RouteView, ErrView> {
    match spec_args_new(a, method) {
        Err(e) => Err(e),
        Ok(args) => {
            if args.methods.len() == 0 {
                Err(ErrView::ZeroVerbsDeclared)
            } else if !sig.has_return_type {
                Err(ErrView::MissingHandlerReturnType)
            } else {
                Ok(RouteView { name: sig.name, args: seq![args] })
            }
        },
    }
}

/// Checks a route declaration that carries one routing attribute, optionally
/// with a verb fixed by the attribute's name.
pub fn route_new(args: &RouteArgs, sig: HandlerSig, method: Option<MethodType>) -> (r: Result<
    Route,
    BootError,
>)
    ensures
        match r {
            Ok(route) => spec_route_new(args@, sig@, method) == Ok::<RouteView, ErrView>(route@),
            Err(e) => spec_route_new(args@, sig@, method) == Err::<RouteView, ErrView>(e@),
        },
{
    let checked = match args_new(args, method) {
        Err(e) => {
            return Err(e);
        },
        Ok(a) => a,
    };
    if checked.methods.len() == 0 {
        return Err(BootError::ZeroVerbsDeclared);
    }
    if !sig.has_return_type {
        return Err(BootError::MissingHandlerReturnType);
    }
    let route = Route { name: sig.name, args: vec![checked] };
    proof {
        assert(route@.args =~= seq![checked@]);
    }
    Ok(route)
}

/// Checking of a multi-attribute route declaration: the handler must declare
/// a result type; the checked attributes are taken as they are.
pub open spec fn spec_route_multiple(args: Seq<ArgsView>, sig: HandlerSigView) -> Result<
    RouteView,
    ErrView,
> {
    if !sig.has_return_type {
        Err(ErrView::MissingHandlerReturnType)
    } else {
        Ok(RouteView { name: sig.name, args: args })
    }
}

/// Checks a route declaration carrying several already-checked attributes.
pub fn route_multiple(args: Vec<Args>, sig: HandlerSig) -> (r: Result<Route, BootError>)
    ensures
        match r {
            Ok(route) => spec_route_multiple(args@.map(|i: int, a: Args| a@), sig@) == Ok::<
                RouteView,
                ErrView,
            >(route@),
            Err(e) => spec_route_multiple(args@.map(|i: int, a: Args| a@), sig@) == Err::<
                RouteView,
                ErrView,
            >(e@),
        },
{
    if !sig.has_return_type {
        return Err(BootError::MissingHandlerReturnType);
    }
    Ok(Route { name: sig.name, args })
}

/// One attribute of a handler declaration, by name; only those whose name is
/// a verb are routing attributes.
#[derive(Debug)]
pub struct HandlerAttr {
    pub name: String,
    pub args: RouteArgs,
}

/// The mathematical value of a [`HandlerAttr`].
pub struct HandlerAttrView {
    pub name: Seq<char>,
    pub args: RouteArgsView,
}

impl View for HandlerAttr {
    type V = HandlerAttrView;

    open spec fn view(&self) -> HandlerAttrView {
        HandlerAttrView { name: self.name@, args: self.args@ }
    }
}

/// Checking of the routing attributes among a handler's attributes, from
/// attribute `i` on: non-routing attributes are passed over; each routing
/// attribute is checked with its verb fixed by its name.
pub open spec fn spec_collect_route_attrs(
    attrs: Seq<HandlerAttrView>,
    acc: Seq<ArgsView>,
    i: int,
) -> Result<Seq<ArgsView>, ErrView>
    decreases attrs.len() - i,
{
    if i < 0 || i >= attrs.len() {
        Ok(acc)
    } else {
        match spec_method_from_attr(attrs[i].name) {
            Option::None => spec_collect_route_attrs(attrs, acc, i + 1),
            Option::Some(m) => match spec_args_new(attrs[i].args, Some(m)) {
                Err(e) => Err(e),
                Ok(a) => spec_collect_route_attrs(attrs, acc.push(a), i + 1),
            },
        }
    }
}

/// Checking of a whole multi-attribute handler declaration: its routing
/// attributes are collected and checked; having none at all is rejected, and
/// the handler must declare a result type.
pub open spec fn spec_with_methods(attrs: Seq<HandlerAttrView>, sig: HandlerSigView) -> Result<
    RouteView,
    ErrView,
> {
    match spec_collect_route_attrs(attrs, Seq::empty(), 0) {
        Err(e) => Err(e),
        Ok(collected) => {
            if collected.len() == 0 {
                Err(ErrView::ZeroVerbsDeclared)
            } else {
                spec_route_multiple(collected, sig)
            }
        },
    }
}

/// The mathematical values of a handler's attributes, in order.
pub open spec fn attrs_deep(attrs: Seq<HandlerAttr>) -> Seq<HandlerAttrView> {
    attrs.map(|i: int, a: HandlerAttr| a@)
}

/// Checks a handler declaration that carries one routing attribute per
/// verb/path pair. Attributes whose name is no verb are not routing
/// attributes and are passed over; at least one routing attribute is
/// required.
pub fn with_methods(attrs: &Vec<HandlerAttr>, sig: HandlerSig) -> (r: Result<Route, BootError>)
    ensures
        match r {
            Ok(route) => spec_with_methods(attrs_deep(attrs@), sig@) == Ok::<
                RouteView,
                ErrView,
            >(route@),
            Err(e) => spec_with_methods(attrs_deep(attrs@), sig@) == Err::<
                RouteView,
                ErrView,
            >(e@),
        },
{
    let ghost av = attrs_deep(attrs@);
    let mut collected: Vec<Args> = Vec::new();
    proof {
        assert(collected@.map(|k: int, a: Args| a@) =~= Seq::<ArgsView>::empty());
    }
    let mut i: usize = 0;
    while i < attrs.len()
        invariant
            i <= attrs.len(),
            av == attrs_deep(attrs@),
            av.len() == attrs.len(),
            spec_collect_route_attrs(av, Seq::empty(), 0) == spec_collect_route_attrs(
                av,
                collected@.map(|k: int, a: Args| a@),
                i as int,
            ),
        decreases attrs.len() - i,
    {
        let ghost acc = collected@.map(|k: int, a: Args| a@);
        let attr = &attrs[i];
        proof {
            assert(av[i as int] == attrs@[i as int]@);
        }
        match method_from_attr(attr.name.as_str()) {
            Option::None => {
            },
            Option::Some(m) => {
                match args_new(&attr.args, Some(m)) {
                    Err(e) => {
                        return Err(e);
                    },
                    Ok(a) => {
                        let ghost aview = a@;
                        collected.push(a);
                        proof {
                            assert(collected@.map(|k: int, a: Args| a@) =~= acc.push(aview));
                        }
                    },
                }
            },
        }
        i += 1;
    }
    if collected.len() == 0 {
        proof {
            assert(collected@.map(|k: int, a: Args| a@) =~= Seq::<ArgsView>::empty());
        }
        return Err(BootError::ZeroVerbsDeclared);
    }
    route_multiple(collected, sig)
}

/// One (path, verb set, handler) binding contributed to the router.
#[derive(PartialEq, Eq, Debug)]
pub struct RouteBinding {
    pub path: String,
    pub methods: Vec<MethodType>,
    pub handler: String,
}

/// The mathematical value of a [`RouteBinding`].
pub struct RouteBindingView {
    pub path: Seq<char>,
    pub methods: Seq<MethodType>,
    pub handler: Seq<char>,
}

impl View for RouteBinding {
    type V = RouteBindingView;

    open spec fn view(&self) -> RouteBindingView {
        RouteBindingView { path: self.path@, methods: self.methods@, handler: self.handler@ }
    }
}

/// The mathematical values of a router fragment's bindings, in order.
pub open spec fn bindings_deep(v: Seq<RouteBinding>) -> Seq<RouteBindingView> {
    v.map(|i: int, b: RouteBinding| b@)
}

/// The bindings a checked route declaration contributes: one per attribute,
/// carrying that attribute's path and verb set and the handler's name.
pub open spec fn spec_bindings(r: RouteView) -> Seq<RouteBindingView> {
    r.args.map(
        |i: int, a: ArgsView| RouteBindingView { path: a.path, methods: a.methods, handler: r.name },
    )
}

/// An exact copy of a verb list.
pub fn clone_methods(v: &Vec<MethodType>) -> (r: Vec<MethodType>)
    ensures
        r@ == v@,
{
    let mut r: Vec<MethodType> = Vec::new();
    let mut i: usize = 0;
    while i < v.len()
        invariant
            i <= v.len(),
            r@ == v@.subrange(0, i as int),
        decreases v.len() - i,
    {
        r.push(v[i]);
        proof {
            assert(r@ =~= v@.subrange(0, i + 1));
        }
        i += 1;
    }
    proof {
        assert(v@.subrange(0, v@.len() as int) =~= v@);
    }
    r
}

/// The bindings of a checked route declaration.
pub fn bindings(route: &Route) -> (r: Vec<RouteBinding>)
    ensures
        bindings_deep(r@) == spec_bindings(route@),
{
    let mut r: Vec<RouteBinding> = Vec::new();
    let mut i: usize = 0;
    while i < route.args.len()
        invariant
            i <= route.args.len(),
            r@.len() == i as int,
            forall|j: int| 0 <= j < i ==> bindings_deep(r@)[j] == spec_bindings(route@)[j],
        decreases route.args.len() - i,
    {
        let a = &route.args[i];
        let ghost before = r@;
        r.push(
            RouteBinding {
                path: a.path.clone(),
                methods: clone_methods(&a.methods),
                handler: route.name.clone(),
            },
        );
        proof {
            assert(route@.args[i as int] == route.args@[i as int]@);
            assert(bindings_deep(r@)[i as int] == r@[i as int]@);
            assert(forall|j: int|
                0 <= j < i ==> bindings_deep(r@)[j] == bindings_deep(before)[j]);
        }
        i += 1;
    }
    proof {
        assert(bindings_deep(r@) =~= spec_bindings(route@));
    }
    r
}

/// A build-time participant that adds its route bindings to the router under
/// construction. Every checked route declaration is one; the bindings it adds
/// are exactly [`HandlerRegistrar::contributed`].
pub trait HandlerRegistrar {
    /// The bindings this registrar stands for.
    spec fn contributed(&self) -> Seq<RouteBindingView>;

    /// Appends this registrar's bindings to the router under construction.
    fn register(&self, router: Vec<RouteBinding>) -> (r: Vec<RouteBinding>)
        ensures
            bindings_deep(r@) == bindings_deep(router@) + self.contributed(),
    ;
}

impl HandlerRegistrar for Route {
    open spec fn contributed(&self) -> Seq<RouteBindingView> {
        spec_bindings(self@)
    }

    fn register(&self, router: Vec<RouteBinding>) -> (r: Vec<RouteBinding>) {
        let ghost before = router@;
        let mut r = router;
        let mut own = bindings(self);
        let ghost ownv = own@;
        r.append(&mut own);
        proof {
            assert(r@ == before + ownv);
            assert forall|j: int| 0 <= j < r@.len() implies #[trigger] bindings_deep(r@)[j] == (
            bindings_deep(before) + spec_bindings(self@))[j] by {
                if j < before.len() {
                    assert(r@[j] == before[j]);
                } else {
                    assert(r@[j] == ownv[j - before.len()]);
                }
            }
            assert(bindings_deep(r@) =~= bindings_deep(before) + spec_bindings(self@));
        }
        r
    }
}

/// Bindings with a scope prefix applied to every path.
pub open spec fn spec_scoped_bindings(prefix: Seq<char>, bs: Seq<RouteBindingView>) -> Seq<
    RouteBindingView,
> {
    bs.map(
        |i: int, b: RouteBindingView| RouteBindingView {
            path: spec_scope_path(prefix, b.path),
            methods: b.methods,
            handler: b.handler,
        },
    )
}

/// Applies a scope prefix to a group of bindings: the prefix is prepended to
/// every path, with no duplicated separator.
pub fn apply_scope(prefix: &str, routes: &Vec<RouteBinding>) -> (r: Vec<RouteBinding>)
    ensures
        bindings_deep(r@) == spec_scoped_bindings(prefix@, bindings_deep(routes@)),
{
    let mut r: Vec<RouteBinding> = Vec::new();
    let mut i: usize = 0;
    while i < routes.len()
        invariant
            i <= routes.len(),
            r@.len() == i as int,
            forall|j: int|
                0 <= j < i ==> bindings_deep(r@)[j] == spec_scoped_bindings(
                    prefix@,
                    bindings_deep(routes@),
                )[j],
        decreases routes.len() - i,
    {
        let b = &routes[i];
        let ghost before = r@;
        r.push(
            RouteBinding {
                path: scope_path(prefix, b.path.as_str()),
                methods: clone_methods(&b.methods),
                handler: b.handler.clone(),
            },
        );
        proof {
            assert(bindings_deep(routes@)[i as int] == routes@[i as int]@);
            assert(bindings_deep(r@)[i as int] == r@[i as int]@);
            assert(bindings_deep(r@)[i as int] == RouteBindingView {
                path: spec_scope_path(prefix@, bindings_deep(routes@)[i as int].path),
                methods: bindings_deep(routes@)[i as int].methods,
                handler: bindings_deep(routes@)[i as int].handler,
            });
            assert forall|j: int| 0 <= j < i + 1 implies #[trigger] bindings_deep(r@)[j]
                == spec_scoped_bindings(prefix@, bindings_deep(routes@))[j] by {
                if j < i {
                    assert(r@[j] == before[j]);
                    assert(bindings_deep(before)[j] == spec_scoped_bindings(
                        prefix@,
                        bindings_deep(routes@),
                    )[j]);
                }
            }
        }
        i += 1;
    }
    proof {
        assert(bindings_deep(r@) =~= spec_scoped_bindings(prefix@, bindings_deep(routes@)));
    }
    r
}

/// The values of a concatenation are the concatenated values.
pub proof fn lemma_bindings_deep_concat(a: Seq<RouteBinding>, b: Seq<RouteBinding>)
    ensures
        bindings_deep(a + b) == bindings_deep(a) + bindings_deep(b),
{
    assert forall|j: int| 0 <= j < a.len() + b.len() implies #[trigger] bindings_deep(a + b)[j] == (
    bindings_deep(a) + bindings_deep(b))[j] by {
        if j < a.len() {
            assert((a + b)[j] == a[j]);
        } else {
            assert((a + b)[j] == b[j - a.len()]);
        }
    }
    assert(bindings_deep(a + b) =~= bindings_deep(a) + bindings_deep(b));
}

/// An exact copy of a router fragment.
pub fn clone_bindings(v: &Vec<RouteBinding>) -> (r: Vec<RouteBinding>)
    ensures
        bindings_deep(r@) == bindings_deep(v@),
{
    let mut r: Vec<RouteBinding> = Vec::new();
    let mut i: usize = 0;
    while i < v.len()
        invariant
            i <= v.len(),
            r@.len() == i as int,
            forall|j: int| 0 <= j < i ==> bindings_deep(r@)[j] == bindings_deep(v@)[j],
        decreases v.len() - i,
    {
        let b = &v[i];
        let ghost before = r@;
        r.push(
            RouteBinding {
                path: b.path.clone(),
                methods: clone_methods(&b.methods),
                handler: b.handler.clone(),
            },
        );
        proof {
            assert(bindings_deep(v@)[i as int] == v@[i as int]@);
            assert(bindings_deep(r@)[i as int] == r@[i as int]@);
            assert(forall|j: int| 0 <= j < i ==> r@[j] == before[j]);
            assert(forall|j: int|
                0 <= j < i ==> bindings_deep(r@)[j] == bindings_deep(before)[j]);
        }
        i += 1;
    }
    proof {
        assert(bindings_deep(r@) =~= bindings_deep(v@));
    }
    r
}

} // verus!
