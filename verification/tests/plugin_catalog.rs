use springboot::app::AppBuilder;
use springboot::catalog::auto_inject_service;
use springboot::catalog::auto_router;
use springboot::catalog::PluginCatalog;
use springboot::catalog::PluginEntry;
use springboot::component::Component;
use springboot::config::ConfigTree;
use springboot::errors::BootError;
use springboot::inject::FieldPlan;
use springboot::inject::InjectKind;
use springboot::inject::ServiceDescriptor;
use springboot::route::HandlerSig;
use springboot::route::MethodType;
use springboot::route::route_new;
use springboot::route::Route;
use springboot::route::RouteArgs;

fn service_entry(entry_id: u64, type_key: u64) -> PluginEntry {
    PluginEntry::ServicePlugin {
        entry_id,
        desc: ServiceDescriptor {
            type_key,
            name: format!("service-{}", entry_id),
            singleton: true,
            fields: vec![],
        },
    }
}

fn handler_entry(entry_id: u64, path: &str, name: &str) -> PluginEntry {
    PluginEntry::HandlerPlugin { entry_id, route: get_route(path, name) }
}

fn get_route(path: &str, name: &str) -> Route {
    let args = RouteArgs { path: path.to_string(), options: vec![] };
    let sig = HandlerSig { name: name.to_string(), has_return_type: true };
    route_new(&args, sig, Some(MethodType::Get)).unwrap()
}

fn empty_builder() -> AppBuilder {
    AppBuilder::new(ConfigTree::load(vec![], vec![]))
}

#[test]
fn startup_installs_each_service_entry_exactly_once() {
    let mut catalog = PluginCatalog::new();
    catalog.submit(service_entry(101, 1));
    catalog.submit(handler_entry(102, "/a", "a"));
    catalog.submit(service_entry(103, 2));
    catalog.submit(service_entry(104, 3));
    let mut app = empty_builder();
    let ctorss = vec![vec![], vec![], vec![], vec![]];
    auto_inject_service(&mut app, &catalog, &ctorss).unwrap();
    assert_eq!(app.install_log(), &vec![101, 103, 104]);
}

#[test]
fn installation_count_does_not_depend_on_contribution_order() {
    let mut forward = PluginCatalog::new();
    forward.submit(service_entry(7, 1));
    forward.submit(service_entry(8, 2));
    let mut backward = PluginCatalog::new();
    backward.submit(service_entry(8, 2));
    backward.submit(service_entry(7, 1));

    let mut app1 = empty_builder();
    auto_inject_service(&mut app1, &forward, &vec![vec![], vec![]]).unwrap();
    let mut app2 = empty_builder();
    auto_inject_service(&mut app2, &backward, &vec![vec![], vec![]]).unwrap();

    let mut log1 = app1.install_log().clone();
    let mut log2 = app2.install_log().clone();
    assert_eq!(log1.len(), 2);
    assert_eq!(log2.len(), 2);
    log1.sort();
    log2.sort();
    assert_eq!(log1, log2);
}

#[test]
fn a_later_service_sees_an_earlier_registration() {
    let mut catalog = PluginCatalog::new();
    catalog.submit(service_entry(1, 50));
    catalog.submit(PluginEntry::ServicePlugin {
        entry_id: 2,
        desc: ServiceDescriptor {
            type_key: 51,
            name: "dependent".to_string(),
            singleton: true,
            fields: vec![FieldPlan {
                name: "base".to_string(),
                kind: InjectKind::ComponentRef { type_key: 50 },
            }],
        },
    });
    let mut app = empty_builder();
    auto_inject_service(&mut app, &catalog, &vec![vec![], vec![]]).unwrap();
    assert!(app.get_component(51).is_some());
}

#[test]
fn an_earlier_service_never_sees_a_later_registration() {
    let mut catalog = PluginCatalog::new();
    catalog.submit(PluginEntry::ServicePlugin {
        entry_id: 2,
        desc: ServiceDescriptor {
            type_key: 51,
            name: "dependent".to_string(),
            singleton: true,
            fields: vec![FieldPlan {
                name: "base".to_string(),
                kind: InjectKind::ComponentRef { type_key: 50 },
            }],
        },
    });
    catalog.submit(service_entry(1, 50));
    let mut app = empty_builder();
    match auto_inject_service(&mut app, &catalog, &vec![vec![], vec![]]) {
        Err(BootError::ComponentNotFound { field, type_key }) => {
            assert_eq!(field, "base");
            assert_eq!(type_key, 50);
        }
        other => panic!("expected ComponentNotFound, got {:?}", other),
    }
    assert!(app.get_component(50).is_none());
    assert_eq!(app.install_log().len(), 0);
}

#[test]
fn auto_router_collects_each_handler_once_in_catalog_order() {
    let mut catalog = PluginCatalog::new();
    catalog.submit(handler_entry(1, "/a", "a"));
    catalog.submit(service_entry(2, 60));
    catalog.submit(handler_entry(3, "/b", "b"));
    let router = auto_router(&catalog);
    assert_eq!(router.len(), 2);
    assert_eq!(router[0].path, "/a");
    assert_eq!(router[0].handler, "a");
    assert_eq!(router[1].path, "/b");
    assert_eq!(router[1].handler, "b");
}

#[test]
fn duplicate_service_type_key_stops_the_pass() {
    let mut catalog = PluginCatalog::new();
    catalog.submit(service_entry(1, 70));
    catalog.submit(service_entry(2, 70));
    let mut app = empty_builder();
    match auto_inject_service(&mut app, &catalog, &vec![vec![], vec![]]) {
        Err(BootError::DuplicateComponent { type_key }) => assert_eq!(type_key, 70),
        other => panic!("expected DuplicateComponent, got {:?}", other),
    }
    assert_eq!(app.install_log(), &vec![1]);
}

#[test]
fn non_singleton_services_install_without_registering() {
    let mut catalog = PluginCatalog::new();
    catalog.submit(PluginEntry::ServicePlugin {
        entry_id: 9,
        desc: ServiceDescriptor {
            type_key: 80,
            name: "prototype".to_string(),
            singleton: false,
            fields: vec![],
        },
    });
    let mut app = empty_builder();
    auto_inject_service(&mut app, &catalog, &vec![vec![]]).unwrap();
    assert_eq!(app.install_log(), &vec![9]);
    assert!(app.get_component(80).is_none());
}

#[test]
fn components_registered_by_services_hold_their_resolution() {
    let mut catalog = PluginCatalog::new();
    catalog.submit(service_entry(1, 90));
    let mut app = empty_builder();
    auto_inject_service(&mut app, &catalog, &vec![vec![]]).unwrap();
    match app.get_component(90) {
        Some(Component::Service(rs)) => {
            assert_eq!(rs.type_key, 90);
            assert_eq!(rs.name, "service-1");
            assert!(rs.fields.is_empty());
        }
        other => panic!("expected a resolved service, got {:?}", other),
    }
}
