use fluent_routes::method::Method;
use fluent_routes::root;
use fluent_routes::RouteError;

#[test]
fn should_build_single_endpoint() {
    let routes: Vec<_> = root::<u32, u32>().get(1).build().unwrap();

    assert_eq!(routes.len(), 1);
}

#[test]
fn should_build_multiple_endpoints() {
    let routes: Vec<_> = root::<u32, u32>().get(1).post(2).build().unwrap();

    assert_eq!(routes.len(), 2);
}

#[test]
fn should_build_sub_endpoints() {
    let routes: Vec<_> = root::<u32, u32>()
        .at("sub_path", |r| r.get(1).post(2))
        .build()
        .unwrap();

    assert_eq!(routes.len(), 2);
}

#[test]
fn should_build_endpoint_path() {
    let routes: Vec<_> = root::<u32, u32>()
        .at("path", |r| r.at("subpath", |r| r.get(1)))
        .build()
        .unwrap();

    assert_eq!(routes.len(), 1);
    assert_eq!(
        routes.get(0).unwrap().path.to_string(),
        "/path/subpath".to_string()
    );
}

#[test]
fn should_start_path_with_slash() {
    let routes: Vec<_> = root::<u32, u32>().get(1).build().unwrap();
    assert_eq!(routes.get(0).unwrap().path.to_string(), "/".to_string());
}

#[test]
fn should_collect_middleware() {
    let middleware1 = 1u32;
    let middleware2 = 2u32;

    let routes: Vec<_> = root::<u32, u32>()
        .at("path", |r| {
            r.with(middleware1, |r| {
                r.at("subpath", |r| r.with(middleware2, |r| r.get(1)))
                    .get(2)
            })
        })
        .build()
        .unwrap();

    assert_eq!(routes.get(0).unwrap().middleware.len(), 1);
    assert_eq!(routes.get(1).unwrap().middleware.len(), 2);
}

#[test]
fn should_keep_middleware_nesting_order() {
    let routes: Vec<_> = root::<u32, u32>()
        .at("path", |r| {
            r.with(10, |r| {
                r.at("subpath", |r| r.with(20, |r| r.get(1))).get(2)
            })
        })
        .build()
        .unwrap();

    assert_eq!(routes[0].middleware, vec![10]);
    assert_eq!(routes[1].middleware, vec![10, 20]);
    assert_eq!(routes[1].path.to_string(), "/path/subpath");
}

#[test]
fn should_flatten_whole_tree_in_order() {
    let routes: Vec<_> = root::<u32, u32>()
        .get(1)
        .post(2)
        .at("api/v1", |r| r.get(3).post(4))
        .at("api/v2", |r| r.get(5))
        .build()
        .unwrap();

    assert_eq!(routes.len(), 5);
    let paths: Vec<String> = routes.iter().map(|d| d.path.to_string()).collect();
    assert_eq!(paths, vec!["/", "/", "/api/v1", "/api/v1", "/api/v2"]);
    let methods: Vec<Option<Method>> = routes.iter().map(|d| d.method).collect();
    assert_eq!(
        methods,
        vec![
            Some(Method::Get),
            Some(Method::Post),
            Some(Method::Get),
            Some(Method::Post),
            Some(Method::Get),
        ]
    );
    let handlers: Vec<u32> = routes.iter().map(|d| d.handler).collect();
    assert_eq!(handlers, vec![1, 2, 3, 4, 5]);
}

#[test]
fn should_replace_handler_for_same_method() {
    let routes: Vec<_> = root::<u32, u32>().get(1).all(9).get(2).build().unwrap();

    assert_eq!(routes.len(), 2);
    assert_eq!(routes[0].method, Some(Method::Get));
    assert_eq!(routes[0].handler, 2);
    assert_eq!(routes[1].method, None);
    assert_eq!(routes[1].handler, 9);
}

#[test]
fn should_register_catch_all() {
    let routes: Vec<_> = root::<u32, u32>().all(7).build().unwrap();

    assert_eq!(routes.len(), 1);
    assert_eq!(routes[0].method, None);
    assert_eq!(routes[0].handler, 7);
}

#[test]
fn should_support_every_verb_shortcut() {
    let routes: Vec<_> = root::<u32, u32>()
        .get(1)
        .head(2)
        .put(3)
        .post(4)
        .delete(5)
        .options(6)
        .connect(7)
        .patch(8)
        .trace(9)
        .build()
        .unwrap();

    let methods: Vec<Option<Method>> = routes.iter().map(|d| d.method).collect();
    assert_eq!(
        methods,
        vec![
            Some(Method::Get),
            Some(Method::Head),
            Some(Method::Put),
            Some(Method::Post),
            Some(Method::Delete),
            Some(Method::Options),
            Some(Method::Connect),
            Some(Method::Patch),
            Some(Method::Trace),
        ]
    );
}

#[test]
fn should_keep_same_path_nodes_distinct() {
    let routes: Vec<_> = root::<u32, u32>()
        .at("x", |r| r.get(1))
        .at("x", |r| r.get(2))
        .build()
        .unwrap();

    assert_eq!(routes.len(), 2);
    assert_eq!(routes[0].path.to_string(), "/x");
    assert_eq!(routes[1].path.to_string(), "/x");
    assert_eq!(routes[0].handler, 1);
    assert_eq!(routes[1].handler, 2);
}

#[test]
fn should_not_leak_middleware_outside_its_scope() {
    let routes: Vec<_> = root::<u32, u32>().with(10, |r| r.get(1)).get(2).build().unwrap();

    assert_eq!(routes.len(), 2);
    assert_eq!(routes[0].handler, 2);
    assert_eq!(routes[0].middleware.len(), 0);
    assert_eq!(routes[1].handler, 1);
    assert_eq!(routes[1].middleware, vec![10]);
}

#[test]
fn should_fail_on_second_name_for_one_node() {
    let result = root::<u32, u32>().name("first").name("second").build();

    assert_eq!(
        result.err(),
        Some(RouteError::DuplicateName("first".to_string()))
    );
}

#[test]
fn should_propagate_name_conflict_out_of_subtrees() {
    let result = root::<u32, u32>()
        .at("path", |r| r.name("a").name("b").get(1))
        .at("other", |r| r.get(2))
        .post(3)
        .build();

    assert_eq!(result.err(), Some(RouteError::DuplicateName("a".to_string())));
}

#[test]
fn should_keep_first_error_through_later_operations() {
    let result = root::<u32, u32>().name("a").name("b").name("c").get(1).build();

    assert_eq!(result.err(), Some(RouteError::DuplicateName("a".to_string())));
}
