use fluent_routes::root;
use fluent_routes::Params;
use fluent_routes::ReverseRouter;
use fluent_routes::RouteError;

#[test]
fn should_construct_params() {
    let mut params = Params::new();
    params.insert("thing", "5");

    let mut expected = Params::new();
    expected.insert("thing", "5");

    assert_eq!(params, expected);
}

#[test]
fn should_construct_multi_value_params() {
    let mut params = Params::new();
    params.insert("thing1", "5");
    params.insert("thing2", "another thing");

    let mut expected = Params::new();
    expected.insert("thing1", "5");
    expected.insert("thing2", "another thing");

    assert_eq!(params, expected);
}

#[test]
fn should_resolve_named_route_to_composed_path() {
    let tree = root::<u32, u32>()
        .get(1)
        .at("articles", |r| r.name("articles").get(2).post(3))
        .finish()
        .unwrap();

    let reverse = tree.reverse_router();

    assert_eq!(
        reverse.resolve("articles", Params::new()).unwrap(),
        "/articles"
    );
}

#[test]
fn should_fail_to_resolve_unknown_name() {
    let tree = root::<u32, u32>()
        .at("articles", |r| r.name("articles").get(1))
        .finish()
        .unwrap();

    let reverse = tree.reverse_router();

    assert_eq!(
        reverse.resolve("missing", Params::new()),
        Err(RouteError::NotFound)
    );
}

#[test]
fn should_resolve_deeply_nested_name() {
    let tree = root::<u32, u32>()
        .at("api/v1", |r| {
            r.at("articles", |r| r.at(":id", |r| r.name("article").get(1)))
        })
        .finish()
        .unwrap();

    let reverse = tree.reverse_router();

    assert_eq!(
        reverse.resolve("article", Params::new()).unwrap(),
        "/api/v1/articles/:id"
    );
}

#[test]
fn should_let_later_node_overwrite_shared_name() {
    let tree = root::<u32, u32>()
        .at("a", |r| r.name("dup").get(1))
        .at("b", |r| r.name("dup").get(2))
        .finish()
        .unwrap();

    let reverse = tree.reverse_router();

    assert_eq!(reverse.resolve("dup", Params::new()).unwrap(), "/b");
}

#[test]
fn should_overwrite_on_direct_reinsert() {
    let mut reverse = ReverseRouter::new();
    reverse.insert("n", "/x");
    reverse.insert("n", "/y");

    assert_eq!(reverse.resolve("n", Params::new()).unwrap(), "/y");
}

#[test]
fn should_return_stored_path_whatever_params_hold() {
    let tree = root::<u32, u32>()
        .at("articles/:id", |r| r.name("article").get(1))
        .finish()
        .unwrap();

    let reverse = tree.reverse_router();
    let mut params = Params::new();
    params.insert("id", "7");

    assert_eq!(
        reverse.resolve("article", params).unwrap(),
        "/articles/:id"
    );
}

#[test]
fn should_ignore_middleware_for_names() {
    let tree = root::<u32, u32>()
        .with(10, |r| r.at("inner", |r| r.name("inner").get(1)))
        .finish()
        .unwrap();

    let reverse = tree.reverse_router();

    assert_eq!(reverse.resolve("inner", Params::new()).unwrap(), "/inner");
}
