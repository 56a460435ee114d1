use roa::error::{ErrorKind, BAD_REQUEST, METHOD_NOT_ALLOWED, NOT_FOUND};
use roa::method::{all_methods, Method};
use roa::router::err::{Conflict, RouterError};
use roa::router::table::RouteTable;
use roa::router::{RouteEndpoint, Router};
use roa::chain::Chain;

fn build(router: Router<&'static str>, prefix: &str) -> RouteEndpoint<&'static str> {
    match router.routes(prefix) {
        Ok(endpoint) => endpoint,
        Err(_) => panic!("the routes do not conflict"),
    }
}

fn names(endpoint: &RouteEndpoint<&'static str>, method: Method, path: &str) -> Vec<&'static str> {
    let found = endpoint.handle(&method, path).unwrap();
    found
        .chain
        .into_layers()
        .into_iter()
        .map(|id| *endpoint.handler(id).unwrap())
        .collect()
}

#[test]
fn conflict_path() {
    let mut router = Router::<u32>::new();
    let mut evil_router = Router::<u32>::new();
    router.get_fn("/route/endpoint", 1);
    evil_router.get_fn("/endpoint", 2);
    router.mount("/route", evil_router);
    let ret = router.routes("/");
    assert!(ret.is_err());
}

#[test]
fn conflict_names_the_normal_path() {
    let mut router = Router::<u32>::new();
    router.get("route/endpoint/", 1).get("/route/endpoint", 2);
    match router.routes("/") {
        Err(RouterError::Conflict(Conflict::Path(path))) => assert_eq!(path, "/route/endpoint"),
        _ => panic!("a path conflict was expected"),
    }
}

#[test]
fn same_path_under_two_methods_is_no_conflict() {
    let mut router = Router::<&str>::new();
    router.get("/x", "get x").post("/x", "post x");
    let endpoint = build(router, "/");
    assert_eq!(names(&endpoint, Method::get(), "/x"), vec!["get x"]);
    assert_eq!(names(&endpoint, Method::post(), "/x"), vec!["post x"]);
}

#[test]
fn overlapping_patterns_are_no_conflict_and_first_wins() {
    let mut router = Router::<&str>::new();
    router.get("/user/:id", "by id").get("/user/:name", "by name");
    let endpoint = build(router, "/");
    let found = endpoint.handle(&Method::get(), "/user/7").unwrap();
    assert_eq!(found.params, vec![("id".to_string(), "7".to_string())]);
    assert_eq!(names(&endpoint, Method::get(), "/user/7"), vec!["by id"]);
}

#[test]
fn ill_formed_path_fails_the_build() {
    let mut router = Router::<u32>::new();
    router.get("/user/:", 1);
    match router.routes("/api") {
        Err(RouterError::MissingVariable(path)) => assert_eq!(path, "/api/user/:"),
        _ => panic!("a missing variable was expected"),
    }
    let mut router = Router::<u32>::new();
    router.get("/:id/:id", 1);
    match router.routes("/") {
        Err(RouterError::Conflict(Conflict::Variable { path, var_name })) => {
            assert_eq!(path, "/:id/:id");
            assert_eq!(var_name, "id");
        }
        _ => panic!("a conflict of variables was expected"),
    }
}

#[test]
fn static_route_comes_before_pattern() {
    let mut router = Router::<&str>::new();
    router.get("/user/:id", "by id").get("/user/list", "list");
    let endpoint = build(router, "/");
    let found = endpoint.handle(&Method::get(), "/user/list").unwrap();
    assert!(found.params.is_empty());
    assert_eq!(names(&endpoint, Method::get(), "/user/list"), vec!["list"]);
    let found = endpoint.handle(&Method::get(), "/user/17").unwrap();
    assert_eq!(found.params, vec![("id".to_string(), "17".to_string())]);
    assert_eq!(names(&endpoint, Method::get(), "/user/17"), vec!["by id"]);
}

#[test]
fn method_without_route_is_not_allowed() {
    let mut router = Router::<&str>::new();
    router.get("/x", "x");
    let endpoint = build(router, "/");
    let err = endpoint.handle(&Method::delete(), "/x").unwrap_err();
    assert_eq!(err.status_code, METHOD_NOT_ALLOWED);
    assert_eq!(err.status_code, 405);
    assert_eq!(err.message, "method DELETE is not allowed");
    assert!(err.expose);
    assert_eq!(err.kind, ErrorKind::Client);
}

#[test]
fn unrouted_path_is_not_found() {
    let mut router = Router::<&str>::new();
    router.get("/x", "x");
    let endpoint = build(router, "/");
    let err = endpoint.handle(&Method::get(), "/y").unwrap_err();
    assert_eq!(err.status_code, NOT_FOUND);
    assert_eq!(err.status_code, 404);
    assert_eq!(err.message, "");
    assert!(err.expose);
    assert_eq!(err.kind, ErrorKind::Client);
}

#[test]
fn route_not_found() {
    let endpoint = build(Router::new(), "/");
    let err = endpoint.handle(&Method::get(), "/").unwrap_err();
    assert_eq!(METHOD_NOT_ALLOWED, err.status_code);
    assert_eq!(err.status_code, 405);
    assert_eq!(err.message, "method GET is not allowed");
}

#[test]
fn non_utf8_uri() {
    let endpoint = build(Router::new(), "/");
    let encoded = percent_encoding::percent_encode(
        &[0xC2, 0xB7, 0xD3, 0xC9],
        percent_encoding::NON_ALPHANUMERIC,
    )
    .to_string();
    let path = format!("/{}", encoded);
    assert_eq!(path, "/%C2%B7%D3%C9");
    let err = endpoint.handle(&Method::get(), &path).unwrap_err();
    assert_eq!(err.status_code, BAD_REQUEST);
    assert_eq!(err.status_code, 400);
    assert!(err.expose);
    assert!(err
        .message
        .ends_with("path `/%C2%B7%D3%C9` is not a valid utf-8 string"));
    assert!(err.message.len() > "\npath `/%C2%B7%D3%C9` is not a valid utf-8 string".len());
}

#[test]
fn undecodable_path_is_refused_whatever_the_method() {
    let mut router = Router::<&str>::new();
    router.get("/x", "x");
    let endpoint = build(router, "/");
    let err = endpoint.handle(&Method::delete(), "/%FF").unwrap_err();
    assert_eq!(err.status_code, 400);
    assert!(err.message.ends_with("path `/%FF` is not a valid utf-8 string"));
    let err = endpoint.handle(&Method::delete(), "/%46%46").unwrap_err();
    assert_eq!(err.status_code, 405);
    let err = endpoint.handle(&Method::new("PURGE"), "/x%80").unwrap_err();
    assert_eq!(err.status_code, 400);
}

#[test]
fn undecodable_path_is_refused_whatever_would_match() {
    let mut router = Router::<&str>::new();
    router.get("/:anything", "any").get("/%FF", "literal");
    let endpoint = build(router, "/");
    let err = endpoint.handle(&Method::get(), "/%FF").unwrap_err();
    assert_eq!(err.status_code, 400);
    assert!(err.message.ends_with("path `/%FF` is not a valid utf-8 string"));
}

#[test]
fn path_is_decoded_before_it_is_matched() {
    let mut router = Router::<&str>::new();
    router.get("/a b", "space").get("/user/:name", "user");
    let endpoint = build(router, "/");
    assert_eq!(names(&endpoint, Method::get(), "/a%20b"), vec!["space"]);
    let found = endpoint.handle(&Method::get(), "/user/J%C3%BCrgen").unwrap();
    assert_eq!(found.params, vec![("name".to_string(), "Jürgen".to_string())]);
    let found = endpoint.handle(&Method::get(), "/user%2Fbob").unwrap();
    assert_eq!(found.params, vec![("name".to_string(), "bob".to_string())]);
    let found = endpoint.handle(&Method::get(), "/user/100%").unwrap();
    assert_eq!(found.params, vec![("name".to_string(), "100%".to_string())]);
    let found = endpoint.handle(&Method::get(), "/user/%zz").unwrap();
    assert_eq!(found.params, vec![("name".to_string(), "%zz".to_string())]);
    let found = endpoint.handle(&Method::get(), "/user/%2a%2A").unwrap();
    assert_eq!(found.params, vec![("name".to_string(), "**".to_string())]);
}

#[test]
fn request_path_is_normalised() {
    let mut router = Router::<&str>::new();
    router.get("/user/list", "list").get("/", "root");
    let endpoint = build(router, "/");
    assert_eq!(names(&endpoint, Method::get(), "user/list/"), vec!["list"]);
    assert_eq!(names(&endpoint, Method::get(), "//user/list//"), vec!["list"]);
    assert_eq!(names(&endpoint, Method::get(), ""), vec!["root"]);
    assert_eq!(names(&endpoint, Method::get(), "/"), vec!["root"]);
}

#[test]
fn gates_wrap_every_route_in_order() {
    let mut router = Router::<&str>::new();
    router.gate("first").get("/a", "a").gate_fn("second").post("/b", "b");
    let endpoint = build(router, "/api");
    assert_eq!(names(&endpoint, Method::get(), "/api/a"), vec!["first", "second", "a"]);
    assert_eq!(names(&endpoint, Method::post(), "/api/b"), vec!["first", "second", "b"]);
}

#[test]
fn mounted_router_keeps_its_own_gates_inside_the_parents() {
    let mut child = Router::<&str>::new();
    child.gate("child gate").get("/:id", "show");
    let mut parent = Router::<&str>::new();
    parent.gate("parent gate").get("/", "index");
    parent.mount("/user", child);
    let endpoint = build(parent, "/api");
    assert_eq!(names(&endpoint, Method::get(), "/api"), vec!["parent gate", "index"]);
    assert_eq!(
        names(&endpoint, Method::get(), "/api/user/3"),
        vec!["parent gate", "child gate", "show"]
    );
    let found = endpoint.handle(&Method::get(), "/api/user/3").unwrap();
    assert_eq!(found.params, vec![("id".to_string(), "3".to_string())]);
}

#[test]
fn include_methods_keeps_the_listed_methods_only() {
    let mut child = Router::<&str>::new();
    child.get("/x", "get x").post("/x", "post x").delete("/x", "delete x");
    let mut parent = Router::<&str>::new();
    parent.include_methods("/c", child, &[Method::get(), Method::delete()]);
    let endpoint = build(parent, "/");
    assert_eq!(names(&endpoint, Method::get(), "/c/x"), vec!["get x"]);
    assert_eq!(names(&endpoint, Method::delete(), "/c/x"), vec!["delete x"]);
    assert_eq!(endpoint.handle(&Method::post(), "/c/x").unwrap_err().status_code, 405);
}

#[test]
fn mount_drops_routes_of_other_than_standard_methods() {
    let mut child = Router::<&str>::new();
    child.end(&[Method::new("PURGE"), Method::get()], "/x", "x");
    let mut parent = Router::<&str>::new();
    parent.mount("/", child);
    let endpoint = build(parent, "/");
    assert_eq!(names(&endpoint, Method::get(), "/x"), vec!["x"]);
    assert_eq!(endpoint.handle(&Method::new("PURGE"), "/x").unwrap_err().status_code, 405);
}

#[test]
fn extension_method_can_be_routed() {
    let mut router = Router::<&str>::new();
    router.end_fn("/cache", &[Method::new("PURGE")], "purge");
    let endpoint = build(router, "/");
    assert_eq!(names(&endpoint, Method::new("PURGE"), "/cache"), vec!["purge"]);
    assert_eq!(endpoint.handle(&Method::new("purge"), "/cache").unwrap_err().status_code, 405);
}

#[test]
fn all_registers_the_nine_standard_methods() {
    let mut router = Router::<&str>::new();
    router.all("/x", "x");
    let endpoint = build(router, "/");
    let methods = all_methods();
    assert_eq!(methods.len(), 9);
    for method in methods {
        assert_eq!(names(&endpoint, method, "/x"), vec!["x"]);
    }
    assert_eq!(endpoint.handle(&Method::new("PURGE"), "/x").unwrap_err().status_code, 405);
}

#[test]
fn each_verb_registers_its_own_method() {
    let mut router = Router::<&str>::new();
    router
        .get("/x", "GET")
        .post("/x", "POST")
        .put("/x", "PUT")
        .patch("/x", "PATCH")
        .options("/x", "OPTIONS")
        .delete("/x", "DELETE")
        .head("/x", "HEAD")
        .trace("/x", "TRACE")
        .connect("/x", "CONNECT");
    let endpoint = build(router, "/");
    for method in all_methods() {
        let token = method.as_str().to_string();
        assert_eq!(names(&endpoint, method, "/x"), vec![token.as_str()]);
    }
}

#[test]
fn on_lists_routes_below_the_prefix() {
    let mut router = Router::<&str>::new();
    router.gate("gate").get("/a/", "a").post(":id", "b");
    let entries = router.on("/api/");
    assert_eq!(entries.len(), 2);
    assert_eq!(entries[0].method, Method::get());
    assert_eq!(entries[0].path, "api/a");
    assert_eq!(entries[1].method, Method::post());
    assert_eq!(entries[1].path, "api/:id");
    let ids: Vec<Vec<usize>> = entries.into_iter().map(|e| e.chain.into_layers()).collect();
    assert_eq!(ids, vec![vec![0, 1], vec![0, 2]]);
}

#[test]
fn handler_numbers_beyond_the_list_name_nothing() {
    let mut router = Router::<&str>::new();
    router.get("/x", "x");
    let endpoint = build(router, "/");
    assert_eq!(endpoint.handler(0), Some(&"x"));
    assert_eq!(endpoint.handler(1), None);
}

#[test]
fn default_endpoint_has_no_routes() {
    let endpoint: RouteEndpoint<u32> = RouteEndpoint::default();
    assert_eq!(endpoint.handle(&Method::get(), "/").unwrap_err().status_code, 405);
    assert_eq!(endpoint.handler(0), None);
}

#[test]
fn table_conflict_leaves_the_old_route() {
    let mut table = RouteTable::new();
    assert!(table.insert("/x", Chain::of(vec![1])).is_ok());
    match table.insert("x/", Chain::of(vec![2])) {
        Err(RouterError::Conflict(Conflict::Path(path))) => assert_eq!(path, "/x"),
        _ => panic!("a path conflict was expected"),
    }
    assert_eq!(table.resolve("/x").unwrap().chain.into_layers(), vec![1]);
    assert!(table.insert("/y", Chain::of(vec![3])).is_ok());
    assert_eq!(table.resolve("/y").unwrap().chain.into_layers(), vec![3]);
    assert_eq!(table.resolve("/x").unwrap().chain.into_layers(), vec![1]);
}

#[test]
fn table_refusal_of_a_pattern_changes_nothing() {
    let mut table = RouteTable::new();
    assert!(table.insert("/:id", Chain::of(vec![1])).is_ok());
    assert!(table.insert("/:a/:a", Chain::of(vec![2])).is_err());
    assert_eq!(table.resolve("/5").unwrap().chain.into_layers(), vec![1]);
    assert_eq!(table.resolve("/5/5").unwrap_err().status_code, 404);
}

#[test]
fn table_end_decodes_and_resolve_does_not() {
    let mut table = RouteTable::new();
    assert!(table.insert("/a b", Chain::of(vec![1])).is_ok());
    assert_eq!(table.end("/a%20b").unwrap().chain.into_layers(), vec![1]);
    assert_eq!(table.resolve("/a%20b").unwrap_err().status_code, 404);
    assert_eq!(table.resolve("/a b").unwrap().chain.into_layers(), vec![1]);
}

#[test]
fn failures_say_what_went_wrong() {
    assert_eq!(Conflict::Path("/x".to_string()).message(), "conflict path: `/x`");
    assert_eq!(
        Conflict::Variable { path: "/:a/:a".to_string(), var_name: "a".to_string() }.message(),
        "conflict variable `a`: in `/:a/:a`"
    );
    assert_eq!(
        RouterError::Conflict(Conflict::Path("/x".to_string())).message(),
        "Conflict! conflict path: `/x`"
    );
    assert_eq!(
        RouterError::MissingVariable("/:".to_string()).message(),
        "missing variable on path /:"
    );
}
