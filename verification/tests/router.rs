use rust_api::req::Method;
use rust_api::route::Route;
use rust_api::router::concat_ids;
use rust_api::router::Router;

#[test]
fn flatten_puts_the_prefix_in_front() {
    let group = Router::new().get("/users", 1).post("/users", 2).layer(10);
    let flat = group.flatten("/api");
    assert_eq!(flat.len(), 2);
    assert_eq!(flat[0].method, Method::Get);
    assert_eq!(flat[0].path, "/api/users");
    assert_eq!(flat[0].handler, 1);
    assert_eq!(flat[0].middlewares, vec![10]);
    assert_eq!(flat[1].method, Method::Post);
    assert_eq!(flat[1].path, "/api/users");
    assert_eq!(flat[1].handler, 2);
}

#[test]
fn flatten_is_recursive_and_outer_middleware_come_first() {
    let deepest = Router::new().delete("/c", 3).layer(30).layer(31);
    let inner = Router::new().put("/b", 2).layer(20).nest("/y", deepest);
    let outer = Router::new()
        .patch("/a", 1)
        .layer(10)
        .layer(11)
        .nest("/x", inner)
        .nest("/z", Router::new().get("/d", 4));
    let flat = outer.flatten("/root");
    let seen: Vec<(Method, String, usize, Vec<usize>)> = flat
        .iter()
        .map(|e| (e.method, e.path.clone(), e.handler, e.middlewares.clone()))
        .collect();
    assert_eq!(
        seen,
        vec![
            (Method::Patch, "/root/a".to_string(), 1, vec![10, 11]),
            (Method::Put, "/root/x/b".to_string(), 2, vec![10, 11, 20]),
            (Method::Delete, "/root/x/y/c".to_string(), 3, vec![10, 11, 20, 30, 31]),
            (Method::Get, "/root/z/d".to_string(), 4, vec![10, 11]),
        ]
    );
}

#[test]
fn empty_group_flattens_to_nothing() {
    assert!(Router::new().flatten("/x").is_empty());
    assert!(Router::new().layer(1).nest("/y", Router::new()).flatten("").is_empty());
}

#[test]
fn route_collects_its_middleware_in_order() {
    let e = Route::get("/admin", 7).layer(1).layer(2).into_endpoint();
    assert_eq!(e.method, Method::Get);
    assert_eq!(e.path, "/admin");
    assert_eq!(e.handler, 7);
    assert_eq!(e.middlewares, vec![1, 2]);
    assert_eq!(Route::post("/p", 1).into_endpoint().method, Method::Post);
    assert_eq!(Route::put("/p", 1).into_endpoint().method, Method::Put);
    assert_eq!(Route::delete("/p", 1).into_endpoint().method, Method::Delete);
    assert_eq!(Route::patch("/p", 1).into_endpoint().method, Method::Patch);
    assert_eq!(Route::new(Method::Get, "/n".to_string(), 3).into_endpoint().handler, 3);
}

#[test]
fn lists_are_joined_in_order() {
    assert_eq!(concat_ids(&vec![1, 2], &vec![3]), vec![1, 2, 3]);
    assert_eq!(concat_ids(&vec![], &vec![]), Vec::<usize>::new());
}

#[test]
fn default_group_is_empty() {
    assert!(Router::default().flatten("/x").is_empty());
}
