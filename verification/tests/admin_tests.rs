use rust_proxy::admin::base_ok_body;
use rust_proxy::admin::route_admin;
use rust_proxy::admin::AdminAction;
use rust_proxy::admin::AdminMethod;

#[test]
fn known_paths_route_to_their_operations() {
    assert!(matches!(
        route_admin(AdminMethod::Get, &String::from("/appConfig")),
        AdminAction::GetConfig
    ));
    assert!(matches!(
        route_admin(AdminMethod::Post, &String::from("/appConfig")),
        AdminAction::ReplaceAll
    ));
    assert!(matches!(
        route_admin(AdminMethod::Get, &String::from("/metrics")),
        AdminAction::Metrics
    ));
    assert!(matches!(
        route_admin(AdminMethod::Put, &String::from("/route")),
        AdminAction::UpdateRoute
    ));
}

#[test]
fn delete_route_extracts_the_id() {
    let action = route_admin(
        AdminMethod::Delete,
        &String::from("/route/90c66439-5c87-4902-aebb-1c2c9443c154"),
    );
    match action {
        AdminAction::DeleteRoute { id } => {
            assert_eq!(id, "90c66439-5c87-4902-aebb-1c2c9443c154");
        },
        _ => panic!("expected a deletion"),
    }
}

#[test]
fn wrong_method_on_known_path_is_method_not_allowed() {
    assert!(matches!(
        route_admin(AdminMethod::Delete, &String::from("/appConfig")),
        AdminAction::MethodNotAllowed
    ));
    assert!(matches!(
        route_admin(AdminMethod::Post, &String::from("/metrics")),
        AdminAction::MethodNotAllowed
    ));
    assert!(matches!(
        route_admin(AdminMethod::Get, &String::from("/route")),
        AdminAction::MethodNotAllowed
    ));
    assert!(matches!(
        route_admin(AdminMethod::Get, &String::from("/route/abc")),
        AdminAction::MethodNotAllowed
    ));
}

#[test]
fn unknown_path_is_not_found() {
    assert!(matches!(
        route_admin(AdminMethod::Post, &String::from("/unknown")),
        AdminAction::NotFound
    ));
    assert!(matches!(
        route_admin(AdminMethod::Get, &String::from("/")),
        AdminAction::NotFound
    ));
}

#[test]
fn the_success_body_is_the_base_response() {
    assert_eq!(base_ok_body(), "{\"response_code\":0,\"response_object\":0}");
}
