//! The control-plane adapter: classifying a request of the REST surface into
//! an operation, and running each operation against the snapshot with the
//! status code and body the surface promises. An unknown path is a 404; a
//! known path under the wrong method is a 405.
use vstd::prelude::*;
use vstd::string::StrSliceExecFns;
use vstd::string::StringExecFns;
use crate::errors::ConfigError;
use crate::errors::spec_message;
use crate::model::ApiService;
use crate::model::AppConfig;
use crate::model::Route;
use crate::model::services_view;
use crate::store::replace_all;
use crate::store::spec_delete;
use crate::store::spec_replace_all;
use crate::store::spec_update_err;
use crate::store::spec_update_route;
use crate::store::spec_validate;
use crate::store::update_route;
use crate::store::delete_route;
use crate::strutil::has_prefix;
use crate::strutil::str_eq;
use crate::strutil::suffix_from;

verus! {

/// The request method, as far as the REST surface distinguishes it.
#[derive(Clone, Copy, PartialEq, Eq, Structural, Debug)]
pub enum AdminMethod {
    Get,
    Post,
    Put,
    Delete,
    Other,
}

/// What a control-plane request asks for.
pub enum AdminAction {
    /// Read the snapshot.
    GetConfig,
    /// Read the metrics exposition.
    Metrics,
    /// Install a complete new snapshot.
    ReplaceAll,
    /// Replace one route.
    UpdateRoute,
    /// Delete the route with this id.
    DeleteRoute { id: String },
    /// Unknown path.
    NotFound,
    /// Known path, wrong method.
    MethodNotAllowed,
}

/// Mathematical view of an [`AdminAction`].
#[verifier::ext_equal]
pub ghost enum AdminActionV {
    GetConfig,
    Metrics,
    ReplaceAll,
    UpdateRoute,
    DeleteRoute { id: Seq<char> },
    NotFound,
    MethodNotAllowed,
}

impl View for AdminAction {
    type V = AdminActionV;

    open spec fn view(&self) -> AdminActionV {
        match self {
            AdminAction::GetConfig => AdminActionV::GetConfig,
            AdminAction::Metrics => AdminActionV::Metrics,
            AdminAction::ReplaceAll => AdminActionV::ReplaceAll,
            AdminAction::UpdateRoute => AdminActionV::UpdateRoute,
            AdminAction::DeleteRoute { id } => AdminActionV::DeleteRoute { id: id@ },
            AdminAction::NotFound => AdminActionV::NotFound,
            AdminAction::MethodNotAllowed => AdminActionV::MethodNotAllowed,
        }
    }
}

/// The operation each method and path of the REST surface names.
pub open spec fn spec_route_admin(method: AdminMethod, path: Seq<char>) -> AdminActionV {
    if path == "/appConfig"@ {
        if method == AdminMethod::Get {
            AdminActionV::GetConfig
        } else if method == AdminMethod::Post {
            AdminActionV::ReplaceAll
        } else {
            AdminActionV::MethodNotAllowed
        }
    } else if path == "/metrics"@ {
        if method == AdminMethod::Get {
            AdminActionV::Metrics
        } else {
            AdminActionV::MethodNotAllowed
        }
    } else if path == "/route"@ {
        if method == AdminMethod::Put {
            AdminActionV::UpdateRoute
        } else {
            AdminActionV::MethodNotAllowed
        }
    } else if "/route/"@.is_prefix_of(path) {
        if method == AdminMethod::Delete {
            AdminActionV::DeleteRoute { id: path.skip("/route/"@.len() as int) }
        } else {
            AdminActionV::MethodNotAllowed
        }
    } else {
        AdminActionV::NotFound
    }
}

/// Classifies one control-plane request.
pub fn route_admin(method: AdminMethod, path: &String) -> (r: AdminAction)
    ensures
        r@ == spec_route_admin(method, path@),
{
    if str_eq(path.as_str(), "/appConfig") {
        match method {
            AdminMethod::Get => AdminAction::GetConfig,
            AdminMethod::Post => AdminAction::ReplaceAll,
            _ => AdminAction::MethodNotAllowed,
        }
    } else if str_eq(path.as_str(), "/metrics") {
        match method {
            AdminMethod::Get => AdminAction::Metrics,
            _ => AdminAction::MethodNotAllowed,
        }
    } else if str_eq(path.as_str(), "/route") {
        match method {
            AdminMethod::Put => AdminAction::UpdateRoute,
            _ => AdminAction::MethodNotAllowed,
        }
    } else if has_prefix(path.as_str(), "/route/") {
        match method {
            AdminMethod::Delete => {
                let n: usize = "/route/".unicode_len();
                let id = suffix_from(path.as_str(), n);
                AdminAction::DeleteRoute { id: String::from_str(id) }
            },
            _ => AdminAction::MethodNotAllowed,
        }
    } else {
        AdminAction::NotFound
    }
}

/// The body of every successful mutation.
pub fn base_ok_body() -> (r: String)
    ensures
        r@ == "{\"response_code\":0,\"response_object\":0}"@,
{
    String::from_str("{\"response_code\":0,\"response_object\":0}")
}

/// Installs a posted snapshot: 200 with the fixed body on success, 500 with
/// the validation error's message — and no change — on rejection.
pub fn admin_replace_all(config: &mut AppConfig, payload: Vec<ApiService>) -> (r: (u16, String))
    ensures
        match spec_validate(services_view(payload@)) {
            None => r.0 == 200 && r.1@ == "{\"response_code\":0,\"response_object\":0}"@
                && final(config)@ == spec_replace_all(old(config)@, services_view(payload@)),
            Some(e) => r.0 == 500 && r.1@ == spec_message(e) && final(config)@ == old(config)@,
        },
{
    match replace_all(config, payload) {
        Ok(next) => {
            *config = next;
            (200, base_ok_body())
        },
        Err(e) => (500, e.message()),
    }
}

/// Replaces one route: 200 with the fixed body on success, 500 with the
/// error's message — and no change — where the id is unknown or the
/// submission invalid.
pub fn admin_update_route(config: &mut AppConfig, route: Route) -> (r: (u16, String))
    ensures
        match spec_update_err(old(config)@, route@) {
            None => r.0 == 200 && r.1@ == "{\"response_code\":0,\"response_object\":0}"@
                && final(config)@ == spec_update_route(old(config)@, route@),
            Some(e) => r.0 == 500 && r.1@ == spec_message(e) && final(config)@ == old(config)@,
        },
{
    match update_route(config, route) {
        Ok(()) => (200, base_ok_body()),
        Err(e) => (500, e.message()),
    }
}

/// Deletes the routes with the id: always 200 with the fixed body; a missing
/// id simply deletes nothing.
pub fn admin_delete_route(config: &mut AppConfig, id: &String) -> (r: (u16, String))
    ensures
        r.0 == 200,
        r.1@ == "{\"response_code\":0,\"response_object\":0}"@,
        final(config)@ == spec_delete(old(config)@, id@),
{
    delete_route(config, id);
    (200, base_ok_body())
}

} // verus!
