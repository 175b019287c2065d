//! The routes of the agent's log and exec endpoint.

use vstd::prelude::*;
use vstd::string::*;

use crate::handle::ProviderError;
use crate::text::{find_char, lemma_position, pieces, position, same_text, split, text_views};

verus! {

/// The method of a request.
#[derive(Clone, Copy, Debug, PartialEq, Eq, Structural)]
pub enum Method {
    Get,
    Post,
    /// Any other method.
    Other,
}

/// What a request asks for.
#[derive(Debug, PartialEq, Eq)]
pub enum Route {
    /// The logs of a container of a pod.
    ContainerLogs { namespace: String, pod: String, container: String },
    /// A command to run in a container of a pod.
    Exec { namespace: String, pod: String, container: String },
    /// Whether the agent is alive.
    Healthz,
    /// Nothing that the agent serves.
    NotFound,
}

/// A route as plain characters.
pub enum RouteView {
    ContainerLogs { namespace: Seq<char>, pod: Seq<char>, container: Seq<char> },
    Exec { namespace: Seq<char>, pod: Seq<char>, container: Seq<char> },
    Healthz,
    NotFound,
}

impl View for Route {
    type V = RouteView;

    open spec fn view(&self) -> RouteView {
        match self {
            Route::ContainerLogs { namespace, pod, container } => RouteView::ContainerLogs {
                namespace: namespace@,
                pod: pod@,
                container: container@,
            },
            Route::Exec { namespace, pod, container } => RouteView::Exec {
                namespace: namespace@,
                pod: pod@,
                container: container@,
            },
            Route::Healthz => RouteView::Healthz,
            Route::NotFound => RouteView::NotFound,
        }
    }
}

/// The path of a request target: the target up to its query, if it has one.
pub open spec fn path_of(target: Seq<char>) -> Seq<char> {
    match position(target, '?') {
        Some(q) => target.subrange(0, q),
        None => target,
    }
}

/// The route of a request: `GET /containerLogs/{namespace}/{pod}/{container}`
/// asks for logs, `POST /exec/{namespace}/{pod}/{container}` for a command,
/// `GET /healthz` for a sign of life; nothing else is served.
pub open spec fn route_of(method: Method, target: Seq<char>) -> RouteView {
    let parts = pieces(path_of(target), '/');
    if parts.len() == 5 && parts[0].len() == 0 && parts[1] == "containerLogs"@ && method
        == Method::Get {
        RouteView::ContainerLogs { namespace: parts[2], pod: parts[3], container: parts[4] }
    } else if parts.len() == 5 && parts[0].len() == 0 && parts[1] == "exec"@ && method
        == Method::Post {
        RouteView::Exec { namespace: parts[2], pod: parts[3], container: parts[4] }
    } else if parts.len() == 2 && parts[0].len() == 0 && parts[1] == "healthz"@ && method
        == Method::Get {
        RouteView::Healthz
    } else {
        RouteView::NotFound
    }
}

/// Finds the route of a request.
pub fn route(method: Method, target: &str) -> (r: Route)
    ensures
        r@ == route_of(method, target@),
{
    let path = match find_char(target, '?') {
        Some(q) => {
            proof {
                lemma_position(target@, '?');
            }
            target.substring_char(0, q)
        },
        None => target,
    };
    let parts = split(path, '/');
    assert(forall|i: int| 0 <= i < parts@.len() ==> text_views(parts@)[i] == parts@[i]@);
    if parts.len() == 5 && parts[0].as_str().unicode_len() == 0 {
        if matches!(method, Method::Get) && same_text(parts[1].as_str(), "containerLogs") {
            return Route::ContainerLogs {
                namespace: parts[2].clone(),
                pod: parts[3].clone(),
                container: parts[4].clone(),
            };
        }
        if matches!(method, Method::Post) && same_text(parts[1].as_str(), "exec") {
            return Route::Exec {
                namespace: parts[2].clone(),
                pod: parts[3].clone(),
                container: parts[4].clone(),
            };
        }
        proof {
            reveal_strlit("containerLogs");
            reveal_strlit("exec");
            assert("containerLogs"@ != "exec"@) by {
                assert("containerLogs"@.len() != "exec"@.len());
            }
        }
        Route::NotFound
    } else if parts.len() == 2 && parts[0].as_str().unicode_len() == 0 {
        if matches!(method, Method::Get) && same_text(parts[1].as_str(), "healthz") {
            Route::Healthz
        } else {
            Route::NotFound
        }
    } else {
        Route::NotFound
    }
}

/// How serving a request ended.
#[derive(Debug)]
pub enum Served {
    /// The agent is alive.
    Alive,
    /// The logs are being streamed.
    Logs,
    /// The provider knows no such pod or container.
    Unknown(ProviderError),
    /// The provider cannot run commands in containers.
    ExecUnsupported,
    /// The agent serves no such route.
    NoRoute,
}

/// The status of the answer.
pub open spec fn status_of(served: Served) -> u16 {
    match served {
        Served::Alive => 200,
        Served::Logs => 200,
        Served::Unknown(_) => 404,
        Served::ExecUnsupported => 501,
        Served::NoRoute => 404,
    }
}

/// The status of the answer to a request.
pub fn response_status(served: &Served) -> (status: u16)
    ensures
        status == status_of(*served),
{
    match served {
        Served::Alive => 200,
        Served::Logs => 200,
        Served::Unknown(_) => 404,
        Served::ExecUnsupported => 501,
        Served::NoRoute => 404,
    }
}

} // verus!
