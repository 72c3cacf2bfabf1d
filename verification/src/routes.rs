//! Which operation a request asks for.

use vstd::prelude::*;

verus! {

/// The method of a request.
#[derive(Clone, Copy, Debug, PartialEq, Eq, Structural)]
pub enum Method {
    Get,
    Put,
    Post,
    Other,
}

/// What to do with a request.
#[derive(Clone, Copy, Debug, PartialEq, Eq, Structural)]
pub enum Route {
    /// Log an activity for the participant of the session.
    LogActivity,
    /// Show the leaderboard.
    Leaderboard,
    /// Show the options of each day and what the participant has logged.
    Calendar,
    /// Show the present day.
    Today,
    /// Register a participant and open a session.
    RegisterUser,
    /// Hand out the key of a participant's session.
    Login,
    /// Nothing is served under the path.
    UnknownPath,
    /// The path is served, but not with this method.
    WrongMethod,
    /// Nothing is served with this method to a participant.
    MethodNotAllowed,
}

/// The route of a request. A request with a session is served by method,
/// then by path; one without a session only to register or to log in.
pub open spec fn route_of(has_session: bool, method: Method, path: Seq<char>) -> Route {
    if has_session {
        match method {
            Method::Put => if path == "/log-activity"@ {
                Route::LogActivity
            } else {
                Route::UnknownPath
            },
            Method::Get => if path == "/leaderboard"@ {
                Route::Leaderboard
            } else if path == "/calendar"@ {
                Route::Calendar
            } else if path == "/today"@ {
                Route::Today
            } else {
                Route::UnknownPath
            },
            _ => Route::MethodNotAllowed,
        }
    } else if path == "/register-user"@ {
        if method == Method::Put {
            Route::RegisterUser
        } else {
            Route::WrongMethod
        }
    } else if path == "/login"@ {
        if method == Method::Post {
            Route::Login
        } else {
            Route::WrongMethod
        }
    } else {
        Route::UnknownPath
    }
}

fn is_path(path: &String, served: &str) -> (same: bool)
    ensures
        same == (path@ == served@),
{
    let served = served.to_string();
    *path == served
}

/// Finds the route of a request.
pub fn route(has_session: bool, method: Method, path: &str) -> (found: Route)
    ensures
        found == route_of(has_session, method, path@),
{
    let path = path.to_string();
    if has_session {
        match method {
            Method::Put => if is_path(&path, "/log-activity") {
                Route::LogActivity
            } else {
                Route::UnknownPath
            },
            Method::Get => if is_path(&path, "/leaderboard") {
                Route::Leaderboard
            } else if is_path(&path, "/calendar") {
                Route::Calendar
            } else if is_path(&path, "/today") {
                Route::Today
            } else {
                Route::UnknownPath
            },
            _ => Route::MethodNotAllowed,
        }
    } else if is_path(&path, "/register-user") {
        match method {
            Method::Put => Route::RegisterUser,
            _ => Route::WrongMethod,
        }
    } else if is_path(&path, "/login") {
        match method {
            Method::Post => Route::Login,
            _ => Route::WrongMethod,
        }
    } else {
        Route::UnknownPath
    }
}

} // verus!
