//! The REST endpoint URLs the client talks to, derived from a base URL.
//!
//! The base URL comes from the caller: reading it from the environment is
//! I/O and stays outside the library.

use vstd::prelude::*;
use vstd::string::StringExecFns;

verus! {

fn join1(base_url: &str, tail: &str) -> (r: String)
    ensures
        r@ == base_url@ + tail@,
{
    let mut s = String::from_str(base_url);
    s.append(tail);
    s
}

fn join2(base_url: &str, tail: &str, last: &str) -> (r: String)
    ensures
        r@ == base_url@ + tail@ + last@,
{
    let mut s = String::from_str(base_url);
    s.append(tail);
    s.append(last);
    s
}

fn join4(base_url: &str, tail: &str, mid: &str, sep: &str, last: &str) -> (r: String)
    ensures
        r@ == base_url@ + tail@ + mid@ + sep@ + last@,
{
    let mut s = String::from_str(base_url);
    s.append(tail);
    s.append(mid);
    s.append(sep);
    s.append(last);
    s
}

/// The users endpoint.
pub fn get_user_url(base_url: &str) -> (r: String)
    ensures
        r@ == base_url@ + "/users"@,
{
    join1(base_url, "/users")
}

/// The profile endpoint.
pub fn get_profile_url(base_url: &str) -> (r: String)
    ensures
        r@ == base_url@ + "/users/profile"@,
{
    join1(base_url, "/users/profile")
}

/// The endpoint for one user, by name.
pub fn get_username_url(base_url: &str, username: &str) -> (r: String)
    ensures
        r@ == base_url@ + "/users/"@ + username@,
{
    join2(base_url, "/users/", username)
}

/// The login endpoint.
pub fn get_login_url(base_url: &str) -> (r: String)
    ensures
        r@ == base_url@ + "/authentication/login"@,
{
    join1(base_url, "/authentication/login")
}

/// The logout endpoint.
pub fn get_logout_url(base_url: &str) -> (r: String)
    ensures
        r@ == base_url@ + "/authentication/logout"@,
{
    join1(base_url, "/authentication/logout")
}

/// The session renewal endpoint.
pub fn get_renew_url(base_url: &str) -> (r: String)
    ensures
        r@ == base_url@ + "/authentication/renew"@,
{
    join1(base_url, "/authentication/renew")
}

/// The sensors endpoint.
pub fn get_sensor_url(base_url: &str) -> (r: String)
    ensures
        r@ == base_url@ + "/sensors"@,
{
    join1(base_url, "/sensors")
}

/// The endpoint for one sensor, by id.
pub fn get_sensor_id_url(base_url: &str, sensor_id: &str) -> (r: String)
    ensures
        r@ == base_url@ + "/sensors/"@ + sensor_id@,
{
    join2(base_url, "/sensors/", sensor_id)
}

/// The sessions endpoint.
pub fn get_sessions_url(base_url: &str) -> (r: String)
    ensures
        r@ == base_url@ + "/sessions"@,
{
    join1(base_url, "/sessions")
}

/// A sessions endpoint extended with one path segment.
pub fn get_sessions_exp_url(base_url: &str, endpoint: &str) -> (r: String)
    ensures
        r@ == base_url@ + "/sessions/"@ + endpoint@,
{
    join2(base_url, "/sessions/", endpoint)
}

/// A sessions endpoint extended with a subpath and a final segment.
pub fn get_sessions_subpath_url(base_url: &str, subpath: &str, endpoint: &str) -> (r: String)
    ensures
        r@ == base_url@ + "/sessions/"@ + subpath@ + "/"@ + endpoint@,
{
    join4(base_url, "/sessions/", subpath, "/", endpoint)
}

/// The session-sensor links endpoint.
pub fn get_session_sensors_url(base_url: &str) -> (r: String)
    ensures
        r@ == base_url@ + "/sessions-sensors"@,
{
    join1(base_url, "/sessions-sensors")
}

/// The endpoint for one session-sensor link, by id.
pub fn get_session_sensors_id_url(base_url: &str, id: &str) -> (r: String)
    ensures
        r@ == base_url@ + "/sessions-sensors/"@ + id@,
{
    join2(base_url, "/sessions-sensors/", id)
}

/// A session-sensor links endpoint extended with a subpath and an id.
pub fn get_session_sensors_subpath_url(base_url: &str, subpath: &str, id: &str) -> (r: String)
    ensures
        r@ == base_url@ + "/sessions-sensors/"@ + subpath@ + "/"@ + id@,
{
    join4(base_url, "/sessions-sensors/", subpath, "/", id)
}

/// The datapoints endpoint.
pub fn get_datapoint_url(base_url: &str) -> (r: String)
    ensures
        r@ == base_url@ + "/sessions-sensors-data"@,
{
    join1(base_url, "/sessions-sensors-data")
}

/// The batched datapoint upload endpoint.
pub fn get_batch_url(base_url: &str) -> (r: String)
    ensures
        r@ == base_url@ + "/sessions-sensors-data/batch"@,
{
    join1(base_url, "/sessions-sensors-data/batch")
}

/// A datapoints endpoint extended with a subpath and an id.
pub fn get_datapoint_subpath_url(base_url: &str, subpath: &str, id: &str) -> (r: String)
    ensures
        r@ == base_url@ + "/sessions-sensors-data/"@ + subpath@ + "/"@ + id@,
{
    join4(base_url, "/sessions-sensors-data/", subpath, "/", id)
}

/// The endpoint for one session's datapoints at a given time.
pub fn get_datapoint_datetime_url(base_url: &str, id: &str, datetime: &str) -> (r: String)
    ensures
        r@ == base_url@ + "/sessions-sensors-data/session/"@ + id@ + "/"@ + datetime@,
{
    join4(base_url, "/sessions-sensors-data/session/", id, "/", datetime)
}

} // verus!
