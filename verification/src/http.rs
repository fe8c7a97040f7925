use crate::kv::{opt_view, RedisRequest, RedisResponse, RequestType};
use vstd::prelude::*;

verus! {

/// `r` is a request of kind `t` with the given key and value and no expiry.
pub open spec fn request_of(r: RedisRequest, t: RequestType, key: Option<Seq<char>>, value: Option<Seq<char>>) -> bool {
    &&& r.req_type == t
    &&& opt_view(r.key) == key
    &&& opt_view(r.value) == value
    &&& r.expire_time is None
}

/// The request behind `GET /ping/{key}`: a ping that carries the key as
/// its value.
pub fn ping_key_request(key: String) -> (r: RedisRequest)
    ensures
        request_of(r, RequestType::Ping, None, Some(key@)),
{
    RedisRequest { req_type: RequestType::Ping, key: None, value: Some(key), expire_time: None }
}

/// The request behind `GET /get/{key}`.
pub fn get_key_request(key: String) -> (r: RedisRequest)
    ensures
        request_of(r, RequestType::Get, Some(key@), None),
{
    RedisRequest { req_type: RequestType::Get, key: Some(key), value: None, expire_time: None }
}

/// The request behind a `POST /set` form.
pub fn set_key_request(key: String, value: String) -> (r: RedisRequest)
    ensures
        request_of(r, RequestType::SetKey, Some(key@), Some(value@)),
{
    RedisRequest { req_type: RequestType::SetKey, key: Some(key), value: Some(value), expire_time: None }
}

/// The request behind a `POST /del` form.
pub fn del_key_request(key: String) -> (r: RedisRequest)
    ensures
        request_of(r, RequestType::Del, Some(key@), None),
{
    RedisRequest { req_type: RequestType::Del, key: Some(key), value: None, expire_time: None }
}

/// The HTTP status and body for the service's answer to a ping, get or set:
/// `200` with the answer's value, or `404` with the error's text.
pub fn text_reply(result: Result<RedisResponse, String>) -> (r: (u16, String))
    requires
        result matches Ok(v) ==> v.value is Some,
    ensures
        match result {
            Ok(v) => r.0 == 200 && r.1@ == v.value->0@,
            Err(e) => r.0 == 404 && r.1@ == e@,
        },
{
    match result {
        Ok(v) => (200, v.value.unwrap()),
        Err(e) => (404, e),
    }
}

/// The HTTP status and body for the service's answer to a delete: `200`
/// with `Successful delete`, or `404` with `Delete error`.
pub fn del_reply(result: Result<RedisResponse, String>) -> (r: (u16, &'static str))
    ensures
        result is Ok ==> r.0 == 200 && r.1@ == "Successful delete"@,
        result is Err ==> r.0 == 404 && r.1@ == "Delete error"@,
{
    match result {
        Ok(_v) => (200, "Successful delete"),
        Err(_e) => (404, "Delete error"),
    }
}

} // verus!
