//! The routes that the server ships with.

use vstd::prelude::*;
use vstd::utf8::{encode_utf8, valid_utf8};

use crate::pattern::pattern_compiles;
use crate::request::HTTPRequest;
use crate::response::{http_err, http_ok, HTTPResponses, HTTPResult};
use crate::route::{Handler, RouteError, RouteView, Router};
use crate::text::utf8_text;

verus! {

/// The handlers of the shipped routes.
#[derive(Clone, Copy, Debug, PartialEq, Eq, Structural)]
pub enum SampleRoute {
    HelloWorld,
    GetImage,
    PrintJson,
    CustomRoute,
}

/// `Hello, world!` as plain text.
pub open spec fn is_hello(r: HTTPResult) -> bool {
    r matches Ok(b) && *b matches HTTPResponses::PlainText(s) && s@ == "Hello, world!"@
}

/// A redirect to `/`.
pub open spec fn is_redirect_home(r: HTTPResult) -> bool {
    r matches Ok(b) && *b matches HTTPResponses::Redirect(s) && s@ == "/"@
}

/// `201 Created` with a plain text body.
pub open spec fn is_created(r: HTTPResult) -> bool {
    r matches Ok(b) && *b matches HTTPResponses::Custom { code, message, ctype, headers, body }
        && code == 201 && message@ == "Created"@ && ctype@ == "text/plain"@ && headers is None
        && body@ == encode_utf8("Something has occured!"@)
}

/// The answer to a JSON upload: a 500 error, the internal server error
/// where the body is not UTF-8.
pub open spec fn is_json_answer(body: Seq<u8>, r: HTTPResult) -> bool {
    if valid_utf8(body) {
        r matches Err(b) && *b matches HTTPResponses::HTTPError { status_code, message, body }
            && status_code == 500 && message@ == "Some Server Error"@ && body@
            == "Congrats, you've broken our site!"@
    } else {
        r matches Err(b) && *b matches HTTPResponses::HTTPError { status_code, message, body }
            && status_code == 500 && message@ == "Internal Server Error"@ && body@
            == "The server has encountered an unexpected error."@
    }
}

/// Answers `Hello, world!`.
pub fn hello_world(_request: HTTPRequest) -> (r: HTTPResult)
    ensures
        is_hello(r),
{
    http_ok(HTTPResponses::PlainText(String::from_str("Hello, world!")))
}

/// Answers `201 Created`.
pub fn custom_route(_request: HTTPRequest) -> (r: HTTPResult)
    ensures
        is_created(r),
{
    http_ok(
        HTTPResponses::Custom {
            code: 201,
            message: String::from_str("Created"),
            ctype: String::from_str("text/plain"),
            headers: None,
            body: "Something has occured!".as_bytes_vec(),
        },
    )
}

/// Takes an uploaded image and redirects to `/`.
pub fn get_image(_request: HTTPRequest) -> (r: HTTPResult)
    ensures
        is_redirect_home(r),
{
    http_ok(HTTPResponses::Redirect(String::from_str("/")))
}

/// Takes a JSON upload and fails, with the internal server error where the
/// body is not UTF-8.
pub fn print_json(request: HTTPRequest) -> (r: HTTPResult)
    ensures
        is_json_answer(request.1@, r),
{
    let HTTPRequest(_, body) = request;
    match utf8_text(body.as_slice()) {
        None => Err(HTTPResponses::internal_server_error()),
        Some(_) => http_err(
            HTTPResponses::HTTPError {
                status_code: 500,
                message: String::from_str("Some Server Error"),
                body: String::from_str("Congrats, you've broken our site!"),
            },
        ),
    }
}

impl Handler for SampleRoute {
    open spec fn answers(&self, request: HTTPRequest, result: HTTPResult) -> bool {
        match self {
            SampleRoute::HelloWorld => is_hello(result),
            SampleRoute::GetImage => is_redirect_home(result),
            SampleRoute::PrintJson => is_json_answer(request.1@, result),
            SampleRoute::CustomRoute => is_created(result),
        }
    }

    fn handle(&self, request: HTTPRequest) -> (result: HTTPResult) {
        match self {
            SampleRoute::HelloWorld => hello_world(request),
            SampleRoute::GetImage => get_image(request),
            SampleRoute::PrintJson => print_json(request),
            SampleRoute::CustomRoute => custom_route(request),
        }
    }
}

/// The patterns of the shipped routes all compile.
pub open spec fn sample_patterns_compile() -> bool {
    &&& pattern_compiles("GET|POST"@)
    &&& pattern_compiles("/$"@)
    &&& pattern_compiles("POST"@)
    &&& pattern_compiles("/image$"@)
    &&& pattern_compiles("/user_json$"@)
    &&& pattern_compiles("/custom$"@)
}

/// The shipped routes, in priority order.
pub open spec fn sample_table() -> Seq<RouteView<SampleRoute>> {
    seq![
        RouteView {
            method: "GET|POST"@,
            path: "/$"@,
            http_version: "1.1"@,
            handler: SampleRoute::HelloWorld,
        },
        RouteView {
            method: "POST"@,
            path: "/image$"@,
            http_version: "1.1"@,
            handler: SampleRoute::GetImage,
        },
        RouteView {
            method: "POST"@,
            path: "/user_json$"@,
            http_version: "1.1"@,
            handler: SampleRoute::PrintJson,
        },
        RouteView {
            method: "GET|POST"@,
            path: "/custom$"@,
            http_version: "1.1"@,
            handler: SampleRoute::CustomRoute,
        },
    ]
}

/// The table of the shipped routes.
pub fn http_routes() -> (r: Result<Router<SampleRoute>, RouteError>)
    ensures
        r is Ok <==> sample_patterns_compile(),
        r matches Ok(t) ==> t@ == sample_table(),
{
    let t = Router::new();
    let t = match t.route("GET|POST", "/$", "1.1", SampleRoute::HelloWorld) {
        Ok(t) => t,
        Err(e) => {
            return Err(e);
        },
    };
    let t = match t.route("POST", "/image$", "1.1", SampleRoute::GetImage) {
        Ok(t) => t,
        Err(e) => {
            return Err(e);
        },
    };
    let t = match t.route("POST", "/user_json$", "1.1", SampleRoute::PrintJson) {
        Ok(t) => t,
        Err(e) => {
            return Err(e);
        },
    };
    let t = match t.route("GET|POST", "/custom$", "1.1", SampleRoute::CustomRoute) {
        Ok(t) => t,
        Err(e) => {
            return Err(e);
        },
    };
    assert(t@ =~= sample_table());
    Ok(t)
}

} // verus!
