//! Requests the proxy itself makes to the sandbox's control endpoint: the
//! runtime calls and the lifecycle calls of an extension.
use crate::env::{sandbox_runtime_api, RuntimeEnv};
use crate::error::{Fatal, HeaderField};
use crate::proxy::{endpoint_uri, http_uri};
use crate::route::Method;
use vstd::prelude::*;
use vstd::string::StringExecFns;

verus! {

/// Name the extension registers under.
pub const EXTENSION_NAME: &'static str = "lrap";

/// Version segment of the runtime API paths.
pub const LAMBDA_RUNTIME_API_VERSION: &'static str = "2018-06-01";

/// Version segment of the extensions API paths.
pub const EXTENSION_API_VERSION: &'static str = "2020-01-01";

/// A request to send, in plain values.
pub struct OutboundRequest {
    pub method: Method,
    pub uri: String,
    /// Header names and values, in order.
    pub headers: Vec<(String, String)>,
    pub body: String,
}

/// Headers of an outbound request, as character sequences.
pub open spec fn header_view(h: Seq<(String, String)>) -> Seq<(Seq<char>, Seq<char>)> {
    Seq::new(h.len(), |i: int| (h[i].0@, h[i].1@))
}

/// The request that fetches the next unit of work: a GET of `path` on the
/// control endpoint. The caller's headers go with it.
pub fn next(env: &RuntimeEnv, path: &str) -> (r: String)
    ensures
        r@ == http_uri(env.control(), path@),
{
    endpoint_uri(env, path)
}

/// Path on which the result of invocation `id` is posted.
pub open spec fn result_path(id: Seq<char>) -> Seq<char> {
    "/"@ + LAMBDA_RUNTIME_API_VERSION@ + "/runtime/invocation/"@ + id + "/response"@
}

/// A POST of `body` as the result of invocation `id`, which answers that
/// invocation without the application.
pub fn create_invoke_result_request(env: &RuntimeEnv, id: &str, body: String) -> (r:
    OutboundRequest)
    ensures
        r.method == Method::Post,
        r.uri@ == http_uri(env.control(), result_path(id@)),
        r.headers@.len() == 0,
        r.body == body,
{
    let path = String::from_str("/").concat(LAMBDA_RUNTIME_API_VERSION).concat(
        "/runtime/invocation/",
    ).concat(id).concat("/response");
    OutboundRequest {
        method: Method::Post,
        uri: endpoint_uri(env, path.as_str()),
        headers: Vec::new(),
        body,
    }
}

/// The extension's standing with the platform: unregistered until the one
/// registration succeeds, and then holding the identifier the platform issued.
pub struct Extension {
    identifier: Option<String>,
}

/// The body of the registration: interest in invocation events.
pub open spec fn register_body() -> Seq<char> {
    "{\"events\":[\"INVOKE\"]}"@
}

/// `http://{control}/2020-01-01/extension{path}`
pub open spec fn extension_uri(env: RuntimeEnv, path: Seq<char>) -> Seq<char> {
    http_uri(env.control(), "/"@ + EXTENSION_API_VERSION@ + "/extension"@ + path)
}

/// The name the extension registers under.
pub fn find_extension_name() -> (r: String)
    ensures
        r@ == EXTENSION_NAME@,
{
    String::from_str(EXTENSION_NAME)
}

fn make_uri(env: &RuntimeEnv, path: &str) -> (r: String)
    ensures
        r@ == extension_uri(*env, path@),
{
    let p = String::from_str("/").concat(EXTENSION_API_VERSION).concat("/extension").concat(path);
    endpoint_uri(env, p.as_str())
}

impl Extension {
    /// The identifier, once registered.
    pub closed spec fn id(&self) -> Option<Seq<char>> {
        match self.identifier {
            Some(s) => Some(s@),
            None => None,
        }
    }

    pub fn new() -> (r: Self)
        ensures
            r.id() is None,
    {
        Extension { identifier: None }
    }

    /// The registration request: a POST declaring interest in invocation
    /// events, with the extension's name in a header. Registering twice is
    /// refused.
    pub fn register_request(&self, env: &RuntimeEnv) -> (r: Result<OutboundRequest, Fatal>)
        ensures
            self.id() is Some <==> r == Err::<OutboundRequest, Fatal>(Fatal::AlreadyRegistered),
            self.id() is None <==> r is Ok,
            r matches Ok(req) ==> {
                &&& req.method == Method::Post
                &&& req.uri@ == extension_uri(*env, "/register"@)
                &&& header_view(req.headers@) == seq![
                    ("Lambda-Extension-Name"@, EXTENSION_NAME@),
                ]
                &&& req.body@ == register_body()
            },
    {
        if self.identifier.is_some() {
            return Err(Fatal::AlreadyRegistered);
        }
        let mut headers: Vec<(String, String)> = Vec::new();
        headers.push((String::from_str("Lambda-Extension-Name"), find_extension_name()));
        let r = OutboundRequest {
            method: Method::Post,
            uri: make_uri(env, "/register"),
            headers,
            body: String::from_str("{\"events\":[\"INVOKE\"]}"),
        };
        assert(header_view(r.headers@) =~= seq![("Lambda-Extension-Name"@, EXTENSION_NAME@)]);
        Ok(r)
    }

    /// Takes in the registration response's identifier header. The identifier
    /// is stored once and kept from then on; a missing or unreadable header,
    /// or a second registration, is fatal and leaves the state as it was.
    pub fn complete_registration(&mut self, header: HeaderField) -> (r: Result<(), Fatal>)
        ensures
            old(self).id() is Some ==> r == Err::<(), Fatal>(Fatal::AlreadyRegistered),
            old(self).id() is None ==> match header {
                HeaderField::Missing => r == Err::<(), Fatal>(Fatal::MissingExtensionId),
                HeaderField::Invalid => r == Err::<(), Fatal>(Fatal::InvalidExtensionId),
                HeaderField::Present(s) => r is Ok && final(self).id() == Some(s@),
            },
            r is Err ==> final(self).id() == old(self).id(),
    {
        if self.identifier.is_some() {
            return Err(Fatal::AlreadyRegistered);
        }
        match header {
            HeaderField::Missing => Err(Fatal::MissingExtensionId),
            HeaderField::Invalid => Err(Fatal::InvalidExtensionId),
            HeaderField::Present(s) => {
                self.identifier = Some(s);
                Ok(())
            },
        }
    }

    /// The identifier; asking before registration is fatal.
    pub fn extension_id(&self) -> (r: Result<&String, Fatal>)
        ensures
            self.id() is None <==> r == Err::<&String, Fatal>(Fatal::NotRegistered),
            self.id() is Some <==> r is Ok,
            r matches Ok(s) ==> self.id() == Some(s@),
    {
        match &self.identifier {
            Some(s) => Ok(s),
            None => Err(Fatal::NotRegistered),
        }
    }

    /// The lifecycle poll: a GET of the next lifecycle event, carrying the
    /// identifier. Before registration it is fatal.
    pub fn next_event_request(&self, env: &RuntimeEnv) -> (r: Result<OutboundRequest, Fatal>)
        ensures
            self.id() is None <==> r == Err::<OutboundRequest, Fatal>(Fatal::NotRegistered),
            self.id() is Some <==> r is Ok,
            r matches Ok(req) ==> {
                &&& req.method == Method::Get
                &&& req.uri@ == extension_uri(*env, "/event/next"@)
                &&& header_view(req.headers@) == seq![
                    ("Lambda-Extension-Identifier"@, self.id()->Some_0),
                ]
                &&& req.body@.len() == 0
            },
    {
        let id = match self.extension_id() {
            Ok(id) => id.clone(),
            Err(e) => {
                return Err(e);
            },
        };
        let mut headers: Vec<(String, String)> = Vec::new();
        headers.push((String::from_str("Lambda-Extension-Identifier"), id));
        let r = OutboundRequest {
            method: Method::Get,
            uri: make_uri(env, "/event/next"),
            headers,
            body: String::new(),
        };
        assert(header_view(r.headers@) =~= seq![
            ("Lambda-Extension-Identifier"@, self.id()->Some_0),
        ]);
        Ok(r)
    }
}

} // verus!
