//! The client side of the scheduler's RPC service: which call each client
//! method makes, and the decisions of a client that waits for a resource
//! and keeps its token alive.
//!
//! Sending a call over the network is the transport's work; a client method
//! here names the call completely (method, request, options, delivery) and
//! hands it to the transport `C` that the client was made with.
use crate::messages::AccessResource;
use crate::messages::Empty;
use crate::messages::ResourceResult;
use crate::messages::ResourceToken;
use vstd::prelude::*;

verus! {

/// How a method streams its messages.
pub enum MethodType {
    Unary,
    ClientStreaming,
    ServerStreaming,
    Duplex,
}

/// An RPC method: its kind and its full path.
pub struct Method {
    pub ty: MethodType,
    pub name: &'static str,
}

/// The unary method at `path`.
pub open spec fn is_unary_method(m: Method, path: Seq<char>) -> bool {
    m.ty is Unary && m.name@ == path
}

/// `/scheduler.Scheduler/Test`.
pub fn method_scheduler_test() -> (m: Method)
    ensures
        is_unary_method(m, "/scheduler.Scheduler/Test"@),
{
    Method { ty: MethodType::Unary, name: "/scheduler.Scheduler/Test" }
}

/// `/scheduler.Scheduler/TryAccess`.
pub fn method_scheduler_try_access() -> (m: Method)
    ensures
        is_unary_method(m, "/scheduler.Scheduler/TryAccess"@),
{
    Method { ty: MethodType::Unary, name: "/scheduler.Scheduler/TryAccess" }
}

/// `/scheduler.Scheduler/RemoveGuard`.
pub fn method_scheduler_remove_guard() -> (m: Method)
    ensures
        is_unary_method(m, "/scheduler.Scheduler/RemoveGuard"@),
{
    Method { ty: MethodType::Unary, name: "/scheduler.Scheduler/RemoveGuard" }
}

/// `/scheduler.Scheduler/Ping`.
pub fn method_scheduler_ping() -> (m: Method)
    ensures
        is_unary_method(m, "/scheduler.Scheduler/Ping"@),
{
    Method { ty: MethodType::Unary, name: "/scheduler.Scheduler/Ping" }
}

/// Options of a call: a deadline in milliseconds; the call flags (whether
/// the call is idempotent, whether to wait for the channel to be ready,
/// whether the call is cacheable); the write flags (whether the message may
/// be buffered, whether compression is off); and the headers to send.
pub struct CallOption {
    pub timeout_millis: Option<u64>,
    pub idempotent: bool,
    pub wait_for_ready: bool,
    pub cacheable: bool,
    pub buffer_hint: bool,
    pub force_no_compress: bool,
    pub headers: Vec<(String, String)>,
}

impl core::default::Default for CallOption {
    /// No deadline, no flag set, and no header.
    fn default() -> (o: Self)
        ensures
            is_default_option(o),
    {
        CallOption {
            timeout_millis: None,
            idempotent: false,
            wait_for_ready: false,
            cacheable: false,
            buffer_hint: false,
            force_no_compress: false,
            headers: Vec::new(),
        }
    }
}

/// The default options as plain values: no deadline, no flag set, and no
/// header.
pub open spec fn is_default_option(o: CallOption) -> bool {
    &&& o.timeout_millis is None
    &&& !o.idempotent
    &&& !o.wait_for_ready
    &&& !o.cacheable
    &&& !o.buffer_hint
    &&& !o.force_no_compress
    &&& o.headers@.len() == 0
}

/// A unary call to make: on which transport, which method, with which
/// request and options, and whether the caller waits for the answer
/// (`asynchronous` false) or takes a receiver for it.
pub struct UnaryCall<'a, C, Req> {
    pub client: &'a C,
    pub method: Method,
    pub request: &'a Req,
    pub option: CallOption,
    pub asynchronous: bool,
}

/// A client of the scheduler's RPC service over the transport `C`.
pub struct SchedulerClient<C> {
    client: C,
}

impl<C> SchedulerClient<C> {
    /// The transport of this client.
    pub closed spec fn transport(&self) -> C {
        self.client
    }

    /// A client over the transport `client`.
    pub fn new(client: C) -> (s: Self)
        ensures
            s.transport() == client,
    {
        SchedulerClient { client }
    }

    /// The transport of this client, for work that is the transport's own
    /// (such as spawning futures on it).
    pub fn client(&self) -> (c: &C)
        ensures
            *c == self.transport(),
    {
        &self.client
    }

    /// The call is on this client's transport, to the unary method at
    /// `path`, with `req`, `opt` and the given delivery.
    pub open spec fn makes<Req>(
        &self,
        call: UnaryCall<C, Req>,
        path: Seq<char>,
        req: &Req,
        opt: CallOption,
        asynchronous: bool,
    ) -> bool {
        &&& *call.client == self.transport()
        &&& is_unary_method(call.method, path)
        &&& call.request == req
        &&& call.option == opt
        &&& call.asynchronous == asynchronous
    }

    fn call<'a, Req>(&'a self, method: Method, req: &'a Req, opt: CallOption, asynchronous: bool) -> (c:
        UnaryCall<'a, C, Req>)
        ensures
            *c.client == self.transport(),
            c.method == method,
            c.request == req,
            c.option == opt,
            c.asynchronous == asynchronous,
    {
        UnaryCall { client: &self.client, method, request: req, option: opt, asynchronous }
    }

    /// The `Test` call with options `opt`, answered before returning.
    pub fn test_opt<'a>(&'a self, req: &'a Empty, opt: CallOption) -> (c: UnaryCall<'a, C, Empty>)
        ensures
            self.makes(c, "/scheduler.Scheduler/Test"@, req, opt, false),
    {
        self.call(method_scheduler_test(), req, opt, false)
    }

    /// The `Test` call with the default options, answered before returning.
    pub fn test<'a>(&'a self, req: &'a Empty) -> (c: UnaryCall<'a, C, Empty>)
        ensures
            is_default_option(c.option),
            self.makes(c, "/scheduler.Scheduler/Test"@, req, c.option, false),
    {
        self.test_opt(req, CallOption::default())
    }

    /// The `Test` call with options `opt`, answered through a receiver.
    pub fn test_async_opt<'a>(&'a self, req: &'a Empty, opt: CallOption) -> (c: UnaryCall<'a, C, Empty>)
        ensures
            self.makes(c, "/scheduler.Scheduler/Test"@, req, opt, true),
    {
        self.call(method_scheduler_test(), req, opt, true)
    }

    /// The `Test` call with the default options, answered through a receiver.
    pub fn test_async<'a>(&'a self, req: &'a Empty) -> (c: UnaryCall<'a, C, Empty>)
        ensures
            is_default_option(c.option),
            self.makes(c, "/scheduler.Scheduler/Test"@, req, c.option, true),
    {
        self.test_async_opt(req, CallOption::default())
    }

    /// The `TryAccess` call with options `opt`, answered before returning.
    pub fn try_access_opt<'a>(&'a self, req: &'a AccessResource, opt: CallOption) -> (c: UnaryCall<
        'a,
        C,
        AccessResource,
    >)
        ensures
            self.makes(c, "/scheduler.Scheduler/TryAccess"@, req, opt, false),
    {
        self.call(method_scheduler_try_access(), req, opt, false)
    }

    /// The `TryAccess` call with the default options, answered before returning.
    pub fn try_access<'a>(&'a self, req: &'a AccessResource) -> (c: UnaryCall<'a, C, AccessResource>)
        ensures
            is_default_option(c.option),
            self.makes(c, "/scheduler.Scheduler/TryAccess"@, req, c.option, false),
    {
        self.try_access_opt(req, CallOption::default())
    }

    /// The `TryAccess` call with options `opt`, answered through a receiver.
    pub fn try_access_async_opt<'a>(&'a self, req: &'a AccessResource, opt: CallOption) -> (c:
        UnaryCall<'a, C, AccessResource>)
        ensures
            self.makes(c, "/scheduler.Scheduler/TryAccess"@, req, opt, true),
    {
        self.call(method_scheduler_try_access(), req, opt, true)
    }

    /// The `TryAccess` call with the default options, answered through a receiver.
    pub fn try_access_async<'a>(&'a self, req: &'a AccessResource) -> (c: UnaryCall<
        'a,
        C,
        AccessResource,
    >)
        ensures
            is_default_option(c.option),
            self.makes(c, "/scheduler.Scheduler/TryAccess"@, req, c.option, true),
    {
        self.try_access_async_opt(req, CallOption::default())
    }

    /// The `RemoveGuard` call with options `opt`, answered before returning.
    pub fn remove_guard_opt<'a>(&'a self, req: &'a ResourceToken, opt: CallOption) -> (c: UnaryCall<
        'a,
        C,
        ResourceToken,
    >)
        ensures
            self.makes(c, "/scheduler.Scheduler/RemoveGuard"@, req, opt, false),
    {
        self.call(method_scheduler_remove_guard(), req, opt, false)
    }

    /// The `RemoveGuard` call with the default options, answered before returning.
    pub fn remove_guard<'a>(&'a self, req: &'a ResourceToken) -> (c: UnaryCall<'a, C, ResourceToken>)
        ensures
            is_default_option(c.option),
            self.makes(c, "/scheduler.Scheduler/RemoveGuard"@, req, c.option, false),
    {
        self.remove_guard_opt(req, CallOption::default())
    }

    /// The `Ping` call with options `opt`, answered before returning.
    pub fn ping_opt<'a>(&'a self, req: &'a ResourceToken, opt: CallOption) -> (c: UnaryCall<
        'a,
        C,
        ResourceToken,
    >)
        ensures
            self.makes(c, "/scheduler.Scheduler/Ping"@, req, opt, false),
    {
        self.call(method_scheduler_ping(), req, opt, false)
    }

    /// The `Ping` call with the default options, answered before returning.
    pub fn ping<'a>(&'a self, req: &'a ResourceToken) -> (c: UnaryCall<'a, C, ResourceToken>)
        ensures
            is_default_option(c.option),
            self.makes(c, "/scheduler.Scheduler/Ping"@, req, c.option, false),
    {
        self.ping_opt(req, CallOption::default())
    }
}

} // verus!
