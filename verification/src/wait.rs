//! The decisions of a client that waits for a resource and then keeps its
//! token alive: how it names its request, when it stops polling, and when
//! its keep-alive loop ends.
use crate::messages::AccessResource;
use crate::messages::ResourceResult;
use crate::messages::ResourceToken;
use vstd::prelude::*;

verus! {

/// The character of the decimal digit `d`.
pub open spec fn digit_char(d: nat) -> char {
    (d + 48) as char
}

/// The decimal digits of `n`, without leading zeros.
pub open spec fn decimal(n: nat) -> Seq<char>
    decreases n,
{
    if n < 10 {
        seq![digit_char(n)]
    } else {
        decimal(n / 10).push(digit_char(n % 10))
    }
}

/// Formats `n` with `u128::to_string` (its `Display`).
/// Claimed: the result is the decimal digits of `n` without leading zeros,
/// as the documentation of integer `Display` states.
#[verifier::external_body]
fn decimal_string(n: u128) -> (s: String)
    ensures
        s@ == decimal(n as nat),
{
    n.to_string()
}

/// The name of a request for the resource `cond` made at `nanos`
/// nanoseconds since the Unix epoch: `cond`, a dash, and the decimal
/// nanoseconds.
pub open spec fn request_name_spec(cond: Seq<char>, nanos: nat) -> Seq<char> {
    cond + "-"@ + decimal(nanos)
}

/// Computes `request_name_spec`.
pub fn request_name(cond: &str, nanos: u128) -> (name: String)
    ensures
        name@ == request_name_spec(cond@, nanos as nat),
{
    let mut name = cond.to_owned();
    name.append("-");
    let digits = decimal_string(nanos);
    name.append(digits.as_str());
    name
}

/// The request for the resource `cond` made at `nanos` nanoseconds since the
/// Unix epoch.
pub fn access_request(cond: &str, nanos: u128) -> (req: AccessResource)
    ensures
        req.request_resource@ == cond@,
        req.name@ == request_name_spec(cond@, nanos as nat),
{
    AccessResource { request_resource: cond.to_owned(), name: request_name(cond, nanos) }
}

/// What a waiting client does after an answer to its request.
pub enum WaitStep {
    /// The resource was granted under this token: stop waiting.
    Acquired(ResourceToken),
    /// Not granted: sleep for the poll time and ask again.
    Retry,
}

/// The waiting client stops exactly when the answer carries a token.
pub fn wait_step(resp: ResourceResult) -> (step: WaitStep)
    ensures
        match resp.granted() {
            Some(t) => step matches WaitStep::Acquired(rt) && rt.token == t,
            None => step is Retry,
        },
{
    match resp.token {
        Some(t) => WaitStep::Acquired(t),
        None => WaitStep::Retry,
    }
}

/// What the keep-alive loop of a holder found on its exit channel.
pub enum ExitSignal {
    /// The holder is being dropped.
    Exit,
    /// Nothing yet.
    Pending,
    /// The holder's side of the channel is gone.
    Disconnected,
}

/// What the keep-alive loop does next.
pub enum KeepAlive {
    /// Leave the loop.
    Stop,
    /// Sleep for the keep-alive time, then ping the token.
    SleepThenPing,
}

/// The keep-alive loop goes on exactly while nothing arrived on the exit
/// channel and the channel is still open.
pub fn keep_alive_step(signal: ExitSignal) -> (next: KeepAlive)
    ensures
        (next is SleepThenPing) == (signal is Pending),
{
    match signal {
        ExitSignal::Exit => KeepAlive::Stop,
        ExitSignal::Pending => KeepAlive::SleepThenPing,
        ExitSignal::Disconnected => KeepAlive::Stop,
    }
}

} // verus!
