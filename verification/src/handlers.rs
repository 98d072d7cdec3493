//! The handlers of the three endpoints, and the dispatch of a request to
//! them.
//!
//! A handler says what is to be sent. Where the body is a document that this
//! library does not write (JSON, the exposition of the registry), it says
//! which document: the caller writes it, and [`reply_bytes`] frames it.

use crate::generators::{
    cpu_of, gen_health_status, gen_metrics_cpu, gen_metrics_mem, sample_window, MetricsRoot,
    CORE_COUNT, TOTAL_BYTES,
};
use crate::metrics::{populate_metrics, readiness, refresh_of};
use crate::registry::{same_layout, MetricsRegistry};
use crate::request::{route_of, RequestHead, Route};
use crate::response::{
    bad_request, bad_request_response, healthz, healthz_response, method_not_allowed,
    method_not_allowed_response, not_found, not_found_response, ok_response, ok_with_body,
};
use vstd::prelude::*;

verus! {

/// What is to be sent in answer to a request.
#[derive(Debug)]
pub enum Reply {
    /// These bytes, as they are.
    Send(Vec<u8>),
    /// A response whose body is this payload as a JSON document.
    Json(MetricsRoot),
    /// A response whose body is the exposition of the registry.
    Exposition,
}

/// A reply as contracts see it.
pub enum ReplyView {
    Send(Seq<u8>),
    Json(MetricsRoot),
    Exposition,
}

impl View for Reply {
    type V = ReplyView;

    open spec fn view(&self) -> ReplyView {
        match self {
            Reply::Send(bytes) => ReplyView::Send(bytes@),
            Reply::Json(stats) => ReplyView::Json(*stats),
            Reply::Exposition => ReplyView::Exposition,
        }
    }
}

/// A payload that the stats endpoint can give: a CPU snapshot of
/// `CORE_COUNT` cores and a memory snapshot of `TOTAL_BYTES`.
pub open spec fn stats_payload(stats: MetricsRoot) -> bool {
    &&& exists|samples: Seq<u64>| #[trigger]
        sample_window(samples, CORE_COUNT) && stats.cpu == cpu_of(samples, CORE_COUNT)
    &&& stats.memory.wf()
    &&& stats.memory.total_bytes == TOTAL_BYTES
}

/// The bytes that a reply puts on the connection: the bytes of a fixed
/// response as they are, and for a reply that asks for a document that
/// document as the body of a `200` response with its `Content-Length`.
pub open spec fn sent(reply: ReplyView, document: Seq<u8>) -> Seq<u8> {
    match reply {
        ReplyView::Send(bytes) => bytes,
        ReplyView::Json(_) => ok_with_body(document),
        ReplyView::Exposition => ok_with_body(document),
    }
}

/// The bytes to send for a reply. `document` is the document that the reply
/// asks for: the JSON text of its payload, or the exposition of the
/// registry. A reply that asks for none takes no notice of it.
pub fn reply_bytes(reply: Reply, document: &[u8]) -> (out: Vec<u8>)
    ensures
        out@ == sent(reply@, document@),
{
    match reply {
        Reply::Send(bytes) => bytes,
        Reply::Json(_) => ok_response(document),
        Reply::Exposition => ok_response(document),
    }
}

/// The health endpoint: draws a health flag and answers it. The registry
/// has no part in it.
pub fn handle_healthz() -> (reply: Reply)
    ensures
        reply@ == ReplyView::Send(healthz(true)) || reply@ == ReplyView::Send(healthz(false)),
{
    Reply::Send(healthz_response(gen_health_status()))
}

/// The stats endpoint: a fresh CPU snapshot and a fresh memory snapshot.
/// The registry has no part in it.
pub fn handle_stats() -> (reply: Reply)
    ensures
        reply@ matches ReplyView::Json(stats) && stats_payload(stats),
{
    let cpu = gen_metrics_cpu(CORE_COUNT);
    let memory = gen_metrics_mem(TOTAL_BYTES);
    Reply::Json(MetricsRoot { cpu, memory })
}

/// The metrics endpoint: refreshes the registry, whose exposition is the
/// answer. A registry that lacks one of the four instruments is exposed as
/// it is.
pub fn handle_metrics(registry: &mut MetricsRegistry) -> (reply: Reply)
    requires
        old(registry).wf(),
    ensures
        reply@ == ReplyView::Exposition,
        readiness(old(registry)@) is Ok ==> refresh_of(old(registry)@, final(registry)@),
        readiness(old(registry)@) is Err ==> final(registry)@ == old(registry)@,
        final(registry).wf(),
        same_layout(old(registry)@, final(registry)@),
{
    let _ = populate_metrics(registry);
    Reply::Exposition
}

/// Answers one request: `GET` of the three paths goes to its handler, any
/// other path is not found, any other method is not allowed, and a head
/// without a request line or without a path is a bad request. Only the
/// metrics endpoint touches the registry.
pub fn handle_connection(head: &RequestHead, registry: &mut MetricsRegistry) -> (reply: Reply)
    requires
        old(registry).wf(),
    ensures
        match route_of(head.lines()) {
            Route::BadRequest => reply@ == ReplyView::Send(bad_request()),
            Route::MethodNotAllowed => reply@ == ReplyView::Send(method_not_allowed()),
            Route::NotFound => reply@ == ReplyView::Send(not_found()),
            Route::Healthz => reply@ == ReplyView::Send(healthz(true)) || reply@
                == ReplyView::Send(healthz(false)),
            Route::Stats => reply@ matches ReplyView::Json(stats) && stats_payload(stats),
            Route::Metrics => reply@ == ReplyView::Exposition && (readiness(old(registry)@) is Ok
                ==> refresh_of(old(registry)@, final(registry)@)),
        },
        !(route_of(head.lines()) is Metrics && readiness(old(registry)@) is Ok)
            ==> final(registry)@ == old(registry)@,
        final(registry).wf(),
        same_layout(old(registry)@, final(registry)@),
{
    match head.route() {
        Route::BadRequest => Reply::Send(bad_request_response()),
        Route::MethodNotAllowed => Reply::Send(method_not_allowed_response()),
        Route::NotFound => Reply::Send(not_found_response()),
        Route::Healthz => handle_healthz(),
        Route::Stats => handle_stats(),
        Route::Metrics => handle_metrics(registry),
    }
}

} // verus!
