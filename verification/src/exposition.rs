use vstd::prelude::*;

verus! {

use crate::gauges::{rendering_of, text_format_type};
use crate::registry::{entries_for, Metrics, SharedMetrics};

/// One answer of the metrics route: the status, the wire format's content
/// type, and the rendered snapshot as the body.
pub struct ScrapeResponse {
    /// HTTP status code; a scrape always succeeds with 200.
    pub status: u16,
    /// The exposition format's content type.
    pub content_type: &'static str,
    /// The rendered snapshot.
    pub body: String,
}

/// Answers one scrape from the shared registry: on every call, a 200
/// response carrying the exposition content type and the rendering of one
/// complete registry state, read under the lock, so never a half-applied
/// mix. The read changes no registry state.
pub fn scrape(m: &SharedMetrics) -> (r: Option<ScrapeResponse>)
    ensures
        r is Some,
        r matches Some(resp) ==> {
            &&& resp.status == 200
            &&& resp.content_type@ == "text/plain; version=0.0.4"@
            &&& exists|s: Metrics|
                #[trigger] s.wf() && resp.body@ == rendering_of(
                    entries_for(s.spec_values()),
                    s.spec_nodename(),
                )
        },
{
    match m.render() {
        Some(body) => Some(
            ScrapeResponse { status: 200, content_type: text_format_type(), body },
        ),
        None => None,
    }
}

} // verus!
