//! Output sink state shared by concurrent writers: the one-time CSV
//! header gate. The caller serializes access (one writer at a time);
//! this module guarantees the header text and that it is handed out at
//! most once, whatever the interleaving.
use vstd::prelude::*;

verus! {

/// The CSV header row, with matching column names, ending in a newline.
pub open spec fn csv_header_text(include_title: bool) -> Seq<char> {
    if include_title {
        "method,url,ip_address,status_code,content_length,response_time_ms"@ + ",title"@ + "\n"@
    } else {
        "method,url,ip_address,status_code,content_length,response_time_ms"@ + "\n"@
    }
}

/// Shared per-process sink state: whether the CSV header has been
/// written yet.
pub struct SinkState {
    pub header_written: bool,
}

/// Whether a take-header call on a sink in this state hands the header
/// out.
pub open spec fn gate_emits(header_written: bool) -> bool {
    !header_written
}

/// The sink state after a take-header call: the header counts as
/// written from then on.
pub open spec fn gate_after(header_written: bool) -> bool {
    true
}

impl SinkState {
    /// A fresh sink: no header written yet.
    pub fn new() -> (r: SinkState)
        ensures
            !r.header_written,
    {
        SinkState { header_written: false }
    }

    /// Hand out the CSV header exactly when it has not been written
    /// yet, and mark it written.
    pub fn take_csv_header(&mut self, include_title: bool) -> (r: Option<String>)
        ensures
            final (self).header_written == gate_after(old(self).header_written),
            match r {
                Some(h) => gate_emits(old(self).header_written) && h@ == csv_header_text(
                    include_title,
                ),
                None => !gate_emits(old(self).header_written),
            },
    {
        if self.header_written {
            None
        } else {
            self.header_written = true;
            let mut h: String = String::from_str(
                "method,url,ip_address,status_code,content_length,response_time_ms",
            );
            if include_title {
                h.append(",title");
            }
            h.append("\n");
            Some(h)
        }
    }
}

/// How many headers a run of `calls` successive take-header calls hands
/// out, starting from the given state.
pub open spec fn emitted_headers(header_written: bool, calls: nat) -> int
    decreases calls,
{
    if calls == 0 {
        0
    } else {
        (if gate_emits(header_written) {
            1int
        } else {
            0int
        }) + emitted_headers(gate_after(header_written), (calls - 1) as nat)
    }
}

/// Once the header is written, no later call emits it again.
pub proof fn lemma_csv_header_never_again(calls: nat)
    ensures
        emitted_headers(true, calls) == 0,
    decreases calls,
{
    if calls > 0 {
        lemma_csv_header_never_again((calls - 1) as nat);
    }
}

/// The CSV header is emitted exactly once on a fresh sink, however many
/// records complete and in whatever order their writers run: any run of
/// one or more take-header calls hands it out exactly once.
pub proof fn lemma_csv_header_once(calls: nat)
    requires
        calls >= 1,
    ensures
        emitted_headers(false, calls) == 1,
{
    lemma_csv_header_never_again((calls - 1) as nat);
}

} // verus!
