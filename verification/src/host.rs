//! The host selector: decides which mirror host a video is fetched from.
//! The probing itself (HEAD requests under a timeout) is outside work; the
//! selector receives the probe results in arrival order and picks the
//! first host that answered successfully.
use vstd::prelude::*;

verus! {

use crate::error::DownloadError;
use crate::text::append_bytes;

/// One probe answer: the candidate host and whether it answered with a
/// success status before the timeout.
pub struct ProbeResult {
    pub host: Vec<u8>,
    pub ok: bool,
}

/// Index of the first successful probe at or after `i`, in arrival order.
pub open spec fn first_ok_from(results: Seq<ProbeResult>, i: int) -> Option<int>
    decreases results.len() - i,
{
    if i < 0 || i >= results.len() {
        None
    } else if results[i].ok {
        Some(i)
    } else {
        first_ok_from(results, i + 1)
    }
}

/// The liveness rule: any 2xx answer makes a host reachable.
pub fn probe_success(status: u16) -> (r: bool)
    ensures
        r == (200 <= status < 300),
{
    200 <= status && status < 300
}

/// Picks the download host. A configured override is used directly, with
/// no probing; otherwise the first successful probe in arrival order wins,
/// and no successful probe is a fatal connectivity error.
pub fn select_host(override_host: &Option<Vec<u8>>, arrivals: &Vec<ProbeResult>) -> (r: Result<
    Vec<u8>,
    DownloadError,
>)
    ensures
        match override_host {
            Some(h) => r is Ok && r->Ok_0@ == h@,
            None => match first_ok_from(arrivals@, 0) {
                Some(i) => r is Ok && r->Ok_0@ == arrivals@[i].host@,
                None => r is Err && r->Err_0 is Connectivity,
            },
        },
{
    match override_host {
        Some(h) => {
            let mut out: Vec<u8> = Vec::new();
            append_bytes(&mut out, h);
            assert(out@ =~= h@);
            return Ok(out);
        },
        None => {},
    }
    let mut i: usize = 0;
    while i < arrivals.len()
        invariant
            i <= arrivals.len(),
            override_host is None,
            first_ok_from(arrivals@, 0) == first_ok_from(arrivals@, i as int),
        decreases arrivals.len() - i,
    {
        if arrivals[i].ok {
            let mut out: Vec<u8> = Vec::new();
            append_bytes(&mut out, &arrivals[i].host);
            assert(out@ =~= arrivals@[i as int].host@);
            return Ok(out);
        }
        i += 1;
    }
    Err(DownloadError::Connectivity)
}

/// Law: when exactly one candidate answers successfully, the selected host
/// is that candidate, regardless of its position in the arrival order.
pub proof fn lemma_unique_success_is_selected(results: Seq<ProbeResult>, k: int)
    requires
        0 <= k < results.len(),
        results[k].ok,
        forall|j: int| 0 <= j < results.len() && j != k ==> !results[j].ok,
    ensures
        first_ok_from(results, 0) == Some(k),
{
    lemma_first_ok_skips_failures(results, 0, k);
}

proof fn lemma_first_ok_skips_failures(results: Seq<ProbeResult>, i: int, k: int)
    requires
        0 <= i <= k < results.len(),
        results[k].ok,
        forall|j: int| i <= j < k ==> !results[j].ok,
    ensures
        first_ok_from(results, i) == Some(k),
    decreases k - i,
{
    if i < k {
        lemma_first_ok_skips_failures(results, i + 1, k);
    }
}

} // verus!
