//! The load-test client: its command line, each client's session, the
//! reporter's tally, and how a run is judged.
pub mod cli_args;
pub mod client_service;
pub mod reporting_service;

use vstd::prelude::*;

verus! {

/// Echoes a run waits for: each of `num_clients` clients confirms
/// `max_count`. `None` when the product does not fit in a `u64`.
pub fn expected_echoes(max_count: u64, num_clients: usize) -> (expected: Option<u64>)
    ensures
        match expected {
            Some(n) => n == max_count * num_clients,
            None => max_count * num_clients > u64::MAX,
        },
{
    max_count.checked_mul(num_clients as u64)
}

/// Sum of the counts that the clients that finished without error returned.
pub open spec fn sum_completed(results: Seq<Option<u64>>) -> nat
    decreases results.len(),
{
    if results.len() == 0 {
        0
    } else {
        sum_completed(results.drop_last()) + match results.last() {
            Some(c) => c as nat,
            None => 0,
        }
    }
}

proof fn lemma_sum_completed_prefix(results: Seq<Option<u64>>, i: int)
    requires
        0 <= i <= results.len(),
    ensures
        sum_completed(results.take(i)) <= sum_completed(results),
    decreases results.len(),
{
    if i < results.len() {
        lemma_sum_completed_prefix(results.drop_last(), i);
        assert(results.drop_last().take(i) =~= results.take(i));
    } else {
        assert(results.take(i) =~= results);
    }
}

/// Adds up what the clients returned, in order; a client that failed
/// (`None`) adds nothing. `None` when the sum does not fit in a `u64`.
pub fn tally_client_results(results: &[Option<u64>]) -> (total: Option<u64>)
    ensures
        match total {
            Some(t) => t == sum_completed(results@),
            None => sum_completed(results@) > u64::MAX,
        },
{
    let mut total: u64 = 0;
    let n = results.len();
    for i in 0..n
        invariant
            n == results@.len(),
            total == sum_completed(results@.take(i as int)),
    {
        proof {
            assert(results@.take(i + 1).drop_last() =~= results@.take(i as int));
            lemma_sum_completed_prefix(results@, i + 1);
        }
        match results[i] {
            Some(count) => {
                match total.checked_add(count) {
                    Some(t) => {
                        total = t;
                    },
                    None => {
                        return None;
                    },
                }
            },
            None => {},
        }
    }
    proof {
        assert(results@.take(n as int) =~= results@);
    }
    Some(total)
}

/// The total the client prints at the end: the larger of the reporter's
/// count and the sum over the clients.
pub fn final_echo_count(reporter_total: u64, client_total: u64) -> (shown: u64)
    ensures
        shown == if reporter_total >= client_total { reporter_total } else { client_total },
{
    if reporter_total >= client_total {
        reporter_total
    } else {
        client_total
    }
}

/// Why a client run failed.
#[derive(Debug, PartialEq, Eq, Clone, Copy)]
pub enum ClientRunError {
    /// Fewer echoes were confirmed than the clients were to wait for.
    NotAllClientsReachedMaxCount,
}

/// A run succeeds exactly when the reporter confirmed every expected echo.
pub fn run_verdict(reporter_total: u64, expected: u64) -> (verdict: Result<(), ClientRunError>)
    ensures
        verdict is Ok <==> reporter_total >= expected,
        verdict is Err ==> verdict == Err::<(), ClientRunError>(ClientRunError::NotAllClientsReachedMaxCount),
{
    if reporter_total >= expected {
        Ok(())
    } else {
        Err(ClientRunError::NotAllClientsReachedMaxCount)
    }
}

} // verus!
