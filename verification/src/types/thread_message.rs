use vstd::prelude::*;

verus! {

/// A message between the coordinator and a worker: crawl an address (with
/// the number of tries so far), a crawl done (the addresses found, the
/// address crawled), a worker that must be replaced, an address to try
/// again, and the order for a worker to leave.
#[derive(Debug)]
pub enum ThreadMessage {
    Start(String, i32),
    Done(Vec<String>, String, bool),
    Stop(usize),
    Retry(String, i32),
    Exited(usize),
}

} // verus!
