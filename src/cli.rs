use vstd::prelude::*;

verus! {

/// Command-line entry: which command to run.
pub struct Cli {
    pub command: Commands,
}

/// The commands of the executable.
#[derive(Clone, Copy, Debug, PartialEq, Eq, Structural)]
pub enum Commands {
    Start,
    Benchmark,
}

/// The benchmark's pick among probe results in provider order (the latency
/// of a healthy provider, none for an unhealthy one): the first healthy
/// provider of lowest latency.
pub fn best_benchmark(results: &[Option<u128>]) -> (r: Option<usize>)
    ensures
        r is None <==> forall|j: int| 0 <= j < results@.len() ==> #[trigger] results@[j] is None,
        r is Some ==> {
            let b = r->0 as int;
            &&& b < results@.len()
            &&& results@[b] is Some
            &&& forall|j: int|
                0 <= j < results@.len() && #[trigger] results@[j] is Some ==> results@[b]->0
                    <= results@[j]->0
            &&& forall|j: int|
                0 <= j < b && #[trigger] results@[j] is Some ==> results@[b]->0 < results@[j]->0
        },
{
    let mut best: Option<usize> = None;
    let mut i: usize = 0;
    while i < results.len()
        invariant
            i <= results@.len(),
            best is None ==> forall|j: int| 0 <= j < i ==> #[trigger] results@[j] is None,
            best is Some ==> {
                let b = best->0 as int;
                &&& b < i
                &&& results@[b] is Some
                &&& forall|j: int|
                    0 <= j < i && #[trigger] results@[j] is Some ==> results@[b]->0
                        <= results@[j]->0
                &&& forall|j: int|
                    0 <= j < b && #[trigger] results@[j] is Some ==> results@[b]->0
                        < results@[j]->0
            },
        decreases results@.len() - i,
    {
        if let Some(latency) = results[i] {
            match best {
                None => {
                    best = Some(i);
                },
                Some(b) => {
                    if let Some(best_latency) = results[b] {
                        if latency < best_latency {
                            best = Some(i);
                        }
                    }
                },
            }
        }
        i = i + 1;
    }
    best
}

} // verus!
