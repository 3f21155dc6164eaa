use vstd::prelude::*;

use crate::provider::{eligible, ProviderState};
use crate::provider::all_weights_positive;
use crate::router::opt_view;

verus! {

/// Why a dispatch produced no response.
#[derive(Clone, Copy, Debug, PartialEq, Eq, Structural)]
pub enum DispatchError {
    /// The router found no eligible provider.
    NoHealthyProviders,
    /// Every candidate was tried and none gave a usable response.
    AllProvidersFailed,
}

impl DispatchError {
    /// The message reported to the caller.
    pub fn message(&self) -> (r: &'static str)
        ensures
            r@ == match self {
                DispatchError::NoHealthyProviders => "no healthy providers"@,
                DispatchError::AllProvidersFailed => "all providers failed"@,
            },
    {
        match self {
            DispatchError::NoHealthyProviders => "no healthy providers",
            DispatchError::AllProvidersFailed => "all providers failed",
        }
    }
}

/// What a JSON response body says of its slot: none if the body is not JSON,
/// otherwise the `result.context.slot` field when it is an unsigned integer.
pub uninterp spec fn slot_reading(body: Seq<u8>) -> Option<Option<u64>>;

/// What a JSON-RPC request body says of its method: none if the body is not
/// JSON or has no string `method` field.
pub uninterp spec fn method_reading(body: Seq<u8>) -> Option<Seq<char>>;

/// Relies on serde_json::from_slice and Value::as_u64: parses the body and
/// reads `result.context.slot`.
#[verifier::external_body]
fn read_slot(body: &[u8]) -> (r: Option<Option<u64>>)
    ensures
        r == slot_reading(body@),
{
    serde_json::from_slice::<serde_json::Value>(body).ok().map(
        |j| j["result"]["context"]["slot"].as_u64(),
    )
}

/// Relies on serde_json::from_slice and Value::as_str: parses the body and
/// reads its `method` field.
#[verifier::external_body]
fn read_method(body: &[u8]) -> (r: Option<String>)
    ensures
        opt_view(r) == method_reading(body@),
{
    serde_json::from_slice::<serde_json::Value>(body).ok().and_then(
        |j| j["method"].as_str().map(String::from),
    )
}

/// The method named by a request body, or the empty name when it names none.
pub fn request_method(body: &[u8]) -> (r: String)
    ensures
        r@ == match method_reading(body@) {
            Some(m) => m,
            None => Seq::<char>::empty(),
        },
{
    match read_method(body) {
        Some(m) => m,
        None => String::new(),
    }
}

/// A backend reply: the body of a success status, or none for a network
/// error, a timeout or another status.
pub open spec fn usable(reply: Option<Vec<u8>>) -> bool {
    reply is Some && slot_reading(reply->0@) is Some
}

/// Whether a reply is a success whose body parses as JSON.
pub fn reply_usable(reply: &Option<Vec<u8>>) -> (r: bool)
    ensures
        r == usable(*reply),
{
    match reply {
        Some(body) => read_slot(body.as_slice()).is_some(),
        None => false,
    }
}

/// The slot a reply competes with in a broadcast: none if unusable, zero when
/// the body carries no slot.
pub open spec fn reply_slot(reply: Option<Vec<u8>>) -> Option<u64> {
    match reply {
        Some(body) => match slot_reading(body@) {
            Some(Some(s)) => Some(s),
            Some(None) => Some(0u64),
            None => None,
        },
        None => None,
    }
}

pub open spec fn has_zero_slot(s: Seq<Option<u64>>) -> bool {
    exists|i: int| 0 <= i < s.len() && s[i] == Some(0u64)
}

pub open spec fn is_first_zero_slot(s: Seq<Option<u64>>, i: int) -> bool {
    &&& 0 <= i < s.len()
    &&& s[i] == Some(0u64)
    &&& forall|j: int| 0 <= j < i ==> #[trigger] s[j] != Some(0u64)
}

pub open spec fn is_first_max_slot(s: Seq<Option<u64>>, i: int) -> bool {
    &&& 0 <= i < s.len()
    &&& s[i] is Some
    &&& forall|j: int| 0 <= j < s.len() && #[trigger] s[j] is Some ==> s[j]->0 <= s[i]->0
    &&& forall|j: int| 0 <= j < i && #[trigger] s[j] is Some ==> s[j]->0 < s[i]->0
}

/// The broadcast winner among slot readings in arrival order: the first
/// reading of zero if there is one, else the first of the highest slot, else
/// none when no reading is usable.
pub open spec fn slot_winner(s: Seq<Option<u64>>, r: Option<usize>) -> bool {
    if has_zero_slot(s) {
        r is Some && is_first_zero_slot(s, r->0 as int)
    } else if exists|i: int| 0 <= i < s.len() && #[trigger] s[i] is Some {
        r is Some && is_first_max_slot(s, r->0 as int)
    } else {
        r is None
    }
}

/// Picks the winning position among slot readings (none for an unusable reply).
pub fn pick_by_slot(slots: &[Option<u64>]) -> (r: Option<usize>)
    ensures
        slot_winner(slots@, r),
{
    let mut best: Option<usize> = None;
    let mut i: usize = 0;
    while i < slots.len()
        invariant
            i <= slots@.len(),
            forall|j: int| 0 <= j < i ==> #[trigger] slots@[j] != Some(0u64),
            best is None ==> forall|j: int| 0 <= j < i ==> #[trigger] slots@[j] is None,
            best is Some ==> {
                let b = best->0 as int;
                &&& b < i
                &&& slots@[b] is Some
                &&& forall|j: int|
                    0 <= j < i && #[trigger] slots@[j] is Some ==> slots@[j]->0 <= slots@[b]->0
                &&& forall|j: int|
                    0 <= j < b && #[trigger] slots@[j] is Some ==> slots@[j]->0 < slots@[b]->0
            },
        decreases slots@.len() - i,
    {
        if let Some(slot) = slots[i] {
            if slot == 0 {
                return Some(i);
            }
            match best {
                None => {
                    best = Some(i);
                },
                Some(b) => {
                    if let Some(best_slot) = slots[b] {
                        if slot > best_slot {
                            best = Some(i);
                        }
                    }
                },
            }
        }
        i = i + 1;
    }
    proof {
        if best is None {
            assert(!exists|k: int| 0 <= k < slots@.len() && #[trigger] slots@[k] is Some);
        }
    }
    best
}

/// The position of the reply a broadcast returns, from all replies in
/// arrival order.
pub fn broadcast_winner(replies: &[Option<Vec<u8>>]) -> (r: Option<usize>)
    ensures
        slot_winner(replies@.map_values(|x: Option<Vec<u8>>| reply_slot(x)), r),
{
    let mut slots: Vec<Option<u64>> = Vec::new();
    let mut i: usize = 0;
    while i < replies.len()
        invariant
            i <= replies@.len(),
            slots@ == replies@.subrange(0, i as int).map_values(|x: Option<Vec<u8>>| reply_slot(x)),
        decreases replies@.len() - i,
    {
        let slot = match &replies[i] {
            Some(body) => match read_slot(body.as_slice()) {
                Some(Some(s)) => Some(s),
                Some(None) => Some(0u64),
                None => None,
            },
            None => None,
        };
        slots.push(slot);
        assert(replies@.subrange(0, i + 1).map_values(|x: Option<Vec<u8>>| reply_slot(x))
            =~= replies@.subrange(0, i as int).map_values(|x: Option<Vec<u8>>| reply_slot(x)).push(
            reply_slot(replies@[i as int]),
        ));
        i = i + 1;
    }
    assert(replies@.subrange(0, replies@.len() as int) =~= replies@);
    pick_by_slot(slots.as_slice())
}

/// How a broadcast over all replies in arrival order ends: no healthy
/// providers when there was no candidate, else the position of the winning
/// reply, else all providers failed.
pub fn broadcast_outcome(replies: &[Option<Vec<u8>>]) -> (r: Result<usize, DispatchError>)
    ensures
        replies@.len() == 0 ==> r == Err::<usize, DispatchError>(DispatchError::NoHealthyProviders),
        replies@.len() > 0 ==> {
            &&& slot_winner(
                replies@.map_values(|x: Option<Vec<u8>>| reply_slot(x)),
                match r {
                    Ok(i) => Some(i),
                    Err(_) => None,
                },
            )
            &&& r is Err ==> r == Err::<usize, DispatchError>(DispatchError::AllProvidersFailed)
        },
{
    if replies.len() == 0 {
        return Err(DispatchError::NoHealthyProviders);
    }
    match broadcast_winner(replies) {
        Some(i) => Ok(i),
        None => Err(DispatchError::AllProvidersFailed),
    }
}

/// Where a sequential dispatch (retry or failover) stands.
#[derive(Clone, Copy, Debug, PartialEq, Eq, Structural)]
pub enum Progress {
    /// Send the request to the candidate at this position next.
    Attempt(usize),
    /// The candidate at this position served the response.
    Served(usize),
    /// The dispatch is over without a response.
    Failed(DispatchError),
}

/// The first step over `n` ordered candidates.
pub fn start_sequence(n: usize) -> (r: Progress)
    ensures
        r == if n == 0 {
            Progress::Failed(DispatchError::NoHealthyProviders)
        } else {
            Progress::Attempt(0)
        },
{
    if n == 0 {
        Progress::Failed(DispatchError::NoHealthyProviders)
    } else {
        Progress::Attempt(0)
    }
}

/// The first step of a failover over `n` candidates in score order: with
/// none to try, the failover has failed like one whose every call failed.
pub fn start_failover(n: usize) -> (r: Progress)
    ensures
        r == if n == 0 {
            Progress::Failed(DispatchError::AllProvidersFailed)
        } else {
            Progress::Attempt(0)
        },
{
    if n == 0 {
        Progress::Failed(DispatchError::AllProvidersFailed)
    } else {
        Progress::Attempt(0)
    }
}

/// The step after the candidate at `current` replied: stop at a usable reply,
/// else go on to the next candidate, else give up.
pub fn after_attempt(n: usize, current: usize, reply: &Option<Vec<u8>>) -> (r: Progress)
    requires
        current < n,
    ensures
        r == if usable(*reply) {
            Progress::Served(current)
        } else if current + 1 < n {
            Progress::Attempt((current + 1) as usize)
        } else {
            Progress::Failed(DispatchError::AllProvidersFailed)
        },
{
    if reply_usable(reply) {
        Progress::Served(current)
    } else if current + 1 < n {
        Progress::Attempt(current + 1)
    } else {
        Progress::Failed(DispatchError::AllProvidersFailed)
    }
}

pub open spec fn is_first_usable(replies: Seq<Option<Vec<u8>>>, i: int) -> bool {
    &&& 0 <= i < replies.len()
    &&& usable(replies[i])
    &&& forall|j: int| 0 <= j < i ==> !usable(#[trigger] replies[j])
}

/// Where a sequential dispatch ends, given the reply each candidate would give.
pub open spec fn sequence_result(replies: Seq<Option<Vec<u8>>>, r: Progress) -> bool {
    if replies.len() == 0 {
        r == Progress::Failed(DispatchError::NoHealthyProviders)
    } else if exists|i: int| 0 <= i < replies.len() && usable(#[trigger] replies[i]) {
        r is Served && is_first_usable(replies, r->Served_0 as int)
    } else {
        r == Progress::Failed(DispatchError::AllProvidersFailed)
    }
}

/// Runs the sequential steps over the replies the candidates give, in order.
pub fn run_sequence(replies: &[Option<Vec<u8>>]) -> (r: Progress)
    ensures
        sequence_result(replies@, r),
{
    let n = replies.len();
    let first = start_sequence(n);
    if n == 0 {
        return first;
    }
    let mut current: usize = 0;
    loop
        invariant
            n == replies@.len(),
            current < n,
            forall|j: int| 0 <= j < current ==> !usable(#[trigger] replies@[j]),
        decreases n - current,
    {
        let step = after_attempt(n, current, &replies[current]);
        match step {
            Progress::Attempt(next) => {
                current = next;
            },
            _ => {
                return step;
            },
        }
    }
}

/// Where a race stands: replies come in completion order.
#[derive(Clone, Copy, Debug, PartialEq, Eq, Structural)]
pub enum RaceProgress {
    /// This many calls are still in flight.
    Waiting(usize),
    /// The reply just received is the result.
    Won,
    /// The race is over without a response.
    Failed(DispatchError),
}

/// The first state of a race over `n` candidates, all launched at once.
pub fn start_race(n: usize) -> (r: RaceProgress)
    ensures
        r == if n == 0 {
            RaceProgress::Failed(DispatchError::NoHealthyProviders)
        } else {
            RaceProgress::Waiting(n)
        },
{
    if n == 0 {
        RaceProgress::Failed(DispatchError::NoHealthyProviders)
    } else {
        RaceProgress::Waiting(n)
    }
}

/// The state after one more call completed with `reply`, `in_flight` calls
/// having been outstanding: the first usable reply wins, the last failure
/// ends the race.
pub fn race_step(in_flight: usize, reply: &Option<Vec<u8>>) -> (r: RaceProgress)
    requires
        in_flight > 0,
    ensures
        r == if usable(*reply) {
            RaceProgress::Won
        } else if in_flight == 1 {
            RaceProgress::Failed(DispatchError::AllProvidersFailed)
        } else {
            RaceProgress::Waiting((in_flight - 1) as usize)
        },
{
    if reply_usable(reply) {
        RaceProgress::Won
    } else if in_flight == 1 {
        RaceProgress::Failed(DispatchError::AllProvidersFailed)
    } else {
        RaceProgress::Waiting(in_flight - 1)
    }
}

/// How a race over replies in completion order ends: the first usable reply;
/// with no candidate, no healthy providers; else all providers failed.
pub open spec fn race_result(completed: Seq<Option<Vec<u8>>>, r: Result<usize, DispatchError>) -> bool {
    match r {
        Ok(i) => is_first_usable(completed, i as int),
        Err(e) => if completed.len() == 0 {
            e == DispatchError::NoHealthyProviders
        } else {
            e == DispatchError::AllProvidersFailed && forall|j: int|
                0 <= j < completed.len() ==> !usable(#[trigger] completed[j])
        },
    }
}

/// Runs a race over the replies in the order they complete; on a win,
/// the position of the winning reply.
pub fn run_race(completed: &[Option<Vec<u8>>]) -> (r: Result<usize, DispatchError>)
    ensures
        race_result(completed@, r),
{
    let n = completed.len();
    if n == 0 {
        return Err(DispatchError::NoHealthyProviders);
    }
    let mut state = start_race(n);
    let mut k: usize = 0;
    while k < n
        invariant
            n == completed@.len(),
            k <= n,
            state == if k == n {
                RaceProgress::Failed(DispatchError::AllProvidersFailed)
            } else {
                RaceProgress::Waiting((n - k) as usize)
            },
            forall|j: int| 0 <= j < k ==> !usable(#[trigger] completed@[j]),
        decreases n - k,
    {
        let in_flight = match state {
            RaceProgress::Waiting(m) => m,
            _ => 1,
        };
        state = race_step(in_flight, &completed[k]);
        if state == RaceProgress::Won {
            return Ok(k);
        }
        k = k + 1;
    }
    Err(DispatchError::AllProvidersFailed)
}

/// Position `i` holds the first state whose URL is `url`.
pub open spec fn is_first_with_url(ps: Seq<ProviderState>, url: Seq<char>, i: int) -> bool {
    &&& 0 <= i < ps.len()
    &&& ps[i].url@ == url
    &&& forall|j: int| 0 <= j < i ==> (#[trigger] ps[j]).url@ != url
}

/// The name shown for the provider that served `url`: the first provider
/// with that URL, or the URL itself when none has it.
pub fn served_by(providers: &[ProviderState], url: &String) -> (r: String)
    ensures
        (exists|i: int| is_first_with_url(providers@, url@, i) && r@ == providers@[i].name@) || (
        (forall|j: int| 0 <= j < providers@.len() ==> (#[trigger] providers@[j]).url@ != url@)
            && r@ == url@),
{
    let mut i: usize = 0;
    while i < providers.len()
        invariant
            i <= providers@.len(),
            forall|j: int| 0 <= j < i ==> (#[trigger] providers@[j]).url@ != url@,
        decreases providers@.len() - i,
    {
        if providers[i].url == *url {
            let name = providers[i].name.clone();
            assert(is_first_with_url(providers@, url@, i as int));
            return name;
        }
        i = i + 1;
    }
    url.clone()
}

/// `a` comes before `b` in failover order: lower score first, ties in
/// snapshot order.
pub open spec fn failover_before(ps: Seq<ProviderState>, a: usize, b: usize) -> bool {
    ps[a as int].spec_score() < ps[b as int].spec_score() || (ps[a as int].spec_score()
        == ps[b as int].spec_score() && a < b)
}

/// The positions of the eligible states, lowest score first; equal scores
/// keep snapshot order.
pub fn failover_order(providers: &[ProviderState]) -> (r: Vec<usize>)
    requires
        all_weights_positive(providers@),
    ensures
        forall|k: usize| r@.contains(k) <==> (k < providers@.len() && eligible(providers@[k as int])),
        forall|a: int, b: int|
            0 <= a < b < r@.len() ==> failover_before(providers@, #[trigger] r@[a], #[trigger] r@[b]),
{
    let mut order: Vec<usize> = Vec::new();
    let mut i: usize = 0;
    while i < providers.len()
        invariant
            i <= providers@.len(),
            all_weights_positive(providers@),
            forall|k: usize| order@.contains(k) <==> (k < i && eligible(providers@[k as int])),
            forall|a: int| 0 <= a < order@.len() ==> #[trigger] order@[a] < i,
            forall|a: int, b: int|
                0 <= a < b < order@.len() ==> failover_before(
                    providers@,
                    #[trigger] order@[a],
                    #[trigger] order@[b],
                ),
        decreases providers@.len() - i,
    {
        if providers[i].healthy && !providers[i].cool_off {
            let score = providers[i].score();
            let mut pos: usize = 0;
            while pos < order.len() && providers[order[pos]].score() <= score
                invariant
                    pos <= order@.len(),
                    i < providers@.len(),
                    all_weights_positive(providers@),
                    score == providers@[i as int].spec_score(),
                    forall|a: int| 0 <= a < order@.len() ==> #[trigger] order@[a] < i,
                    forall|a: int|
                        0 <= a < pos ==> providers@[#[trigger] order@[a] as int].spec_score()
                            <= score,
                decreases order@.len() - pos,
            {
                pos = pos + 1;
            }
            let ghost old_order = order@;
            order.insert(pos, i);
            assert(order@ == old_order.insert(pos as int, i));
            assert forall|a: int, b: int|
                0 <= a < b < order@.len() implies failover_before(
                providers@,
                #[trigger] order@[a],
                #[trigger] order@[b],
            ) by {
                if b < pos {
                } else if b == pos {
                } else if a < pos {
                } else if a == pos {
                    assert(order@[b] == old_order[b - 1]);
                    if b - 1 > pos {
                        assert(failover_before(providers@, old_order[pos as int], old_order[b - 1]));
                    }
                } else {
                }
            }
            assert forall|k: usize| order@.contains(k) <==> (k < i + 1 && eligible(providers@[k as int])) by {
                if order@.contains(k) {
                    let a = choose|a: int| 0 <= a < order@.len() && order@[a] == k;
                    if a != pos {
                        let a0 = if a < pos { a } else { a - 1 };
                        assert(old_order[a0] == k);
                        assert(old_order.contains(k));
                    }
                }
                if k < i + 1 && eligible(providers@[k as int]) {
                    if k == i {
                        assert(order@[pos as int] == k);
                    } else {
                        assert(old_order.contains(k));
                        let a = choose|a: int| 0 <= a < old_order.len() && old_order[a] == k;
                        let a1 = if a < pos { a } else { a + 1 };
                        assert(order@[a1] == k);
                    }
                }
            }
        }
        i = i + 1;
    }
    order
}

/// When exactly one candidate gives a usable reply, wherever it completes,
/// the race returns that reply.
pub proof fn lemma_race_single_success(
    completed: Seq<Option<Vec<u8>>>,
    k: int,
    r: Result<usize, DispatchError>,
)
    requires
        0 <= k < completed.len(),
        usable(completed[k]),
        forall|j: int| 0 <= j < completed.len() && j != k ==> !usable(#[trigger] completed[j]),
        race_result(completed, r),
    ensures
        r == Ok::<usize, DispatchError>(k as usize),
{
}

/// A sequential dispatch is served by the first candidate whose reply is
/// usable, after every earlier candidate failed.
pub proof fn lemma_sequence_falls_back(replies: Seq<Option<Vec<u8>>>, k: int, r: Progress)
    requires
        0 <= k < replies.len(),
        usable(replies[k]),
        forall|j: int| 0 <= j < k ==> !usable(#[trigger] replies[j]),
        sequence_result(replies, r),
    ensures
        r == Progress::Served(k as usize),
{
}

} // verus!
