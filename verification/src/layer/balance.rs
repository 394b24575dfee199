//! The backend pool: a fixed set of forwarders, a live load counter for each,
//! and power-of-two-choices selection over them.
//!
//! The pool only decides and keeps count. A caller asks it for a ticket,
//! sends the request to the endpoint the ticket names, and hands the ticket
//! back with whatever came of the call. Exclusive access (`&mut self`) is what
//! keeps the counters exact; a caller that shares a pool between tasks guards
//! it with a lock held for these constant-time steps only, never across the
//! upstream call.

use crate::config::BackendConfig;
use crate::error::ConfigError;
use crate::layer::http_forward::{address_accepted, backend_fault, target_of, Forward, Target};
use std::collections::hash_map::RandomState;
use tower::util::rng::{HasherRng, Rng};
use vstd::prelude::*;

verus! {

/// `tower::util::rng::HasherRng`, carried through without looking inside.
#[verifier::external_type_specification]
#[verifier::external_body]
#[verifier::reject_recursive_types(H)]
pub struct ExHasherRng<H>(HasherRng<H>);

/// Calls `tower::util::rng::HasherRng::new`. Trusted, with nothing claimed:
/// the generator is seeded by the process.
#[verifier::external_body]
fn fresh_rng() -> HasherRng<RandomState> {
    HasherRng::new()
}

/// Calls `tower::util::rng::Rng::next_u64`. Trusted, with nothing claimed of
/// the word that comes back.
#[verifier::external_body]
fn next_word(rng: &mut HasherRng<RandomState>) -> u64 {
    rng.next_u64()
}

/// Two candidate indices among `len >= 2` endpoints, from two random words:
/// the first word picks among all but the last index, the second among all,
/// and a collision sends the first candidate to the last index.
pub open spec fn candidates(len: int, first: u64, second: u64) -> (int, int) {
    let a = first as int % (len - 1);
    let b = second as int % len;
    (
        if a == b {
            len - 1
        } else {
            a
        },
        b,
    )
}

/// The endpoint a request is routed to, given the current loads and two
/// random words. One endpoint takes everything; of two, the less loaded wins
/// and a tie goes to the first; of more, the less loaded of two sampled
/// candidates wins and a tie goes to the first candidate.
pub open spec fn choice(loads: Seq<u64>, first: u64, second: u64) -> int {
    if loads.len() <= 1 {
        0
    } else if loads.len() == 2 {
        if loads[1] < loads[0] {
            1
        } else {
            0
        }
    } else {
        let (a, b) = candidates(loads.len() as int, first, second);
        if loads[a] <= loads[b] {
            a
        } else {
            b
        }
    }
}

/// The loads after one more request is in flight at endpoint `i`.
pub open spec fn claimed(loads: Seq<u64>, i: int) -> Seq<u64> {
    loads.update(i, (loads[i] + 1) as u64)
}

/// The loads after one request at endpoint `i` has resolved. Releasing an
/// endpoint that is out of range or idle changes nothing.
pub open spec fn released(loads: Seq<u64>, i: int) -> Seq<u64> {
    if 0 <= i < loads.len() && loads[i] > 0 {
        loads.update(i, (loads[i] - 1) as u64)
    } else {
        loads
    }
}

/// The loads of an idle pool of `len` endpoints: zero everywhere.
pub open spec fn idle(len: nat) -> Seq<u64> {
    Seq::new(len, |i: int| 0u64)
}

/// Every counter can take one more request.
pub open spec fn has_headroom(loads: Seq<u64>) -> bool {
    forall|i: int| 0 <= i < loads.len() ==> loads[i] < u64::MAX
}

/// The targets that a list of backend definitions describes, in order.
pub open spec fn targets_of(backends: Seq<BackendConfig>) -> Seq<Target> {
    Seq::new(backends.len(), |i: int| target_of(backends[i]))
}

/// What is wrong with the backend definition at `i`, given for each whether
/// its address is an acceptable URI.
pub open spec fn fault_of(backends: Seq<BackendConfig>, address_ok: Seq<bool>, i: int) -> Option<
    ConfigError,
> {
    backend_fault(backends[i].host@, backends[i].port, address_ok[i])
}

/// What keeps a pool from being built over `backends`, given for each
/// whether its address is an acceptable URI: that there is no backend, or
/// else the fault of the first faulty definition; `None` when nothing does.
pub open spec fn checked_fault(backends: Seq<BackendConfig>, address_ok: Seq<bool>) -> Option<
    ConfigError,
>
    decreases backends.len(),
{
    if backends.len() == 0 {
        Some(ConfigError::NoBackends)
    } else if fault_of(backends, address_ok, 0) is Some || backends.len() == 1 {
        fault_of(backends, address_ok, 0)
    } else {
        checked_fault(backends.drop_first(), address_ok.drop_first())
    }
}

/// `checked_fault` read index by index: nothing keeps a pool from being
/// built exactly when there is a backend and none is faulty; otherwise the
/// fault is that there is no backend, or it is the fault of the faulty
/// definition that has no faulty one before it.
pub proof fn lemma_checked_fault(backends: Seq<BackendConfig>, address_ok: Seq<bool>)
    requires
        address_ok.len() == backends.len(),
    ensures
        match checked_fault(backends, address_ok) {
            None => backends.len() > 0 && forall|i: int|
                0 <= i < backends.len() ==> #[trigger] fault_of(backends, address_ok, i) is None,
            Some(fault) => (backends.len() == 0 && fault == ConfigError::NoBackends) || exists|
                i: int,
            |
                0 <= i < backends.len() && #[trigger] fault_of(backends, address_ok, i) == Some(
                    fault,
                ) && forall|j: int|
                    0 <= j < i ==> #[trigger] fault_of(backends, address_ok, j) is None,
        },
    decreases backends.len(),
{
    if backends.len() > 1 && fault_of(backends, address_ok, 0) is None {
        let rest = backends.drop_first();
        let rest_ok = address_ok.drop_first();
        lemma_checked_fault(rest, rest_ok);
        assert forall|i: int| 0 <= i < rest.len() implies fault_of(rest, rest_ok, i) == fault_of(
            backends,
            address_ok,
            i + 1,
        ) by {}
        match checked_fault(rest, rest_ok) {
            None => {
                assert forall|i: int| 0 <= i < backends.len() implies #[trigger] fault_of(
                    backends,
                    address_ok,
                    i,
                ) is None by {
                    if i > 0 {
                        assert(fault_of(rest, rest_ok, i - 1) is None);
                    }
                }
            },
            Some(fault) => {
                let at = choose|i: int|
                    0 <= i < rest.len() && #[trigger] fault_of(rest, rest_ok, i) == Some(fault)
                        && forall|j: int|
                        0 <= j < i ==> #[trigger] fault_of(rest, rest_ok, j) is None;
                assert(fault_of(backends, address_ok, at + 1) == Some(fault));
                assert forall|j: int| 0 <= j < at + 1 implies #[trigger] fault_of(
                    backends,
                    address_ok,
                    j,
                ) is None by {
                    if j > 0 {
                        assert(fault_of(rest, rest_ok, j - 1) is None);
                    }
                }
            },
        }
    }
}

/// For each backend definition, whether its address is an acceptable URI.
pub open spec fn verdicts(backends: Seq<BackendConfig>) -> Seq<bool> {
    Seq::new(backends.len(), |i: int| address_accepted(backends[i]))
}

/// What keeps a pool from being built over `backends`, if anything.
pub open spec fn pool_fault(backends: Seq<BackendConfig>) -> Option<ConfigError> {
    checked_fault(backends, verdicts(backends))
}

/// Picks the endpoint for one request from `loads` and two random words.
pub fn pick(loads: &Vec<u64>, first: u64, second: u64) -> (index: usize)
    requires
        loads.len() > 0,
    ensures
        index == choice(loads@, first, second),
        index < loads.len(),
{
    let len = loads.len();
    if len == 1 {
        0
    } else if len == 2 {
        if loads[1] < loads[0] {
            1
        } else {
            0
        }
    } else {
        let a = (first % ((len - 1) as u64)) as usize;
        let b = (second % (len as u64)) as usize;
        let a = if a == b {
            len - 1
        } else {
            a
        };
        if loads[a] <= loads[b] {
            a
        } else {
            b
        }
    }
}

/// One request's claim on an endpoint's load counter.
#[derive(Debug)]
pub struct Ticket {
    endpoint: usize,
}

impl View for Ticket {
    type V = usize;

    closed spec fn view(&self) -> usize {
        self.endpoint
    }
}

impl Ticket {
    /// The index of the endpoint the request goes to.
    pub fn endpoint(&self) -> (index: usize)
        ensures
            index == self@,
    {
        self.endpoint
    }
}

/// A pool of endpoints with their live loads.
#[derive(Debug)]
pub struct Endpoints {
    forwards: Vec<Forward>,
    loads: Vec<u64>,
    rng: HasherRng<RandomState>,
}

impl Endpoints {
    /// There is at least one endpoint, and one counter for each.
    pub closed spec fn wf(&self) -> bool {
        self.forwards.len() == self.loads.len() && self.loads.len() > 0
    }

    /// The endpoints, in the order they were given.
    pub closed spec fn targets(&self) -> Seq<Target> {
        Seq::new(self.forwards.len() as nat, |i: int| self.forwards[i]@)
    }

    /// The number of requests in flight at each endpoint.
    pub closed spec fn loads(&self) -> Seq<u64> {
        self.loads@
    }

    /// Builds a pool over forwarders that are already built, with every load
    /// at zero. An empty list is refused.
    pub fn from_forwards(forwards: Vec<Forward>) -> (built: Result<Endpoints, ConfigError>)
        ensures
            match built {
                Ok(pool) => {
                    &&& pool.wf()
                    &&& forwards.len() > 0
                    &&& pool.targets() == Seq::new(forwards.len() as nat, |i: int| forwards[i]@)
                    &&& pool.loads() == idle(forwards.len() as nat)
                },
                Err(fault) => forwards.len() == 0 && fault == ConfigError::NoBackends,
            },
    {
        if forwards.len() == 0 {
            return Err(ConfigError::NoBackends);
        }
        let mut loads: Vec<u64> = Vec::new();
        let mut i: usize = 0;
        while i < forwards.len()
            invariant
                i <= forwards.len(),
                loads.len() == i,
                forall|j: int| 0 <= j < i ==> loads[j] == 0,
            decreases forwards.len() - i,
        {
            loads.push(0);
            i += 1;
        }
        let pool = Endpoints { forwards, loads, rng: fresh_rng() };
        assert(pool.loads() =~= idle(forwards.len() as nat));
        Ok(pool)
    }

    /// Builds a pool for `backends`, one forwarder each and in their order,
    /// with every load at zero, given for each backend whether its address
    /// was accepted as a URI. It fails, building nothing, when there is no
    /// backend or when one of them is faulty; of several faulty ones the
    /// first is reported.
    pub fn from_checked(backends: &[BackendConfig], address_ok: &[bool]) -> (built: Result<
        Endpoints,
        ConfigError,
    >)
        requires
            address_ok@.len() == backends@.len(),
        ensures
            match built {
                Ok(pool) => {
                    &&& pool.wf()
                    &&& checked_fault(backends@, address_ok@) is None
                    &&& pool.targets() == targets_of(backends@)
                    &&& pool.loads() == idle(backends@.len())
                },
                Err(fault) => checked_fault(backends@, address_ok@) == Some(fault),
            },
    {
        let mut forwards: Vec<Forward> = Vec::new();
        let mut i: usize = 0;
        while i < backends.len()
            invariant
                i <= backends.len(),
                address_ok@.len() == backends@.len(),
                forwards.len() == i,
                forall|j: int| 0 <= j < i ==> forwards[j]@ == target_of(#[trigger] backends[j]),
                forall|j: int|
                    0 <= j < i ==> #[trigger] fault_of(backends@, address_ok@, j) is None,
            decreases backends.len() - i,
        {
            match Forward::from_checked(&backends[i], address_ok[i]) {
                Ok(forward) => {
                    forwards.push(forward);
                },
                Err(fault) => {
                    proof {
                        lemma_checked_fault(backends@, address_ok@);
                        assert(fault_of(backends@, address_ok@, i as int) == Some(fault));
                    }
                    return Err(fault);
                },
            }
            i += 1;
        }
        proof {
            lemma_checked_fault(backends@, address_ok@);
        }
        match Endpoints::from_forwards(forwards) {
            Ok(pool) => {
                assert(pool.targets() =~= targets_of(backends@));
                assert(pool.loads() =~= idle(backends@.len()));
                Ok(pool)
            },
            Err(fault) => Err(fault),
        }
    }

    /// Builds a pool for `backends`, one forwarder each and in their order,
    /// with every load at zero. It fails, building nothing, when there is no
    /// backend or when one of them is faulty; of several faulty ones the
    /// first is reported.
    pub fn new(backends: &[BackendConfig]) -> (built: Result<Endpoints, ConfigError>)
        ensures
            match built {
                Ok(pool) => {
                    &&& pool.wf()
                    &&& pool_fault(backends@) is None
                    &&& pool.targets() == targets_of(backends@)
                    &&& pool.loads() == idle(backends@.len())
                },
                Err(fault) => pool_fault(backends@) == Some(fault),
            },
    {
        let mut address_ok: Vec<bool> = Vec::new();
        let mut i: usize = 0;
        while i < backends.len()
            invariant
                i <= backends.len(),
                address_ok.len() == i,
                forall|j: int| 0 <= j < i ==> address_ok[j] == address_accepted(backends[j]),
            decreases backends.len() - i,
        {
            address_ok.push(Forward::check_address(&backends[i]));
            i += 1;
        }
        assert(address_ok@ =~= verdicts(backends@));
        Endpoints::from_checked(backends, address_ok.as_slice())
    }

    /// The number of endpoints, which is never zero.
    pub fn len(&self) -> (n: usize)
        requires
            self.wf(),
        ensures
            n == self.loads().len(),
            n == self.targets().len(),
            n > 0,
    {
        self.loads.len()
    }

    /// The forwarder at `index`.
    pub fn forward(&self, index: usize) -> (forward: &Forward)
        requires
            self.wf(),
            index < self.targets().len(),
        ensures
            forward@ == self.targets()[index as int],
    {
        &self.forwards[index]
    }

    /// The number of requests in flight at the endpoint at `index`.
    pub fn load(&self, index: usize) -> (load: u64)
        requires
            self.wf(),
            index < self.loads().len(),
        ensures
            load == self.loads()[index as int],
    {
        self.loads[index]
    }

    /// A pool is always ready: it cannot be empty.
    pub fn poll_ready(&self) -> (ready: bool)
        ensures
            ready,
    {
        true
    }

    /// Whether every counter can take one more request.
    pub fn can_dispatch(&self) -> (ok: bool)
        ensures
            ok == has_headroom(self.loads()),
    {
        let mut i: usize = 0;
        while i < self.loads.len()
            invariant
                i <= self.loads.len(),
                forall|j: int| 0 <= j < i ==> self.loads[j] < u64::MAX,
            decreases self.loads.len() - i,
        {
            if self.loads[i] == u64::MAX {
                return false;
            }
            i += 1;
        }
        true
    }

    /// The endpoint that the next request goes to for the random words
    /// `first` and `second`; nothing is claimed yet.
    pub fn select_with(&self, first: u64, second: u64) -> (index: usize)
        requires
            self.wf(),
        ensures
            index == choice(self.loads(), first, second),
            index < self.loads().len(),
    {
        pick(&self.loads, first, second)
    }

    /// Routes one request for the random words `first` and `second`: picks
    /// the endpoint and counts the request as in flight there.
    pub fn dispatch_with(&mut self, first: u64, second: u64) -> (ticket: Ticket)
        requires
            old(self).wf(),
            has_headroom(old(self).loads()),
        ensures
            final(self).wf(),
            ticket@ == choice(old(self).loads(), first, second),
            ticket@ < old(self).loads().len(),
            final(self).loads() == claimed(old(self).loads(), ticket@ as int),
            final(self).targets() == old(self).targets(),
    {
        let index = pick(&self.loads, first, second);
        let load = self.loads[index];
        self.loads.set(index, load + 1);
        Ticket { endpoint: index }
    }

    /// Routes one request, drawing the random words itself. Whatever is
    /// drawn, the endpoint is the `choice` for some pair of words.
    pub fn dispatch(&mut self) -> (ticket: Ticket)
        requires
            old(self).wf(),
            has_headroom(old(self).loads()),
        ensures
            final(self).wf(),
            exists|first: u64, second: u64|
                ticket@ == #[trigger] choice(old(self).loads(), first, second),
            ticket@ < old(self).loads().len(),
            final(self).loads() == claimed(old(self).loads(), ticket@ as int),
            final(self).targets() == old(self).targets(),
    {
        let first = next_word(&mut self.rng);
        let second = next_word(&mut self.rng);
        self.dispatch_with(first, second)
    }

    /// Serves one request for the random words `first` and `second`: picks
    /// the endpoint, counts the request as in flight there, hands the
    /// endpoint to `send`, once, and uncounts the request when `send` is
    /// back. What `send` answers, response or failure, is the answer: no
    /// other endpoint is tried.
    pub fn call_with<R, E, F: FnOnce(usize) -> Result<R, E>>(
        &mut self,
        first: u64,
        second: u64,
        send: F,
    ) -> (handed: Result<R, E>)
        requires
            old(self).wf(),
            has_headroom(old(self).loads()),
            forall|index: usize|
                index < old(self).loads().len() ==> #[trigger] call_requires(send, (index,)),
        ensures
            final(self).wf(),
            call_ensures(send, (choice(old(self).loads(), first, second) as usize,), handed),
            final(self).loads() == old(self).loads(),
            final(self).targets() == old(self).targets(),
    {
        let ticket = self.dispatch_with(first, second);
        let outcome = send(ticket.endpoint());
        proof {
            law_release_undoes_claim(old(self).loads(), ticket@ as int);
        }
        self.complete(ticket, outcome)
    }

    /// Serves one request, drawing the random words itself: `send` is
    /// called once, with the `choice` for some pair of words, and what it
    /// answers is the answer.
    pub fn call<R, E, F: FnOnce(usize) -> Result<R, E>>(&mut self, send: F) -> (handed: Result<
        R,
        E,
    >)
        requires
            old(self).wf(),
            has_headroom(old(self).loads()),
            forall|index: usize|
                index < old(self).loads().len() ==> #[trigger] call_requires(send, (index,)),
        ensures
            final(self).wf(),
            exists|first: u64, second: u64|
                #[trigger] call_ensures(
                    send,
                    (choice(old(self).loads(), first, second) as usize,),
                    handed,
                ),
            final(self).loads() == old(self).loads(),
            final(self).targets() == old(self).targets(),
    {
        let first = next_word(&mut self.rng);
        let second = next_word(&mut self.rng);
        self.call_with(first, second, send)
    }

    /// Gives a ticket back without an outcome, as when the caller went away
    /// mid-flight: the request no longer counts at its endpoint.
    pub fn release(&mut self, ticket: Ticket)
        requires
            old(self).wf(),
        ensures
            final(self).wf(),
            final(self).loads() == released(old(self).loads(), ticket@ as int),
            final(self).targets() == old(self).targets(),
    {
        let index = ticket.endpoint;
        if index < self.loads.len() {
            let load = self.loads[index];
            if load > 0 {
                self.loads.set(index, load - 1);
            }
        }
    }

    /// Gives a ticket back with the outcome of the call. The outcome is
    /// handed on as it is, success or failure: no other endpoint is tried.
    pub fn complete<R, E>(&mut self, ticket: Ticket, outcome: Result<R, E>) -> (handed: Result<
        R,
        E,
    >)
        requires
            old(self).wf(),
        ensures
            final(self).wf(),
            handed == outcome,
            final(self).loads() == released(old(self).loads(), ticket@ as int),
            final(self).targets() == old(self).targets(),
    {
        self.release(ticket);
        outcome
    }
}

/// A pool of one endpoint routes every request to it, whatever is drawn.
pub proof fn law_single_endpoint_takes_all(loads: Seq<u64>, first: u64, second: u64)
    requires
        loads.len() == 1,
    ensures
        choice(loads, first, second) == 0,
{
}

/// A pool of two endpoints routes to the one with the lower load and, when
/// the loads are equal, to the first; what is drawn plays no part.
pub proof fn law_two_endpoints_take_lower(
    loads: Seq<u64>,
    first: u64,
    second: u64,
    other_first: u64,
    other_second: u64,
)
    requires
        loads.len() == 2,
    ensures
        loads[0] <= loads[1] ==> choice(loads, first, second) == 0,
        loads[1] < loads[0] ==> choice(loads, first, second) == 1,
        choice(loads, first, second) == choice(loads, other_first, other_second),
{
}

/// Two endpoints do not drift apart: routing a request never widens the gap
/// between their loads beyond one, or beyond what it was.
pub proof fn law_two_endpoints_stay_level(loads: Seq<u64>, first: u64, second: u64)
    requires
        loads.len() == 2,
        has_headroom(loads),
    ensures
        ({
            let after = claimed(loads, choice(loads, first, second));
            let gap = if loads[0] <= loads[1] {
                loads[1] - loads[0]
            } else {
                loads[0] - loads[1]
            };
            let gap_after = if after[0] <= after[1] {
                after[1] - after[0]
            } else {
                after[0] - after[1]
            };
            gap_after <= gap || gap_after == 1
        }),
{
}

/// The two candidates are distinct endpoints of the pool.
pub proof fn law_candidates_distinct(len: int, first: u64, second: u64)
    requires
        len >= 2,
    ensures
        ({
            let (a, b) = candidates(len, first, second);
            0 <= a < len && 0 <= b < len && a != b
        }),
{
    vstd::arithmetic::div_mod::lemma_mod_bound(first as int, len - 1);
    vstd::arithmetic::div_mod::lemma_mod_bound(second as int, len);
}

/// Whatever the pool's size and whatever is drawn, the chosen endpoint is
/// one of the pool, and in a pool of three or more it is the candidate with
/// the lower load, the first candidate on a tie.
pub proof fn law_choice_is_least_loaded_candidate(loads: Seq<u64>, first: u64, second: u64)
    requires
        loads.len() >= 1,
    ensures
        0 <= choice(loads, first, second) < loads.len(),
        loads.len() >= 3 ==> ({
            let (a, b) = candidates(loads.len() as int, first, second);
            let chosen = choice(loads, first, second);
            &&& chosen == a || chosen == b
            &&& loads[chosen] <= loads[a]
            &&& loads[chosen] <= loads[b]
            &&& loads[a] == loads[b] ==> chosen == a
        }),
{
    if loads.len() >= 2 {
        law_candidates_distinct(loads.len() as int, first, second);
    }
}

/// Sampling is even over pairs: each pair of distinct endpoints `i < j` is
/// the candidate pair for exactly two of the `(len - 1) * len` possible
/// remainders `(a, b)` of the two random words.
pub proof fn law_pairs_drawn_evenly(len: int, i: int, j: int, first: u64, second: u64)
    requires
        len >= 2,
        0 <= i < j < len,
    ensures
        ({
            let a = first as int % (len - 1);
            let b = second as int % len;
            let (x, y) = candidates(len, first, second);
            let drawn = (x == i && y == j) || (x == j && y == i);
            if j < len - 1 {
                drawn <==> (a == i && b == j) || (a == j && b == i)
            } else {
                drawn <==> a == i && (b == j || b == i)
            }
        }),
{
    vstd::arithmetic::div_mod::lemma_mod_bound(first as int, len - 1);
    vstd::arithmetic::div_mod::lemma_mod_bound(second as int, len);
}

/// Ties are spread evenly: each endpoint `i` is the first candidate for
/// exactly `len - 1` of the `(len - 1) * len` possible remainders `(a, b)`:
/// for the last endpoint those with `a == b`, for any other those with
/// `a == i` and `b != i`.
pub proof fn law_first_candidate_even(len: int, i: int, first: u64, second: u64)
    requires
        len >= 2,
        0 <= i < len,
    ensures
        ({
            let a = first as int % (len - 1);
            let b = second as int % len;
            let (x, y) = candidates(len, first, second);
            if i < len - 1 {
                x == i <==> a == i && b != i
            } else {
                x == i <==> a == b
            }
        }),
{
    vstd::arithmetic::div_mod::lemma_mod_bound(first as int, len - 1);
    vstd::arithmetic::div_mod::lemma_mod_bound(second as int, len);
}

/// Claiming an endpoint touches that endpoint's counter alone, and giving
/// the claim back restores the loads exactly.
pub proof fn law_release_undoes_claim(loads: Seq<u64>, i: int)
    requires
        0 <= i < loads.len(),
        loads[i] < u64::MAX,
    ensures
        claimed(loads, i)[i] == loads[i] + 1,
        forall|k: int| 0 <= k < loads.len() && k != i ==> claimed(loads, i)[k] == loads[k],
        released(claimed(loads, i), i) == loads,
{
    assert(released(claimed(loads, i), i) =~= loads);
}

/// Giving a claim back touches that endpoint's counter alone: no sibling's
/// load moves, so nothing is ever dispatched to a sibling on a failure.
pub proof fn law_release_leaves_siblings(loads: Seq<u64>, i: int)
    ensures
        released(loads, i).len() == loads.len(),
        forall|k: int| 0 <= k < loads.len() && k != i ==> released(loads, i)[k] == loads[k],
        0 <= i < loads.len() && loads[i] > 0 ==> released(loads, i)[i] == loads[i] - 1,
{
}

/// One step in the life of a pool's counters: a request was routed to an
/// endpoint, or a request at an endpoint resolved.
#[derive(Debug, Clone, Copy, PartialEq, Eq, Structural)]
pub enum Flight {
    Dispatched { endpoint: usize },
    Resolved { endpoint: usize },
}

/// The loads after a history of dispatches and resolutions.
pub open spec fn loads_after(loads: Seq<u64>, flights: Seq<Flight>) -> Seq<u64>
    decreases flights.len(),
{
    if flights.len() == 0 {
        loads
    } else {
        let before = loads_after(loads, flights.drop_last());
        match flights.last() {
            Flight::Dispatched { endpoint } => claimed(before, endpoint as int),
            Flight::Resolved { endpoint } => released(before, endpoint as int),
        }
    }
}

/// The number of requests that a history leaves in flight at endpoint `i`:
/// those routed there less those resolved there.
pub open spec fn in_flight(flights: Seq<Flight>, i: int) -> int
    decreases flights.len(),
{
    if flights.len() == 0 {
        0
    } else {
        let before = in_flight(flights.drop_last(), i);
        match flights.last() {
            Flight::Dispatched { endpoint } => if endpoint == i {
                before + 1
            } else {
                before
            },
            Flight::Resolved { endpoint } => if endpoint == i {
                before - 1
            } else {
                before
            },
        }
    }
}

/// A history that a pool of `len` endpoints can go through: every endpoint
/// is one of the pool, a request resolves only where one is in flight, and
/// no counter is asked to count past what it can hold.
pub open spec fn flown(len: nat, flights: Seq<Flight>) -> bool
    decreases flights.len(),
{
    if flights.len() == 0 {
        true
    } else {
        let before = flights.drop_last();
        &&& flown(len, before)
        &&& match flights.last() {
            Flight::Dispatched { endpoint } => endpoint < len && in_flight(before, endpoint as int)
                < u64::MAX,
            Flight::Resolved { endpoint } => endpoint < len && in_flight(before, endpoint as int)
                > 0,
        }
    }
}

/// A load is the number of requests in flight: starting from an idle pool,
/// after any history of dispatches and resolutions each endpoint's counter
/// is exactly the number of requests routed to it that have not resolved.
pub proof fn law_load_is_in_flight_count(len: nat, flights: Seq<Flight>)
    requires
        flown(len, flights),
    ensures
        loads_after(idle(len), flights).len() == len,
        forall|i: int|
            0 <= i < len ==> #[trigger] loads_after(idle(len), flights)[i] == in_flight(
                flights,
                i,
            ),
    decreases flights.len(),
{
    if flights.len() > 0 {
        law_load_is_in_flight_count(len, flights.drop_last());
    }
}

} // verus!
