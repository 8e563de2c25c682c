//! The connectivity prober's decision logic, as a state machine the host
//! drives: the machine says which url to attempt next, the host performs
//! the network attempt and hands back what happened, and the machine
//! decides again. A url is probed at its own address first; on a transport
//! failure the url is split on the `/api/` marker and the path is retried
//! against a fixed list of equivalent local bases, in order, stopping at
//! the first address that answers at all.

use vstd::prelude::*;
use crate::text::str_eq;

verus! {

/// The timeout of every probe attempt, in milliseconds.
pub const PROBE_TIMEOUT_MS: u64 = 5000;

/// Whether the characters of the `/api/` marker stand at position `i`.
pub open spec fn marker_at(s: Seq<char>, i: int) -> bool {
    &&& 0 <= i
    &&& i + 5 <= s.len()
    &&& s[i] == '/'
    &&& s[i + 1] == 'a'
    &&& s[i + 2] == 'p'
    &&& s[i + 3] == 'i'
    &&& s[i + 4] == '/'
}

/// The position of the first marker at or after `i`, if any.
pub open spec fn spec_find_from(s: Seq<char>, i: int) -> Option<int>
    decreases s.len() - i,
{
    if i + 5 > s.len() {
        None
    } else if marker_at(s, i) {
        Some(i)
    } else {
        spec_find_from(s, i + 1)
    }
}

/// The position of the first marker in the url, if any.
pub open spec fn spec_find_marker(s: Seq<char>) -> Option<int> {
    spec_find_from(s, 0)
}

/// Where no marker stands at or after `i`, none is found there.
pub proof fn lemma_find_from_none(s: Seq<char>, i: int)
    requires
        forall|j: int| i <= j ==> !marker_at(s, j),
    ensures
        spec_find_from(s, i) is None,
    decreases s.len() - i,
{
    if i + 5 <= s.len() {
        lemma_find_from_none(s, i + 1);
    }
}

/// Where `k` is the first marker position at or after `i`, it is found.
pub proof fn lemma_find_from_some(s: Seq<char>, i: int, k: int)
    requires
        0 <= i <= k,
        marker_at(s, k),
        forall|j: int| i <= j < k ==> !marker_at(s, j),
    ensures
        spec_find_from(s, i) == Some(k),
    decreases k - i,
{
    if i < k {
        lemma_find_from_some(s, i + 1, k);
    }
}

/// Finds the first occurrence of the `/api/` marker.
pub fn find_marker(s: &str) -> (r: Option<usize>)
    ensures
        spec_find_marker(s@) == (match r {
            Some(i) => Some(i as int),
            None => None::<int>,
        }),
        r matches Some(i) ==> marker_at(s@, i as int),
{
    let len = s.unicode_len();
    if len < 5 {
        proof {
            lemma_find_from_none(s@, 0);
        }
        return None;
    }
    let mut i: usize = 0;
    while i <= len - 5
        invariant
            len == s@.len(),
            5 <= len,
            i <= len,
            forall|j: int| 0 <= j < i ==> !marker_at(s@, j),
        decreases len - i,
    {
        if s.get_char(i) == '/' && s.get_char(i + 1) == 'a' && s.get_char(i + 2) == 'p'
            && s.get_char(i + 3) == 'i' && s.get_char(i + 4) == '/' {
            proof {
                lemma_find_from_some(s@, 0, i as int);
            }
            return Some(i);
        }
        i += 1;
    }
    proof {
        lemma_find_from_none(s@, 0);
    }
    None
}

/// The fixed list of equivalent local bases the prober falls back to.
pub open spec fn spec_candidates() -> Seq<Seq<char>> {
    seq!["http://localhost:3000"@, "http://127.0.0.1:3000"@, "http://0.0.0.0:3000"@]
}

/// The fixed list of equivalent local bases the prober falls back to.
pub fn candidate_bases() -> (r: Vec<&'static str>)
    ensures
        r.deep_view() == spec_candidates(),
{
    let mut v: Vec<&'static str> = Vec::new();
    v.push("http://localhost:3000");
    v.push("http://127.0.0.1:3000");
    v.push("http://0.0.0.0:3000");
    proof {
        assert(v.deep_view() =~= spec_candidates());
    }
    v
}

/// The urls built from the given candidate bases: each base that differs
/// from the original base, in order, with the path appended.
pub open spec fn spec_filtered_urls(
    cands: Seq<Seq<char>>,
    base: Seq<char>,
    path: Seq<char>,
) -> Seq<Seq<char>>
    decreases cands.len(),
{
    if cands.len() == 0 {
        Seq::empty()
    } else {
        let rest = spec_filtered_urls(cands.drop_last(), base, path);
        if cands.last() == base {
            rest
        } else {
            rest.push(cands.last() + path)
        }
    }
}

/// The fallback urls for a split url: every fixed candidate base other than
/// the url's own base, in the fixed order, each with the url's path.
pub open spec fn spec_fallback_urls(base: Seq<char>, path: Seq<char>) -> Seq<Seq<char>> {
    spec_filtered_urls(spec_candidates(), base, path)
}

/// Builds the fallback urls from an explicit candidate list: candidates
/// equal to the original base are skipped, the rest keep their order and
/// take the original path.
pub fn fallback_urls_from(cands: &Vec<&str>, base: &str, path: &str) -> (r: Vec<String>)
    ensures
        r.deep_view() == spec_filtered_urls(cands.deep_view(), base@, path@),
{
    let mut r: Vec<String> = Vec::new();
    let mut i: usize = 0;
    while i < cands.len()
        invariant
            i <= cands.len(),
            r.deep_view() == spec_filtered_urls(cands.deep_view().take(i as int), base@, path@),
        decreases cands.len() - i,
    {
        proof {
            assert(cands.deep_view().take(i + 1).drop_last() =~= cands.deep_view().take(i as int));
            assert(cands.deep_view().take(i + 1).last() == cands.deep_view()[i as int]);
        }
        let c = cands[i];
        if !str_eq(c, base) {
            let u = c.to_owned().concat(path);
            r.push(u);
        }
        i += 1;
    }
    proof {
        assert(cands.deep_view().take(cands.len() as int) =~= cands.deep_view());
    }
    r
}

/// Builds the fallback urls for the fixed candidate list.
pub fn fallback_urls(base: &str, path: &str) -> (r: Vec<String>)
    ensures
        r.deep_view() == spec_fallback_urls(base@, path@),
{
    let cands = candidate_bases();
    fallback_urls_from(&cands, base, path)
}

/// Why a probe failed: the url holds no `/api/` marker to split on, or
/// every address tried drew no reply.
#[derive(Clone, Copy, Debug, PartialEq, Eq, Structural)]
pub enum ProbeError {
    UnparseableUrl,
    AllAttemptsFailed,
}

/// What the host reports of one network attempt: the server replied (with a
/// success status or not), or the transport failed and nothing replied.
#[derive(Clone, Copy, Debug, PartialEq, Eq, Structural)]
pub enum ProbeEvent {
    Reply { success: bool },
    NoReply,
}

/// Where the probe stands: awaiting the reply to the primary attempt,
/// awaiting the reply to a fallback attempt (the url at `next - 1`, with
/// `next` the index to try after it), or finished.
#[derive(Debug)]
pub enum ProbeState {
    Primary { url: String },
    Fallback { urls: Vec<String>, next: usize },
    Finished,
}

/// What the host is to do next: attempt a url and report the event, or
/// stop with the probe's outcome.
#[derive(Debug)]
pub enum ProbeCommand {
    Attempt { url: String },
    Succeed { reachable: bool },
    Fail { error: ProbeError },
}

/// The mathematical model of a probe state.
pub enum SpecProbeState {
    Primary(Seq<char>),
    Fallback(Seq<Seq<char>>, int),
    Finished,
}

/// The mathematical model of a command.
pub enum SpecProbeCommand {
    Attempt(Seq<char>),
    Succeed(bool),
    Fail(ProbeError),
}

impl View for ProbeState {
    type V = SpecProbeState;

    open spec fn view(&self) -> SpecProbeState {
        match self {
            ProbeState::Primary { url } => SpecProbeState::Primary(url@),
            ProbeState::Fallback { urls, next } => SpecProbeState::Fallback(
                urls.deep_view(),
                *next as int,
            ),
            ProbeState::Finished => SpecProbeState::Finished,
        }
    }
}

impl View for ProbeCommand {
    type V = SpecProbeCommand;

    open spec fn view(&self) -> SpecProbeCommand {
        match self {
            ProbeCommand::Attempt { url } => SpecProbeCommand::Attempt(url@),
            ProbeCommand::Succeed { reachable } => SpecProbeCommand::Succeed(*reachable),
            ProbeCommand::Fail { error } => SpecProbeCommand::Fail(*error),
        }
    }
}

/// One step of the probe. At the primary attempt a reply settles the
/// outcome by its status; no reply starts the fallback walk, refusing a url
/// without the marker. At a fallback attempt any reply at all counts as
/// reachable; no reply moves to the next candidate until none is left.
pub open spec fn spec_probe_step(s: SpecProbeState, ev: ProbeEvent) -> (SpecProbeState,
    SpecProbeCommand) {
    match s {
        SpecProbeState::Primary(url) => match ev {
            ProbeEvent::Reply { success } => (
                SpecProbeState::Finished,
                SpecProbeCommand::Succeed(success),
            ),
            ProbeEvent::NoReply => match spec_find_marker(url) {
                None => (
                    SpecProbeState::Finished,
                    SpecProbeCommand::Fail(ProbeError::UnparseableUrl),
                ),
                Some(i) => {
                    let urls = spec_fallback_urls(url.take(i), url.skip(i));
                    if urls.len() == 0 {
                        (
                            SpecProbeState::Finished,
                            SpecProbeCommand::Fail(ProbeError::AllAttemptsFailed),
                        )
                    } else {
                        (
                            SpecProbeState::Fallback(urls, 1),
                            SpecProbeCommand::Attempt(urls[0]),
                        )
                    }
                },
            },
        },
        SpecProbeState::Fallback(urls, next) => match ev {
            ProbeEvent::Reply { success } => (
                SpecProbeState::Finished,
                SpecProbeCommand::Succeed(true),
            ),
            ProbeEvent::NoReply => if next < urls.len() {
                (
                    SpecProbeState::Fallback(urls, next + 1),
                    SpecProbeCommand::Attempt(urls[next]),
                )
            } else {
                (
                    SpecProbeState::Finished,
                    SpecProbeCommand::Fail(ProbeError::AllAttemptsFailed),
                )
            },
        },
        SpecProbeState::Finished => (
            SpecProbeState::Finished,
            SpecProbeCommand::Fail(ProbeError::AllAttemptsFailed),
        ),
    }
}

/// Starts a probe of the given url: the machine awaits the primary attempt,
/// and the host is to attempt the url as given.
pub fn probe_start(url: String) -> (r: (ProbeState, ProbeCommand))
    ensures
        r.0@ == SpecProbeState::Primary(url@),
        r.1@ == SpecProbeCommand::Attempt(url@),
{
    let attempt = url.clone();
    (ProbeState::Primary { url }, ProbeCommand::Attempt { url: attempt })
}

/// Advances the probe by one reported event, exactly as the model says.
pub fn probe_step(state: ProbeState, ev: ProbeEvent) -> (r: (ProbeState, ProbeCommand))
    ensures
        (r.0@, r.1@) == spec_probe_step(state@, ev),
{
    match state {
        ProbeState::Primary { url } => match ev {
            ProbeEvent::Reply { success } => (
                ProbeState::Finished,
                ProbeCommand::Succeed { reachable: success },
            ),
            ProbeEvent::NoReply => match find_marker(url.as_str()) {
                None => (
                    ProbeState::Finished,
                    ProbeCommand::Fail { error: ProbeError::UnparseableUrl },
                ),
                Some(i) => {
                    let len = url.as_str().unicode_len();
                    let base = url.as_str().substring_char(0, i);
                    let path = url.as_str().substring_char(i, len);
                    let urls = fallback_urls(base, path);
                    if urls.len() == 0 {
                        (
                            ProbeState::Finished,
                            ProbeCommand::Fail { error: ProbeError::AllAttemptsFailed },
                        )
                    } else {
                        let first = urls[0].clone();
                        (
                            ProbeState::Fallback { urls, next: 1 },
                            ProbeCommand::Attempt { url: first },
                        )
                    }
                },
            },
        },
        ProbeState::Fallback { urls, next } => match ev {
            ProbeEvent::Reply { success: _ } => (
                ProbeState::Finished,
                ProbeCommand::Succeed { reachable: true },
            ),
            ProbeEvent::NoReply => {
                if next < urls.len() {
                    let u = urls[next].clone();
                    (
                        ProbeState::Fallback { urls, next: next + 1 },
                        ProbeCommand::Attempt { url: u },
                    )
                } else {
                    (
                        ProbeState::Finished,
                        ProbeCommand::Fail { error: ProbeError::AllAttemptsFailed },
                    )
                }
            },
        },
        ProbeState::Finished => (
            ProbeState::Finished,
            ProbeCommand::Fail { error: ProbeError::AllAttemptsFailed },
        ),
    }
}

/// The commands a probe emits when driven from `s` by the given events, in
/// order, until the events run out or the probe finishes.
pub open spec fn spec_probe_run(s: SpecProbeState, evs: Seq<ProbeEvent>) -> Seq<SpecProbeCommand>
    decreases evs.len(),
{
    if evs.len() == 0 || s is Finished {
        Seq::empty()
    } else {
        let step = spec_probe_step(s, evs.first());
        seq![step.1] + spec_probe_run(step.0, evs.drop_first())
    }
}

/// Walking the fallback list from `next`, `k` failed attempts followed by a
/// reply emit exactly the attempts on urls `next` to `next + k - 1` and
/// then success — whatever status the reply carried.
pub proof fn lemma_fallback_run_succeed(urls: Seq<Seq<char>>, next: int, k: int, success: bool)
    requires
        0 <= next,
        0 <= k,
        next + k <= urls.len(),
    ensures
        spec_probe_run(
            SpecProbeState::Fallback(urls, next),
            Seq::new(k as nat, |j: int| ProbeEvent::NoReply).push(ProbeEvent::Reply { success }),
        ) == Seq::new(k as nat, |j: int| SpecProbeCommand::Attempt(urls[next + j])).push(
            SpecProbeCommand::Succeed(true),
        ),
    decreases k,
{
    let evs = Seq::new(k as nat, |j: int| ProbeEvent::NoReply).push(
        ProbeEvent::Reply { success },
    );
    let trace = Seq::new(k as nat, |j: int| SpecProbeCommand::Attempt(urls[next + j])).push(
        SpecProbeCommand::Succeed(true),
    );
    if k == 0 {
        assert(evs.first() == ProbeEvent::Reply { success });
        assert(evs.drop_first() =~= Seq::<ProbeEvent>::empty());
        assert(spec_probe_run(SpecProbeState::Finished, Seq::<ProbeEvent>::empty())
            == Seq::<SpecProbeCommand>::empty());
        assert(spec_probe_run(SpecProbeState::Fallback(urls, next), evs) =~= trace);
    } else {
        assert(evs.first() == ProbeEvent::NoReply);
        assert(next < urls.len());
        let step = spec_probe_step(SpecProbeState::Fallback(urls, next), ProbeEvent::NoReply);
        assert(step == (
            SpecProbeState::Fallback(urls, next + 1),
            SpecProbeCommand::Attempt(urls[next]),
        ));
        lemma_fallback_run_succeed(urls, next + 1, k - 1, success);
        let evs_inner = Seq::new((k - 1) as nat, |j: int| ProbeEvent::NoReply).push(
            ProbeEvent::Reply { success },
        );
        let trace_inner = Seq::new(
            (k - 1) as nat,
            |j: int| SpecProbeCommand::Attempt(urls[next + 1 + j]),
        ).push(SpecProbeCommand::Succeed(true));
        assert(spec_probe_run(SpecProbeState::Fallback(urls, next + 1), evs_inner)
            == trace_inner);
        assert(evs.drop_first() =~= evs_inner);
        assert(spec_probe_run(SpecProbeState::Fallback(urls, next), evs) == seq![step.1]
            + spec_probe_run(step.0, evs.drop_first()));
        assert(spec_probe_run(SpecProbeState::Fallback(urls, next), evs) =~= trace);
    }
}

/// Walking the fallback list from `next` with nothing but failed attempts
/// emits exactly the attempts on the remaining urls and then the
/// exhaustion error.
pub proof fn lemma_fallback_run_exhaust(urls: Seq<Seq<char>>, next: int)
    requires
        0 <= next <= urls.len(),
    ensures
        spec_probe_run(
            SpecProbeState::Fallback(urls, next),
            Seq::new((urls.len() - next + 1) as nat, |j: int| ProbeEvent::NoReply),
        ) == Seq::new(
            (urls.len() - next) as nat,
            |j: int| SpecProbeCommand::Attempt(urls[next + j]),
        ).push(SpecProbeCommand::Fail(ProbeError::AllAttemptsFailed)),
    decreases urls.len() - next,
{
    let n = urls.len() - next;
    let evs = Seq::new((n + 1) as nat, |j: int| ProbeEvent::NoReply);
    let trace = Seq::new(n as nat, |j: int| SpecProbeCommand::Attempt(urls[next + j])).push(
        SpecProbeCommand::Fail(ProbeError::AllAttemptsFailed),
    );
    assert(evs.first() == ProbeEvent::NoReply);
    if next == urls.len() {
        assert(evs.drop_first() =~= Seq::<ProbeEvent>::empty());
        assert(spec_probe_run(SpecProbeState::Finished, Seq::<ProbeEvent>::empty())
            == Seq::<SpecProbeCommand>::empty());
        assert(spec_probe_run(SpecProbeState::Fallback(urls, next), evs) =~= trace);
    } else {
        lemma_fallback_run_exhaust(urls, next + 1);
        assert(evs.drop_first() =~= Seq::new(n as nat, |j: int| ProbeEvent::NoReply));
        assert(spec_probe_run(SpecProbeState::Fallback(urls, next), evs) =~= trace);
    }
}

/// A url without the marker fails at once with the parse error: the machine
/// finishes on the spot and no fallback attempt is ever issued.
pub proof fn lemma_unparseable_fails_fast(url: Seq<char>)
    requires
        forall|j: int| !marker_at(url, j),
    ensures
        spec_probe_step(SpecProbeState::Primary(url), ProbeEvent::NoReply) == (
            SpecProbeState::Finished,
            SpecProbeCommand::Fail(ProbeError::UnparseableUrl),
        ),
{
    lemma_find_from_none(url, 0);
}

/// A reply to the primary attempt settles the probe by the reply's status;
/// a reply to a fallback attempt counts as reachable whatever its status.
pub proof fn lemma_reply_settles(url: Seq<char>, urls: Seq<Seq<char>>, next: int, success: bool)
    ensures
        spec_probe_step(SpecProbeState::Primary(url), ProbeEvent::Reply { success }) == (
            SpecProbeState::Finished,
            SpecProbeCommand::Succeed(success),
        ),
        spec_probe_step(SpecProbeState::Fallback(urls, next), ProbeEvent::Reply { success }) == (
            SpecProbeState::Finished,
            SpecProbeCommand::Succeed(true),
        ),
{
}

/// After a failed primary attempt on a url with the marker, the machine
/// attempts exactly the fallback urls — the fixed candidate bases other
/// than the url's own base, in their fixed order, each with the url's own
/// path — and stops at the first one that replies at all.
pub proof fn lemma_fallback_order_and_stop(url: Seq<char>, k: int, success: bool)
    requires
        spec_find_marker(url) is Some,
        ({
            let i = spec_find_marker(url)->Some_0;
            0 <= k < spec_fallback_urls(url.take(i), url.skip(i)).len()
        }),
    ensures
        ({
            let i = spec_find_marker(url)->Some_0;
            let urls = spec_fallback_urls(url.take(i), url.skip(i));
            spec_probe_run(
                SpecProbeState::Primary(url),
                Seq::new((k + 1) as nat, |j: int| ProbeEvent::NoReply).push(
                    ProbeEvent::Reply { success },
                ),
            ) == Seq::new((k + 1) as nat, |j: int| SpecProbeCommand::Attempt(urls[j])).push(
                SpecProbeCommand::Succeed(true),
            )
        }),
{
    let i = spec_find_marker(url)->Some_0;
    let urls = spec_fallback_urls(url.take(i), url.skip(i));
    let evs = Seq::new((k + 1) as nat, |j: int| ProbeEvent::NoReply).push(
        ProbeEvent::Reply { success },
    );
    let trace = Seq::new((k + 1) as nat, |j: int| SpecProbeCommand::Attempt(urls[j])).push(
        SpecProbeCommand::Succeed(true),
    );
    assert(evs.first() == ProbeEvent::NoReply);
    lemma_fallback_run_succeed(urls, 1, k, success);
    assert(evs.drop_first() =~= Seq::new(k as nat, |j: int| ProbeEvent::NoReply).push(
        ProbeEvent::Reply { success },
    ));
    assert(spec_probe_run(SpecProbeState::Primary(url), evs) =~= trace);
}

/// With a marker in the url and no candidate base equal to the url's own,
/// a probe where nothing answers makes exactly four network attempts — the
/// primary one and the three fallback urls — and then fails with the
/// exhaustion error.
pub proof fn lemma_exhaustion(url: Seq<char>)
    requires
        spec_find_marker(url) is Some,
        ({
            let i = spec_find_marker(url)->Some_0;
            forall|j: int|
                0 <= j < spec_candidates().len() ==> spec_candidates()[j] != url.take(i)
        }),
    ensures
        ({
            let i = spec_find_marker(url)->Some_0;
            let urls = spec_fallback_urls(url.take(i), url.skip(i));
            &&& urls.len() == 3
            &&& spec_probe_run(
                SpecProbeState::Primary(url),
                Seq::new(4, |j: int| ProbeEvent::NoReply),
            ) == Seq::new(3, |j: int| SpecProbeCommand::Attempt(urls[j])).push(
                SpecProbeCommand::Fail(ProbeError::AllAttemptsFailed),
            )
        }),
{
    let i = spec_find_marker(url)->Some_0;
    let base = url.take(i);
    let path = url.skip(i);
    let urls = spec_fallback_urls(base, path);
    let cands = spec_candidates();
    assert(seq![cands[0]].drop_last() =~= Seq::<Seq<char>>::empty());
    assert(spec_filtered_urls(Seq::<Seq<char>>::empty(), base, path) == Seq::<Seq<char>>::empty());
    assert(spec_filtered_urls(seq![cands[0]], base, path) =~= seq![cands[0] + path]);
    assert(seq![cands[0], cands[1]].drop_last() =~= seq![cands[0]]);
    assert(spec_filtered_urls(seq![cands[0], cands[1]], base, path) =~= seq![
        cands[0] + path,
        cands[1] + path,
    ]);
    assert(cands.drop_last() =~= seq![cands[0], cands[1]]);
    assert(urls =~= seq![cands[0] + path, cands[1] + path, cands[2] + path]);
    let evs = Seq::new(4, |j: int| ProbeEvent::NoReply);
    let trace = Seq::new(3, |j: int| SpecProbeCommand::Attempt(urls[j])).push(
        SpecProbeCommand::Fail(ProbeError::AllAttemptsFailed),
    );
    assert(evs.first() == ProbeEvent::NoReply);
    lemma_fallback_run_exhaust(urls, 1);
    assert(evs.drop_first() =~= Seq::new(3, |j: int| ProbeEvent::NoReply));
    assert(spec_probe_run(SpecProbeState::Primary(url), evs) =~= trace);
}

} // verus!
