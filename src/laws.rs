use vstd::prelude::*;
use crate::engine::{
    consistent, is_close_event, is_container, is_open_event, lemma_complete_consistent, lemma_step_consistent, run,
    complete, lemma_run_error_stays, lemma_run_take_step, step, transcode_spec, EngineState, TranscodeError,
    Event, Frame, Options,
};
use crate::format::Format;

verus! {

/// The same settings with no configured depth limit.
pub open spec fn unlimited(opts: Options) -> Options {
    Options { depth_limit: Option::None, ..opts }
}

/// The nesting after a stream of events: how many sequences, maps, structs
/// and variant payloads are open once the engine has read them.
pub open spec fn nesting_after(opts: Options, evs: Seq<Event>) -> int {
    match run(unlimited(opts), evs) {
        Ok((s, _)) => s.depth as int,
        Err(_) => 0,
    }
}

/// The deepest nesting reached anywhere in a stream of events.
pub open spec fn max_nesting(opts: Options, evs: Seq<Event>) -> int
    decreases evs.len(),
{
    if evs.len() == 0 {
        0
    } else {
        let before = max_nesting(opts, evs.drop_last());
        let now = nesting_after(opts, evs);
        if before >= now { before } else { now }
    }
}

/// Whether an event opens a level of nesting.
pub open spec fn opens_level(ev: Event) -> bool {
    is_open_event(ev) || ev is Variant
}

proof fn lemma_step_depth(opts: Options, s: EngineState, ev: Event)
    requires
        consistent(s),
    ensures
        step(opts, s, ev) matches Ok((s2, _)) ==> if opens_level(ev) {
            s2.depth == s.depth + 1
        } else {
            s2.depth <= s.depth
        },
{
    lemma_step_consistent(opts, s, ev);
    if s.stack.len() > 0 {
        let rest = s.stack.drop_last();
        assert(rest.push(s.stack.last()) =~= s.stack);
        let closed = EngineState { stack: rest, depth: (s.depth - 1) as nat, ..s };
        if is_container(s.stack.last()) {
            lemma_complete_consistent(closed);
        }
    }
    lemma_complete_consistent(s);
}

proof fn lemma_run_consistent(opts: Options, evs: Seq<Event>)
    ensures
        run(opts, evs) matches Ok((s, _)) ==> consistent(s),
    decreases evs.len(),
{
    if evs.len() > 0 {
        lemma_run_consistent(opts, evs.drop_last());
        if let Ok((s, _)) = run(opts, evs.drop_last()) {
            lemma_step_consistent(opts, s, evs.last());
        }
    }
}

proof fn lemma_run_limited(opts: Options, d: usize, evs: Seq<Event>)
    requires
        opts.depth_limit == Option::<usize>::None,
        run(opts, evs) is Ok,
    ensures
        max_nesting(opts, evs) <= d ==> run(Options { depth_limit: Option::Some(d), ..opts }, evs) == run(opts, evs),
        max_nesting(opts, evs) > d ==> run(Options { depth_limit: Option::Some(d), ..opts }, evs)
            == Err::<(EngineState, Seq<Event>), TranscodeError>(TranscodeError::DepthLimitExceeded),
        nesting_after(opts, evs) <= max_nesting(opts, evs),
    decreases evs.len(),
{
    assert(unlimited(opts) == opts);
    if evs.len() > 0 {
        let p = evs.drop_last();
        lemma_run_limited(opts, d, p);
        lemma_run_consistent(opts, p);
        let (s, out) = run(opts, p)->Ok_0;
        lemma_step_depth(opts, s, evs.last());
    }
}

/// A configured depth limit `d` accepts exactly the well-formed inputs whose
/// nesting (sequences, maps, structs and variant payloads) is at most `d`,
/// nesting equal to `d` included, and fails every deeper one with
/// `DepthLimitExceeded`; what is written is otherwise the same as with no
/// limit.
pub proof fn lemma_depth_limit(opts: Options, d: usize, evs: Seq<Event>)
    requires
        opts.depth_limit == Option::<usize>::None,
        transcode_spec(opts, evs) is Ok,
    ensures
        max_nesting(opts, evs) <= d ==> transcode_spec(Options { depth_limit: Option::Some(d), ..opts }, evs)
            == transcode_spec(opts, evs),
        max_nesting(opts, evs) > d ==> transcode_spec(Options { depth_limit: Option::Some(d), ..opts }, evs)
            == Err::<Seq<Event>, TranscodeError>(TranscodeError::DepthLimitExceeded),
{
    lemma_run_limited(opts, d, evs);
}

/// An event of the shape grammar that JSON and the RON-like format share:
/// unit, booleans, integers, floats, strings, sequences and maps.
pub open spec fn is_shared_event(ev: Event) -> bool {
    ev is Unit || ev is Bool || ev is Int || ev is Float || ev is Str || ev is SeqStart
        || ev is SeqEnd || ev is MapStart || ev is MapEnd
}

pub open spec fn is_shared_stream(evs: Seq<Event>) -> bool {
    forall|i: int| 0 <= i < evs.len() ==> is_shared_event(#[trigger] evs[i])
}

spec fn plain_stack(stack: Seq<Frame>) -> bool {
    forall|i: int| 0 <= i < stack.len() ==> (#[trigger] stack[i] is Sequence || stack[i] is MapKey || stack[i] is MapValue)
}

proof fn lemma_complete_plain(s: EngineState)
    requires
        plain_stack(s.stack),
    ensures
        plain_stack(complete(s).0.stack),
        complete(s).1 == Seq::<Event>::empty(),
{
    if s.stack.len() > 0 {
        assert(s.stack.last() == s.stack[s.stack.len() - 1]);
    }
}

proof fn lemma_step_shared(a: Options, b: Options, s: EngineState, ev: Event)
    requires
        a.target == Format::Json,
        a.depth_limit == b.depth_limit,
        plain_stack(s.stack),
        is_shared_event(ev),
    ensures
        step(a, s, ev) matches Ok((s2, out)) ==> step(b, s, ev) == step(a, s, ev) && plain_stack(s2.stack)
            && out == seq![ev],
{
    lemma_complete_plain(s);
    if s.stack.len() > 0 {
        let closed = EngineState { stack: s.stack.drop_last(), depth: (s.depth - 1) as nat, ..s };
        lemma_complete_plain(closed);
    }
    assert(seq![ev].add(Seq::<Event>::empty()) =~= seq![ev]);
    if let Ok((s2, out)) = step(a, s, ev) {
        if is_open_event(ev) {
            assert forall|i: int| 0 <= i < s2.stack.len() implies (#[trigger] s2.stack[i] is Sequence
                || s2.stack[i] is MapKey || s2.stack[i] is MapValue) by {
                if i < s.stack.len() {
                    assert(s2.stack[i] == s.stack[i]);
                }
            }
        }
    }
}

proof fn lemma_run_shared(a: Options, b: Options, evs: Seq<Event>)
    requires
        a.target == Format::Json,
        a.depth_limit == b.depth_limit,
        is_shared_stream(evs),
    ensures
        run(a, evs) matches Ok((s, out)) ==> run(b, evs) == run(a, evs) && plain_stack(s.stack) && out == evs,
    decreases evs.len(),
{
    if evs.len() > 0 {
        let p = evs.drop_last();
        assert(is_shared_stream(p)) by {
            assert forall|i: int| 0 <= i < p.len() implies is_shared_event(#[trigger] p[i]) by {
                assert(p[i] == evs[i]);
            }
        }
        assert(is_shared_event(evs[evs.len() - 1]));
        lemma_run_shared(a, b, p);
        if let Ok((s, out)) = run(a, p) {
            lemma_step_shared(a, b, s, evs.last());
            assert(p.add(seq![evs.last()]) =~= evs);
        }
    }
}

/// A value that both formats can express (built from the shared shapes, and
/// accepted for JSON) comes back unchanged from a trip out to one format and
/// back to the other: transcoding its events for any target hands back the
/// very same events, so A to B to A is the identity either way round.
pub proof fn lemma_round_trip(json: Options, other: Options, evs: Seq<Event>)
    requires
        is_shared_stream(evs),
        json.target == Format::Json,
        json.depth_limit == other.depth_limit,
        transcode_spec(json, evs) is Ok,
    ensures
        transcode_spec(json, evs) == Ok::<Seq<Event>, TranscodeError>(evs),
        transcode_spec(other, evs) == Ok::<Seq<Event>, TranscodeError>(evs),
        transcode_spec(other, transcode_spec(json, evs)->Ok_0) == Ok::<Seq<Event>, TranscodeError>(evs),
        transcode_spec(json, transcode_spec(other, evs)->Ok_0) == Ok::<Seq<Event>, TranscodeError>(evs),
{
    lemma_run_shared(json, other, evs);
}

/// A boolean, integer, float or string literal is written first, exactly as
/// it was read.
pub proof fn lemma_scalar_fidelity(opts: Options, s: EngineState, ev: Event)
    requires
        ev is Bool || ev is Int || ev is Float || ev is Str,
        step(opts, s, ev) is Ok,
    ensures
        step(opts, s, ev)->Ok_0.1.len() >= 1,
        step(opts, s, ev)->Ok_0.1[0] == ev,
{
}

/// A stream cut before its root value is complete is refused as a syntax
/// error: every proper prefix of an accepted stream fails with
/// `SourceSyntax`.
pub proof fn lemma_truncated_input(opts: Options, evs: Seq<Event>, k: int)
    requires
        transcode_spec(opts, evs) is Ok,
        0 <= k < evs.len(),
    ensures
        transcode_spec(opts, evs.take(k)) == Err::<Seq<Event>, TranscodeError>(TranscodeError::SourceSyntax),
{
    lemma_run_take_step(opts, evs, k);
    if let Err(e) = run(opts, evs.take(k)) {
        lemma_run_error_stays(opts, evs, k, e);
    } else {
        let (s, _) = run(opts, evs.take(k))->Ok_0;
        if s.done {
            let e = step(opts, s, evs[k])->Err_0;
            lemma_run_error_stays(opts, evs, k + 1, e);
        }
    }
}

} // verus!
