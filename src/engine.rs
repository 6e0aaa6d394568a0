use vstd::prelude::*;
use std::collections::VecDeque;
use crate::format::Format;

verus! {

/// What can go wrong while a document is carried from one format to another.
#[derive(Debug, Clone, Copy, PartialEq, Eq, Structural)]
pub enum TranscodeError {
    /// The source stream is not one well-formed value.
    SourceSyntax,
    /// The target format has no way to write a value of this kind.
    UnsupportedValue,
    /// The nesting of sequences, maps and structs went past the limit.
    DepthLimitExceeded,
    /// Reading or writing a byte stream failed.
    Io,
    /// A format name that is not one of the supported formats.
    UnsupportedFormat,
}

/// One structural unit of a self-describing value, in document order.
///
/// A sequence is `SeqStart`, its elements, `SeqEnd`; a map is `MapStart`,
/// then for each entry a key value and a value, then `MapEnd`; a struct is
/// `StructStart`, then for each field a `Field` and a value, then `StructEnd`.
/// `Present` and `Variant` are each followed by exactly one value (their payload).
#[derive(Debug, Clone, PartialEq, Eq)]
pub enum Event {
    /// The unit value, or a null.
    Unit,
    Bool(bool),
    Int(i128),
    /// A floating-point literal, kept as its decimal text.
    Float(String),
    Str(String),
    Bytes(Vec<u8>),
    /// An absent optional value.
    Absent,
    /// A present optional value; its payload follows.
    Present,
    SeqStart,
    SeqEnd,
    MapStart,
    MapEnd,
    /// A struct, with its name where the source gave one.
    StructStart(Option<String>),
    Field(String),
    StructEnd,
    /// An enum variant without a payload.
    UnitVariant(String),
    /// An enum variant whose payload follows, with the shape of that payload.
    Variant(String, PayloadKind),
}

/// The shape of an enum variant's payload.
#[derive(Debug, Clone, Copy, PartialEq, Eq, Structural)]
pub enum PayloadKind {
    /// A single value.
    Newtype,
    /// A sequence of positional values.
    Tuple,
    /// A struct of named fields.
    Struct,
}

/// What the engine expects next inside an open scope.
#[derive(Debug, Clone, Copy, PartialEq, Eq, Structural)]
pub enum Frame {
    /// An element or the end of a sequence.
    Sequence,
    /// A key or the end of a map.
    MapKey,
    /// The value of the last key.
    MapValue,
    /// A field name or the end of a struct.
    StructField,
    /// The value of the last field.
    StructValue,
    /// The single payload of a present option.
    Payload,
    /// The single payload of a variant.
    VariantPayload,
    /// The payload of a variant written as a one-entry map; the map is
    /// closed once the payload is complete.
    PayloadInMap,
}

/// Settings of one run of the engine.
#[derive(Debug, Clone, Copy, PartialEq, Eq, Structural)]
pub struct Options {
    /// The format that the output events are meant for.
    pub target: Format,
    /// Deepest nesting of sequences, maps and structs that is accepted.
    pub depth_limit: Option<usize>,
    /// Whether struct names are kept in the output.
    pub struct_names: bool,
}

/// The engine's state as a mathematical value.
pub struct EngineState {
    pub stack: Seq<Frame>,
    pub depth: nat,
    pub done: bool,
}

pub open spec fn initial_state() -> EngineState {
    EngineState { stack: Seq::empty(), depth: 0, done: false }
}

/// The deepest nesting a run accepts: the configured limit, or the
/// largest counter value when none is set.
pub open spec fn limit_of(opts: Options) -> nat {
    match opts.depth_limit {
        Option::Some(d) => d as nat,
        Option::None => usize::MAX as nat,
    }
}

pub open spec fn is_open_event(ev: Event) -> bool {
    ev is SeqStart || ev is MapStart || ev is StructStart
}

pub open spec fn is_close_event(ev: Event) -> bool {
    ev is SeqEnd || ev is MapEnd || ev is StructEnd
}

/// Whether a new value may begin with the given frame on top of the stack.
pub open spec fn accepts_value(f: Frame) -> bool {
    !(f is StructField)
}

/// Closes the scopes that a complete value finishes, innermost first:
/// the new state and the events that closing writes.
pub open spec fn complete(s: EngineState) -> (EngineState, Seq<Event>)
    decreases s.stack.len(),
{
    if s.stack.len() == 0 {
        (EngineState { done: true, ..s }, Seq::empty())
    } else {
        let top = s.stack.last();
        let rest = s.stack.drop_last();
        match top {
            Frame::MapKey => (EngineState { stack: rest.push(Frame::MapValue), ..s }, Seq::empty()),
            Frame::MapValue => (EngineState { stack: rest.push(Frame::MapKey), ..s }, Seq::empty()),
            Frame::StructValue => (EngineState { stack: rest.push(Frame::StructField), ..s }, Seq::empty()),
            Frame::Payload => complete(EngineState { stack: rest, ..s }),
            Frame::VariantPayload => complete(EngineState { stack: rest, depth: (s.depth - 1) as nat, ..s }),
            Frame::PayloadInMap => {
                let (s2, out) = complete(EngineState { stack: rest, depth: (s.depth - 1) as nat, ..s });
                (s2, seq![Event::MapEnd].add(out))
            },
            _ => (s, Seq::empty()),
        }
    }
}

/// Whether a frame counts as a level of nesting: an open sequence, map,
/// struct or variant payload.
pub open spec fn is_container(f: Frame) -> bool {
    !(f is Payload)
}

/// The number of levels of nesting open on a stack.
pub open spec fn containers(stack: Seq<Frame>) -> nat
    decreases stack.len(),
{
    if stack.len() == 0 {
        0
    } else {
        containers(stack.drop_last()) + if is_container(stack.last()) { 1nat } else { 0nat }
    }
}

/// The depth counter matches the open scopes on the stack.
pub open spec fn consistent(s: EngineState) -> bool {
    s.depth == containers(s.stack)
}

pub(crate) proof fn lemma_containers_push(stack: Seq<Frame>, f: Frame)
    ensures
        containers(stack.push(f)) == containers(stack) + if is_container(f) { 1nat } else { 0nat },
{
    assert(stack.push(f).drop_last() =~= stack);
}

pub(crate) proof fn lemma_complete_consistent(s: EngineState)
    requires
        consistent(s),
    ensures
        consistent(complete(s).0),
        complete(s).0.depth <= s.depth,
    decreases s.stack.len(),
{
    if s.stack.len() > 0 {
        let rest = s.stack.drop_last();
        match s.stack.last() {
            Frame::MapKey => lemma_containers_push(rest, Frame::MapValue),
            Frame::MapValue => lemma_containers_push(rest, Frame::MapKey),
            Frame::StructValue => lemma_containers_push(rest, Frame::StructField),
            Frame::Payload => lemma_complete_consistent(EngineState { stack: rest, ..s }),
            Frame::VariantPayload | Frame::PayloadInMap => {
                lemma_complete_consistent(EngineState { stack: rest, depth: (s.depth - 1) as nat, ..s })
            },
            _ => {},
        }
    }
}

/// Every step keeps the depth counter equal to the number of open scopes.
pub proof fn lemma_step_consistent(opts: Options, s: EngineState, ev: Event)
    requires
        consistent(s),
    ensures
        step(opts, s, ev) matches Ok((s2, _)) ==> consistent(s2),
{
    if s.stack.len() > 0 {
        let rest = s.stack.drop_last();
        lemma_containers_push(rest, Frame::StructValue);
        assert(rest.push(s.stack.last()) =~= s.stack);
        let closed = EngineState { stack: rest, depth: (s.depth - 1) as nat, ..s };
        if is_container(s.stack.last()) {
            assert(consistent(closed));
            lemma_complete_consistent(closed);
        }
    }
    lemma_containers_push(s.stack, Frame::Payload);
    lemma_containers_push(s.stack, Frame::PayloadInMap);
    lemma_containers_push(s.stack, Frame::VariantPayload);
    lemma_containers_push(s.stack, opened_frame(ev));
    lemma_complete_consistent(s);
}

/// The next value is the key of a map entry.
pub open spec fn at_map_key(s: EngineState) -> bool {
    s.stack.len() > 0 && s.stack.last() is MapKey
}

/// Whether an event can stand as a JSON object key: a boolean, number or
/// string, or a unit variant (written as its name).
pub open spec fn is_json_key(ev: Event) -> bool {
    ev is Bool || ev is Int || ev is Float || ev is Str || ev is UnitVariant
}

/// A value may begin in this state.
pub open spec fn value_allowed(s: EngineState) -> bool {
    !s.done && (s.stack.len() == 0 || accepts_value(s.stack.last()))
}

/// The frame that a closing event or a field name must find on top.
pub open spec fn expected_frame(ev: Event) -> Frame {
    match ev {
        Event::SeqEnd => Frame::Sequence,
        Event::MapEnd => Frame::MapKey,
        _ => Frame::StructField,
    }
}

/// The frame that an opening event pushes.
pub open spec fn opened_frame(ev: Event) -> Frame {
    match ev {
        Event::SeqStart => Frame::Sequence,
        Event::MapStart => Frame::MapKey,
        _ => Frame::StructField,
    }
}

/// How an opening event is written for the target.
pub open spec fn opened_event(opts: Options, ev: Event) -> Event {
    match ev {
        Event::StructStart(name) => if opts.target == Format::Json {
            Event::MapStart
        } else if opts.struct_names {
            Event::StructStart(name)
        } else {
            Event::StructStart(Option::None)
        },
        _ => ev,
    }
}

/// How a closing event is written for the target.
pub open spec fn closed_event(opts: Options, ev: Event) -> Event {
    if opts.target == Format::Json && ev is StructEnd {
        Event::MapEnd
    } else {
        ev
    }
}

/// How a scalar event is written for the target.
pub open spec fn scalar_event(opts: Options, ev: Event) -> Event {
    if opts.target == Format::Json {
        match ev {
            Event::Absent => Event::Unit,
            Event::UnitVariant(name) => Event::Str(name),
            _ => ev,
        }
    } else {
        ev
    }
}

/// One event through the engine: the next state and the events written for
/// the target, or the error that ends the run.
pub open spec fn step(opts: Options, s: EngineState, ev: Event) -> Result<(EngineState, Seq<Event>), TranscodeError> {
    let json = opts.target == Format::Json;
    if is_close_event(ev) || ev is Field {
        if s.done || s.stack.len() == 0 || s.stack.last() != expected_frame(ev) {
            Err(TranscodeError::SourceSyntax)
        } else {
            match ev {
                Event::Field(name) => {
                    let out = if json { Event::Str(name) } else { ev };
                    Ok((EngineState { stack: s.stack.drop_last().push(Frame::StructValue), ..s }, seq![out]))
                },
                _ => {
                    let closed = EngineState { stack: s.stack.drop_last(), depth: (s.depth - 1) as nat, ..s };
                    let (s2, tail) = complete(closed);
                    Ok((s2, seq![closed_event(opts, ev)].add(tail)))
                },
            }
        }
    } else if !value_allowed(s) {
        Err(TranscodeError::SourceSyntax)
    } else if json && (ev is Bytes || (at_map_key(s) && !is_json_key(ev))) {
        Err(TranscodeError::UnsupportedValue)
    } else if is_open_event(ev) || ev is Variant {
        if s.depth + 1 > limit_of(opts) {
            Err(TranscodeError::DepthLimitExceeded)
        } else {
            match ev {
                Event::Variant(name, _) => if json {
                    Ok((EngineState { stack: s.stack.push(Frame::PayloadInMap), depth: s.depth + 1, ..s },
                        seq![Event::MapStart, Event::Str(name)]))
                } else {
                    Ok((EngineState { stack: s.stack.push(Frame::VariantPayload), depth: s.depth + 1, ..s },
                        seq![ev]))
                },
                _ => Ok((EngineState { stack: s.stack.push(opened_frame(ev)), depth: s.depth + 1, ..s },
                    seq![opened_event(opts, ev)])),
            }
        }
    } else {
        match ev {
            Event::Present => {
                let out = if json { Seq::empty() } else { seq![ev] };
                Ok((EngineState { stack: s.stack.push(Frame::Payload), ..s }, out))
            },
            _ => {
                let (s2, tail) = complete(s);
                Ok((s2, seq![scalar_event(opts, ev)].add(tail)))
            },
        }
    }
}

/// The engine run over a whole event stream: the final state and all the
/// events written, or the first error.
pub open spec fn run(opts: Options, evs: Seq<Event>) -> Result<(EngineState, Seq<Event>), TranscodeError>
    decreases evs.len(),
{
    if evs.len() == 0 {
        Ok((initial_state(), Seq::empty()))
    } else {
        match run(opts, evs.drop_last()) {
            Err(e) => Err(e),
            Ok((s, out)) => match step(opts, s, evs.last()) {
                Err(e) => Err(e),
                Ok((s2, more)) => Ok((s2, out.add(more))),
            },
        }
    }
}

/// What transcoding a whole stream gives: the events for the target when the
/// stream is exactly one complete value, else the first error.
pub open spec fn transcode_spec(opts: Options, evs: Seq<Event>) -> Result<Seq<Event>, TranscodeError> {
    match run(opts, evs) {
        Err(e) => Err(e),
        Ok((s, out)) => if s.done {
            Ok(out)
        } else {
            Err(TranscodeError::SourceSyntax)
        },
    }
}

pub(crate) proof fn lemma_run_take_step(opts: Options, evs: Seq<Event>, k: int)
    requires
        0 <= k < evs.len(),
    ensures
        run(opts, evs.take(k + 1)) == match run(opts, evs.take(k)) {
            Err(e) => Err(e),
            Ok((s, out)) => match step(opts, s, evs[k]) {
                Err(e) => Err(e),
                Ok((s2, more)) => Ok((s2, out.add(more))),
            },
        },
{
    assert(evs.take(k + 1).drop_last() =~= evs.take(k));
}

/// Once a run has failed, no further event changes the error.
pub(crate) proof fn lemma_run_error_stays(opts: Options, evs: Seq<Event>, k: int, e: TranscodeError)
    requires
        0 <= k <= evs.len(),
        run(opts, evs.take(k)) == Err::<(EngineState, Seq<Event>), TranscodeError>(e),
    ensures
        run(opts, evs) == Err::<(EngineState, Seq<Event>), TranscodeError>(e),
    decreases evs.len() - k,
{
    if k < evs.len() {
        lemma_run_take_step(opts, evs, k);
        lemma_run_error_stays(opts, evs, k + 1, e);
    } else {
        assert(evs.take(k) =~= evs);
    }
}

/// The transcode engine: takes the events of a source document one at a
/// time and hands back the events to write in the target format.
pub struct Engine {
    opts: Options,
    stack: Vec<Frame>,
    depth: usize,
    done: bool,
}

impl Engine {
    pub closed spec fn state(&self) -> EngineState {
        EngineState { stack: self.stack@, depth: self.depth as nat, done: self.done }
    }

    pub closed spec fn options(&self) -> Options {
        self.opts
    }

    pub closed spec fn wf(&self) -> bool {
        &&& self.depth <= limit_of(self.opts)
        &&& consistent(self.state())
    }

    pub fn new(opts: Options) -> (r: Engine)
        ensures
            r.wf(),
            r.state() == initial_state(),
            r.options() == opts,
    {
        Engine { opts, stack: Vec::new(), depth: 0, done: false }
    }

    /// Whether the root value is complete.
    pub fn is_done(&self) -> (r: bool)
        ensures
            r == self.state().done,
    {
        self.done
    }

    /// Takes the next source event. On success the events to write for the
    /// target are appended to `out`; on error the run is over.
    pub fn feed(&mut self, ev: Event, out: &mut Vec<Event>) -> (r: Result<(), TranscodeError>)
        requires
            old(self).wf(),
        ensures
            final(self).wf(),
            final(self).options() == old(self).options(),
            match step(old(self).options(), old(self).state(), ev) {
                Ok((s, more)) => r is Ok && final(self).state() == s && final(out)@ == old(out)@.add(more),
                Err(e) => r == Err::<(), TranscodeError>(e),
            },
    {
        let json = match self.opts.target {
            Format::Json => true,
            Format::Ron => false,
        };
        let n = self.stack.len();
        let ghost s0 = self.state();
        let ghost out0 = out@;
        proof {
            lemma_step_consistent(self.opts, s0, ev);
            if n > 0 {
                assert(s0.stack.drop_last().push(s0.stack.last()) =~= s0.stack);
            }
        }
        match ev {
            Event::SeqEnd | Event::MapEnd | Event::StructEnd | Event::Field(_) => {
                let expected = match &ev {
                    Event::SeqEnd => Frame::Sequence,
                    Event::MapEnd => Frame::MapKey,
                    _ => Frame::StructField,
                };
                if self.done || n == 0 || self.stack[n - 1] != expected {
                    return Err(TranscodeError::SourceSyntax);
                }
                self.stack.pop();
                match ev {
                    Event::Field(name) => {
                        self.stack.push(Frame::StructValue);
                        assert(self.stack@ =~= s0.stack.drop_last().push(Frame::StructValue));
                        if json {
                            out.push(Event::Str(name));
                        } else {
                            out.push(Event::Field(name));
                        }
                        assert(out@ =~= out0.add(seq![out@.last()]));
                    },
                    _ => {
                        assert(self.stack@ =~= s0.stack.drop_last());
                        self.depth = self.depth - 1;
                        let written = if json && matches!(ev, Event::StructEnd) {
                            Event::MapEnd
                        } else {
                            ev
                        };
                        out.push(written);
                        let ghost out1 = out@;
                        self.complete(out);
                        assert(out@ =~= out0.add(seq![out1.last()].add(complete(EngineState { stack: s0.stack.drop_last(), depth: (s0.depth - 1) as nat, ..s0 }).1)));
                    },
                }
                Ok(())
            },
            _ => {
                if self.done || (n > 0 && self.stack[n - 1] == Frame::StructField) {
                    return Err(TranscodeError::SourceSyntax);
                }
                if json {
                    let at_key = n > 0 && self.stack[n - 1] == Frame::MapKey;
                    let key_ok = matches!(ev, Event::Bool(_) | Event::Int(_) | Event::Float(_) | Event::Str(_) | Event::UnitVariant(_));
                    if matches!(ev, Event::Bytes(_)) || (at_key && !key_ok) {
                        return Err(TranscodeError::UnsupportedValue);
                    }
                }
                if matches!(ev, Event::SeqStart | Event::MapStart | Event::StructStart(_) | Event::Variant(_, _)) {
                    let limit = match self.opts.depth_limit {
                        Option::Some(d) => d,
                        Option::None => usize::MAX,
                    };
                    if self.depth >= limit {
                        return Err(TranscodeError::DepthLimitExceeded);
                    }
                }
                match ev {
                    Event::SeqStart | Event::MapStart | Event::StructStart(_) => {
                        let frame = match &ev {
                            Event::SeqStart => Frame::Sequence,
                            Event::MapStart => Frame::MapKey,
                            _ => Frame::StructField,
                        };
                        self.stack.push(frame);
                        self.depth = self.depth + 1;
                        let written = match ev {
                            Event::StructStart(name) => if json {
                                Event::MapStart
                            } else if self.opts.struct_names {
                                Event::StructStart(name)
                            } else {
                                Event::StructStart(Option::None)
                            },
                            other => other,
                        };
                        out.push(written);
                        assert(out@ =~= out0.add(seq![out@.last()]));
                    },
                    Event::Present => {
                        self.stack.push(Frame::Payload);
                        if !json {
                            out.push(Event::Present);
                            assert(out@ =~= out0.add(seq![Event::Present]));
                        } else {
                            assert(out@ =~= out0.add(Seq::<Event>::empty()));
                        }
                    },
                    Event::Variant(name, kind) => {
                        self.depth = self.depth + 1;
                        if json {
                            self.stack.push(Frame::PayloadInMap);
                            out.push(Event::MapStart);
                            out.push(Event::Str(name));
                            assert(out@ =~= out0.add(seq![Event::MapStart, out@.last()]));
                        } else {
                            self.stack.push(Frame::VariantPayload);
                            out.push(Event::Variant(name, kind));
                            assert(out@ =~= out0.add(seq![out@.last()]));
                        }
                    },
                    other => {
                        let written = if json {
                            match other {
                                Event::Absent => Event::Unit,
                                Event::UnitVariant(name) => Event::Str(name),
                                o => o,
                            }
                        } else {
                            other
                        };
                        out.push(written);
                        let ghost out1 = out@;
                        self.complete(out);
                        assert(out@ =~= out0.add(seq![out1.last()].add(complete(s0).1)));
                    },
                }
                Ok(())
            },
        }
    }

    /// Ends the run: succeeds when exactly one complete value was read.
    pub fn finish(&self) -> (r: Result<(), TranscodeError>)
        ensures
            r is Ok <==> self.state().done,
            r is Err ==> r == Err::<(), TranscodeError>(TranscodeError::SourceSyntax),
    {
        if self.done {
            Ok(())
        } else {
            Err(TranscodeError::SourceSyntax)
        }
    }

    fn complete(&mut self, out: &mut Vec<Event>)
        requires
            consistent(old(self).state()),
        ensures
            final(self).opts == old(self).opts,
            final(self).depth <= old(self).depth,
            final(self).state() == complete(old(self).state()).0,
            final(out)@ == old(out)@.add(complete(old(self).state()).1),
    {
        loop
            invariant
                self.opts == old(self).opts,
                self.depth <= old(self).depth,
                consistent(self.state()),
                complete(self.state()).0 == complete(old(self).state()).0,
                old(out)@.add(complete(old(self).state()).1) == out@.add(complete(self.state()).1),
            decreases self.stack.len(),
        {
            let ghost before = self.state();
            let ghost out_before = out@;
            let n = self.stack.len();
            if n == 0 {
                self.done = true;
                assert(self.state() == complete(before).0);
                assert(out@.add(Seq::<Event>::empty()) =~= out@);
                return;
            }
            let top = self.stack[n - 1];
            match top {
                Frame::MapKey | Frame::MapValue | Frame::StructValue => {
                    self.stack.pop();
                    let next = match top {
                        Frame::MapKey => Frame::MapValue,
                        Frame::MapValue => Frame::MapKey,
                        _ => Frame::StructField,
                    };
                    self.stack.push(next);
                    assert(self.stack@ =~= before.stack.drop_last().push(next));
                    assert(self.state() == complete(before).0);
                    assert(out@.add(Seq::<Event>::empty()) =~= out@);
                    return;
                },
                Frame::Payload => {
                    self.stack.pop();
                    assert(self.stack@ =~= before.stack.drop_last());
                },
                Frame::VariantPayload => {
                    self.stack.pop();
                    self.depth = self.depth - 1;
                    assert(self.stack@ =~= before.stack.drop_last());
                },
                Frame::PayloadInMap => {
                    self.stack.pop();
                    self.depth = self.depth - 1;
                    out.push(Event::MapEnd);
                    assert(self.stack@ =~= before.stack.drop_last());
                    assert(out_before.add(seq![Event::MapEnd].add(complete(self.state()).1))
                        =~= out@.add(complete(self.state()).1));
                },
                _ => {
                    assert(out@.add(Seq::<Event>::empty()) =~= out@);
                    return;
                },
            }
        }
    }
}

/// Carries a whole source event stream through the engine: the events to
/// write in the target format, or the first error. A stream that ends before
/// its root value is complete is a syntax error.
pub fn transcode(opts: Options, events: VecDeque<Event>) -> (r: Result<Vec<Event>, TranscodeError>)
    ensures
        match transcode_spec(opts, events@) {
            Ok(o) => r matches Ok(v) && v@ == o,
            Err(e) => r == Err::<Vec<Event>, TranscodeError>(e),
        },
{
    let ghost all = events@;
    let mut rest = events;
    let total = rest.len();
    let mut engine = Engine::new(opts);
    let mut out: Vec<Event> = Vec::new();
    let mut k: usize = 0;
    assert(all.take(0) =~= Seq::<Event>::empty());
    while rest.len() > 0
        invariant
            engine.wf(),
            engine.options() == opts,
            all == events@,
            all.len() == total,
            k + rest@.len() == all.len(),
            rest@ =~= all.subrange(k as int, all.len() as int),
            run(opts, all.take(k as int)) == Ok::<(EngineState, Seq<Event>), TranscodeError>((engine.state(), out@)),
        decreases rest@.len(),
    {
        proof { lemma_run_take_step(opts, all, k as int); }
        let ev = match rest.pop_front() {
            Option::Some(ev) => ev,
            Option::None => return Err(TranscodeError::SourceSyntax),
        };
        assert(ev == all[k as int]);
        let fed = engine.feed(ev, &mut out);
        match fed {
            Err(e) => {
                proof { lemma_run_error_stays(opts, all, k + 1, e); }
                return Err(e);
            },
            Ok(()) => {},
        }
        k = k + 1;
    }
    assert(all.take(k as int) =~= all);
    match engine.finish() {
        Ok(()) => Ok(out),
        Err(e) => Err(e),
    }
}

} // verus!
