//! The stream of decisions that a client reads from a sandbox.

use vstd::prelude::*;

use crate::error::{
    self, connect_error, read_error, send_error, unsupported_error, ErrorView, MicrosandboxError,
};
use crate::request::{self, stream_request};
use crate::text::{self, same_text};
use crate::types::{EventView, NetworkDecisionEvent};

verus! {

/// Where a reader starts, and whether it stays.
#[derive(Clone, Copy, Debug)]
pub struct NetworkDecisionOptions {
    /// Exclusive sequence cursor. `0` starts at the oldest retained event.
    pub after_sequence: u64,
    /// When true, keep the stream open until the sandbox stops or the
    /// caller drops it.
    pub follow: bool,
}

impl Default for NetworkDecisionOptions {
    fn default() -> (opts: Self)
        ensures
            opts.after_sequence == 0,
            !opts.follow,
    {
        NetworkDecisionOptions { after_sequence: 0, follow: false }
    }
}

/// Terminal state of a decision stream.
#[derive(Clone, Copy, Debug, PartialEq, Eq, Structural)]
pub enum NetworkDecisionEnd {
    /// Snapshot drained and follow was false.
    Drained,
    /// The sandbox stopped or the decision log closed.
    SandboxStopped,
}

/// One item from a decision stream.
#[derive(Debug)]
pub enum NetworkDecisionItem {
    /// An enforcement event.
    Event(NetworkDecisionEvent),
    /// Explicit end-of-stream.
    End(NetworkDecisionEnd),
}

impl Clone for NetworkDecisionItem {
    fn clone(&self) -> (copy: Self)
        ensures
            copy == *self,
    {
        match self {
            NetworkDecisionItem::Event(event) => NetworkDecisionItem::Event(event.clone()),
            NetworkDecisionItem::End(end) => NetworkDecisionItem::End(*end),
        }
    }
}

/// What a line that ends a stream says.
#[derive(Debug)]
pub struct DoneLine {
    /// Whether the stream is done; `false` where the line does not say.
    pub done: bool,
    /// Why it is done, where the line says so.
    pub reason: Option<String>,
}

/// How far a stream has come.
#[derive(Clone, Copy, Debug, PartialEq, Eq, Structural)]
pub enum StreamPhase {
    /// The control socket is to be connected.
    Connecting,
    /// The request is to be sent.
    Sending,
    /// A line is to be read.
    Reading,
    /// The line that was read is to be parsed as an event.
    Parsing,
    /// Nothing more will come.
    Ended,
}

/// What happened on the control socket.
#[derive(Debug)]
pub enum StreamInput {
    /// The platform has no control sockets.
    Unsupported,
    /// The socket is connected.
    Connected,
    /// The socket could not be connected.
    ConnectFailed(String),
    /// The request was sent.
    Sent,
    /// The request could not be sent.
    SendFailed(String),
    /// The socket was closed.
    EndOfFile,
    /// A line was read. Where it parses as a [`DoneLine`], it comes with it.
    Line(Option<DoneLine>),
    /// No line could be read.
    ReadFailed(String),
    /// The line was parsed as an event.
    Parsed(Result<NetworkDecisionEvent, serde_json::Error>),
}

/// A stream of decisions: which step comes next, and what it yields.
#[derive(Debug)]
pub struct NetworkDecisionStream {
    name: String,
    opts: NetworkDecisionOptions,
    phase: StreamPhase,
}

/// An item as mathematical values.
#[verifier::ext_equal]
pub enum ItemView {
    /// An enforcement event.
    Event(EventView),
    /// Explicit end-of-stream.
    End(NetworkDecisionEnd),
}

/// What a line that ends a stream says, as mathematical values.
#[verifier::ext_equal]
pub struct DoneView {
    /// Whether the stream is done.
    pub done: bool,
    /// Why it is done.
    pub reason: Option<Seq<char>>,
}

/// What happened on the control socket, as mathematical values.
#[verifier::ext_equal]
pub enum InputView {
    /// The platform has no control sockets.
    Unsupported,
    /// The socket is connected.
    Connected,
    /// The socket could not be connected.
    ConnectFailed(Seq<char>),
    /// The request was sent.
    Sent,
    /// The request could not be sent.
    SendFailed(Seq<char>),
    /// The socket was closed.
    EndOfFile,
    /// A line was read.
    Line(Option<DoneView>),
    /// No line could be read.
    ReadFailed(Seq<char>),
    /// The line was parsed as an event.
    Parsed(Result<EventView, serde_json::Error>),
}

/// A stream as mathematical values.
#[verifier::ext_equal]
pub struct StreamView {
    /// Name of the sandbox.
    pub name: Seq<char>,
    /// Where the reader starts, and whether it stays.
    pub opts: NetworkDecisionOptions,
    /// How far the stream has come.
    pub phase: StreamPhase,
}

impl View for NetworkDecisionItem {
    type V = ItemView;

    open spec fn view(&self) -> ItemView {
        match self {
            NetworkDecisionItem::Event(event) => ItemView::Event(event@),
            NetworkDecisionItem::End(end) => ItemView::End(*end),
        }
    }
}

impl View for DoneLine {
    type V = DoneView;

    open spec fn view(&self) -> DoneView {
        DoneView { done: self.done, reason: text::optional_text(self.reason) }
    }
}

impl View for StreamInput {
    type V = InputView;

    open spec fn view(&self) -> InputView {
        match self {
            StreamInput::Unsupported => InputView::Unsupported,
            StreamInput::Connected => InputView::Connected,
            StreamInput::ConnectFailed(error) => InputView::ConnectFailed(error@),
            StreamInput::Sent => InputView::Sent,
            StreamInput::SendFailed(error) => InputView::SendFailed(error@),
            StreamInput::EndOfFile => InputView::EndOfFile,
            StreamInput::Line(done) => InputView::Line(done_view(*done)),
            StreamInput::ReadFailed(error) => InputView::ReadFailed(error@),
            StreamInput::Parsed(Ok(event)) => InputView::Parsed(Ok(event@)),
            StreamInput::Parsed(Err(error)) => InputView::Parsed(Err(*error)),
        }
    }
}

impl View for NetworkDecisionStream {
    type V = StreamView;

    closed spec fn view(&self) -> StreamView {
        StreamView { name: self.name@, opts: self.opts, phase: self.phase }
    }
}

/// What a line said, if it parsed as a [`DoneLine`].
pub open spec fn done_view(parsed: Option<DoneLine>) -> Option<DoneView> {
    match parsed {
        Some(line) => Some(line@),
        None => None,
    }
}

/// The values of what a stream yields.
pub open spec fn yield_view(item: Option<Result<NetworkDecisionItem, MicrosandboxError>>) -> Option<
    Result<ItemView, ErrorView>,
> {
    match item {
        Some(Ok(item)) => Some(Ok(item@)),
        Some(Err(error)) => Some(Err(error@)),
        None => None,
    }
}

/// How a line ends the stream; `None` for a line that does not end it.
pub open spec fn end_of_line(parsed: Option<DoneView>) -> Option<NetworkDecisionEnd> {
    match parsed {
        Some(line) => if !line.done {
            None
        } else if line.reason == Some("sandbox_stopped"@) {
            Some(NetworkDecisionEnd::SandboxStopped)
        } else {
            Some(NetworkDecisionEnd::Drained)
        },
        None => None,
    }
}

impl StreamView {
    /// The stream in another phase.
    pub open spec fn at(self, phase: StreamPhase) -> StreamView {
        StreamView { phase, ..self }
    }

    /// The stream after its last item.
    pub open spec fn ended(self) -> StreamView {
        self.at(StreamPhase::Ended)
    }

    /// What the stream becomes, and what it yields, on what happened. What does not belong to
    /// the phase changes nothing.
    pub open spec fn step(self, input: InputView) -> (
        StreamView,
        Option<Result<ItemView, ErrorView>>,
    ) {
        match (self.phase, input) {
            (StreamPhase::Connecting, InputView::Unsupported) => (
                self.ended(),
                Some(
                    Err(
                        ErrorView::Runtime(
                            "network decision follow requires a unix control socket"@,
                        ),
                    ),
                ),
            ),
            (StreamPhase::Connecting, InputView::Connected) => (
                self.at(StreamPhase::Sending),
                None,
            ),
            (StreamPhase::Connecting, InputView::ConnectFailed(error)) => (
                self.ended(),
                Some(
                    Err(
                        ErrorView::Runtime(
                            error::unreachable_message(error::quoted_text(self.name), error),
                        ),
                    ),
                ),
            ),
            (StreamPhase::Sending, InputView::Sent) => (self.at(StreamPhase::Reading), None),
            (StreamPhase::Sending, InputView::SendFailed(error)) => (
                self.ended(),
                Some(Err(ErrorView::Runtime("network decision stream request failed: "@ + error))),
            ),
            (StreamPhase::Reading, InputView::EndOfFile) => (
                self.ended(),
                Some(Ok(ItemView::End(NetworkDecisionEnd::SandboxStopped))),
            ),
            (StreamPhase::Reading, InputView::Line(parsed)) => match end_of_line(parsed) {
                Some(end) => (self.ended(), Some(Ok(ItemView::End(end)))),
                None => (self.at(StreamPhase::Parsing), None),
            },
            (StreamPhase::Reading, InputView::ReadFailed(error)) => (
                self.ended(),
                Some(Err(ErrorView::Runtime("network decision stream read failed: "@ + error))),
            ),
            (StreamPhase::Parsing, InputView::Parsed(Ok(event))) => (
                self.at(StreamPhase::Reading),
                Some(Ok(ItemView::Event(event))),
            ),
            (StreamPhase::Parsing, InputView::Parsed(Err(error))) => (
                self.ended(),
                Some(Err(ErrorView::Json(error))),
            ),
            _ => (self, None),
        }
    }

    /// What the stream yields, in order, on a sequence of happenings.
    pub open spec fn yields(self, inputs: Seq<InputView>) -> Seq<Result<ItemView, ErrorView>>
        decreases inputs.len(),
    {
        if inputs.len() == 0 {
            Seq::empty()
        } else {
            let (next, item) = self.step(inputs[0]);
            match item {
                Some(item) => seq![item] + next.yields(inputs.drop_first()),
                None => next.yields(inputs.drop_first()),
            }
        }
    }

    /// What the stream becomes on a sequence of happenings.
    pub open spec fn after(self, inputs: Seq<InputView>) -> StreamView
        decreases inputs.len(),
    {
        if inputs.len() == 0 {
            self
        } else {
            self.step(inputs[0]).0.after(inputs.drop_first())
        }
    }
}

/// What happens on the control socket while lines with events come in: each line is read,
/// with what it says as a [`DoneLine`], and parses as its event.
pub open spec fn event_lines(lines: Seq<(Option<DoneView>, EventView)>) -> Seq<InputView>
    decreases lines.len(),
{
    if lines.len() == 0 {
        Seq::empty()
    } else {
        seq![InputView::Line(lines[0].0), InputView::Parsed(Ok(lines[0].1))] + event_lines(
            lines.drop_first(),
        )
    }
}

/// The items of the events that come in.
pub open spec fn event_items(lines: Seq<(Option<DoneView>, EventView)>) -> Seq<
    Result<ItemView, ErrorView>,
> {
    lines.map_values(
        |line: (Option<DoneView>, EventView)| Ok::<ItemView, ErrorView>(ItemView::Event(line.1)),
    )
}

/// How a line ends the stream; `None` for a line that does not end it.
pub fn parse_done_line(parsed: &Option<DoneLine>) -> (end: Option<NetworkDecisionEnd>)
    ensures
        end == end_of_line(done_view(*parsed)),
{
    match parsed {
        Some(line) => {
            if !line.done {
                return None;
            }
            match &line.reason {
                Some(reason) => if same_text(reason.as_str(), "sandbox_stopped") {
                    Some(NetworkDecisionEnd::SandboxStopped)
                } else {
                    Some(NetworkDecisionEnd::Drained)
                },
                None => Some(NetworkDecisionEnd::Drained),
            }
        },
        None => None,
    }
}

/// The stream of decisions of the sandbox `name`, not yet connected.
pub fn local_network_decision_stream(name: String, opts: NetworkDecisionOptions) -> (stream:
    NetworkDecisionStream)
    ensures
        stream@ == (StreamView { name: name@, opts, phase: StreamPhase::Connecting }),
{
    NetworkDecisionStream { name, opts, phase: StreamPhase::Connecting }
}

impl NetworkDecisionStream {
    /// Name of the sandbox.
    pub fn name(&self) -> (name: &str)
        ensures
            name@ == self@.name,
    {
        self.name.as_str()
    }

    /// How far the stream has come.
    pub fn phase(&self) -> (phase: StreamPhase)
        ensures
            phase == self@.phase,
    {
        self.phase
    }

    /// The request that opens the stream, as one line.
    pub fn request(&self) -> (line: Result<String, MicrosandboxError>)
        ensures
            line matches Ok(line) && line@ == request::object_text(
                request::stream_entries(self@.opts),
            ).push('\n') && request::is_one_line(line@),
    {
        stream_request(self.opts)
    }

    /// Moves the stream on after what happened on the control socket, and returns what it
    /// yields.
    pub fn step(&mut self, input: StreamInput) -> (item: Option<
        Result<NetworkDecisionItem, MicrosandboxError>,
    >)
        ensures
            (final(self)@, yield_view(item)) == old(self)@.step(input@),
    {
        match (self.phase, input) {
            (StreamPhase::Connecting, StreamInput::Unsupported) => {
                self.phase = StreamPhase::Ended;
                Some(Err(unsupported_error()))
            },
            (StreamPhase::Connecting, StreamInput::Connected) => {
                self.phase = StreamPhase::Sending;
                None
            },
            (StreamPhase::Connecting, StreamInput::ConnectFailed(error)) => {
                self.phase = StreamPhase::Ended;
                Some(Err(connect_error(self.name.as_str(), error.as_str())))
            },
            (StreamPhase::Sending, StreamInput::Sent) => {
                self.phase = StreamPhase::Reading;
                None
            },
            (StreamPhase::Sending, StreamInput::SendFailed(error)) => {
                self.phase = StreamPhase::Ended;
                Some(Err(send_error(error.as_str())))
            },
            (StreamPhase::Reading, StreamInput::EndOfFile) => {
                self.phase = StreamPhase::Ended;
                Some(Ok(NetworkDecisionItem::End(NetworkDecisionEnd::SandboxStopped)))
            },
            (StreamPhase::Reading, StreamInput::Line(parsed)) => match parse_done_line(&parsed) {
                Some(end) => {
                    self.phase = StreamPhase::Ended;
                    Some(Ok(NetworkDecisionItem::End(end)))
                },
                None => {
                    self.phase = StreamPhase::Parsing;
                    None
                },
            },
            (StreamPhase::Reading, StreamInput::ReadFailed(error)) => {
                self.phase = StreamPhase::Ended;
                Some(Err(read_error(error.as_str())))
            },
            (StreamPhase::Parsing, StreamInput::Parsed(Ok(event))) => {
                self.phase = StreamPhase::Reading;
                Some(Ok(NetworkDecisionItem::Event(event)))
            },
            (StreamPhase::Parsing, StreamInput::Parsed(Err(error))) => {
                self.phase = StreamPhase::Ended;
                Some(Err(MicrosandboxError::Json(error)))
            },
            _ => None,
        }
    }
}

/// A line that does not say that the stream is done never ends it, whatever reason it gives:
/// it is parsed as an event.
pub proof fn law_line_without_done_never_ends_the_stream(
    stream: StreamView,
    reason: Option<Seq<char>>,
)
    requires
        stream.phase == StreamPhase::Reading,
    ensures
        end_of_line(Some(DoneView { done: false, reason })) is None,
        stream.step(InputView::Line(Some(DoneView { done: false, reason }))) == (
            stream.at(StreamPhase::Parsing),
            None::<Result<ItemView, ErrorView>>,
        ),
{
}

/// Whether an item is the last that a stream yields.
pub open spec fn is_terminal(item: Result<ItemView, ErrorView>) -> bool {
    !(item matches Ok(ItemView::Event(_)))
}

/// Whatever happens on the control socket, a stream yields events and then at most one end
/// or error, which is its last item and after which it has ended.
pub proof fn law_stream_ends_once(stream: StreamView, inputs: Seq<InputView>, i: int)
    requires
        0 <= i < stream.yields(inputs).len(),
        is_terminal(stream.yields(inputs)[i]),
    ensures
        i == stream.yields(inputs).len() - 1,
        stream.after(inputs).phase == StreamPhase::Ended,
    decreases inputs.len(),
{
    let (next, item) = stream.step(inputs[0]);
    let rest = inputs.drop_first();
    if item is Some {
        if i > 0 {
            law_stream_ends_once(next, rest, i - 1);
        } else {
            law_ended_stream_yields_nothing(next, rest);
        }
    } else {
        law_stream_ends_once(next, rest, i);
    }
}

/// A stream that has ended yields nothing more and stays as it is.
pub proof fn law_ended_stream_yields_nothing(stream: StreamView, inputs: Seq<InputView>)
    requires
        stream.phase == StreamPhase::Ended,
    ensures
        stream.yields(inputs).len() == 0,
        stream.after(inputs) == stream,
    decreases inputs.len(),
{
    if inputs.len() > 0 {
        law_ended_stream_yields_nothing(stream, inputs.drop_first());
    }
}

/// A stream never ends silently: the last item of one that has ended is an end or an error.
pub proof fn law_stream_never_ends_silently(stream: StreamView, inputs: Seq<InputView>)
    requires
        stream.phase != StreamPhase::Ended,
        stream.after(inputs).phase == StreamPhase::Ended,
    ensures
        stream.yields(inputs).len() > 0,
        is_terminal(stream.yields(inputs).last()),
    decreases inputs.len(),
{
    let (next, item) = stream.step(inputs[0]);
    let rest = inputs.drop_first();
    if next.phase == StreamPhase::Ended {
        law_ended_stream_yields_nothing(next, rest);
    } else {
        law_stream_never_ends_silently(next, rest);
    }
}

/// A stream yields the events that come in first, unchanged and in order, and then goes on as
/// if they had not come.
pub proof fn law_events_are_yielded_first(
    stream: StreamView,
    lines: Seq<(Option<DoneView>, EventView)>,
    rest: Seq<InputView>,
)
    requires
        stream.phase == StreamPhase::Reading,
        forall|i: int| 0 <= i < lines.len() ==> end_of_line((#[trigger] lines[i]).0) is None,
    ensures
        stream.yields(event_lines(lines) + rest) == event_items(lines) + stream.yields(rest),
        stream.after(event_lines(lines) + rest) == stream.after(rest),
    decreases lines.len(),
{
    let inputs = event_lines(lines) + rest;
    if lines.len() == 0 {
        assert(inputs =~= rest);
        assert(event_items(lines) + stream.yields(rest) =~= stream.yields(rest));
    } else {
        let later = lines.drop_first();
        law_events_are_yielded_first(stream, later, rest);
        let parsing = stream.step(inputs[0]).0;
        let tail = inputs.drop_first();
        assert(inputs[0] == InputView::Line(lines[0].0));
        assert(tail[0] == InputView::Parsed(Ok(lines[0].1)));
        assert(tail.drop_first() =~= event_lines(later) + rest);
        assert(stream.yields(inputs) == parsing.yields(tail));
        assert(parsing.step(tail[0]).0 =~= stream);
        assert(event_items(lines) =~= seq![event_items(lines)[0]] + event_items(later));
        assert(stream.yields(inputs) =~= event_items(lines) + stream.yields(rest));
        assert(stream.after(inputs) == parsing.after(tail));
    }
}

/// Whatever ends a stream, a done line, the closing of the socket, a failed read or a line
/// that does not parse, the events that came in before are yielded before it, unchanged and
/// in order, and the item that it gives comes last.
pub proof fn law_events_are_yielded_before_the_end(
    stream: StreamView,
    lines: Seq<(Option<DoneView>, EventView)>,
    last: Seq<InputView>,
    item: Result<ItemView, ErrorView>,
)
    requires
        stream.phase == StreamPhase::Reading,
        forall|i: int| 0 <= i < lines.len() ==> end_of_line((#[trigger] lines[i]).0) is None,
        stream.yields(last) == seq![item],
        is_terminal(item),
    ensures
        stream.yields(event_lines(lines) + last) == event_items(lines).push(item),
        stream.after(event_lines(lines) + last).phase == StreamPhase::Ended,
{
    law_events_are_yielded_first(stream, lines, last);
    assert(event_items(lines) + seq![item] =~= event_items(lines).push(item));
    assert(is_terminal(stream.yields(last)[0]));
    law_stream_ends_once(stream, last, 0);
}

/// The ways in which a stream that is being read ends, each with the one item that it gives.
pub proof fn law_ways_to_end_while_reading(
    stream: StreamView,
    parsed: Option<DoneView>,
    message: Seq<char>,
    error: serde_json::Error,
)
    requires
        stream.phase == StreamPhase::Reading,
    ensures
        stream.yields(seq![InputView::EndOfFile]) == seq![
            Ok::<ItemView, ErrorView>(ItemView::End(NetworkDecisionEnd::SandboxStopped)),
        ],
        stream.yields(seq![InputView::ReadFailed(message)]) == seq![
            Err::<ItemView, ErrorView>(
                ErrorView::Runtime("network decision stream read failed: "@ + message),
            ),
        ],
        match end_of_line(parsed) {
            Some(end) => stream.yields(seq![InputView::Line(parsed)]) == seq![
                Ok::<ItemView, ErrorView>(ItemView::End(end)),
            ],
            None => stream.yields(
                seq![InputView::Line(parsed), InputView::Parsed(Err(error))],
            ) == seq![Err::<ItemView, ErrorView>(ErrorView::Json(error))],
        },
{
    reveal_with_fuel(StreamView::yields, 3);
    let closed = seq![InputView::EndOfFile];
    let failed = seq![InputView::ReadFailed(message)];
    let line = seq![InputView::Line(parsed)];
    let broken = seq![InputView::Line(parsed), InputView::Parsed(Err(error))];
    assert(closed.drop_first() =~= Seq::empty());
    assert(failed.drop_first() =~= Seq::empty());
    assert(line.drop_first() =~= Seq::empty());
    assert(broken.drop_first() =~= seq![InputView::Parsed(Err(error))]);
    assert(broken.drop_first().drop_first() =~= Seq::empty());
}

/// A new stream is to be connected, and carries the name and the options that it was given: the
/// request that it sends asks for that cursor, and to be kept open exactly where the caller
/// asked to follow.
pub proof fn law_new_stream_asks_for_its_options(
    name: String,
    opts: NetworkDecisionOptions,
    stream: NetworkDecisionStream,
    phase: StreamPhase,
    shown: &str,
    line: Result<String, MicrosandboxError>,
)
    requires
        call_ensures(local_network_decision_stream, (name, opts), stream),
        call_ensures(NetworkDecisionStream::phase, (&stream,), phase),
        call_ensures(NetworkDecisionStream::name, (&stream,), shown),
        call_ensures(NetworkDecisionStream::request, (&stream,), line),
    ensures
        phase == StreamPhase::Connecting,
        stream@.phase == phase,
        shown@ == name@,
        line matches Ok(line) && line@ == "{\"after\":"@ + text::decimal(
            opts.after_sequence as nat,
        ) + ",\"follow\":"@ + (if opts.follow {
            "true"@
        } else {
            "false"@
        }) + ",\"op\":\"network_decision_stream\"}\n"@,
{
    law_request_is_that_of_the_options(&stream, line);
}

/// The request of a stream is the one for the options that it carries.
pub proof fn law_request_is_that_of_the_options(
    stream: &NetworkDecisionStream,
    line: Result<String, MicrosandboxError>,
)
    requires
        call_ensures(NetworkDecisionStream::request, (stream,), line),
    ensures
        line matches Ok(line) && line@ == "{\"after\":"@ + text::decimal(
            stream@.opts.after_sequence as nat,
        ) + ",\"follow\":"@ + (if stream@.opts.follow {
            "true"@
        } else {
            "false"@
        }) + ",\"op\":\"network_decision_stream\"}\n"@,
{
    request::lemma_stream_request_text(stream@.opts);
}

/// Whatever happens, a stream keeps its name and its options.
pub proof fn law_stream_keeps_its_name_and_options(
    stream: &mut NetworkDecisionStream,
    input: StreamInput,
    item: Option<Result<NetworkDecisionItem, MicrosandboxError>>,
)
    requires
        call_ensures(NetworkDecisionStream::step, (stream, input), item),
    ensures
        final(stream)@.name == old(stream)@.name,
        final(stream)@.opts == old(stream)@.opts,
{
}

/// The phase and the name that a stream shows are those that it has.
pub proof fn law_stream_shows_its_state(
    stream: &NetworkDecisionStream,
    phase: StreamPhase,
    name: &str,
)
    requires
        call_ensures(NetworkDecisionStream::phase, (stream,), phase),
        call_ensures(NetworkDecisionStream::name, (stream,), name),
    ensures
        phase == stream@.phase,
        name@ == stream@.name,
{
}

/// A stream opens in silence: once it is connected its request is to be sent, and once that
/// was sent lines are to be read.
pub proof fn law_stream_opens_in_silence(
    stream: &mut NetworkDecisionStream,
    input: StreamInput,
    item: Option<Result<NetworkDecisionItem, MicrosandboxError>>,
)
    requires
        call_ensures(NetworkDecisionStream::step, (stream, input), item),
    ensures
        old(stream)@.phase == StreamPhase::Connecting && input is Connected ==> item is None
            && final(stream)@.phase == StreamPhase::Sending,
        old(stream)@.phase == StreamPhase::Sending && input is Sent ==> item is None
            && final(stream)@.phase == StreamPhase::Reading,
{
}

/// A failure ends the stream with an error that says what failed and why.
pub proof fn law_failures_end_the_stream(
    stream: &mut NetworkDecisionStream,
    input: StreamInput,
    item: Option<Result<NetworkDecisionItem, MicrosandboxError>>,
)
    requires
        call_ensures(NetworkDecisionStream::step, (stream, input), item),
    ensures
        old(stream)@.phase == StreamPhase::Connecting && input is Unsupported ==> {
            &&& final(stream)@.phase == StreamPhase::Ended
            &&& item matches Some(Err(MicrosandboxError::Runtime(message))) && message@
                == "network decision follow requires a unix control socket"@
        },
        old(stream)@.phase == StreamPhase::Connecting && input is ConnectFailed ==> {
            &&& final(stream)@.phase == StreamPhase::Ended
            &&& item matches Some(Err(MicrosandboxError::Runtime(message))) && message@
                == "failed to reach a runtime control socket for sandbox "@ + error::quoted_text(
                old(stream)@.name,
            ) + ": "@ + input->ConnectFailed_0@
        },
        old(stream)@.phase == StreamPhase::Sending && input is SendFailed ==> {
            &&& final(stream)@.phase == StreamPhase::Ended
            &&& item matches Some(Err(MicrosandboxError::Runtime(message))) && message@
                == "network decision stream request failed: "@ + input->SendFailed_0@
        },
        old(stream)@.phase == StreamPhase::Reading && input is ReadFailed ==> {
            &&& final(stream)@.phase == StreamPhase::Ended
            &&& item matches Some(Err(MicrosandboxError::Runtime(message))) && message@
                == "network decision stream read failed: "@ + input->ReadFailed_0@
        },
        old(stream)@.phase == StreamPhase::Parsing ==> (input matches StreamInput::Parsed(
            Err(error),
        ) ==> {
            &&& final(stream)@.phase == StreamPhase::Ended
            &&& item == Some(
                Err::<NetworkDecisionItem, MicrosandboxError>(MicrosandboxError::Json(error)),
            )
        }),
{
}

/// An event that was parsed is handed on as it is, and the next line is to be read.
pub proof fn law_parsed_event_is_handed_on(
    stream: &mut NetworkDecisionStream,
    event: NetworkDecisionEvent,
    item: Option<Result<NetworkDecisionItem, MicrosandboxError>>,
)
    requires
        old(stream)@.phase == StreamPhase::Parsing,
        call_ensures(
            NetworkDecisionStream::step,
            (stream, StreamInput::Parsed(Ok(event))),
            item,
        ),
    ensures
        final(stream)@.phase == StreamPhase::Reading,
        item matches Some(Ok(NetworkDecisionItem::Event(handed_on))) && handed_on@ == event@,
{
}

/// A line that says that the stream is done ends it: the sandbox stopped exactly where the line
/// gives that reason, and otherwise the decisions were drained. Any other line is to be parsed
/// as an event.
pub proof fn law_done_line_ends_the_stream(
    stream: &mut NetworkDecisionStream,
    parsed: Option<DoneLine>,
    item: Option<Result<NetworkDecisionItem, MicrosandboxError>>,
)
    requires
        old(stream)@.phase == StreamPhase::Reading,
        call_ensures(NetworkDecisionStream::step, (stream, StreamInput::Line(parsed)), item),
    ensures
        ({
            let done = parsed matches Some(line) && line.done;
            let stopped = parsed matches Some(line) && (line.reason matches Some(reason)
                && reason@ == "sandbox_stopped"@);
            if done {
                &&& final(stream)@.phase == StreamPhase::Ended
                &&& item == Some(
                    Ok::<NetworkDecisionItem, MicrosandboxError>(
                        NetworkDecisionItem::End(
                            if stopped {
                                NetworkDecisionEnd::SandboxStopped
                            } else {
                                NetworkDecisionEnd::Drained
                            },
                        ),
                    ),
                )
            } else {
                &&& final(stream)@.phase == StreamPhase::Parsing
                &&& item is None
            }
        }),
{
}

/// A line ends a stream exactly where it says that the stream is done: the sandbox stopped
/// exactly where it gives that reason, and otherwise the decisions were drained.
pub proof fn law_done_lines_tell_the_end(
    parsed: &Option<DoneLine>,
    end: Option<NetworkDecisionEnd>,
)
    requires
        call_ensures(parse_done_line, (parsed,), end),
    ensures
        end is Some <==> (*parsed matches Some(line) && line.done),
        end == Some(NetworkDecisionEnd::SandboxStopped) <==> (*parsed matches Some(line)
            && line.done && (line.reason matches Some(reason) && reason@ == "sandbox_stopped"@)),
{
}

/// A socket that is closed while lines are read means that the sandbox stopped.
pub proof fn law_closed_socket_ends_the_stream(
    stream: &mut NetworkDecisionStream,
    item: Option<Result<NetworkDecisionItem, MicrosandboxError>>,
)
    requires
        old(stream)@.phase == StreamPhase::Reading,
        call_ensures(NetworkDecisionStream::step, (stream, StreamInput::EndOfFile), item),
    ensures
        final(stream)@.phase == StreamPhase::Ended,
        item == Some(
            Ok::<NetworkDecisionItem, MicrosandboxError>(
                NetworkDecisionItem::End(NetworkDecisionEnd::SandboxStopped),
            ),
        ),
{
}

/// What cannot happen in the phase that a stream is in changes nothing and yields nothing.
pub proof fn law_foreign_happenings_change_nothing(
    stream: &mut NetworkDecisionStream,
    input: StreamInput,
    item: Option<Result<NetworkDecisionItem, MicrosandboxError>>,
)
    requires
        call_ensures(NetworkDecisionStream::step, (stream, input), item),
        match old(stream)@.phase {
            StreamPhase::Connecting => !(input is Unsupported || input is Connected
                || input is ConnectFailed),
            StreamPhase::Sending => !(input is Sent || input is SendFailed),
            StreamPhase::Reading => !(input is EndOfFile || input is Line || input is ReadFailed),
            StreamPhase::Parsing => !(input is Parsed),
            StreamPhase::Ended => true,
        },
    ensures
        item is None,
        final(stream)@ == old(stream)@,
{
}

/// A copy of an item is the item.
pub proof fn law_copied_item_is_the_item(item: &NetworkDecisionItem, copy: NetworkDecisionItem)
    requires
        call_ensures(NetworkDecisionItem::clone, (item,), copy),
    ensures
        copy == *item,
{
}

/// By default a reader starts at the oldest retained event and does not stay.
pub proof fn law_default_options_replay_everything(opts: NetworkDecisionOptions)
    requires
        call_ensures(NetworkDecisionOptions::default, (), opts),
    ensures
        opts.after_sequence == 0,
        !opts.follow,
{
}

} // verus!
