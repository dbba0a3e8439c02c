//! One HTTPS GET request, as a conversation with whoever makes the calls.
//!
//! An [`HttpGet`] says which call comes next. Its caller makes that call and hands the outcome to
//! [`HttpGet::next`], until the request is finished.
use crate::number::{decimal, push_decimal};
use vstd::prelude::*;

verus! {

/// What to ask for.
#[derive(Clone, Debug, PartialEq, Eq)]
pub struct HttpRequest {
    pub host: String,
    pub path: String,
    /// The size that the response must not exceed.
    pub max_size: usize,
}

/// What an [`HttpRequest`] says.
pub struct RequestView {
    pub host: Seq<char>,
    pub path: Seq<char>,
    pub max_size: nat,
}

impl View for HttpRequest {
    type V = RequestView;

    open spec fn view(&self) -> RequestView {
        RequestView { host: self.host@, path: self.path@, max_size: self.max_size as nat }
    }
}

/// What a request brings back.
#[derive(Clone, Debug, PartialEq, Eq)]
pub enum HttpPayload {
    /// The body of the response.
    Data(Vec<u8>),
    /// There is no such resource.
    NotFound,
}

/// What an [`HttpPayload`] says.
pub enum PayloadView {
    Data(Seq<u8>),
    NotFound,
}

impl View for HttpPayload {
    type V = PayloadView;

    open spec fn view(&self) -> PayloadView {
        match self {
            HttpPayload::Data(body) => PayloadView::Data(body@),
            HttpPayload::NotFound => PayloadView::NotFound,
        }
    }
}

/// A call that a request needs.
#[derive(Clone, Copy, Debug, PartialEq, Eq, Structural)]
pub enum HttpCall {
    /// Open a session. The outcome is `Done`.
    OpenSession,
    /// Connect to the host. The outcome is `Done`.
    Connect,
    /// Create the request. The outcome is `Done`.
    OpenRequest,
    /// Send the request and receive the response. The outcome is `Done`.
    Exchange,
    /// Ask for the status code. The outcome is a number.
    QueryStatus,
    /// Ask for the length of the body, which a server need not give. The outcome is a number.
    QueryLength,
    /// Ask how many bytes can be read. The outcome is a number.
    QueryAvailable,
    /// Read this many bytes or fewer. The outcome is those bytes.
    Read(u32),
}

/// The outcome of a call.
#[derive(Clone, Debug, PartialEq, Eq)]
pub enum HttpEvent {
    Done,
    Number(u32),
    Bytes(Vec<u8>),
    Failed,
}

/// What an [`HttpEvent`] says.
pub enum EventView {
    Done,
    Number(u32),
    Bytes(Seq<u8>),
    Failed,
}

impl View for HttpEvent {
    type V = EventView;

    open spec fn view(&self) -> EventView {
        match self {
            HttpEvent::Done => EventView::Done,
            HttpEvent::Number(n) => EventView::Number(*n),
            HttpEvent::Bytes(bytes) => EventView::Bytes(bytes@),
            HttpEvent::Failed => EventView::Failed,
        }
    }
}

/// A request under way.
#[derive(Debug)]
pub struct HttpGet {
    max_size: usize,
    total: Option<u64>,
    body: Vec<u8>,
    pending: HttpCall,
}

/// What an [`HttpGet`] says.
pub struct GetView {
    /// The size that the body must not exceed.
    pub max_size: nat,
    /// The length of the body that the server has told.
    pub total: Option<u64>,
    /// What has been read of the body.
    pub body: Seq<u8>,
    /// The call to make.
    pub pending: HttpCall,
}

impl View for HttpGet {
    type V = GetView;

    closed spec fn view(&self) -> GetView {
        GetView {
            max_size: self.max_size as nat,
            total: self.total,
            body: self.body@,
            pending: self.pending,
        }
    }
}

/// What comes of an event: another call, or the end.
#[derive(Debug)]
pub enum HttpTurn {
    Perform(HttpGet),
    Finished(Result<HttpPayload, String>),
}

/// What an [`HttpTurn`] says.
pub enum TurnView {
    Perform(GetView),
    Finished(Result<PayloadView, Seq<char>>),
}

/// What the result of a request says.
pub open spec fn payload_result(r: Result<HttpPayload, String>) -> Result<PayloadView, Seq<char>> {
    match r {
        Ok(payload) => Ok(payload@),
        Err(message) => Err(message@),
    }
}

impl View for HttpTurn {
    type V = TurnView;

    open spec fn view(&self) -> TurnView {
        match self {
            HttpTurn::Perform(get) => TurnView::Perform(get@),
            HttpTurn::Finished(r) => TurnView::Finished(payload_result(*r)),
        }
    }
}

/// What is reported of a call that failed.
pub open spec fn call_fault(call: HttpCall) -> Seq<char> {
    match call {
        HttpCall::OpenSession => "Cannot initialize WinHTTP."@,
        HttpCall::Connect => "Cannot connect to update server."@,
        HttpCall::OpenRequest => "Cannot create update request."@,
        HttpCall::Exchange => "Update request failed."@,
        HttpCall::QueryStatus => "Cannot read update HTTP status."@,
        _ => "Cannot read update response."@,
    }
}

/// The request with another call to make.
pub open spec fn pending(get: GetView, call: HttpCall) -> TurnView {
    TurnView::Perform(GetView { pending: call, ..get })
}

/// The end without a response.
pub open spec fn failed(message: Seq<char>) -> TurnView {
    TurnView::Finished(Err(message))
}

/// What comes of a status code: 404 is an absent resource, 200 to 299 are success, all else fails.
pub open spec fn after_status(get: GetView, code: u32) -> TurnView {
    if code == 404 {
        TurnView::Finished(Ok(PayloadView::NotFound))
    } else if 200 <= code < 300 {
        pending(get, HttpCall::QueryLength)
    } else {
        failed("Update server returned HTTP "@ + decimal(code as nat) + "."@)
    }
}

/// What comes of the body's length, if the server told one. Zero counts as none.
pub open spec fn after_length(get: GetView, length: u32) -> TurnView {
    if length > get.max_size {
        failed(
            "Update response is too large ("@ + decimal(length as nat) + " bytes; limit is "@
                + decimal(get.max_size) + ")."@,
        )
    } else {
        let total = if length > 0 {
            Some(length as u64)
        } else {
            None
        };
        pending(GetView { total, ..get }, HttpCall::QueryAvailable)
    }
}

/// What comes of the number of bytes that can be read: at zero the body is complete, and the
/// body must not grow over the limit.
pub open spec fn after_available(get: GetView, available: u32) -> TurnView {
    if available == 0 {
        TurnView::Finished(Ok(PayloadView::Data(get.body)))
    } else if get.body.len() + available > get.max_size {
        failed("Update response exceeds the "@ + decimal(get.max_size) + "-byte limit."@)
    } else {
        pending(get, HttpCall::Read(available))
    }
}

/// The bytes that count of those that a call brought: no more than were asked for.
pub open spec fn counted(chunk: Seq<u8>, asked: u32) -> Seq<u8> {
    if chunk.len() <= asked {
        chunk
    } else {
        chunk.take(asked as int)
    }
}

/// What comes of an event.
pub open spec fn next_turn(get: GetView, event: EventView) -> TurnView {
    match (get.pending, event) {
        (HttpCall::OpenSession, EventView::Done) => pending(get, HttpCall::Connect),
        (HttpCall::Connect, EventView::Done) => pending(get, HttpCall::OpenRequest),
        (HttpCall::OpenRequest, EventView::Done) => pending(get, HttpCall::Exchange),
        (HttpCall::Exchange, EventView::Done) => pending(get, HttpCall::QueryStatus),
        (HttpCall::QueryStatus, EventView::Number(code)) => after_status(get, code),
        (HttpCall::QueryLength, EventView::Number(length)) => after_length(get, length),
        (HttpCall::QueryLength, _) => after_length(get, 0),
        (HttpCall::QueryAvailable, EventView::Number(n)) => after_available(get, n),
        (HttpCall::Read(asked), EventView::Bytes(chunk)) => pending(
            GetView { body: get.body + counted(chunk, asked), ..get },
            HttpCall::QueryAvailable,
        ),
        (call, _) => failed(call_fault(call)),
    }
}

/// A request at its beginning.
pub open spec fn first_turn(max_size: nat) -> TurnView {
    TurnView::Perform(
        GetView { max_size, total: None, body: Seq::empty(), pending: HttpCall::OpenSession },
    )
}

/// Reports a call that failed.
fn describe_call_fault(call: HttpCall) -> (message: String)
    ensures
        message@ == call_fault(call),
{
    match call {
        HttpCall::OpenSession => String::from("Cannot initialize WinHTTP."),
        HttpCall::Connect => String::from("Cannot connect to update server."),
        HttpCall::OpenRequest => String::from("Cannot create update request."),
        HttpCall::Exchange => String::from("Update request failed."),
        HttpCall::QueryStatus => String::from("Cannot read update HTTP status."),
        _ => String::from("Cannot read update response."),
    }
}

impl HttpGet {
    /// A request whose body must not exceed `max_size` bytes.
    pub fn new(max_size: usize) -> (get: HttpGet)
        ensures
            TurnView::Perform(get@) == first_turn(max_size as nat),
    {
        HttpGet { max_size, total: None, body: Vec::new(), pending: HttpCall::OpenSession }
    }

    /// The call to make.
    pub fn call(&self) -> (call: HttpCall)
        ensures
            call == self@.pending,
    {
        self.pending
    }

    /// How far the body is: the bytes read and the length told. There is news of it before every
    /// question for more bytes, and at no other time.
    pub fn progress(&self) -> (news: Option<(u64, Option<u64>)>)
        ensures
            match news {
                Some((downloaded, total)) => self@.pending == HttpCall::QueryAvailable && downloaded
                    == self@.body.len() && total == self@.total,
                None => self@.pending != HttpCall::QueryAvailable,
            },
    {
        match self.pending {
            HttpCall::QueryAvailable => Some((self.body.len() as u64, self.total)),
            _ => None,
        }
    }

    fn then_call(self, call: HttpCall) -> (turn: HttpTurn)
        ensures
            turn@ == pending(self@, call),
    {
        let mut get = self;
        get.pending = call;
        HttpTurn::Perform(get)
    }

    fn on_status(self, code: u32) -> (turn: HttpTurn)
        ensures
            turn@ == after_status(self@, code),
    {
        if code == 404 {
            HttpTurn::Finished(Ok(HttpPayload::NotFound))
        } else if 200 <= code && code < 300 {
            self.then_call(HttpCall::QueryLength)
        } else {
            let mut message = String::from("Update server returned HTTP ");
            push_decimal(&mut message, code as u64);
            message.append(".");
            HttpTurn::Finished(Err(message))
        }
    }

    fn on_length(self, length: u32) -> (turn: HttpTurn)
        ensures
            turn@ == after_length(self@, length),
    {
        if length as u64 > self.max_size as u64 {
            let mut message = String::from("Update response is too large (");
            push_decimal(&mut message, length as u64);
            message.append(" bytes; limit is ");
            push_decimal(&mut message, self.max_size as u64);
            message.append(").");
            HttpTurn::Finished(Err(message))
        } else {
            let mut get = self;
            get.total = if length > 0 {
                Some(length as u64)
            } else {
                None
            };
            get.then_call(HttpCall::QueryAvailable)
        }
    }

    fn on_available(self, available: u32) -> (turn: HttpTurn)
        ensures
            turn@ == after_available(self@, available),
    {
        if available == 0 {
            return HttpTurn::Finished(Ok(HttpPayload::Data(self.body)));
        }
        let read: usize = self.body.len();
        if read as u128 + available as u128 > self.max_size as u128 {
            let mut message = String::from("Update response exceeds the ");
            push_decimal(&mut message, self.max_size as u64);
            message.append("-byte limit.");
            return HttpTurn::Finished(Err(message));
        }
        self.then_call(HttpCall::Read(available))
    }

    fn on_bytes(self, chunk: Vec<u8>, asked: u32) -> (turn: HttpTurn)
        ensures
            turn@ == pending(
                GetView { body: self@.body + counted(chunk@, asked), ..self@ },
                HttpCall::QueryAvailable,
            ),
    {
        let mut get = self;
        let mut chunk = chunk;
        if chunk.len() as u64 > asked as u64 {
            chunk.truncate(asked as usize);
        }
        get.body.append(&mut chunk);
        get.then_call(HttpCall::QueryAvailable)
    }

    /// Takes in the outcome of the call that was to be made.
    pub fn next(self, event: HttpEvent) -> (turn: HttpTurn)
        ensures
            turn@ == next_turn(self@, event@),
    {
        match (self.pending, event) {
            (HttpCall::OpenSession, HttpEvent::Done) => self.then_call(HttpCall::Connect),
            (HttpCall::Connect, HttpEvent::Done) => self.then_call(HttpCall::OpenRequest),
            (HttpCall::OpenRequest, HttpEvent::Done) => self.then_call(HttpCall::Exchange),
            (HttpCall::Exchange, HttpEvent::Done) => self.then_call(HttpCall::QueryStatus),
            (HttpCall::QueryStatus, HttpEvent::Number(code)) => self.on_status(code),
            (HttpCall::QueryLength, HttpEvent::Number(length)) => self.on_length(length),
            (HttpCall::QueryLength, _) => self.on_length(0),
            (HttpCall::QueryAvailable, HttpEvent::Number(n)) => self.on_available(n),
            (HttpCall::Read(asked), HttpEvent::Bytes(chunk)) => self.on_bytes(chunk, asked),
            (call, _) => HttpTurn::Finished(Err(describe_call_fault(call))),
        }
    }
}

/// Where a row of events leads. Events behind the end change nothing.
pub open spec fn run(turn: TurnView, events: Seq<EventView>) -> TurnView
    decreases events.len(),
{
    if events.len() == 0 {
        turn
    } else {
        match run(turn, events.drop_last()) {
            TurnView::Perform(get) => next_turn(get, events.last()),
            end => end,
        }
    }
}

/// Whatever the calls bring, the body stays within the limit, and no call asks for bytes that
/// would exceed it.
pub proof fn law_body_stays_within_limit(max_size: nat, events: Seq<EventView>)
    ensures
        match run(first_turn(max_size), events) {
            TurnView::Perform(get) => {
                &&& get.max_size == max_size
                &&& get.body.len() <= max_size
                &&& get.pending matches HttpCall::Read(asked) ==> get.body.len() + asked <= max_size
            },
            TurnView::Finished(Ok(PayloadView::Data(body))) => body.len() <= max_size,
            _ => true,
        },
    decreases events.len(),
{
    if events.len() > 0 {
        law_body_stays_within_limit(max_size, events.drop_last());
    }
}

/// What is known of a request from the number of events it has seen.
spec fn on_course(turn: TurnView, events: Seq<EventView>) -> bool {
    match turn {
        TurnView::Perform(get) => {
            &&& get.pending == HttpCall::OpenSession <==> events.len() == 0
            &&& get.pending == HttpCall::Connect <==> events.len() == 1
            &&& get.pending == HttpCall::OpenRequest <==> events.len() == 2
            &&& get.pending == HttpCall::Exchange <==> events.len() == 3
            &&& get.pending == HttpCall::QueryStatus <==> events.len() == 4
            &&& events.len() > 4 ==> success(events[4])
        },
        TurnView::Finished(Ok(PayloadView::Data(_))) => events.len() > 4 && success(events[4]),
        TurnView::Finished(Ok(PayloadView::NotFound)) => events.len() > 4 && events[4]
            == EventView::Number(404),
        _ => true,
    }
}

/// Whether the event is a status code of success.
pub open spec fn success(event: EventView) -> bool {
    event matches EventView::Number(code) && 200 <= code < 300
}

/// Data comes from a response with a status of success only, and a resource counts as absent
/// only where the status is 404. The status is the outcome of the fifth call.
pub proof fn law_payload_follows_from_the_status(max_size: nat, events: Seq<EventView>)
    ensures
        match run(first_turn(max_size), events) {
            TurnView::Finished(Ok(PayloadView::Data(_))) => events.len() > 4 && success(events[4]),
            TurnView::Finished(Ok(PayloadView::NotFound)) => events.len() > 4 && events[4]
                == EventView::Number(404),
            _ => true,
        },
{
    lemma_on_course(max_size, events);
}

proof fn lemma_on_course(max_size: nat, events: Seq<EventView>)
    ensures
        on_course(run(first_turn(max_size), events), events),
    decreases events.len(),
{
    if events.len() > 0 {
        let front = events.drop_last();
        lemma_on_course(max_size, front);
        if events.len() > 5 {
            assert(front[4] == events[4]);
        }
    }
}

/// The events of a successful response up to its body.
pub open spec fn response_head(status: u32, length: EventView) -> Seq<EventView> {
    seq![
        EventView::Done,
        EventView::Done,
        EventView::Done,
        EventView::Done,
        EventView::Number(status),
        length,
    ]
}

/// The events of a body that comes in pieces. Each piece is what was read of a number of bytes
/// that could be.
pub open spec fn body_events(pieces: Seq<(u32, Seq<u8>)>) -> Seq<EventView>
    decreases pieces.len(),
{
    if pieces.len() == 0 {
        Seq::empty()
    } else {
        body_events(pieces.drop_last()).push(EventView::Number(pieces.last().0)).push(
            EventView::Bytes(pieces.last().1),
        )
    }
}

/// The pieces put together.
pub open spec fn joined(pieces: Seq<(u32, Seq<u8>)>) -> Seq<u8>
    decreases pieces.len(),
{
    if pieces.len() == 0 {
        Seq::empty()
    } else {
        joined(pieces.drop_last()) + pieces.last().1
    }
}

/// Whether a body keeps to the limit: at each piece some bytes can be read, no more of them than
/// the limit leaves room for, and the piece is no longer than that.
pub open spec fn body_fits(pieces: Seq<(u32, Seq<u8>)>, max_size: nat) -> bool
    decreases pieces.len(),
{
    pieces.len() > 0 ==> {
        &&& body_fits(pieces.drop_last(), max_size)
        &&& 0 < pieces.last().0
        &&& pieces.last().1.len() <= pieces.last().0
        &&& joined(pieces.drop_last()).len() + pieces.last().0 <= max_size
    }
}

/// Whether the length event fits the limit, if it tells a length.
pub open spec fn length_fits(length: EventView, max_size: nat) -> bool {
    length matches EventView::Number(n) ==> n <= max_size
}

proof fn lemma_run_step(turn: TurnView, events: Seq<EventView>, event: EventView)
    ensures
        run(turn, events.push(event)) == match run(turn, events) {
            TurnView::Perform(get) => next_turn(get, event),
            end => end,
        },
{
    assert(events.push(event).drop_last() =~= events);
}

proof fn lemma_head(max_size: nat, status: u32, length: EventView)
    requires
        200 <= status < 300,
        length_fits(length, max_size),
    ensures
        run(first_turn(max_size), response_head(status, length)) matches TurnView::Perform(get)
            && get.max_size == max_size && get.body == Seq::<u8>::empty() && get.pending
            == HttpCall::QueryAvailable,
{
    let turn = first_turn(max_size);
    let e0 = Seq::<EventView>::empty();
    let e1 = e0.push(EventView::Done);
    let e2 = e1.push(EventView::Done);
    let e3 = e2.push(EventView::Done);
    let e4 = e3.push(EventView::Done);
    let e5 = e4.push(EventView::Number(status));
    lemma_run_step(turn, e0, EventView::Done);
    lemma_run_step(turn, e1, EventView::Done);
    lemma_run_step(turn, e2, EventView::Done);
    lemma_run_step(turn, e3, EventView::Done);
    lemma_run_step(turn, e4, EventView::Number(status));
    lemma_run_step(turn, e5, length);
    assert(e5.push(length) =~= response_head(status, length));
}

proof fn lemma_body(max_size: nat, status: u32, length: EventView, pieces: Seq<(u32, Seq<u8>)>)
    requires
        200 <= status < 300,
        length_fits(length, max_size),
        body_fits(pieces, max_size),
    ensures
        run(first_turn(max_size), response_head(status, length) + body_events(pieces))
            matches TurnView::Perform(get) && get.max_size == max_size && get.body == joined(pieces)
            && get.pending == HttpCall::QueryAvailable,
    decreases pieces.len(),
{
    let turn = first_turn(max_size);
    let head = response_head(status, length);
    if pieces.len() == 0 {
        lemma_head(max_size, status, length);
        assert(head + body_events(pieces) =~= head);
    } else {
        let front = pieces.drop_last();
        let (available, chunk) = pieces.last();
        lemma_body(max_size, status, length, front);
        let before = head + body_events(front);
        let told = before.push(EventView::Number(available));
        lemma_run_step(turn, before, EventView::Number(available));
        lemma_run_step(turn, told, EventView::Bytes(chunk));
        assert(told.push(EventView::Bytes(chunk)) =~= head + body_events(pieces));
    }
}

/// A successful response whose body keeps to the limit is delivered whole and unchanged, in
/// whatever pieces it comes, also where a read brings fewer bytes than could be read.
pub proof fn law_body_is_delivered_whole(
    max_size: nat,
    status: u32,
    length: EventView,
    pieces: Seq<(u32, Seq<u8>)>,
)
    requires
        200 <= status < 300,
        length_fits(length, max_size),
        body_fits(pieces, max_size),
    ensures
        run(
            first_turn(max_size),
            (response_head(status, length) + body_events(pieces)).push(EventView::Number(0)),
        ) == TurnView::Finished(Ok(PayloadView::Data(joined(pieces)))),
{
    lemma_body(max_size, status, length, pieces);
    lemma_run_step(
        first_turn(max_size),
        response_head(status, length) + body_events(pieces),
        EventView::Number(0),
    );
}

/// The news of a body begins with zero bytes: it comes after six calls, before any byte is read.
pub proof fn law_progress_begins_at_zero(max_size: nat, events: Seq<EventView>)
    requires
        events.len() == 6,
    ensures
        run(first_turn(max_size), events) matches TurnView::Perform(get) ==> get.pending
            == HttpCall::QueryAvailable && get.body.len() == 0,
{
    lemma_early(max_size, events);
}

proof fn lemma_early(max_size: nat, events: Seq<EventView>)
    requires
        events.len() <= 6,
    ensures
        run(first_turn(max_size), events) matches TurnView::Perform(get) ==> {
            &&& get.body.len() == 0
            &&& events.len() == 5 ==> get.pending == HttpCall::QueryLength
            &&& events.len() == 6 ==> get.pending == HttpCall::QueryAvailable
        },
    decreases events.len(),
{
    lemma_on_course(max_size, events);
    if events.len() > 0 {
        lemma_on_course(max_size, events.drop_last());
        lemma_early(max_size, events.drop_last());
    }
}

/// The body only grows: what has been read stays, and the told length and the limit do too.
pub proof fn law_body_only_grows(get: GetView, event: EventView)
    ensures
        match next_turn(get, event) {
            TurnView::Perform(later) => {
                &&& get.body.is_prefix_of(later.body)
                &&& later.max_size == get.max_size
                &&& get.pending != HttpCall::QueryLength ==> later.total == get.total
            },
            TurnView::Finished(Ok(PayloadView::Data(body))) => body == get.body,
            _ => true,
        },
{
    match next_turn(get, event) {
        TurnView::Perform(later) => {
            assert(get.body =~= later.body.subrange(0, get.body.len() as int));
        },
        _ => {},
    }
}

/// The told length is reported as it is. Once the sixth call has answered, every state of the
/// request has it as its total: the number, if one above zero was told, and none otherwise.
pub proof fn law_told_length_is_reported(max_size: nat, events: Seq<EventView>)
    requires
        events.len() > 5,
    ensures
        run(first_turn(max_size), events) matches TurnView::Perform(get) ==> match events[5] {
            EventView::Number(n) => n <= max_size && get.total == if n > 0 {
                Some(n as u64)
            } else {
                None
            },
            _ => get.total is None,
        },
    decreases events.len(),
{
    let front = events.drop_last();
    lemma_on_course(max_size, front);
    lemma_on_course(max_size, events);
    if events.len() > 6 {
        law_told_length_is_reported(max_size, front);
        assert(front[5] == events[5]);
        lemma_length_is_behind(max_size, front);
    } else {
        law_body_stays_within_limit(max_size, front);
        lemma_early(max_size, front);
    }
}

proof fn lemma_length_is_behind(max_size: nat, events: Seq<EventView>)
    requires
        events.len() > 5,
    ensures
        run(first_turn(max_size), events) matches TurnView::Perform(get) ==> get.pending
            != HttpCall::QueryLength,
    decreases events.len(),
{
    lemma_on_course(max_size, events.drop_last());
    if events.len() > 6 {
        lemma_length_is_behind(max_size, events.drop_last());
    } else {
        lemma_early(max_size, events);
    }
}

/// A request that has seen a status of success and a length that fits goes on, at zero bytes of
/// that total.
pub proof fn law_fitting_length_lets_the_body_begin(max_size: nat, status: u32, length: u32)
    requires
        200 <= status < 300,
        length <= max_size,
    ensures
        run(first_turn(max_size), response_head(status, EventView::Number(length)))
            == TurnView::Perform(
            GetView {
                max_size,
                total: if length > 0 {
                    Some(length as u64)
                } else {
                    None
                },
                body: Seq::empty(),
                pending: HttpCall::QueryAvailable,
            },
        ),
{
    let events = response_head(status, EventView::Number(length));
    lemma_head(max_size, status, EventView::Number(length));
    law_told_length_is_reported(max_size, events);
}

/// A request begins with nothing read, no length told, and a session to open.
pub proof fn law_request_begins_empty(max_size: nat)
    ensures
        first_turn(max_size) matches TurnView::Perform(get) && get.max_size == max_size && get.total
            is None && get.body.len() == 0 && get.pending == HttpCall::OpenSession,
{
}

/// Events are taken in one by one, and none behind the end.
pub proof fn law_events_are_taken_one_by_one(
    turn: TurnView,
    events: Seq<EventView>,
    event: EventView,
)
    ensures
        run(turn, Seq::empty()) == turn,
        run(turn, events) matches TurnView::Perform(get) ==> run(turn, events.push(event))
            == next_turn(get, event),
        run(turn, events) is Finished ==> run(turn, events.push(event)) == run(turn, events),
{
    lemma_run_step(turn, events, event);
}

/// The session, the connection, the request and the exchange follow each other, each where the one
/// before was done, and nothing else of the request changes.
pub proof fn law_calls_come_in_their_order(get: GetView)
    ensures
        get.pending == HttpCall::OpenSession ==> next_turn(get, EventView::Done)
            == TurnView::Perform(
            GetView {
                max_size: get.max_size,
                total: get.total,
                body: get.body,
                pending: HttpCall::Connect,
            },
        ),
        get.pending == HttpCall::Connect ==> next_turn(get, EventView::Done) == TurnView::Perform(
            GetView {
                max_size: get.max_size,
                total: get.total,
                body: get.body,
                pending: HttpCall::OpenRequest,
            },
        ),
        get.pending == HttpCall::OpenRequest ==> next_turn(get, EventView::Done)
            == TurnView::Perform(
            GetView {
                max_size: get.max_size,
                total: get.total,
                body: get.body,
                pending: HttpCall::Exchange,
            },
        ),
        get.pending == HttpCall::Exchange ==> next_turn(get, EventView::Done) == TurnView::Perform(
            GetView {
                max_size: get.max_size,
                total: get.total,
                body: get.body,
                pending: HttpCall::QueryStatus,
            },
        ),
{
}

/// A call that does not bring what it is made for ends the request, with a message of its own. The
/// length alone may be missing.
pub proof fn law_failed_call_ends_the_request(get: GetView, event: EventView)
    ensures
        get.pending == HttpCall::OpenSession && !(event is Done) ==> next_turn(get, event)
            == TurnView::Finished(Err("Cannot initialize WinHTTP."@)),
        get.pending == HttpCall::Connect && !(event is Done) ==> next_turn(get, event)
            == TurnView::Finished(Err("Cannot connect to update server."@)),
        get.pending == HttpCall::OpenRequest && !(event is Done) ==> next_turn(get, event)
            == TurnView::Finished(Err("Cannot create update request."@)),
        get.pending == HttpCall::Exchange && !(event is Done) ==> next_turn(get, event)
            == TurnView::Finished(Err("Update request failed."@)),
        get.pending == HttpCall::QueryStatus && !(event is Number) ==> next_turn(get, event)
            == TurnView::Finished(Err("Cannot read update HTTP status."@)),
        get.pending == HttpCall::QueryAvailable && !(event is Number) ==> next_turn(get, event)
            == TurnView::Finished(Err("Cannot read update response."@)),
        get.pending is Read && !(event is Bytes) ==> next_turn(get, event) == TurnView::Finished(
            Err("Cannot read update response."@),
        ),
        get.pending == HttpCall::QueryLength && !(event is Number) ==> next_turn(get, event)
            == TurnView::Perform(
            GetView {
                max_size: get.max_size,
                total: None,
                body: get.body,
                pending: HttpCall::QueryAvailable,
            },
        ),
{
}

/// Of the status codes those from 200 to 299 let the request go on, 404 ends it without a
/// resource, and all others end it with a message that tells the code.
pub proof fn law_status_decides(get: GetView, code: u32)
    requires
        get.pending == HttpCall::QueryStatus,
    ensures
        200 <= code <= 299 ==> next_turn(get, EventView::Number(code)) == TurnView::Perform(
            GetView {
                max_size: get.max_size,
                total: get.total,
                body: get.body,
                pending: HttpCall::QueryLength,
            },
        ),
        code == 404 ==> next_turn(get, EventView::Number(code)) == TurnView::Finished(
            Ok(PayloadView::NotFound),
        ),
        (code < 200 || code > 299) && code != 404 ==> next_turn(get, EventView::Number(code))
            == TurnView::Finished(
            Err("Update server returned HTTP "@ + decimal(code as nat) + "."@),
        ),
{
}

/// A told length within the limit becomes the total, zero becomes none. A length above the limit
/// ends the request with a message that tells both.
pub proof fn law_length_decides(get: GetView, n: u32)
    requires
        get.pending == HttpCall::QueryLength,
    ensures
        n <= get.max_size ==> {
            &&& next_turn(get, EventView::Number(n)) matches TurnView::Perform(later)
                && later.max_size == get.max_size && later.body == get.body && later.pending
                == HttpCall::QueryAvailable && (n == 0 ==> later.total is None) && (n > 0
                ==> later.total is Some && later.total->0 == n)
        },
        n > get.max_size ==> next_turn(get, EventView::Number(n)) == TurnView::Finished(
            Err(
                "Update response is too large ("@ + decimal(n as nat) + " bytes; limit is "@
                    + decimal(get.max_size) + ")."@,
            ),
        ),
{
}

/// Where no byte can be read the body is complete and delivered. Where the bytes that can be read
/// fit the limit with those already there, all of them are asked for. Else the request ends with a
/// message that tells the limit.
pub proof fn law_available_bytes_decide(get: GetView, n: u32)
    requires
        get.pending == HttpCall::QueryAvailable,
    ensures
        n == 0 ==> next_turn(get, EventView::Number(n)) == TurnView::Finished(
            Ok(PayloadView::Data(get.body)),
        ),
        n > 0 && get.body.len() + n <= get.max_size ==> next_turn(get, EventView::Number(n))
            == TurnView::Perform(
            GetView {
                max_size: get.max_size,
                total: get.total,
                body: get.body,
                pending: HttpCall::Read(n),
            },
        ),
        n > 0 && get.body.len() + n > get.max_size ==> next_turn(get, EventView::Number(n))
            == TurnView::Finished(
            Err("Update response exceeds the "@ + decimal(get.max_size) + "-byte limit."@),
        ),
{
}

/// The bytes of a read go behind those already there, in their order, and no more of them than
/// were asked for. Nothing else changes, and the next question is for more.
pub proof fn law_read_bytes_go_behind_the_body(get: GetView, asked: u32, chunk: Seq<u8>)
    requires
        get.pending == HttpCall::Read(asked),
    ensures
        next_turn(get, EventView::Bytes(chunk)) matches TurnView::Perform(later) && {
            &&& later.max_size == get.max_size
            &&& later.total == get.total
            &&& later.pending == HttpCall::QueryAvailable
            &&& chunk.len() <= asked ==> later.body == get.body + chunk
            &&& chunk.len() > asked ==> later.body == get.body + chunk.subrange(0, asked as int)
        },
{
}

/// Requests, payloads, events and turns are seen case by case, with every field as it is.
pub proof fn law_turns_are_seen_as_they_are(
    request: HttpRequest,
    body: Vec<u8>,
    n: u32,
    get: HttpGet,
    payload: HttpPayload,
    message: String,
)
    ensures
        request@.host == request.host@,
        request@.path == request.path@,
        request@.max_size == request.max_size,
        HttpPayload::Data(body)@ == PayloadView::Data(body@),
        HttpPayload::NotFound@ == PayloadView::NotFound,
        HttpEvent::Done@ == EventView::Done,
        HttpEvent::Number(n)@ == EventView::Number(n),
        HttpEvent::Bytes(body)@ == EventView::Bytes(body@),
        HttpEvent::Failed@ == EventView::Failed,
        HttpTurn::Perform(get)@ == TurnView::Perform(get@),
        HttpTurn::Finished(Ok(payload))@ == TurnView::Finished(Ok(payload@)),
        HttpTurn::Finished(Err(message))@ == TurnView::Finished(Err(message@)),
        payload_result(Ok(payload)) == Ok::<PayloadView, Seq<char>>(payload@),
        payload_result(Err(message)) == Err::<PayloadView, Seq<char>>(message@),
{
}

} // verus!
