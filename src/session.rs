use vstd::prelude::*;
use crate::command::{command_line, encode_command, Verb};
use crate::decode::{
    decode_listing, listing_entries, parse_mdtm, parse_pwd, parse_size, pwd_outcome, size_outcome,
    timestamp_outcome, views_of, Timestamp,
};
use crate::passive::{parse_passive, passive_outcome, PassiveAddress};
use crate::reply::text_bytes;
use crate::types::{ErrorKind, FtpError, Line};

verus! {

/// One operation of a session, with its arguments.
pub enum Request {
    /// Reads the server's greeting after the control connection opens.
    Greeting,
    /// Sends the user name, then the password only if the server asks for it.
    Login(String, String),
    User(String),
    Pass(String),
    Cwd(String),
    Cdup,
    Pwd,
    Noop,
    Mkdir(String),
    Pasv,
    Quit,
    Rename(String, String),
    Rmdir(String),
    Rm(String),
    /// Stores a file; the caller supplies its bytes.
    Put(String),
    /// Retrieves a file into a caller's handler; the closing reply is read
    /// after the handler has run, whatever it reported.
    Retr(String),
    /// Retrieves a file by handing the open data connection to the caller.
    /// The exchange ends without reading the closing reply: the caller must
    /// drain and close the connection and then read that reply itself, or
    /// every later reply on the control channel is out of step.
    Get(String),
    List(Option<String>),
    Nlist(Option<String>),
    Size(String),
    Mdtm(String),
}

/// Where an exchange stands.
#[derive(Debug, Clone, Copy, PartialEq, Eq, Structural)]
pub enum Phase {
    Start,
    /// The first command is being written.
    Sending1,
    /// The reply to the first command is being read.
    Reply1,
    /// The follow-up command (password, rename target) is being written.
    Sending2,
    Reply2,
    /// The data connection is being opened.
    Opening,
    /// The transfer command is being written.
    SendingTransfer,
    /// The reply that announces the transfer is being read.
    ReplyTransfer,
    /// Bytes are moving over the data connection.
    Transferring,
    /// The data connection is being closed.
    ClosingData,
    /// The reply that closes the transfer is being read.
    ReplyClosing,
    Finished,
}

/// What a finished exchange yields.
pub enum Outcome {
    Done,
    Path(String),
    Address(PassiveAddress),
    Size(Option<usize>),
    Modified(Option<Timestamp>),
    Listing(Vec<Vec<u8>>),
    /// The data connection is open and handed to the caller, who owes the
    /// closing reply.
    DataReady,
}

pub enum OutcomeView {
    Done,
    Path(Seq<char>),
    Address(PassiveAddress),
    Size(Option<usize>),
    Modified(Option<Timestamp>),
    Listing(Seq<Seq<u8>>),
    DataReady,
}

impl View for Outcome {
    type V = OutcomeView;

    open spec fn view(&self) -> OutcomeView {
        match self {
            Outcome::Done => OutcomeView::Done,
            Outcome::Path(p) => OutcomeView::Path(p@),
            Outcome::Address(a) => OutcomeView::Address(*a),
            Outcome::Size(s) => OutcomeView::Size(*s),
            Outcome::Modified(t) => OutcomeView::Modified(*t),
            Outcome::Listing(v) => OutcomeView::Listing(views_of(v@)),
            Outcome::DataReady => OutcomeView::DataReady,
        }
    }
}

/// What the caller must do next on the exchange's behalf.
pub enum Action {
    /// Write these bytes to the control channel and flush.
    Send(Vec<u8>),
    /// Read one reply, accepting these codes.
    ReadReply(Vec<u32>),
    /// Open a data connection to this address.
    OpenData(PassiveAddress),
    /// Copy the caller's source into the data connection.
    Upload,
    /// Hand the data connection to the caller's handler until it is drained.
    Download,
    /// Read the data connection to end of stream.
    Drain,
    /// Close the data connection.
    CloseData,
    /// The exchange is over.
    Finish(Result<Outcome, FtpError>),
}

pub enum ActionView {
    Send(Seq<u8>),
    ReadReply(Seq<u32>),
    OpenData(PassiveAddress),
    Upload,
    Download,
    Drain,
    CloseData,
    Finish(Result<OutcomeView, ErrorKind>),
}

impl View for Action {
    type V = ActionView;

    open spec fn view(&self) -> ActionView {
        match self {
            Action::Send(b) => ActionView::Send(b@),
            Action::ReadReply(c) => ActionView::ReadReply(c@),
            Action::OpenData(a) => ActionView::OpenData(*a),
            Action::Upload => ActionView::Upload,
            Action::Download => ActionView::Download,
            Action::Drain => ActionView::Drain,
            Action::CloseData => ActionView::CloseData,
            Action::Finish(r) => ActionView::Finish(
                match r {
                    Ok(o) => Ok(o@),
                    Err(e) => Err(e.kind()),
                },
            ),
        }
    }
}

/// What came of the last action.
pub enum Event {
    /// It was carried out.
    Done,
    /// The reply that was read.
    Reply(Result<Line, FtpError>),
    /// The whole payload of a drained data connection.
    Payload(Vec<u8>),
    /// It failed; for a handler, the handler's own error.
    Failed(FtpError),
}

pub struct ExchangeView {
    pub phase: Phase,
    /// The decoded listing, once drained.
    pub entries: Seq<Seq<u8>>,
    /// A handler's error, reported once the closing reply is in.
    pub deferred: Option<ErrorKind>,
}

pub struct StepView {
    pub state: ExchangeView,
    pub action: ActionView,
}

// ---- what each request sends and expects ----

pub open spec fn arg_view(p: Option<String>) -> Option<Seq<char>> {
    match p {
        Some(s) => Some(s@),
        None => None,
    }
}

/// The first command of a request; the greeting sends none. Transfers
/// start by asking for passive mode.
pub open spec fn first_command(req: Request) -> Option<Seq<u8>> {
    match req {
        Request::Greeting => None,
        Request::Login(u, _) => Some(command_line(Verb::User, Some(u@))),
        Request::User(u) => Some(command_line(Verb::User, Some(u@))),
        Request::Pass(p) => Some(command_line(Verb::Pass, Some(p@))),
        Request::Cwd(p) => Some(command_line(Verb::Cwd, Some(p@))),
        Request::Cdup => Some(command_line(Verb::Cdup, None)),
        Request::Pwd => Some(command_line(Verb::Pwd, None)),
        Request::Noop => Some(command_line(Verb::Noop, None)),
        Request::Mkdir(p) => Some(command_line(Verb::Mkd, Some(p@))),
        Request::Quit => Some(command_line(Verb::Quit, None)),
        Request::Rename(f, _) => Some(command_line(Verb::Rnfr, Some(f@))),
        Request::Rmdir(p) => Some(command_line(Verb::Rmd, Some(p@))),
        Request::Rm(p) => Some(command_line(Verb::Dele, Some(p@))),
        Request::Size(p) => Some(command_line(Verb::Size, Some(p@))),
        Request::Mdtm(p) => Some(command_line(Verb::Mdtm, Some(p@))),
        _ => Some(command_line(Verb::Pasv, None)),
    }
}

/// The codes accepted in reply to the first command.
pub open spec fn first_codes(req: Request) -> Seq<u32> {
    match req {
        Request::Greeting => seq![220u32],
        Request::Login(_, _) => seq![230u32, 331],
        Request::User(_) => seq![230u32, 331],
        Request::Pass(_) => seq![230u32],
        Request::Cwd(_) => seq![250u32],
        Request::Cdup => seq![250u32],
        Request::Pwd => seq![257u32],
        Request::Noop => seq![200u32],
        Request::Mkdir(_) => seq![257u32],
        Request::Quit => seq![221u32],
        Request::Rename(_, _) => seq![350u32],
        Request::Rmdir(_) => seq![250u32],
        Request::Rm(_) => seq![250u32],
        Request::Size(_) => seq![213u32, 550],
        Request::Mdtm(_) => seq![213u32],
        _ => seq![227u32],
    }
}

/// The follow-up command of a two-step request.
pub open spec fn second_command(req: Request) -> Seq<u8> {
    match req {
        Request::Login(_, p) => command_line(Verb::Pass, Some(p@)),
        Request::Rename(_, t) => command_line(Verb::Rnto, Some(t@)),
        _ => Seq::empty(),
    }
}

pub open spec fn second_codes(req: Request) -> Seq<u32> {
    match req {
        Request::Login(_, _) => seq![230u32],
        _ => seq![250u32],
    }
}

pub open spec fn is_transfer(req: Request) -> bool {
    req is Put || req is Retr || req is Get || req is List || req is Nlist
}

pub open spec fn is_listing(req: Request) -> bool {
    req is List || req is Nlist
}

/// The command that starts a transfer on the opened data connection.
pub open spec fn transfer_command(req: Request) -> Seq<u8> {
    match req {
        Request::Put(f) => command_line(Verb::Stor, Some(f@)),
        Request::Retr(f) => command_line(Verb::Retr, Some(f@)),
        Request::Get(f) => command_line(Verb::Retr, Some(f@)),
        Request::List(p) => command_line(Verb::List, arg_view(p)),
        Request::Nlist(p) => command_line(Verb::Nlst, arg_view(p)),
        _ => Seq::empty(),
    }
}

/// How the bytes of a transfer move.
pub open spec fn transfer_action(req: Request) -> ActionView {
    match req {
        Request::Put(_) => ActionView::Upload,
        Request::Retr(_) => ActionView::Download,
        _ => ActionView::Drain,
    }
}

// ---- the transition function ----

pub open spec fn go(x: ExchangeView, phase: Phase, action: ActionView) -> StepView {
    StepView { state: ExchangeView { phase, entries: x.entries, deferred: x.deferred }, action }
}

pub open spec fn fail(x: ExchangeView, k: ErrorKind) -> StepView {
    go(x, Phase::Finished, ActionView::Finish(Err(k)))
}

pub open spec fn finish(x: ExchangeView, o: OutcomeView) -> StepView {
    go(x, Phase::Finished, ActionView::Finish(Ok(o)))
}

/// The step taken once the first reply, with code `code` and final line
/// `text`, has been accepted.
pub open spec fn after_first(req: Request, x: ExchangeView, code: u32, text: Seq<char>) -> StepView {
    match req {
        Request::Login(_, _) => if code == crate::status::NEED_PASSWORD {
            go(x, Phase::Sending2, ActionView::Send(second_command(req)))
        } else {
            finish(x, OutcomeView::Done)
        },
        Request::Rename(_, _) => go(x, Phase::Sending2, ActionView::Send(second_command(req))),
        Request::Pasv => match passive_outcome(text_bytes(text)) {
            Ok(a) => finish(x, OutcomeView::Address(a)),
            Err(k) => fail(x, k),
        },
        Request::Pwd => match pwd_outcome(text) {
            Ok(p) => finish(x, OutcomeView::Path(p)),
            Err(k) => fail(x, k),
        },
        Request::Size(_) => match size_outcome(code, text_bytes(text)) {
            Ok(s) => finish(x, OutcomeView::Size(s)),
            Err(k) => fail(x, k),
        },
        Request::Mdtm(_) => finish(x, OutcomeView::Modified(timestamp_outcome(text_bytes(text)))),
        _ => if is_transfer(req) {
            match passive_outcome(text_bytes(text)) {
                Ok(a) => go(x, Phase::Opening, ActionView::OpenData(a)),
                Err(k) => fail(x, k),
            }
        } else {
            finish(x, OutcomeView::Done)
        },
    }
}

/// An event that only says whether the last action was carried out.
pub open spec fn on_done(x: ExchangeView, ev: Event, then: StepView) -> StepView {
    match ev {
        Event::Done => then,
        Event::Failed(e) => fail(x, e.kind()),
        _ => fail(x, ErrorKind::Connection),
    }
}

/// An event that should bring an accepted reply.
pub open spec fn on_reply(x: ExchangeView, ev: Event, then: StepView) -> StepView {
    match ev {
        Event::Reply(Ok(_)) => then,
        Event::Reply(Err(e)) => fail(x, e.kind()),
        Event::Failed(e) => fail(x, e.kind()),
        _ => fail(x, ErrorKind::Connection),
    }
}

/// The exchange for `req` in state `x` takes event `ev`: its next state and
/// the action it asks for.
pub open spec fn next(req: Request, x: ExchangeView, ev: Event) -> StepView {
    match x.phase {
        Phase::Start => match first_command(req) {
            Some(c) => go(x, Phase::Sending1, ActionView::Send(c)),
            None => go(x, Phase::Reply1, ActionView::ReadReply(first_codes(req))),
        },
        Phase::Sending1 => on_done(
            x,
            ev,
            go(x, Phase::Reply1, ActionView::ReadReply(first_codes(req))),
        ),
        Phase::Reply1 => match ev {
            Event::Reply(Ok(Line(code, text))) => after_first(req, x, code, text@),
            _ => on_reply(x, ev, fail(x, ErrorKind::Connection)),
        },
        Phase::Sending2 => on_done(
            x,
            ev,
            go(x, Phase::Reply2, ActionView::ReadReply(second_codes(req))),
        ),
        Phase::Reply2 => on_reply(x, ev, finish(x, OutcomeView::Done)),
        Phase::Opening => on_done(
            x,
            ev,
            go(x, Phase::SendingTransfer, ActionView::Send(transfer_command(req))),
        ),
        Phase::SendingTransfer => on_done(
            x,
            ev,
            go(x, Phase::ReplyTransfer, ActionView::ReadReply(seq![125u32, 150])),
        ),
        Phase::ReplyTransfer => on_reply(
            x,
            ev,
            if req is Get {
                finish(x, OutcomeView::DataReady)
            } else {
                go(x, Phase::Transferring, transfer_action(req))
            },
        ),
        Phase::Transferring => match ev {
            Event::Done => if is_listing(req) {
                fail(x, ErrorKind::Connection)
            } else {
                go(x, Phase::ClosingData, ActionView::CloseData)
            },
            Event::Payload(p) => if is_listing(req) {
                StepView {
                    state: ExchangeView {
                        phase: Phase::ClosingData,
                        entries: listing_entries(p@),
                        deferred: x.deferred,
                    },
                    action: ActionView::CloseData,
                }
            } else {
                fail(x, ErrorKind::Connection)
            },
            Event::Failed(e) => if req is Retr {
                StepView {
                    state: ExchangeView {
                        phase: Phase::ClosingData,
                        entries: x.entries,
                        deferred: Some(e.kind()),
                    },
                    action: ActionView::CloseData,
                }
            } else {
                fail(x, e.kind())
            },
            _ => fail(x, ErrorKind::Connection),
        },
        Phase::ClosingData => on_done(
            x,
            ev,
            go(x, Phase::ReplyClosing, ActionView::ReadReply(seq![226u32])),
        ),
        Phase::ReplyClosing => on_reply(
            x,
            ev,
            match x.deferred {
                Some(k) => StepView {
                    state: ExchangeView { phase: Phase::Finished, entries: x.entries, deferred: None },
                    action: ActionView::Finish(Err(k)),
                },
                None => if is_listing(req) {
                    StepView {
                        state: ExchangeView {
                            phase: Phase::Finished,
                            entries: Seq::empty(),
                            deferred: None,
                        },
                        action: ActionView::Finish(Ok(OutcomeView::Listing(x.entries))),
                    }
                } else {
                    finish(x, OutcomeView::Done)
                },
            },
        ),
        Phase::Finished => fail(x, ErrorKind::Connection),
    }
}

// ---- the exchange ----

/// One request in progress. The caller performs each action it asks for
/// and feeds back what came of it, until it finishes.
pub struct Exchange {
    pub request: Request,
    pub phase: Phase,
    pub entries: Vec<Vec<u8>>,
    pub deferred: Option<FtpError>,
}

impl View for Exchange {
    type V = ExchangeView;

    open spec fn view(&self) -> ExchangeView {
        ExchangeView {
            phase: self.phase,
            entries: views_of(self.entries@),
            deferred: match self.deferred {
                Some(e) => Some(e.kind()),
                None => None,
            },
        }
    }
}

fn first_command_exec(req: &Request) -> (r: Option<Vec<u8>>)
    ensures
        match first_command(*req) {
            Some(c) => r is Some && r->0@ == c,
            None => r is None,
        },
{
    match req {
        Request::Greeting => None,
        Request::Login(u, _) => Some(encode_command(Verb::User, Some(u.as_str()))),
        Request::User(u) => Some(encode_command(Verb::User, Some(u.as_str()))),
        Request::Pass(p) => Some(encode_command(Verb::Pass, Some(p.as_str()))),
        Request::Cwd(p) => Some(encode_command(Verb::Cwd, Some(p.as_str()))),
        Request::Cdup => Some(encode_command(Verb::Cdup, None)),
        Request::Pwd => Some(encode_command(Verb::Pwd, None)),
        Request::Noop => Some(encode_command(Verb::Noop, None)),
        Request::Mkdir(p) => Some(encode_command(Verb::Mkd, Some(p.as_str()))),
        Request::Quit => Some(encode_command(Verb::Quit, None)),
        Request::Rename(f, _) => Some(encode_command(Verb::Rnfr, Some(f.as_str()))),
        Request::Rmdir(p) => Some(encode_command(Verb::Rmd, Some(p.as_str()))),
        Request::Rm(p) => Some(encode_command(Verb::Dele, Some(p.as_str()))),
        Request::Size(p) => Some(encode_command(Verb::Size, Some(p.as_str()))),
        Request::Mdtm(p) => Some(encode_command(Verb::Mdtm, Some(p.as_str()))),
        _ => Some(encode_command(Verb::Pasv, None)),
    }
}

fn first_codes_exec(req: &Request) -> (r: Vec<u32>)
    ensures
        r@ == first_codes(*req),
{
    match req {
        Request::Greeting => vec![220u32],
        Request::Login(_, _) => vec![230u32, 331],
        Request::User(_) => vec![230u32, 331],
        Request::Pass(_) => vec![230u32],
        Request::Cwd(_) => vec![250u32],
        Request::Cdup => vec![250u32],
        Request::Pwd => vec![257u32],
        Request::Noop => vec![200u32],
        Request::Mkdir(_) => vec![257u32],
        Request::Quit => vec![221u32],
        Request::Rename(_, _) => vec![350u32],
        Request::Rmdir(_) => vec![250u32],
        Request::Rm(_) => vec![250u32],
        Request::Size(_) => vec![213u32, 550],
        Request::Mdtm(_) => vec![213u32],
        _ => vec![227u32],
    }
}

fn second_command_exec(req: &Request) -> (r: Vec<u8>)
    ensures
        r@ == second_command(*req),
{
    match req {
        Request::Login(_, p) => encode_command(Verb::Pass, Some(p.as_str())),
        Request::Rename(_, t) => encode_command(Verb::Rnto, Some(t.as_str())),
        _ => Vec::new(),
    }
}

fn second_codes_exec(req: &Request) -> (r: Vec<u32>)
    ensures
        r@ == second_codes(*req),
{
    match req {
        Request::Login(_, _) => vec![230u32],
        _ => vec![250u32],
    }
}

fn opt_str(p: &Option<String>) -> (r: Option<&str>)
    ensures
        crate::command::opt_view(r) == arg_view(*p),
{
    match p {
        Some(s) => Some(s.as_str()),
        None => None,
    }
}

fn transfer_command_exec(req: &Request) -> (r: Vec<u8>)
    ensures
        r@ == transfer_command(*req),
{
    match req {
        Request::Put(f) => encode_command(Verb::Stor, Some(f.as_str())),
        Request::Retr(f) => encode_command(Verb::Retr, Some(f.as_str())),
        Request::Get(f) => encode_command(Verb::Retr, Some(f.as_str())),
        Request::List(p) => encode_command(Verb::List, opt_str(p)),
        Request::Nlist(p) => encode_command(Verb::Nlst, opt_str(p)),
        _ => Vec::new(),
    }
}

fn transfer_action_exec(req: &Request) -> (r: Action)
    ensures
        r@ == transfer_action(*req),
{
    match req {
        Request::Put(_) => Action::Upload,
        Request::Retr(_) => Action::Download,
        _ => Action::Drain,
    }
}

fn is_listing_exec(req: &Request) -> (r: bool)
    ensures
        r == is_listing(*req),
{
    match req {
        Request::List(_) => true,
        Request::Nlist(_) => true,
        _ => false,
    }
}

pub open spec fn result_view(r: Result<Outcome, FtpError>) -> Result<OutcomeView, ErrorKind> {
    match r {
        Ok(o) => Ok(o@),
        Err(e) => Err(e.kind()),
    }
}

impl Exchange {
    /// The exchange is in one of the phases its request can reach.
    pub open spec fn wf(&self) -> bool {
        phase_possible(self.request, self.phase)
    }

    pub fn new(request: Request) -> (r: Exchange)
        ensures
            r.wf(),
            r.request == request,
            r@.phase == Phase::Start,
            r@.entries == Seq::<Seq<u8>>::empty(),
            r@.deferred is None,
    {
        let r = Exchange { request, phase: Phase::Start, entries: Vec::new(), deferred: None };
        assert(r@.entries =~= Seq::<Seq<u8>>::empty());
        r
    }

    fn finish_with(&mut self, res: Result<Outcome, FtpError>) -> (r: Action)
        ensures
            final(self).request == old(self).request,
            final(self).entries == old(self).entries,
            final(self).deferred == old(self).deferred,
            final(self).phase == Phase::Finished,
            r@ == ActionView::Finish(result_view(res)),
    {
        self.phase = Phase::Finished;
        Action::Finish(res)
    }

    fn out_of_order(&mut self) -> (r: Action)
        ensures
            final(self).request == old(self).request,
            final(self).entries == old(self).entries,
            final(self).deferred == old(self).deferred,
            final(self).phase == Phase::Finished,
            r@ == ActionView::Finish(Err(ErrorKind::Connection)),
    {
        self.finish_with(Err(FtpError::ConnectionError("event out of order for this exchange".to_owned())))
    }

    fn after_first_exec(&mut self, code: u32, text: String) -> (r: Action)
        ensures
            final(self).request == old(self).request,
            final(self)@ == after_first(old(self).request, old(self)@, code, text@).state,
            r@ == after_first(old(self).request, old(self)@, code, text@).action,
    {
        match self.request {
            Request::Login(_, _) => {
                if code == crate::status::NEED_PASSWORD {
                    let c = second_command_exec(&self.request);
                    self.phase = Phase::Sending2;
                    Action::Send(c)
                } else {
                    self.finish_with(Ok(Outcome::Done))
                }
            },
            Request::Rename(_, _) => {
                let c = second_command_exec(&self.request);
                self.phase = Phase::Sending2;
                Action::Send(c)
            },
            Request::Pasv => match parse_passive(text.as_str()) {
                Ok(a) => self.finish_with(Ok(Outcome::Address(a))),
                Err(e) => self.finish_with(Err(e)),
            },
            Request::Pwd => match parse_pwd(text.as_str()) {
                Ok(p) => self.finish_with(Ok(Outcome::Path(p))),
                Err(e) => self.finish_with(Err(e)),
            },
            Request::Size(_) => match parse_size(code, text.as_str()) {
                Ok(n) => self.finish_with(Ok(Outcome::Size(n))),
                Err(e) => self.finish_with(Err(e)),
            },
            Request::Mdtm(_) => {
                let t = parse_mdtm(text.as_str());
                self.finish_with(Ok(Outcome::Modified(t)))
            },
            Request::Put(_) | Request::Retr(_) | Request::Get(_) | Request::List(_)
            | Request::Nlist(_) => match parse_passive(text.as_str()) {
                Ok(a) => {
                    self.phase = Phase::Opening;
                    Action::OpenData(a)
                },
                Err(e) => self.finish_with(Err(e)),
            },
            _ => self.finish_with(Ok(Outcome::Done)),
        }
    }

    /// Takes what came of the last action and says what to do next.
    pub fn step(&mut self, ev: Event) -> (r: Action)
        ensures
            old(self).wf() ==> final(self).wf(),
            final(self).request == old(self).request,
            final(self)@ == next(old(self).request, old(self)@, ev).state,
            r@ == next(old(self).request, old(self)@, ev).action,
    {
        match self.phase {
            Phase::Start => match first_command_exec(&self.request) {
                Some(c) => {
                    self.phase = Phase::Sending1;
                    Action::Send(c)
                },
                None => {
                    self.phase = Phase::Reply1;
                    Action::ReadReply(first_codes_exec(&self.request))
                },
            },
            Phase::Sending1 => match ev {
                Event::Done => {
                    self.phase = Phase::Reply1;
                    Action::ReadReply(first_codes_exec(&self.request))
                },
                Event::Failed(e) => self.finish_with(Err(e)),
                _ => self.out_of_order(),
            },
            Phase::Reply1 => match ev {
                Event::Reply(Ok(Line(code, text))) => self.after_first_exec(code, text),
                Event::Reply(Err(e)) => self.finish_with(Err(e)),
                Event::Failed(e) => self.finish_with(Err(e)),
                _ => self.out_of_order(),
            },
            Phase::Sending2 => match ev {
                Event::Done => {
                    self.phase = Phase::Reply2;
                    Action::ReadReply(second_codes_exec(&self.request))
                },
                Event::Failed(e) => self.finish_with(Err(e)),
                _ => self.out_of_order(),
            },
            Phase::Reply2 => match ev {
                Event::Reply(Ok(_)) => self.finish_with(Ok(Outcome::Done)),
                Event::Reply(Err(e)) => self.finish_with(Err(e)),
                Event::Failed(e) => self.finish_with(Err(e)),
                _ => self.out_of_order(),
            },
            Phase::Opening => match ev {
                Event::Done => {
                    self.phase = Phase::SendingTransfer;
                    Action::Send(transfer_command_exec(&self.request))
                },
                Event::Failed(e) => self.finish_with(Err(e)),
                _ => self.out_of_order(),
            },
            Phase::SendingTransfer => match ev {
                Event::Done => {
                    self.phase = Phase::ReplyTransfer;
                    let c = vec![crate::status::ALREADY_OPEN, crate::status::ABOUT_TO_SEND];
                    assert(c@ =~= seq![125u32, 150]);
                    Action::ReadReply(c)
                },
                Event::Failed(e) => self.finish_with(Err(e)),
                _ => self.out_of_order(),
            },
            Phase::ReplyTransfer => match ev {
                Event::Reply(Ok(_)) => {
                    if matches!(self.request, Request::Get(_)) {
                        self.finish_with(Ok(Outcome::DataReady))
                    } else {
                        self.phase = Phase::Transferring;
                        transfer_action_exec(&self.request)
                    }
                },
                Event::Reply(Err(e)) => self.finish_with(Err(e)),
                Event::Failed(e) => self.finish_with(Err(e)),
                _ => self.out_of_order(),
            },
            Phase::Transferring => match ev {
                Event::Done => {
                    if is_listing_exec(&self.request) {
                        self.out_of_order()
                    } else {
                        self.phase = Phase::ClosingData;
                        Action::CloseData
                    }
                },
                Event::Payload(p) => {
                    if is_listing_exec(&self.request) {
                        self.entries = decode_listing(p.as_slice());
                        self.phase = Phase::ClosingData;
                        Action::CloseData
                    } else {
                        self.out_of_order()
                    }
                },
                Event::Failed(e) => {
                    if matches!(self.request, Request::Retr(_)) {
                        self.deferred = Some(e);
                        self.phase = Phase::ClosingData;
                        Action::CloseData
                    } else {
                        self.finish_with(Err(e))
                    }
                },
                _ => self.out_of_order(),
            },
            Phase::ClosingData => match ev {
                Event::Done => {
                    self.phase = Phase::ReplyClosing;
                    let c = vec![crate::status::CLOSING_DATA_CONNECTION];
                    assert(c@ =~= seq![226u32]);
                    Action::ReadReply(c)
                },
                Event::Failed(e) => self.finish_with(Err(e)),
                _ => self.out_of_order(),
            },
            Phase::ReplyClosing => match ev {
                Event::Reply(Ok(_)) => {
                    let mut d: Option<FtpError> = None;
                    std::mem::swap(&mut d, &mut self.deferred);
                    match d {
                        Some(e) => {
                            self.phase = Phase::Finished;
                            Action::Finish(Err(e))
                        },
                        None => {
                            if is_listing_exec(&self.request) {
                                let mut v: Vec<Vec<u8>> = Vec::new();
                                std::mem::swap(&mut v, &mut self.entries);
                                self.phase = Phase::Finished;
                                proof {
                                    assert(views_of(self.entries@) =~= Seq::<Seq<u8>>::empty());
                                }
                                Action::Finish(Ok(Outcome::Listing(v)))
                            } else {
                                self.finish_with(Ok(Outcome::Done))
                            }
                        },
                    }
                },
                Event::Reply(Err(e)) => self.finish_with(Err(e)),
                Event::Failed(e) => self.finish_with(Err(e)),
                _ => self.out_of_order(),
            },
            Phase::Finished => self.out_of_order(),
        }
    }
}

// ---- laws ----

/// The phases an exchange for `req` can be in: a transfer never sends a
/// follow-up command, and any other request never touches a data connection.
pub open spec fn phase_possible(req: Request, p: Phase) -> bool {
    if is_transfer(req) {
        p != Phase::Sending2 && p != Phase::Reply2
    } else {
        p == Phase::Start || p == Phase::Sending1 || p == Phase::Reply1 || p == Phase::Sending2
            || p == Phase::Reply2 || p == Phase::Finished
    }
}

/// Every step keeps an exchange within the phases of its request.
pub proof fn lemma_phase_possible_kept(req: Request, x: ExchangeView, ev: Event)
    requires
        phase_possible(req, x.phase),
    ensures
        phase_possible(req, next(req, x, ev).state.phase),
{
}

/// Login sends the password exactly when the server asks for it. After the
/// reply to the user name, the need-password code leads to sending the
/// password, and any other accepted code ends the login at once, with
/// success and without a password. A login succeeds only there or on an
/// accepted reply to the password, and the password's reply is read only
/// after the password was sent.
pub proof fn lemma_login_password_step(user: String, pass: String, x: ExchangeView, ev: Event)
    requires
        phase_possible(Request::Login(user, pass), x.phase),
    ensures
        ({
            let req = Request::Login(user, pass);
            let s = next(req, x, ev);
            let accepted = ev is Reply && ev->Reply_0 is Ok;
            &&& x.phase == Phase::Reply1 && accepted && ev->Reply_0->Ok_0.0
                == crate::status::NEED_PASSWORD ==> {
                &&& s.action == ActionView::Send(command_line(Verb::Pass, Some(pass@)))
                &&& s.state.phase == Phase::Sending2
            }
            &&& x.phase == Phase::Reply1 && accepted && ev->Reply_0->Ok_0.0
                != crate::status::NEED_PASSWORD ==> s.action == ActionView::Finish(
                Ok(OutcomeView::Done),
            )
            &&& s.action == ActionView::Finish(Ok(OutcomeView::Done)) ==> accepted && (
            (x.phase == Phase::Reply1 && ev->Reply_0->Ok_0.0 != crate::status::NEED_PASSWORD)
                || x.phase == Phase::Reply2)
            &&& s.state.phase == Phase::Sending2 && x.phase != Phase::Sending2 ==> x.phase
                == Phase::Reply1 && accepted && ev->Reply_0->Ok_0.0 == crate::status::NEED_PASSWORD
            &&& s.state.phase == Phase::Reply2 ==> x.phase == Phase::Sending2 && ev is Done
        }),
{
}

/// The reply that closes a transfer is asked for only once the data
/// connection has been closed, and the data connection is closed only once
/// the transfer over it has ended: for a listing, once its payload was
/// drained to end of stream, which is what the entries are decoded from.
pub proof fn lemma_closing_reply_after_data_closed(req: Request, x: ExchangeView, ev: Event)
    ensures
        ({
            let s = next(req, x, ev);
            &&& s.action == ActionView::ReadReply(seq![226u32]) ==> x.phase == Phase::ClosingData
                && ev is Done
            &&& s.state.phase == Phase::ReplyClosing ==> x.phase == Phase::ClosingData && ev is Done
            &&& s.action is CloseData ==> x.phase == Phase::Transferring
            &&& s.state.phase == Phase::ClosingData && x.phase != Phase::ClosingData ==> {
                &&& x.phase == Phase::Transferring
                &&& s.action is CloseData
                &&& is_listing(req) ==> ev is Payload && s.state.entries == listing_entries(
                    ev->Payload_0@,
                )
            }
        }),
{
    assert(seq![226u32] != seq![125u32, 150]);
    assert(seq![226u32] != seq![230u32, 331]);
    assert(seq![226u32][0] != seq![230u32][0]);
    assert(seq![226u32][0] != seq![250u32][0]);
    assert(seq![226u32][0] != seq![220u32][0]);
    assert(seq![226u32][0] != seq![200u32][0]);
    assert(seq![226u32][0] != seq![257u32][0]);
    assert(seq![226u32][0] != seq![221u32][0]);
    assert(seq![226u32][0] != seq![350u32][0]);
    assert(seq![226u32][0] != seq![213u32][0]);
    assert(seq![226u32] != seq![213u32, 550]);
    assert(seq![226u32][0] != seq![227u32][0]);
}

} // verus!
