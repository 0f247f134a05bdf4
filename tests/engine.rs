use ftpcli::command::{encode_command, Verb};
use ftpcli::decode::{decode_listing, parse_mdtm, parse_pwd, parse_size, Timestamp};
use ftpcli::passive::parse_passive;
use ftpcli::reply::{parse_reply, ReplyReader};
use ftpcli::session::{Action, Event, Exchange, Outcome, Request};
use ftpcli::types::{ErrorKind, FtpError, Line};

fn lines(v: &[&str]) -> Vec<String> {
    v.iter().map(|s| s.to_string()).collect()
}

fn kind_of<T>(r: &Result<T, FtpError>) -> Option<ErrorKind> {
    match r {
        Ok(_) => None,
        Err(e) => Some(e.error_kind()),
    }
}

#[test]
fn single_line_reply_gives_code_and_whole_line() {
    let (r, used) = parse_reply(&lines(&["123 text\r\n"]), &vec![123]);
    let Line(code, text) = r.unwrap();
    assert_eq!(code, 123);
    assert_eq!(text, "123 text\r\n");
    assert_eq!(used, 1);
}

#[test]
fn multi_line_reply_consumes_three_lines() {
    let input = lines(&["150-Info\r\n", "150-More\r\n", "150 Done\r\n", "226 Next\r\n"]);
    let (r, used) = parse_reply(&input, &vec![150]);
    let Line(code, text) = r.unwrap();
    assert_eq!((code, text.as_str()), (150, "150 Done\r\n"));
    assert_eq!(used, 3);
}

#[test]
fn continuation_lines_with_other_codes_do_not_end_reply() {
    let input = lines(&["211-Features\r\n", "226 looks like an end\r\n", "211 End\r\n"]);
    let (r, used) = parse_reply(&input, &vec![211]);
    assert_eq!(r.unwrap().1, "211 End\r\n");
    assert_eq!(used, 3);
}

#[test]
fn short_line_is_malformed() {
    for s in ["", "1", "220", "220 ", "abcd"] {
        let (r, used) = parse_reply(&lines(&[s, "220 ok\r\n"]), &vec![220]);
        assert_eq!(kind_of(&r), Some(ErrorKind::InvalidResponse));
        assert_eq!(used, 1);
    }
}

#[test]
fn non_numeric_code_is_malformed() {
    let (r, _) = parse_reply(&lines(&["2x0 hello\r\n"]), &vec![220]);
    assert_eq!(kind_of(&r), Some(ErrorKind::InvalidResponse));
}

#[test]
fn unexpected_code_carries_the_line() {
    let (r, _) = parse_reply(&lines(&["530 Not logged in\r\n"]), &vec![230]);
    match r {
        Err(FtpError::InvalidResponse(t)) => assert_eq!(t, "530 Not logged in\r\n"),
        _ => panic!("expected a mismatch"),
    }
}

#[test]
fn reply_cut_short_is_a_connection_error() {
    let (r, used) = parse_reply(&lines(&["150-Info\r\n"]), &vec![150]);
    assert_eq!(kind_of(&r), Some(ErrorKind::Connection));
    assert_eq!(used, 1);
    let (r, used) = parse_reply(&Vec::new(), &vec![150]);
    assert_eq!(kind_of(&r), Some(ErrorKind::Connection));
    assert_eq!(used, 0);
}

#[test]
fn reader_fed_line_by_line() {
    let mut rd = ReplyReader::new(vec![150]);
    assert!(rd.feed("150-Info\r\n".to_string()).is_none());
    assert!(rd.feed("150-More\r\n".to_string()).is_none());
    let Line(code, text) = rd.feed("150 Done\r\n".to_string()).unwrap().unwrap();
    assert_eq!((code, text.as_str()), (150, "150 Done\r\n"));
}

#[test]
fn passive_tuple_resolves_address() {
    let a = parse_passive("227 Entering Passive Mode (192,168,0,1,200,24).\r\n").unwrap();
    assert_eq!(a.ip, (192, 168, 0, 1));
    assert_eq!(a.port, 51224);
    assert_eq!(a.port, 200 * 256 + 24);
}

#[test]
fn passive_tuple_out_of_range_is_invalid_address() {
    let r = parse_passive("227 Entering Passive Mode (192,168,0,256,200,24)\r\n");
    assert_eq!(kind_of(&r), Some(ErrorKind::InvalidAddress));
    let r = parse_passive("227 (1,2,3,4,5,99999999999999999999)\r\n");
    assert_eq!(kind_of(&r), Some(ErrorKind::InvalidAddress));
}

#[test]
fn passive_reply_without_tuple_is_invalid_response() {
    let r = parse_passive("227 Entering Passive Mode 1,2,3,4,5,6\r\n");
    assert_eq!(kind_of(&r), Some(ErrorKind::InvalidResponse));
    let r = parse_passive("227 (1,2,3,4,5)\r\n");
    assert_eq!(kind_of(&r), Some(ErrorKind::InvalidResponse));
}

#[test]
fn passive_takes_leftmost_tuple() {
    let a = parse_passive("227 (x) (1,2,3,4,0,21) (5,6,7,8,0,22)\r\n").unwrap();
    assert_eq!(a.ip, (1, 2, 3, 4));
    assert_eq!(a.port, 21);
}

#[test]
fn size_reply_yields_number() {
    assert_eq!(parse_size(213, " 12345\r\n").unwrap(), Some(12345));
    assert_eq!(parse_size(213, "213 12345\r\n").unwrap(), Some(12345));
}

#[test]
fn size_unavailable_yields_none() {
    assert_eq!(parse_size(550, "550 No such file\r\n").unwrap(), None);
    assert_eq!(parse_size(550, "550 size 12\r\n").unwrap(), None);
}

#[test]
fn size_without_trailing_number_yields_none() {
    assert_eq!(parse_size(213, "213 unknown\r\n").unwrap(), None);
    assert_eq!(parse_size(213, "213x12\r\n").unwrap(), None);
}

#[test]
fn size_too_large_is_invalid_response() {
    let r = parse_size(213, "213 999999999999999999999999\r\n");
    assert_eq!(kind_of(&r), Some(ErrorKind::InvalidResponse));
}

#[test]
fn timestamp_decodes() {
    let t = parse_mdtm("213 20230615120000").unwrap();
    assert_eq!(
        t,
        Timestamp { year: 2023, month: 6, day: 15, hour: 12, minute: 0, second: 0 }
    );
}

#[test]
fn timestamp_absent_yields_none() {
    assert_eq!(parse_mdtm("213 no time here\r\n"), None);
    assert_eq!(parse_mdtm("213 2023061512000\r\n"), None);
    assert_eq!(parse_mdtm("213 202306151200001\r\n"), None);
}

#[test]
fn timestamp_of_day_that_does_not_exist_yields_none() {
    assert_eq!(parse_mdtm("213 20230230120000\r\n"), None);
    assert_eq!(parse_mdtm("213 20230615250000\r\n"), None);
    assert!(parse_mdtm("213 20240229235959\r\n").is_some());
}

#[test]
fn listing_drops_empty_segments() {
    let e = decode_listing(b"a.txt\r\nb.txt\r\n\r\n");
    assert_eq!(e, vec![b"a.txt".to_vec(), b"b.txt".to_vec()]);
    assert!(decode_listing(b"").is_empty());
    assert_eq!(decode_listing(b"x\ry\r\nz"), vec![b"x\ry".to_vec(), b"z".to_vec()]);
}

#[test]
fn pwd_path_between_quotes() {
    assert_eq!(parse_pwd("257 \"/home/me\" is current\r\n").unwrap(), "/home/me");
    assert_eq!(parse_pwd("257 \"/a \"b\"\" here\r\n").unwrap(), "/a \"b\"");
    let r = parse_pwd("257 \"/home\r\n");
    assert_eq!(kind_of(&r), Some(ErrorKind::InvalidResponse));
}

#[test]
fn command_lines_are_encoded() {
    assert_eq!(encode_command(Verb::User, Some("bob")), b"USER bob\r\n".to_vec());
    assert_eq!(encode_command(Verb::Pasv, None), b"PASV\r\n".to_vec());
    assert_eq!(encode_command(Verb::Nlst, Some("dir")), b"NLST dir\r\n".to_vec());
}

/// A fake server: the control lines it sends, in order, and the payload
/// of the one data connection. Records what the client wrote.
struct FakeServer {
    control: Vec<String>,
    payload: Vec<u8>,
    sent: Vec<String>,
    log: Vec<&'static str>,
}

impl FakeServer {
    fn new(control: &[&str], payload: &[u8]) -> FakeServer {
        FakeServer { control: lines(control), payload: payload.to_vec(), sent: vec![], log: vec![] }
    }

    fn run(&mut self, req: Request) -> Result<Outcome, FtpError> {
        let mut ex = Exchange::new(req);
        let mut ev = Event::Done;
        loop {
            match ex.step(ev) {
                Action::Send(b) => {
                    self.sent.push(String::from_utf8(b).unwrap());
                    ev = Event::Done;
                }
                Action::ReadReply(codes) => {
                    self.log.push("read reply");
                    let mut rd = ReplyReader::new(codes);
                    ev = loop {
                        if self.control.is_empty() {
                            break Event::Failed(FtpError::ConnectionError("eof".to_string()));
                        }
                        let l = self.control.remove(0);
                        if let Some(r) = rd.feed(l) {
                            break Event::Reply(r);
                        }
                    };
                }
                Action::OpenData(_) => {
                    self.log.push("open data");
                    ev = Event::Done;
                }
                Action::Drain => {
                    self.log.push("drain");
                    ev = Event::Payload(self.payload.clone());
                }
                Action::Upload | Action::Download => {
                    self.log.push("transfer");
                    ev = Event::Done;
                }
                Action::CloseData => {
                    self.log.push("close data");
                    ev = Event::Done;
                }
                Action::Finish(r) => return r,
            }
        }
    }
}

#[test]
fn login_sends_password_when_asked() {
    let mut srv = FakeServer::new(&["331 need password\r\n", "230 logged in\r\n"], b"");
    let r = srv.run(Request::Login("bob".to_string(), "pw".to_string()));
    assert!(matches!(r, Ok(Outcome::Done)));
    assert_eq!(srv.sent, vec!["USER bob\r\n", "PASS pw\r\n"]);
}

#[test]
fn login_skips_password_when_not_asked() {
    let mut srv = FakeServer::new(&["230 logged in\r\n"], b"");
    let r = srv.run(Request::Login("bob".to_string(), "pw".to_string()));
    assert!(matches!(r, Ok(Outcome::Done)));
    assert_eq!(srv.sent, vec!["USER bob\r\n"]);
}

#[test]
fn login_fails_when_password_rejected() {
    let mut srv = FakeServer::new(&["331 need password\r\n", "530 bad\r\n"], b"");
    let r = srv.run(Request::Login("bob".to_string(), "pw".to_string()));
    assert_eq!(kind_of(&r), Some(ErrorKind::InvalidResponse));
}

#[test]
fn listing_reads_closing_reply_after_data_closed() {
    let mut srv = FakeServer::new(
        &["227 Entering Passive Mode (127,0,0,1,4,1)\r\n", "150 here it comes\r\n", "226 done\r\n"],
        b"a.txt\r\nb.txt\r\n\r\n",
    );
    let r = srv.run(Request::Nlist(None));
    match r {
        Ok(Outcome::Listing(e)) => assert_eq!(e, vec![b"a.txt".to_vec(), b"b.txt".to_vec()]),
        _ => panic!("expected a listing"),
    }
    assert_eq!(srv.sent, vec!["PASV\r\n", "NLST\r\n"]);
    assert_eq!(
        srv.log,
        vec!["read reply", "open data", "read reply", "drain", "close data", "read reply"]
    );
}

#[test]
fn reading_closing_reply_before_drain_is_detected() {
    let mut ex = Exchange::new(Request::List(Some("dir".to_string())));
    assert!(matches!(ex.step(Event::Done), Action::Send(_)));
    assert!(matches!(ex.step(Event::Done), Action::ReadReply(_)));
    let pasv = Line(227, "227 (127,0,0,1,4,1)\r\n".to_string());
    assert!(matches!(ex.step(Event::Reply(Ok(pasv))), Action::OpenData(_)));
    match ex.step(Event::Done) {
        Action::Send(b) => assert_eq!(b, b"LIST dir\r\n".to_vec()),
        _ => panic!("expected the transfer command"),
    }
    assert!(matches!(ex.step(Event::Done), Action::ReadReply(_)));
    let ready = Line(150, "150 ok\r\n".to_string());
    assert!(matches!(ex.step(Event::Reply(Ok(ready))), Action::Drain));
    // The closing reply comes in where the drained payload was owed.
    let closing = Line(226, "226 done\r\n".to_string());
    match ex.step(Event::Reply(Ok(closing))) {
        Action::Finish(Err(e)) => assert_eq!(e.error_kind(), ErrorKind::Connection),
        _ => panic!("the out-of-order read must end the exchange with an error"),
    }
}

#[test]
fn retrieve_reads_closing_reply_even_when_handler_fails() {
    let mut ex = Exchange::new(Request::Retr("f".to_string()));
    ex.step(Event::Done);
    ex.step(Event::Done);
    ex.step(Event::Reply(Ok(Line(227, "227 (1,2,3,4,0,20)\r\n".to_string()))));
    ex.step(Event::Done);
    ex.step(Event::Done);
    assert!(matches!(ex.step(Event::Reply(Ok(Line(150, "150 ok\r\n".to_string())))), Action::Download));
    let handler = FtpError::ConnectionError("sink full".to_string());
    assert!(matches!(ex.step(Event::Failed(handler)), Action::CloseData));
    assert!(matches!(ex.step(Event::Done), Action::ReadReply(_)));
    match ex.step(Event::Reply(Ok(Line(226, "226 done\r\n".to_string())))) {
        Action::Finish(Err(FtpError::ConnectionError(m))) => assert_eq!(m, "sink full"),
        _ => panic!("the handler's error is reported"),
    }
}

#[test]
fn get_hands_over_data_without_closing_reply() {
    let mut srv = FakeServer::new(&["227 (1,2,3,4,0,20)\r\n", "125 open\r\n", "226 done\r\n"], b"");
    let r = srv.run(Request::Get("f".to_string()));
    assert!(matches!(r, Ok(Outcome::DataReady)));
    assert_eq!(srv.control, lines(&["226 done\r\n"]));
}

#[test]
fn put_sends_stor_and_reads_closing_reply() {
    let mut srv = FakeServer::new(&["227 (1,2,3,4,0,20)\r\n", "150 ok\r\n", "226 done\r\n"], b"");
    let r = srv.run(Request::Put("up.bin".to_string()));
    assert!(matches!(r, Ok(Outcome::Done)));
    assert_eq!(srv.sent, vec!["PASV\r\n", "STOR up.bin\r\n"]);
}

#[test]
fn simple_requests_through_the_exchange() {
    let mut srv = FakeServer::new(&["213 20230615120000\r\n"], b"");
    match srv.run(Request::Mdtm("f".to_string())) {
        Ok(Outcome::Modified(Some(t))) => assert_eq!((t.year, t.month, t.day), (2023, 6, 15)),
        _ => panic!("expected a time"),
    }
    let mut srv = FakeServer::new(&["550 nope\r\n"], b"");
    assert!(matches!(srv.run(Request::Size("f".to_string())), Ok(Outcome::Size(None))));
    let mut srv = FakeServer::new(&["257 \"/x\"\r\n"], b"");
    match srv.run(Request::Pwd) {
        Ok(Outcome::Path(p)) => assert_eq!(p, "/x"),
        _ => panic!("expected a path"),
    }
    let mut srv = FakeServer::new(&["350 ready\r\n", "250 renamed\r\n"], b"");
    assert!(matches!(srv.run(Request::Rename("a".to_string(), "b".to_string())), Ok(Outcome::Done)));
    assert_eq!(srv.sent, vec!["RNFR a\r\n", "RNTO b\r\n"]);
    let mut srv = FakeServer::new(&["220 welcome\r\n"], b"");
    assert!(matches!(srv.run(Request::Greeting), Ok(Outcome::Done)));
    assert!(srv.sent.is_empty());
}
