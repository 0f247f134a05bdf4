use vstd::prelude::*;
use vstd::utf8::encode_utf8;
use crate::types::{ErrorKind, FtpError, Line};

verus! {

/// The bytes that carry a text on the wire.
pub open spec fn text_bytes(s: Seq<char>) -> Seq<u8> {
    encode_utf8(s)
}

pub open spec fn is_digit(b: u8) -> bool {
    48 <= b <= 57
}

/// A reply line opens with three ASCII digits and is long enough to hold
/// a separator and some text after them.
pub open spec fn has_code(b: Seq<u8>) -> bool {
    b.len() >= 5 && is_digit(b[0]) && is_digit(b[1]) && is_digit(b[2])
}

/// The code of a line for which `has_code` holds, with the three bytes it was read from.
pub open spec fn prefix_of(b: Seq<u8>) -> (u32, u8, u8, u8) {
    (
        (100 * (b[0] - 48) + 10 * (b[1] - 48) + (b[2] - 48)) as u32,
        b[0],
        b[1],
        b[2],
    )
}

/// A line ends the reply opened with prefix `p`: the same three code bytes
/// followed by a space (continuation lines carry a hyphen there).
pub open spec fn closes(b: Seq<u8>, p: (u32, u8, u8, u8)) -> bool {
    b.len() >= 5 && b[0] == p.1 && b[1] == p.2 && b[2] == p.3 && b[3] == 32
}

/// The wire bytes of each line.
pub open spec fn lines_bytes(lines: Seq<String>) -> Seq<Seq<u8>> {
    lines.map_values(|s: String| text_bytes(s@))
}

/// `k` is the first line that ends the reply opened by `lines[0]`.
pub open spec fn closing_index(lines: Seq<Seq<u8>>, k: int) -> bool {
    &&& 0 <= k < lines.len()
    &&& closes(lines[k], prefix_of(lines[0]))
    &&& forall|j: int| 0 <= j < k ==> !closes(#[trigger] lines[j], prefix_of(lines[0]))
}

/// The outcome of a completed reply with code `code` and final line `line`.
pub open spec fn judged(code: u32, expected: Seq<u32>, line: String) -> Result<Line, FtpError> {
    if expected.contains(code) {
        Ok(Line(code, line))
    } else {
        Err(FtpError::InvalidResponse(line))
    }
}

fn is_digit_byte(b: u8) -> (r: bool)
    ensures
        r == is_digit(b),
{
    48 <= b && b <= 57
}

fn accepts(expected: &Vec<u32>, code: u32) -> (r: bool)
    ensures
        r == expected@.contains(code),
{
    let mut i: usize = 0;
    while i < expected.len()
        invariant
            i <= expected.len(),
            forall|j: int| 0 <= j < i ==> expected@[j] != code,
        decreases expected.len() - i,
    {
        if expected[i] == code {
            return true;
        }
        i = i + 1;
    }
    false
}

/// Assembles one logical reply from the lines of the control channel, fed
/// one at a time.
pub struct ReplyReader {
    /// The codes the caller accepts.
    pub expected: Vec<u32>,
    /// The code of the reply's first line and its three code bytes, once read.
    pub opened: Option<(u32, u8, u8, u8)>,
}

impl ReplyReader {
    /// Once a reply is open, its code is the one its three digits spell.
    pub open spec fn wf(&self) -> bool {
        match self.opened {
            Some(p) => is_digit(p.1) && is_digit(p.2) && is_digit(p.3) && p.0 == 100 * (p.1 - 48)
                + 10 * (p.2 - 48) + (p.3 - 48),
            None => true,
        }
    }

    pub fn new(expected: Vec<u32>) -> (r: ReplyReader)
        ensures
            r.expected == expected,
            r.opened is None,
            r.wf(),
    {
        ReplyReader { expected, opened: None }
    }

    /// Takes the next line. Returns `None` while the reply goes on, and the
    /// finished reply once its final line has come.
    pub fn feed(&mut self, line: String) -> (r: Option<Result<Line, FtpError>>)
        ensures
            old(self).wf() ==> final(self).wf(),
            final(self).expected == old(self).expected,
            old(self).opened is None && !has_code(text_bytes(line@)) ==> {
                &&& r == Some(Err::<Line, FtpError>(FtpError::InvalidResponse(line)))
                &&& final(self).opened is None
            },
            old(self).opened is Some || has_code(text_bytes(line@)) ==> {
                let p = if old(self).opened is Some {
                    old(self).opened->0
                } else {
                    prefix_of(text_bytes(line@))
                };
                if closes(text_bytes(line@), p) {
                    &&& r == Some(judged(p.0, old(self).expected@, line))
                    &&& final(self).opened is None
                } else {
                    &&& r is None
                    &&& final(self).opened == Some(p)
                }
            },
    {
        let (opened, ends) = {
            let b = line.as_str().as_bytes();
            let opened = match self.opened {
                Some(p) => Some(p),
                None => {
                    if b.len() >= 5 && is_digit_byte(b[0]) && is_digit_byte(b[1]) && is_digit_byte(
                        b[2],
                    ) {
                        let code: u32 = 100 * (b[0] - 48) as u32 + 10 * (b[1] - 48) as u32 + (b[2]
                            - 48) as u32;
                        Some((code, b[0], b[1], b[2]))
                    } else {
                        None
                    }
                },
            };
            let ends = match opened {
                Some(p) => b.len() >= 5 && b[0] == p.1 && b[1] == p.2 && b[2] == p.3 && b[3] == 32,
                None => false,
            };
            (opened, ends)
        };
        match opened {
            None => Some(Err(FtpError::InvalidResponse(line))),
            Some(p) => {
                if ends {
                    self.opened = None;
                    if accepts(&self.expected, p.0) {
                        Some(Ok(Line(p.0, line)))
                    } else {
                        Some(Err(FtpError::InvalidResponse(line)))
                    }
                } else {
                    self.opened = Some(p);
                    None
                }
            },
        }
    }
}

/// Reads one reply from `lines`. Returns the outcome and how many lines it
/// consumed: up to and including the first line that closes the reply.
pub fn parse_reply(lines: &Vec<String>, expected: &Vec<u32>) -> (r: (Result<Line, FtpError>, usize))
    ensures
        lines@.len() == 0 ==> r.0 is Err && r.0->Err_0.kind() == ErrorKind::Connection && r.1 == 0,
        lines@.len() > 0 && !has_code(lines_bytes(lines@)[0]) ==> {
            &&& r.0 == Err::<Line, FtpError>(FtpError::InvalidResponse(lines@[0]))
            &&& r.1 == 1
        },
        lines@.len() > 0 && has_code(lines_bytes(lines@)[0]) ==> {
            let b = lines_bytes(lines@);
            if exists|k: int| closing_index(b, k) {
                &&& closing_index(b, r.1 - 1)
                &&& r.0 == judged(prefix_of(b[0]).0, expected@, lines@[r.1 - 1])
            } else {
                &&& r.0 is Err
                &&& r.0->Err_0.kind() == ErrorKind::Connection
                &&& r.1 == lines@.len()
            }
        },
{
    let ghost b = lines_bytes(lines@);
    let mut reader = ReplyReader::new(expected.clone());
    let mut i: usize = 0;
    while i < lines.len()
        invariant
            0 <= i <= lines@.len(),
            b == lines_bytes(lines@),
            reader.expected@ == expected@,
            i == 0 ==> reader.opened is None,
            i > 0 ==> has_code(b[0]) && reader.opened == Some(prefix_of(b[0])),
            forall|j: int| 0 <= j < i ==> !closes(#[trigger] b[j], prefix_of(b[0])),
        decreases lines@.len() - i,
    {
        let line = lines[i].clone();
        proof {
            assert(b[i as int] == text_bytes(line@));
        }
        match reader.feed(line) {
            Some(res) => {
                proof {
                    if i > 0 || has_code(b[0]) {
                        assert(closing_index(b, i as int));
                    }
                }
                return (res, i + 1);
            },
            None => {},
        }
        i = i + 1;
    }
    proof {
        if lines@.len() > 0 && has_code(b[0]) {
            assert forall|k: int| !closing_index(b, k) by {
                if 0 <= k < b.len() {
                    assert(!closes(b[k], prefix_of(b[0])));
                }
            }
        }
    }
    (Err(FtpError::ConnectionError("reply ended before its final line".to_owned())), i)
}

/// A line of the form "DDD text" is a whole reply by itself: it is the line
/// that closes the reply it opens, so reading stops right after it, and the
/// reply's code is the number its three digits spell.
pub proof fn lemma_single_line_reply(lines: Seq<String>)
    requires
        lines.len() >= 1,
        has_code(lines_bytes(lines)[0]),
        lines_bytes(lines)[0][3] == 32,
    ensures
        closing_index(lines_bytes(lines), 0),
        forall|k: int| closing_index(lines_bytes(lines), k) ==> k == 0,
        prefix_of(lines_bytes(lines)[0]).0 == 100 * (lines_bytes(lines)[0][0] - 48) + 10 * (
        lines_bytes(lines)[0][1] - 48) + (lines_bytes(lines)[0][2] - 48),
{
    let b = lines_bytes(lines);
    assert forall|k: int| closing_index(b, k) implies k == 0 by {
        if k > 0 {
            assert(!closes(b[0], prefix_of(b[0])));
        }
    }
}

/// A line shorter than five bytes never carries a reply code, whatever it
/// holds, so a reply that opens with it is malformed.
pub proof fn lemma_short_line_malformed(b: Seq<u8>)
    requires
        b.len() < 5,
    ensures
        !has_code(b),
{
}

} // verus!
