use vstd::prelude::*;
use crate::reply::text_bytes;

verus! {

/// The command verbs this client sends.
#[derive(Debug, Clone, Copy, PartialEq, Eq, Structural)]
pub enum Verb {
    User,
    Pass,
    Cwd,
    Cdup,
    Pwd,
    Noop,
    Mkd,
    Pasv,
    Quit,
    Rnfr,
    Rnto,
    Rmd,
    Dele,
    Stor,
    Retr,
    List,
    Nlst,
    Size,
    Mdtm,
}

/// The ASCII keyword of a verb.
pub open spec fn verb_text(v: Verb) -> Seq<u8> {
    match v {
        Verb::User => seq![85u8, 83, 69, 82],
        Verb::Pass => seq![80u8, 65, 83, 83],
        Verb::Cwd => seq![67u8, 87, 68],
        Verb::Cdup => seq![67u8, 68, 85, 80],
        Verb::Pwd => seq![80u8, 87, 68],
        Verb::Noop => seq![78u8, 79, 79, 80],
        Verb::Mkd => seq![77u8, 75, 68],
        Verb::Pasv => seq![80u8, 65, 83, 86],
        Verb::Quit => seq![81u8, 85, 73, 84],
        Verb::Rnfr => seq![82u8, 78, 70, 82],
        Verb::Rnto => seq![82u8, 78, 84, 79],
        Verb::Rmd => seq![82u8, 77, 68],
        Verb::Dele => seq![68u8, 69, 76, 69],
        Verb::Stor => seq![83u8, 84, 79, 82],
        Verb::Retr => seq![82u8, 69, 84, 82],
        Verb::List => seq![76u8, 73, 83, 84],
        Verb::Nlst => seq![78u8, 76, 83, 84],
        Verb::Size => seq![83u8, 73, 90, 69],
        Verb::Mdtm => seq![77u8, 68, 84, 77],
    }
}

/// A command line on the wire: the keyword, a space and the argument when
/// there is one, then CRLF. The argument is put in as it is.
pub open spec fn command_line(v: Verb, arg: Option<Seq<char>>) -> Seq<u8> {
    verb_text(v) + match arg {
        Some(a) => seq![32u8] + text_bytes(a),
        None => Seq::empty(),
    } + seq![13u8, 10]
}

pub open spec fn opt_view(arg: Option<&str>) -> Option<Seq<char>> {
    match arg {
        Some(a) => Some(a@),
        None => None,
    }
}

fn verb_bytes(v: Verb) -> (r: Vec<u8>)
    ensures
        r@ == verb_text(v),
{
    match v {
        Verb::User => vec![85u8, 83, 69, 82],
        Verb::Pass => vec![80u8, 65, 83, 83],
        Verb::Cwd => vec![67u8, 87, 68],
        Verb::Cdup => vec![67u8, 68, 85, 80],
        Verb::Pwd => vec![80u8, 87, 68],
        Verb::Noop => vec![78u8, 79, 79, 80],
        Verb::Mkd => vec![77u8, 75, 68],
        Verb::Pasv => vec![80u8, 65, 83, 86],
        Verb::Quit => vec![81u8, 85, 73, 84],
        Verb::Rnfr => vec![82u8, 78, 70, 82],
        Verb::Rnto => vec![82u8, 78, 84, 79],
        Verb::Rmd => vec![82u8, 77, 68],
        Verb::Dele => vec![68u8, 69, 76, 69],
        Verb::Stor => vec![83u8, 84, 79, 82],
        Verb::Retr => vec![82u8, 69, 84, 82],
        Verb::List => vec![76u8, 73, 83, 84],
        Verb::Nlst => vec![78u8, 76, 83, 84],
        Verb::Size => vec![83u8, 73, 90, 69],
        Verb::Mdtm => vec![77u8, 68, 84, 77],
    }
}

/// Formats one command line, ready to be written to the control channel.
pub fn encode_command(verb: Verb, arg: Option<&str>) -> (r: Vec<u8>)
    ensures
        r@ == command_line(verb, opt_view(arg)),
{
    let mut out = verb_bytes(verb);
    let ghost head = out@;
    match arg {
        Some(a) => {
            out.push(32u8);
            let b = a.as_bytes();
            let mut i: usize = 0;
            while i < b.len()
                invariant
                    i <= b@.len(),
                    b@ == text_bytes(a@),
                    out@ == head + seq![32u8] + b@.subrange(0, i as int),
                decreases b@.len() - i,
            {
                out.push(b[i]);
                proof {
                    assert(b@.subrange(0, i + 1) =~= b@.subrange(0, i as int).push(b@[i as int]));
                }
                i = i + 1;
            }
            proof {
                assert(b@.subrange(0, b@.len() as int) =~= b@);
                assert(out@ =~= head + (seq![32u8] + text_bytes(a@)));
            }
        },
        None => {
            proof {
                assert(out@ =~= head + Seq::<u8>::empty());
            }
        },
    }
    let ghost mid = out@;
    out.push(13u8);
    out.push(10u8);
    proof {
        assert(out@ =~= mid + seq![13u8, 10]);
    }
    out
}

} // verus!
