use vstd::prelude::*;
use crate::reply::{is_digit, text_bytes};
use crate::types::{ErrorKind, FtpError};

verus! {

/// The endpoint of a data connection announced in passive mode.
#[derive(Debug, Clone, Copy, PartialEq, Eq)]
pub struct PassiveAddress {
    /// The four octets of the IPv4 address, most significant first.
    pub ip: (u8, u8, u8, u8),
    pub port: u16,
}

/// The number of consecutive ASCII digits in `s` from position `p` on.
pub open spec fn digit_run(s: Seq<u8>, p: int) -> nat
    decreases s.len() - p,
{
    if 0 <= p < s.len() && is_digit(s[p]) {
        1 + digit_run(s, p + 1)
    } else {
        0
    }
}

/// The decimal value of the digits `s[p..q]`.
pub open spec fn decimal(s: Seq<u8>, p: int, q: int) -> nat
    decreases q - p,
{
    if p < q {
        decimal(s, p, q - 1) * 10 + (s[q - 1] - 48) as nat
    } else {
        0
    }
}

/// The `k` numbers of a tuple whose first number starts at `p`: runs of
/// digits, each followed by a comma, the last one by a closing parenthesis.
pub open spec fn tuple_from(s: Seq<u8>, p: int, k: nat) -> Option<Seq<nat>>
    decreases k,
{
    if k == 0 {
        Some(Seq::empty())
    } else {
        let q = p + digit_run(s, p);
        let sep: u8 = if k == 1 { 41 } else { 44 };
        if q > p && q < s.len() && s[q] == sep {
            match tuple_from(s, q + 1, (k - 1) as nat) {
                Some(rest) => Some(seq![decimal(s, p, q)] + rest),
                None => None,
            }
        } else {
            None
        }
    }
}

/// The six numbers of a parenthesised tuple opening at position `i`.
pub open spec fn tuple_at(s: Seq<u8>, i: int) -> Option<Seq<nat>> {
    if 0 <= i < s.len() && s[i] == 40 {
        tuple_from(s, i + 1, 6)
    } else {
        None
    }
}

/// `i` is where the leftmost tuple of `s` opens.
pub open spec fn first_tuple(s: Seq<u8>, i: int) -> bool {
    &&& tuple_at(s, i) is Some
    &&& forall|j: int| 0 <= j < i ==> (#[trigger] tuple_at(s, j)) is None
}

/// The address a tuple of six octets stands for: four address octets, then
/// the port in two octets, most significant first.
pub open spec fn address_of(t: Seq<nat>) -> PassiveAddress {
    PassiveAddress {
        ip: (t[0] as u8, t[1] as u8, t[2] as u8, t[3] as u8),
        port: (t[4] * 256 + t[5]) as u16,
    }
}

pub open spec fn all_octets(t: Seq<nat>) -> bool {
    forall|k: int| 0 <= k < t.len() ==> #[trigger] t[k] <= 255
}

/// What a passive-mode reply text announces.
pub open spec fn passive_outcome(s: Seq<u8>) -> Result<PassiveAddress, ErrorKind> {
    if exists|i: int| first_tuple(s, i) {
        let t = tuple_at(s, choose|i: int| first_tuple(s, i))->0;
        if all_octets(t) {
            Ok(address_of(t))
        } else {
            Err(ErrorKind::InvalidAddress)
        }
    } else {
        Err(ErrorKind::InvalidResponse)
    }
}

/// There is at most one leftmost tuple.
pub proof fn lemma_first_tuple_unique(s: Seq<u8>, i: int, j: int)
    requires
        first_tuple(s, i),
        first_tuple(s, j),
    ensures
        i == j,
{
    if i < j {
        assert(tuple_at(s, i) is None);
    } else if j < i {
        assert(tuple_at(s, j) is None);
    }
}

pub open spec fn capped(v: nat) -> u32 {
    if v >= 256 { 256 } else { v as u32 }
}

/// The run of digits from `p` on: its length, and its value capped at 256.
fn digits_at(b: &[u8], p: usize) -> (r: (usize, u32))
    requires
        p <= b@.len(),
    ensures
        r.0 == digit_run(b@, p as int),
        p + r.0 <= b@.len(),
        r.1 == capped(decimal(b@, p as int, p + r.0)),
{
    let mut q = p;
    let mut v: u32 = 0;
    while q < b.len() && 48 <= b[q] && b[q] <= 57
        invariant
            p <= q <= b@.len(),
            digit_run(b@, p as int) == (q - p) + digit_run(b@, q as int),
            v == capped(decimal(b@, p as int, q as int)),
        decreases b@.len() - q,
    {
        let d = (b[q] - 48) as u32;
        proof {
            assert(decimal(b@, p as int, q + 1) == decimal(b@, p as int, q as int) * 10 + d);
        }
        if v < 256 {
            v = v * 10 + d;
            if v > 256 {
                v = 256;
            }
        }
        q = q + 1;
    }
    (q - p, v)
}

/// The capped numbers of the tuple opening at `i`, if one does.
fn tuple_at_exec(b: &[u8], i: usize) -> (r: Option<Vec<u32>>)
    requires
        i < b@.len(),
        b@[i as int] == 40,
    ensures
        r is Some <==> tuple_at(b@, i as int) is Some,
        r is Some ==> {
            let t = tuple_at(b@, i as int)->0;
            &&& r->0@.len() == t.len() == 6
            &&& forall|k: int| 0 <= k < 6 ==> r->0@[k] == capped(#[trigger] t[k])
        },
{
    let len = b.len();
    let mut p = i + 1;
    let mut k: usize = 0;
    let mut vals: Vec<u32> = Vec::new();
    let ghost mut pre: Seq<nat> = Seq::empty();
    while k < 6
        invariant
            k <= 6,
            len == b@.len(),
            p <= b@.len(),
            pre.len() == k,
            vals@.len() == k,
            forall|j: int| 0 <= j < k ==> vals@[j] == capped(#[trigger] pre[j]),
            tuple_at(b@, i as int) == match tuple_from(b@, p as int, (6 - k) as nat) {
                Some(rest) => Some(pre + rest),
                None => None::<Seq<nat>>,
            },
        decreases 6 - k,
    {
        let (n, v) = digits_at(b, p);
        let q = p + n;
        let sep: u8 = if k == 5 { 41 } else { 44 };
        if n == 0 || q >= b.len() || b[q] != sep {
            return None;
        }
        let ghost d = decimal(b@, p as int, q as int);
        proof {
            match tuple_from(b@, q + 1, (6 - k - 1) as nat) {
                Some(rest) => {
                    assert(pre + (seq![d] + rest) =~= pre.push(d) + rest);
                },
                None => {},
            }
        }
        vals.push(v);
        proof {
            pre = pre.push(d);
        }
        p = q + 1;
        k = k + 1;
    }
    proof {
        assert(pre + Seq::<nat>::empty() =~= pre);
    }
    Some(vals)
}

/// Finds the address announced by a passive-mode reply text.
pub fn parse_passive(text: &str) -> (r: Result<PassiveAddress, FtpError>)
    ensures
        match passive_outcome(text_bytes(text@)) {
            Ok(a) => r == Ok::<PassiveAddress, FtpError>(a),
            Err(kind) => r is Err && r->Err_0.kind() == kind,
        },
{
    let b = text.as_bytes();
    let ghost s = b@;
    assert(s == text_bytes(text@));
    let mut i: usize = 0;
    while i < b.len()
        invariant
            s == b@,
            s == text_bytes(text@),
            i <= b@.len(),
            forall|j: int| 0 <= j < i ==> (#[trigger] tuple_at(s, j)) is None,
        decreases b@.len() - i,
    {
        if b[i] == 40 {
            if let Some(vals) = tuple_at_exec(b, i) {
                let ghost t = tuple_at(s, i as int)->0;
                proof {
                    assert(first_tuple(s, i as int));
                    let c = choose|j: int| first_tuple(s, j);
                    lemma_first_tuple_unique(s, i as int, c);
                }
                let mut k: usize = 0;
                while k < 6
                    invariant
                        k <= 6,
                        s == b@,
                        s == text_bytes(text@),
                        first_tuple(s, i as int),
                        t == tuple_at(s, i as int)->0,
                        (choose|j: int| first_tuple(s, j)) == i,
                        vals@.len() == 6,
                        t.len() == 6,
                        forall|j: int| 0 <= j < 6 ==> vals@[j] == capped(#[trigger] t[j]),
                        forall|j: int| 0 <= j < k ==> #[trigger] t[j] <= 255,
                    decreases 6 - k,
                {
                    if vals[k] > 255 {
                        proof {
                            assert(t[k as int] > 255);
                            assert(!all_octets(t));
                        }
                        return Err(FtpError::InvalidAddress(text.to_owned()));
                    }
                    k = k + 1;
                }
                proof {
                    assert(all_octets(t));
                    assert forall|j: int| 0 <= j < 6 implies #[trigger] vals@[j] == t[j] && vals@[j] <= 255 by {
                        assert(t[j] <= 255);
                    }
                    assert(vals@[4] <= 255 && vals@[5] <= 255);
                }
                return Ok(
                    PassiveAddress {
                        ip: (vals[0] as u8, vals[1] as u8, vals[2] as u8, vals[3] as u8),
                        port: (vals[4] * 256 + vals[5]) as u16,
                    },
                );
            }
        }
        i = i + 1;
    }
    proof {
        assert forall|j: int| !first_tuple(s, j) by {
            if 0 <= j < s.len() {
                assert(tuple_at(s, j) is None);
            }
        }
    }
    Err(FtpError::InvalidResponse(text.to_owned()))
}

} // verus!
