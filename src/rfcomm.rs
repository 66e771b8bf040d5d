use vstd::prelude::*;
use vstd::string::{StringExecFns, StringSliceAdditionalSpecFns};

use crate::error;

verus! {

/// RFCOMM channel the printer listens on.
pub const RFCOMM_DEFAULT_CHANNEL: u8 = 1;

/// Value of an ASCII hex digit, or -1.
pub open spec fn hex_value(c: u8) -> int {
    if 48 <= c <= 57 {
        c - 48
    } else if 65 <= c <= 70 {
        c - 55
    } else if 97 <= c <= 102 {
        c - 87
    } else {
        -1
    }
}

/// Every byte of `d` is a hex digit.
pub open spec fn all_hex(d: Seq<u8>) -> bool {
    forall|i: int| 0 <= i < d.len() ==> hex_value(#[trigger] d[i]) >= 0
}

/// Value of a run of hex digits.
pub open spec fn hex_number(d: Seq<u8>) -> int
    decreases d.len(),
{
    if d.len() == 0 {
        0
    } else {
        16 * hex_number(d.drop_last()) + hex_value(d.last())
    }
}

/// The digits of a field: an optional leading `+` is dropped.
pub open spec fn field_digits(f: Seq<u8>) -> Seq<u8> {
    if f.len() > 0 && f[0] == 43 {
        f.drop_first()
    } else {
        f
    }
}

/// A field is a valid address byte: one or more hex digits after an
/// optional `+`, with a value below 256.
pub open spec fn field_ok(f: Seq<u8>) -> bool {
    let d = field_digits(f);
    d.len() > 0 && all_hex(d) && hex_number(d) <= 255
}

/// The fields of `s` between `:` separators, as `str::split` gives them.
pub open spec fn split_colon(s: Seq<u8>) -> Seq<Seq<u8>>
    decreases s.len(),
{
    if s.len() == 0 {
        seq![seq![]]
    } else if s.last() == 58 {
        split_colon(s.drop_last()).push(seq![])
    } else {
        let p = split_colon(s.drop_last());
        p.update(p.len() - 1, p.last().push(s.last()))
    }
}

/// `s` is six valid fields separated by colons.
pub open spec fn bdaddr_ok(s: Seq<u8>) -> bool {
    split_colon(s).len() == 6 && forall|k: int| 0 <= k < 6 ==> field_ok(#[trigger] split_colon(s)[k])
}

/// The six address bytes in the reversed order BlueZ stores them.
pub open spec fn bdaddr_bytes(s: Seq<u8>) -> Seq<u8> {
    Seq::new(6, |i: int| hex_number(field_digits(split_colon(s)[5 - i])) as u8)
}

proof fn lemma_split_nonempty(s: Seq<u8>)
    ensures
        split_colon(s).len() >= 1,
    decreases s.len(),
{
    if s.len() > 0 {
        lemma_split_nonempty(s.drop_last());
    }
}

proof fn lemma_hex_number_grows(d: Seq<u8>, n: int)
    requires
        0 <= n <= d.len(),
        all_hex(d),
    ensures
        hex_number(d.subrange(0, n)) <= hex_number(d),
        hex_number(d.subrange(0, n)) >= 0,
    decreases d.len() - n,
{
    if n < d.len() {
        assert(d.subrange(0, n + 1).drop_last() =~= d.subrange(0, n));
        lemma_hex_number_grows(d, n + 1);
    } else {
        assert(d.subrange(0, n) =~= d);
        lemma_hex_number_nonneg(d);
    }
}

proof fn lemma_hex_number_nonneg(d: Seq<u8>)
    requires
        all_hex(d),
    ensures
        hex_number(d) >= 0,
    decreases d.len(),
{
    if d.len() > 0 {
        lemma_hex_number_nonneg(d.drop_last());
    }
}

fn hex_digit_value(c: u8) -> (r: i32)
    ensures
        r == hex_value(c),
{
    if 48 <= c && c <= 57 {
        c as i32 - 48
    } else if 65 <= c && c <= 70 {
        c as i32 - 55
    } else if 97 <= c && c <= 102 {
        c as i32 - 87
    } else {
        -1
    }
}

fn parse_field(f: &[u8]) -> (r: Option<u8>)
    ensures
        r is Some <==> field_ok(f@),
        r matches Some(v) ==> v as int == hex_number(field_digits(f@)),
{
    let start: usize = if f.len() > 0 && f[0] == 43 {
        1
    } else {
        0
    };
    let ghost d = field_digits(f@);
    assert(d =~= f@.subrange(start as int, f@.len() as int));
    if start >= f.len() {
        return None;
    }
    let mut acc: u32 = 0;
    let mut i: usize = start;
    while i < f.len()
        invariant
            start <= i <= f@.len(),
            d == f@.subrange(start as int, f@.len() as int),
            d == field_digits(f@),
            all_hex(d.subrange(0, i - start)),
            acc as int == hex_number(d.subrange(0, i - start)),
            acc <= 255,
        decreases f@.len() - i,
    {
        let v = hex_digit_value(f[i]);
        assert(d[i - start] == f@[i as int]);
        if v < 0 {
            assert(!all_hex(d)) by {
                assert(hex_value(d[i - start]) < 0);
            }
            assert(!field_ok(f@));
            return None;
        }
        let ghost pre = d.subrange(0, i - start);
        let ghost next = d.subrange(0, i - start + 1);
        assert(next.drop_last() =~= pre);
        assert(hex_number(next) == 16 * hex_number(pre) + hex_value(d[i - start]));
        assert forall|j: int| 0 <= j < next.len() implies hex_value(#[trigger] next[j]) >= 0 by {
            if j < pre.len() {
                assert(next[j] == pre[j]);
            }
        }
        acc = acc * 16 + v as u32;
        i = i + 1;
        if acc > 255 {
            proof {
                assert(acc as int == hex_number(next));
                assert(next == d.subrange(0, i - start));
                if all_hex(d) {
                    lemma_hex_number_grows(d, i - start);
                    assert(hex_number(d) > 255);
                }
            }
            assert(!field_ok(f@));
            return None;
        }
    }
    assert(d.subrange(0, i - start) =~= d);
    Some(acc as u8)
}

/// Parse a Bluetooth address `"XX:XX:XX:XX:XX:XX"` into its six bytes,
/// reversed into the order of the on-wire address field.
pub fn parse_bdaddr(addr: &str) -> (r: error::Result<[u8; 6]>)
    ensures
        r is Ok <==> bdaddr_ok(addr.spec_bytes()),
        r matches Ok(b) ==> b@ == bdaddr_bytes(addr.spec_bytes()),
        r matches Err(e) ==> e is InvalidParam,
{
    let s = addr.as_bytes();
    let mut fields: Vec<Vec<u8>> = Vec::new();
    fields.push(Vec::new());
    let mut i: usize = 0;
    assert(s@.subrange(0, 0) =~= Seq::<u8>::empty());
    while i < s.len()
        invariant
            i <= s@.len(),
            fields@.len() == split_colon(s@.subrange(0, i as int)).len(),
            forall|k: int|
                0 <= k < fields@.len() ==> #[trigger] fields@[k]@ == split_colon(s@.subrange(0, i as int))[k],
        decreases s@.len() - i,
    {
        let ghost prev = split_colon(s@.subrange(0, i as int));
        proof {
            lemma_split_nonempty(s@.subrange(0, i as int));
        }
        assert(s@.subrange(0, i + 1).drop_last() =~= s@.subrange(0, i as int));
        if s[i] == 58 {
            fields.push(Vec::new());
        } else {
            let last = fields.len() - 1;
            let mut cur = fields.pop().unwrap();
            cur.push(s[i]);
            fields.push(cur);
            proof {
                assert(fields@[last as int]@ =~= prev.last().push(s@[i as int]));
            }
        }
        i = i + 1;
        proof {
            let now = split_colon(s@.subrange(0, i as int));
            assert forall|k: int| 0 <= k < fields@.len() implies #[trigger] fields@[k]@ == now[k] by {
                if k < fields@.len() - 1 {
                    assert(fields@[k]@ == prev[k]);
                }
            }
        }
    }
    assert(s@.subrange(0, s@.len() as int) =~= s@);
    if fields.len() != 6 {
        return Err(bad_address("invalid BT address: ", addr));
    }
    let mut out = [0u8; 6];
    let mut k: usize = 0;
    while k < 6
        invariant
            k <= 6,
            fields@.len() == 6,
            s@ == addr.spec_bytes(),
            forall|j: int| 0 <= j < 6 ==> #[trigger] fields@[j]@ == split_colon(s@)[j],
            forall|j: int| 0 <= j < k ==> field_ok(#[trigger] split_colon(s@)[j]),
            forall|j: int| 0 <= j < k ==> #[trigger] out@[5 - j] == hex_number(field_digits(split_colon(s@)[j])) as u8,
        decreases 6 - k,
    {
        match parse_field(fields[k].as_slice()) {
            Some(v) => {
                out[5 - k] = v;
            },
            None => {
                return Err(bad_address("invalid BT address byte in: ", addr));
            },
        }
        k = k + 1;
    }
    assert forall|i: int| 0 <= i < 6 implies #[trigger] out@[i] == bdaddr_bytes(s@)[i] by {
        assert(out@[5 - (5 - i)] == hex_number(field_digits(split_colon(s@)[5 - i])) as u8);
    }
    assert(out@ =~= bdaddr_bytes(s@));
    Ok(out)
}

fn bad_address(what: &str, addr: &str) -> (r: error::Error)
    ensures
        r is InvalidParam,
{
    let mut text = what.to_owned();
    text.append(addr);
    error::Error::InvalidParam(text)
}

/// Pause for trailing bytes once a response has started, in milliseconds.
pub const TRAILING_WAIT_MS: u64 = 50;

/// Progress of reading one response from the stream socket.
pub struct ReadState {
    /// Polls still allowed before giving up.
    pub polls_left: u64,
    /// Receive timeout of one poll, in milliseconds.
    pub poll_ms: u64,
    /// Whether the first bytes have come and only trailing bytes are awaited.
    pub trailing: bool,
    /// Bytes received so far.
    pub response: Vec<u8>,
}

/// What the reader must do next.
pub enum ReadAction {
    /// Receive once with this timeout, then report what came.
    Poll { timeout_ms: u64 },
    /// The read is over: the response, or `None` when nothing came.
    Done(Option<Vec<u8>>),
}

/// `a` is a poll with timeout `ms`.
pub open spec fn polls(a: ReadAction, ms: u64) -> bool {
    match a {
        ReadAction::Poll { timeout_ms } => timeout_ms == ms,
        _ => false,
    }
}

/// `a` ends the read with response `v`.
pub open spec fn ends_with(a: ReadAction, v: Option<Seq<u8>>) -> bool {
    match a {
        ReadAction::Done(Some(x)) => v == Some(x@),
        ReadAction::Done(None) => v is None,
        _ => false,
    }
}

/// What a poll brought: its bytes, empty when nothing came.
pub open spec fn received(got: Option<Vec<u8>>) -> Seq<u8> {
    match got {
        Some(g) => g@,
        None => seq![],
    }
}

impl ReadState {
    /// Start reading: `max_wait_ms / poll_ms` polls of `poll_ms` each (a
    /// zero interval counts as one millisecond).
    pub fn new(max_wait_ms: u64, poll_ms: u64) -> (r: (ReadState, ReadAction))
        ensures
            r.0.poll_ms == poll_ms,
            !r.0.trailing,
            r.0.response@.len() == 0,
            r.0.polls_left == max_wait_ms / (if poll_ms == 0 { 1 } else { poll_ms }),
            r.0.polls_left == 0 ==> ends_with(r.1, None),
            r.0.polls_left > 0 ==> polls(r.1, poll_ms),
    {
        let div: u64 = if poll_ms == 0 {
            1
        } else {
            poll_ms
        };
        let polls = max_wait_ms / div;
        let st = ReadState { polls_left: polls, poll_ms, trailing: false, response: Vec::new() };
        if polls == 0 {
            (st, ReadAction::Done(None))
        } else {
            (st, ReadAction::Poll { timeout_ms: poll_ms })
        }
    }

    /// Take what one poll received (`None` or empty: nothing). The first
    /// bytes are kept and one short extra poll collects trailing bytes; after
    /// that, or when the polls run out, the read is over.
    pub fn step(&mut self, got: Option<Vec<u8>>) -> (a: ReadAction)
        ensures
            final(self).poll_ms == old(self).poll_ms,
            old(self).trailing ==> final(self).response@ == old(self).response@ + received(got) && ends_with(
                a,
                Some(final(self).response@),
            ),
            !old(self).trailing && received(got).len() > 0 ==> final(self).trailing && final(self).response@
                == received(got) && polls(a, TRAILING_WAIT_MS),
            !old(self).trailing && received(got).len() == 0 ==> {
                &&& !final(self).trailing
                &&& final(self).response@ == old(self).response@
                &&& final(self).polls_left == if old(self).polls_left > 0 { old(self).polls_left - 1 } else { 0 }
                &&& (final(self).polls_left == 0 ==> ends_with(a, None))
                &&& (final(self).polls_left > 0 ==> polls(a, old(self).poll_ms))
            },
    {
        if self.trailing {
            let ghost before = self.response@;
            let ghost more = received(got);
            if let Some(g) = got {
                self.response.extend_from_slice(g.as_slice());
            }
            assert(self.response@ =~= before + more);
            let mut out: Vec<u8> = Vec::new();
            out.extend_from_slice(self.response.as_slice());
            assert(out@ =~= self.response@);
            return ReadAction::Done(Some(out));
        }
        match got {
            Some(g) if g.len() > 0 => {
                self.response = g;
                self.trailing = true;
                ReadAction::Poll { timeout_ms: TRAILING_WAIT_MS }
            },
            _ => {
                if self.polls_left > 0 {
                    self.polls_left = self.polls_left - 1;
                }
                if self.polls_left == 0 {
                    ReadAction::Done(None)
                } else {
                    ReadAction::Poll { timeout_ms: self.poll_ms }
                }
            },
        }
    }
}

} // verus!
