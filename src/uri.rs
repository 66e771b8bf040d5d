use vstd::prelude::*;
use vstd::string::StrSliceExecFns;

use crate::text::{starts_with, starts_with_str};

verus! {

/// Scheme prefix of the printer's device URIs.
pub const URI_PREFIX: &'static str = "katasymbol://";
/// Job option that sets the print density.
pub const DENSITY_OPTION: &'static str = "KatasymbolDensity=";
/// Density used when the job does not set one.
pub const DEFAULT_DENSITY: u8 = 4;

/// Bluetooth address of a `katasymbol://XX:XX:XX:XX:XX:XX` device URI:
/// everything after the scheme prefix, or `None` for another scheme.
pub fn parse_device_uri(uri: &str) -> (r: Option<String>)
    ensures
        r is Some <==> starts_with(uri@, URI_PREFIX@),
        r matches Some(a) ==> a@ == uri@.subrange(URI_PREFIX@.len() as int, uri@.len() as int),
{
    if starts_with_str(uri, URI_PREFIX) {
        let n = URI_PREFIX.unicode_len();
        let len = uri.unicode_len();
        Some(uri.substring_char(n, len).to_owned())
    } else {
        None
    }
}

/// Unicode `White_Space`, the separator of `str::split_whitespace`.
pub open spec fn is_space(c: char) -> bool {
    ('\u{9}' <= c <= '\u{d}') || c == ' ' || c == '\u{85}' || c == '\u{a0}' || c == '\u{1680}' || ('\u{2000}' <= c
        <= '\u{200a}') || c == '\u{2028}' || c == '\u{2029}' || c == '\u{202f}' || c == '\u{205f}' || c == '\u{3000}'
}

fn is_space_exec(c: char) -> (r: bool)
    ensures
        r == is_space(c),
{
    ('\u{9}' <= c && c <= '\u{d}') || c == ' ' || c == '\u{85}' || c == '\u{a0}' || c == '\u{1680}' || ('\u{2000}'
        <= c && c <= '\u{200a}') || c == '\u{2028}' || c == '\u{2029}' || c == '\u{202f}' || c == '\u{205f}' || c
        == '\u{3000}'
}

/// The pieces of `s` between whitespace characters, empty ones included.
pub open spec fn split_space(s: Seq<char>) -> Seq<Seq<char>>
    decreases s.len(),
{
    if s.len() == 0 {
        seq![seq![]]
    } else if is_space(s.last()) {
        split_space(s.drop_last()).push(seq![])
    } else {
        let p = split_space(s.drop_last());
        p.update(p.len() - 1, p.last().push(s.last()))
    }
}

/// Value of a decimal digit character, or -1.
pub open spec fn digit_value(c: char) -> int {
    if '0' <= c <= '9' {
        c as int - '0' as int
    } else {
        -1
    }
}

/// Value of a run of decimal digits.
pub open spec fn dec_number(d: Seq<char>) -> int
    decreases d.len(),
{
    if d.len() == 0 {
        0
    } else {
        10 * dec_number(d.drop_last()) + digit_value(d.last())
    }
}

/// Every character of `d` is a decimal digit.
pub open spec fn all_digits(d: Seq<char>) -> bool {
    forall|i: int| 0 <= i < d.len() ==> digit_value(#[trigger] d[i]) >= 0
}

/// The digits of a number's text: an optional leading `+` is dropped.
pub open spec fn unsigned_digits(t: Seq<char>) -> Seq<char> {
    if t.len() > 0 && t[0] == '+' {
        t.drop_first()
    } else {
        t
    }
}

/// `u8`'s parse: an optional `+`, then one or more digits, at most 255.
pub open spec fn parse_u8_text(t: Seq<char>) -> Option<u8> {
    let d = unsigned_digits(t);
    if d.len() > 0 && all_digits(d) && dec_number(d) <= 255 {
        Some(dec_number(d) as u8)
    } else {
        None
    }
}

/// The density a job option sets, if it is a well-formed density option.
pub open spec fn density_option(t: Seq<char>) -> Option<u8> {
    if starts_with(t, DENSITY_OPTION@) {
        parse_u8_text(t.subrange(DENSITY_OPTION@.len() as int, t.len() as int))
    } else {
        None
    }
}

/// The density set by the first well-formed density option among `ts`,
/// capped at 15, or the default.
pub open spec fn density_from(ts: Seq<Seq<char>>) -> u8
    decreases ts.len(),
{
    if ts.len() == 0 {
        DEFAULT_DENSITY
    } else {
        match density_option(ts[0]) {
            Some(d) => if d > 15 { 15 } else { d },
            None => density_from(ts.drop_first()),
        }
    }
}

proof fn lemma_split_space_nonempty(s: Seq<char>)
    ensures
        split_space(s).len() >= 1,
    decreases s.len(),
{
    if s.len() > 0 {
        lemma_split_space_nonempty(s.drop_last());
    }
}

proof fn lemma_dec_number_grows(d: Seq<char>, n: int)
    requires
        0 <= n <= d.len(),
        forall|i: int| 0 <= i < d.len() ==> digit_value(#[trigger] d[i]) >= 0,
    ensures
        0 <= dec_number(d.subrange(0, n)) <= dec_number(d),
    decreases d.len() - n,
{
    if n < d.len() {
        assert(d.subrange(0, n + 1).drop_last() =~= d.subrange(0, n));
        lemma_dec_number_grows(d, n + 1);
    } else {
        assert(d.subrange(0, n) =~= d);
        lemma_dec_number_nonneg(d);
    }
}

proof fn lemma_dec_number_nonneg(d: Seq<char>)
    requires
        forall|i: int| 0 <= i < d.len() ==> digit_value(#[trigger] d[i]) >= 0,
    ensures
        dec_number(d) >= 0,
    decreases d.len(),
{
    if d.len() > 0 {
        lemma_dec_number_nonneg(d.drop_last());
    }
}

fn parse_u8_chars(t: &Vec<char>, from: usize) -> (r: Option<u8>)
    requires
        from <= t@.len(),
    ensures
        r == parse_u8_text(t@.subrange(from as int, t@.len() as int)),
{
    let ghost tt = t@.subrange(from as int, t@.len() as int);
    let start: usize = if from < t.len() && t[from] == '+' {
        from + 1
    } else {
        from
    };
    let ghost d = unsigned_digits(tt);
    assert(d =~= t@.subrange(start as int, t@.len() as int));
    if start >= t.len() {
        return None;
    }
    let mut acc: u32 = 0;
    let mut i: usize = start;
    while i < t.len()
        invariant
            start <= i <= t@.len(),
            d == t@.subrange(start as int, t@.len() as int),
            tt == t@.subrange(from as int, t@.len() as int),
            d == unsigned_digits(tt),
            forall|k: int| 0 <= k < i - start ==> digit_value(#[trigger] d[k]) >= 0,
            acc as int == dec_number(d.subrange(0, i - start)),
            acc <= 255,
        decreases t@.len() - i,
    {
        let c = t[i];
        assert(d[i - start] == c);
        if !('0' <= c && c <= '9') {
            assert(digit_value(d[i - start]) < 0);
            assert(!all_digits(d));
            assert(parse_u8_text(tt) is None);
            return None;
        }
        let v: u32 = (c as u32) - ('0' as u32);
        let ghost pre = d.subrange(0, i - start);
        let ghost next = d.subrange(0, i - start + 1);
        assert(next.drop_last() =~= pre);
        acc = acc * 10 + v;
        i = i + 1;
        if acc > 255 {
            proof {
                assert(acc as int == dec_number(next));
                assert(next == d.subrange(0, i - start));
                if all_digits(d) {
                    lemma_dec_number_grows(d, i - start);
                    assert(dec_number(d) > 255);
                }
            }
            assert(parse_u8_text(tt) is None);
            return None;
        }
    }
    assert(d.subrange(0, i - start) =~= d);
    Some(acc as u8)
}

fn density_of_piece(piece: &Vec<char>) -> (r: Option<u8>)
    ensures
        r == density_option(piece@),
{
    let n = DENSITY_OPTION.unicode_len();
    if piece.len() < n {
        return None;
    }
    let mut j: usize = 0;
    while j < n
        invariant
            n == DENSITY_OPTION@.len(),
            n <= piece@.len(),
            j <= n,
            forall|k: int| 0 <= k < j ==> piece@[k] == DENSITY_OPTION@[k],
        decreases n - j,
    {
        if piece[j] != DENSITY_OPTION.get_char(j) {
            assert(piece@.subrange(0, n as int)[j as int] != DENSITY_OPTION@[j as int]);
            return None;
        }
        j = j + 1;
    }
    assert(piece@.subrange(0, n as int) =~= DENSITY_OPTION@);
    parse_u8_chars(piece, n)
}

/// Print density from a job's option string: the first well-formed
/// `KatasymbolDensity=<n>` among its whitespace-separated words, capped at
/// 15; the default when there is none.
pub fn parse_density(options: &str) -> (r: u8)
    ensures
        r == density_from(split_space(options@)),
{
    let len = options.unicode_len();
    let mut pieces: Vec<Vec<char>> = Vec::new();
    pieces.push(Vec::new());
    let mut i: usize = 0;
    assert(options@.subrange(0, 0) =~= Seq::<char>::empty());
    while i < len
        invariant
            len == options@.len(),
            i <= len,
            pieces@.len() == split_space(options@.subrange(0, i as int)).len(),
            forall|k: int|
                0 <= k < pieces@.len() ==> #[trigger] pieces@[k]@ == split_space(options@.subrange(0, i as int))[k],
        decreases len - i,
    {
        let ghost prev = split_space(options@.subrange(0, i as int));
        proof {
            lemma_split_space_nonempty(options@.subrange(0, i as int));
        }
        assert(options@.subrange(0, i + 1).drop_last() =~= options@.subrange(0, i as int));
        let c = options.get_char(i);
        if is_space_exec(c) {
            pieces.push(Vec::new());
        } else {
            let last = pieces.len() - 1;
            let mut cur = pieces.pop().unwrap();
            cur.push(c);
            pieces.push(cur);
            proof {
                assert(pieces@[last as int]@ =~= prev.last().push(options@[i as int]));
            }
        }
        i = i + 1;
        proof {
            let now = split_space(options@.subrange(0, i as int));
            assert forall|k: int| 0 <= k < pieces@.len() implies #[trigger] pieces@[k]@ == now[k] by {
                if k < pieces@.len() - 1 {
                    assert(pieces@[k]@ == prev[k]);
                }
            }
        }
    }
    assert(options@.subrange(0, len as int) =~= options@);
    let ghost all = split_space(options@);
    assert(all.subrange(0, all.len() as int) =~= all);
    let mut k: usize = 0;
    while k < pieces.len()
        invariant
            k <= pieces@.len(),
            pieces@.len() == all.len(),
            all == split_space(options@),
            forall|j: int| 0 <= j < pieces@.len() ==> #[trigger] pieces@[j]@ == all[j],
            density_from(all) == density_from(all.subrange(k as int, all.len() as int)),
        decreases pieces@.len() - k,
    {
        let ghost rest = all.subrange(k as int, all.len() as int);
        assert(rest[0] == all[k as int]);
        assert(rest.drop_first() =~= all.subrange(k + 1, all.len() as int));
        match density_of_piece(&pieces[k]) {
            Some(d) => {
                assert(density_option(rest[0]) == Some(d));
                return if d > 15 {
                    15
                } else {
                    d
                };
            },
            None => {},
        }
        k = k + 1;
    }
    assert(all.subrange(k as int, all.len() as int).len() == 0);
    DEFAULT_DENSITY
}

/// Header of one page of the filter's output: buffer count, compressed
/// length and speed, all little-endian.
#[derive(Debug, Clone, Copy)]
pub struct PageHeader {
    pub num_buffers: u32,
    pub compressed_len: u32,
    pub speed: u16,
}

/// Decode the 12-byte page header; bytes 10 and 11 are reserved.
pub fn parse_page_header(buf: &[u8; 12]) -> (r: PageHeader)
    ensures
        r.num_buffers as int == buf@[0] + 256 * buf@[1] + 65536 * buf@[2] + 16777216 * buf@[3],
        r.compressed_len as int == buf@[4] + 256 * buf@[5] + 65536 * buf@[6] + 16777216 * buf@[7],
        r.speed as int == buf@[8] + 256 * buf@[9],
{
    PageHeader {
        num_buffers: buf[0] as u32 + 256 * buf[1] as u32 + 65536 * buf[2] as u32 + 16777216 * buf[3] as u32,
        compressed_len: buf[4] as u32 + 256 * buf[5] as u32 + 65536 * buf[6] as u32 + 16777216 * buf[7] as u32,
        speed: buf[8] as u16 + 256 * buf[9] as u16,
    }
}

} // verus!
