//! The relay-control service: requests that switch channels and the
//! eight-character status that each of them answers with.
use vstd::prelude::*;
use vstd::string::*;
use vstd::utf8::valid_utf8;

use crate::error::Error;
use crate::range::MAX_CHANNEL;
use crate::wire::{read_response, response_text};

verus! {

/// Number of relay channels on the board.
pub const CHANNELS: usize = 8;

/// How a close request reopens the channel afterwards.
pub enum CloseMode {
    /// Stay closed.
    Immediate,
    /// Reopen after a short fixed interval, about half a second.
    QuickReopen,
    /// Reopen after this many seconds; zero means stay closed.
    Delayed(u16),
}

/// ASCII code of the decimal digit `d`.
pub open spec fn digit_byte(d: nat) -> u8 {
    (48 + d) as u8
}

/// Decimal digits of `n`, most significant first, in ASCII.
pub open spec fn decimal_bytes(n: nat) -> Seq<u8>
    decreases n,
{
    if n < 10 {
        seq![digit_byte(n)]
    } else {
        decimal_bytes(n / 10).push(digit_byte(n % 10))
    }
}

/// The request that asks for the status of all channels: `00`.
pub open spec fn status_request_bytes() -> Seq<u8> {
    seq![48u8, 48u8]
}

/// The request that opens channel `ch`: `2` and the channel number from 1.
pub open spec fn open_request_bytes(ch: u8) -> Seq<u8> {
    seq![50u8, digit_byte((ch + 1) as nat)]
}

/// What follows a close request: nothing, `*`, or `:` and the delay.
pub open spec fn close_suffix(mode: CloseMode) -> Seq<u8> {
    match mode {
        CloseMode::Immediate => Seq::empty(),
        CloseMode::QuickReopen => seq![42u8],
        CloseMode::Delayed(d) => if d == 0 {
            Seq::empty()
        } else {
            seq![58u8] + decimal_bytes(d as nat)
        },
    }
}

/// The request that closes channel `ch`: `1`, the channel number from 1,
/// and the suffix for `mode`.
pub open spec fn close_request_bytes(ch: u8, mode: CloseMode) -> Seq<u8> {
    seq![49u8, digit_byte((ch + 1) as nat)] + close_suffix(mode)
}

/// The closed state of each channel that a status text gives: eight
/// characters, each `1` (closed) or `0` (open).
pub open spec fn status_of(s: Seq<char>) -> Option<Seq<bool>> {
    if s.len() == CHANNELS && forall|i: int| 0 <= i < CHANNELS ==> #[trigger] s[i] == '0' || s[i] == '1' {
        Some(Seq::new(CHANNELS as nat, |i: int| s[i] == '1'))
    } else {
        None
    }
}

/// The status that a raw response carries, if it carries one.
pub open spec fn response_status(raw: Seq<u8>) -> Option<Seq<bool>> {
    match response_text(raw) {
        Some(t) => status_of(t),
        None => None,
    }
}

/// Only a text of exactly eight characters decodes to a status.
pub proof fn lemma_status_needs_eight_chars(s: Seq<char>)
    requires
        s.len() != CHANNELS,
    ensures
        status_of(s) is None,
{
}

/// A status text gives channel `i` closed exactly where its `i`-th character
/// is `1`.
pub proof fn lemma_status_reads_each_char(s: Seq<char>, i: int)
    requires
        status_of(s) is Some,
        0 <= i < CHANNELS,
    ensures
        status_of(s)->0[i] <==> s[i] == '1',
        !status_of(s)->0[i] <==> s[i] == '0',
{
}

fn push_decimal(v: &mut Vec<u8>, n: u16)
    ensures
        final(v)@ == old(v)@ + decimal_bytes(n as nat),
    decreases n,
{
    if n >= 10 {
        push_decimal(v, n / 10);
    }
    v.push(48 + (n % 10) as u8);
    assert(final(v)@ =~= old(v)@ + decimal_bytes(n as nat));
}

/// Builds the request that asks for the status of all channels.
pub fn status_request() -> (r: Vec<u8>)
    ensures
        r@ == status_request_bytes(),
{
    let r = vec![48u8, 48u8];
    assert(r@ =~= status_request_bytes());
    r
}

/// Builds the request that opens channel `ch`.
pub fn open_request(ch: u8) -> (r: Vec<u8>)
    requires
        ch <= MAX_CHANNEL,
    ensures
        r@ == open_request_bytes(ch),
{
    let r = vec![50u8, 49 + ch];
    assert(r@ =~= open_request_bytes(ch));
    r
}

/// Builds the request that closes channel `ch` and, by `mode`, reopens it.
pub fn close_request(ch: u8, mode: CloseMode) -> (r: Vec<u8>)
    requires
        ch <= MAX_CHANNEL,
    ensures
        r@ == close_request_bytes(ch, mode),
{
    let mut r = vec![49u8, 49 + ch];
    match mode {
        CloseMode::Immediate => {},
        CloseMode::QuickReopen => {
            r.push(42);
        },
        CloseMode::Delayed(d) => {
            if d > 0 {
                r.push(58);
                push_decimal(&mut r, d);
            }
        },
    }
    assert(r@ =~= close_request_bytes(ch, mode));
    r
}

/// Decodes a status text into the closed state of each channel.
pub fn char_list_to_array(resp: &str) -> (r: Result<[bool; 8], Error>)
    ensures
        r is Ok <==> status_of(resp@) is Some,
        r matches Ok(a) ==> a@ == status_of(resp@)->0,
        r matches Err(e) ==> e matches Error::Decode(_),
{
    if resp.unicode_len() != CHANNELS {
        return Err(Error::Decode("Unexpected char length".to_owned()));
    }
    let mut i: usize = 0;
    while i < CHANNELS
        invariant
            resp@.len() == CHANNELS,
            forall|j: int| 0 <= j < i ==> #[trigger] resp@[j] == '0' || resp@[j] == '1',
        decreases CHANNELS - i,
    {
        let c = resp.get_char(i);
        if c != '0' && c != '1' {
            return Err(Error::Decode("Unexpected char in status".to_owned()));
        }
        i = i + 1;
    }
    let a = [
        resp.get_char(0) == '1',
        resp.get_char(1) == '1',
        resp.get_char(2) == '1',
        resp.get_char(3) == '1',
        resp.get_char(4) == '1',
        resp.get_char(5) == '1',
        resp.get_char(6) == '1',
        resp.get_char(7) == '1',
    ];
    assert(a@ =~= status_of(resp@)->0);
    Ok(a)
}

/// Decodes the raw response to a status or open request.
pub fn decode_status(raw: &[u8]) -> (r: Result<[bool; 8], Error>)
    ensures
        r is Ok <==> response_status(raw@) is Some,
        r matches Ok(a) ==> a@ == response_status(raw@)->0,
        raw@.len() >= crate::wire::BUF_LEN ==> r matches Err(Error::Framing(_)),
        raw@.len() < crate::wire::BUF_LEN && !valid_utf8(raw@) ==> r matches Err(Error::Decode(_)),
        response_text(raw@) is Some && response_status(raw@) is None ==> r matches Err(
            Error::Decode(_),
        ),
{
    let text = read_response(raw)?;
    char_list_to_array(text.as_str())
}

/// Checks that channel `ch` is closed in `status`.
pub fn verify_closed(ch: u8, status: [bool; 8]) -> (r: Result<[bool; 8], Error>)
    requires
        ch <= MAX_CHANNEL,
    ensures
        status@[ch as int] ==> (r matches Ok(a) && a == status),
        !status@[ch as int] ==> (r matches Err(Error::Verification(c)) && c == ch),
{
    if status[ch as usize] {
        Ok(status)
    } else {
        Err(Error::Verification(ch))
    }
}

/// Decodes the raw response to a close request for channel `ch`, which must
/// show that channel closed.
pub fn decode_close(ch: u8, raw: &[u8]) -> (r: Result<[bool; 8], Error>)
    requires
        ch <= MAX_CHANNEL,
    ensures
        r is Ok <==> response_status(raw@) is Some && response_status(raw@)->0[ch as int],
        r matches Ok(a) ==> a@ == response_status(raw@)->0,
        raw@.len() >= crate::wire::BUF_LEN ==> r matches Err(Error::Framing(_)),
        raw@.len() < crate::wire::BUF_LEN && !valid_utf8(raw@) ==> r matches Err(Error::Decode(_)),
        response_text(raw@) is Some && response_status(raw@) is None ==> r matches Err(
            Error::Decode(_),
        ),
        response_status(raw@) is Some && !response_status(raw@)->0[ch as int] ==> (r matches Err(
            Error::Verification(c),
        ) && c == ch),
{
    let status = decode_status(raw)?;
    verify_closed(ch, status)
}

/// Whether channel `ch` is open in `status`.
pub fn is_open(ch: u8, status: &[bool; 8]) -> (r: bool)
    requires
        ch <= MAX_CHANNEL,
    ensures
        r == !status@[ch as int],
{
    !status[ch as usize]
}

} // verus!
