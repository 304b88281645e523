//! Frame codec for the serial bootloader link.
//!
//! A command frame is an optional 3-byte synchronisation preamble, the
//! payload with every occurrence of the reserved escape byte doubled, and a
//! trailing escape byte followed by the command code.  A response starts
//! with the escape byte and a response code, followed by an escaped payload.

use vstd::prelude::*;

verus! {

/// The reserved byte of the framing protocol: doubled inside payloads,
/// and the lead-in of every command trailer and response header.
pub const ESCAPE_CHAR: u8 = 0xFC;

/// Preamble that tells the bootloader to abandon any half-read command
/// and start a new one.
pub const SYNC_MESSAGE: [u8; 3] = [0x00, 0xFC, 0x05];

pub open spec fn sync_seq() -> Seq<u8> {
    seq![0x00u8, 0xFCu8, 0x05u8]
}

/// The escaped form of a payload: every escape byte doubled.
pub open spec fn escape_seq(s: Seq<u8>) -> Seq<u8>
    decreases s.len(),
{
    if s.len() == 0 {
        Seq::empty()
    } else if s[0] == ESCAPE_CHAR {
        seq![ESCAPE_CHAR, ESCAPE_CHAR] + escape_seq(s.skip(1))
    } else {
        seq![s[0]] + escape_seq(s.skip(1))
    }
}

/// The de-escaped form of a received byte run: adjacent pairs of the escape
/// byte collapse to one.  A lone escape byte is kept literally; a receiver
/// that sees an odd trailing run must read one more byte first (see
/// [`trailing_escapes`]).
pub open spec fn de_escape_seq(s: Seq<u8>) -> Seq<u8>
    decreases s.len(),
{
    if s.len() == 0 {
        Seq::empty()
    } else if s.len() >= 2 && s[0] == ESCAPE_CHAR && s[1] == ESCAPE_CHAR {
        seq![ESCAPE_CHAR] + de_escape_seq(s.skip(2))
    } else {
        seq![s[0]] + de_escape_seq(s.skip(1))
    }
}

/// Length of the run of escape bytes at the end of a buffer.
pub open spec fn trailing_escapes(s: Seq<u8>) -> nat
    decreases s.len(),
{
    if s.len() == 0 || s[s.len() - 1] != ESCAPE_CHAR {
        0
    } else {
        1 + trailing_escapes(s.take(s.len() - 1))
    }
}

proof fn lemma_escape_append(a: Seq<u8>, b: Seq<u8>)
    ensures
        escape_seq(a + b) == escape_seq(a) + escape_seq(b),
    decreases a.len(),
{
    if a.len() == 0 {
        assert(a + b =~= b);
        assert(escape_seq(a) + escape_seq(b) =~= escape_seq(b));
    } else {
        assert((a + b).skip(1) =~= a.skip(1) + b);
        lemma_escape_append(a.skip(1), b);
        if a[0] == ESCAPE_CHAR {
            assert(escape_seq(a + b) =~= escape_seq(a) + escape_seq(b));
        } else {
            assert(escape_seq(a + b) =~= escape_seq(a) + escape_seq(b));
        }
    }
}

/// Escaping then de-escaping returns any payload unchanged.
pub proof fn lemma_escape_round_trip(b: Seq<u8>)
    ensures
        de_escape_seq(escape_seq(b)) == b,
    decreases b.len(),
{
    if b.len() == 0 {
        assert(de_escape_seq(escape_seq(b)) =~= b);
    } else {
        lemma_escape_round_trip(b.skip(1));
        if b[0] == ESCAPE_CHAR {
            let e = escape_seq(b);
            assert(e =~= seq![ESCAPE_CHAR, ESCAPE_CHAR] + escape_seq(b.skip(1)));
            assert(e.skip(2) =~= escape_seq(b.skip(1)));
            assert(de_escape_seq(e) =~= seq![ESCAPE_CHAR] + de_escape_seq(e.skip(2)));
            assert(de_escape_seq(escape_seq(b)) =~= b);
        } else {
            let e = escape_seq(b);
            assert(e =~= seq![b[0]] + escape_seq(b.skip(1)));
            assert(e.skip(1) =~= escape_seq(b.skip(1)));
            if e.len() >= 2 && e[0] == ESCAPE_CHAR && e[1] == ESCAPE_CHAR {
                assert(false);
            }
            assert(de_escape_seq(e) =~= seq![b[0]] + de_escape_seq(e.skip(1)));
            assert(de_escape_seq(escape_seq(b)) =~= b);
        }
    }
}

/// Double every escape byte of a payload.
pub fn escape(data: &Vec<u8>) -> (r: Vec<u8>)
    ensures
        r@ == escape_seq(data@),
{
    let mut out: Vec<u8> = Vec::new();
    let mut i: usize = 0;
    while i < data.len()
        invariant
            i <= data.len(),
            out@ == escape_seq(data@.take(i as int)),
        decreases data.len() - i,
    {
        let b = data[i];
        if b == ESCAPE_CHAR {
            out.push(ESCAPE_CHAR);
            out.push(ESCAPE_CHAR);
        } else {
            out.push(b);
        }
        proof {
            let pre = data@.take(i as int);
            let one = seq![data@[i as int]];
            assert(data@.take(i + 1) =~= pre + one);
            lemma_escape_append(pre, one);
            assert(one.skip(1) =~= Seq::<u8>::empty());
            assert(escape_seq(Seq::<u8>::empty()) =~= Seq::<u8>::empty());
            assert(one[0] == data@[i as int]);
            if data@[i as int] == ESCAPE_CHAR {
                assert(escape_seq(one) =~= seq![ESCAPE_CHAR, ESCAPE_CHAR]);
            } else {
                assert(escape_seq(one) =~= seq![data@[i as int]]);
            }
            assert(out@ =~= escape_seq(pre) + escape_seq(one));
        }
        i += 1;
    }
    proof {
        assert(data@.take(data@.len() as int) =~= data@);
    }
    out
}

/// Collapse doubled escape bytes of a received run.
pub fn de_escape(data: &Vec<u8>) -> (r: Vec<u8>)
    ensures
        r@ == de_escape_seq(data@),
{
    let mut out: Vec<u8> = Vec::new();
    let mut i: usize = 0;
    proof {
        assert(data@.skip(0) =~= data@);
        assert(Seq::<u8>::empty() + de_escape_seq(data@) =~= de_escape_seq(data@));
    }
    while i < data.len()
        invariant
            i <= data.len(),
            out@ + de_escape_seq(data@.skip(i as int)) == de_escape_seq(data@),
        decreases data.len() - i,
    {
        let rest = Ghost(data@.skip(i as int));
        if data[i] == ESCAPE_CHAR && i + 1 < data.len() && data[i + 1] == ESCAPE_CHAR {
            out.push(ESCAPE_CHAR);
            proof {
                assert(rest@.skip(2) =~= data@.skip(i + 2));
                assert(out@ + de_escape_seq(data@.skip(i + 2)) =~= de_escape_seq(data@));
            }
            i += 2;
        } else {
            out.push(data[i]);
            proof {
                assert(rest@[0] == data@[i as int]);
                if rest@.len() >= 2 {
                    assert(rest@[1] == data@[i + 1]);
                }
                assert(rest@.skip(1) =~= data@.skip(i + 1));
                assert(out@ + de_escape_seq(data@.skip(i + 1)) =~= de_escape_seq(data@));
            }
            i += 1;
        }
    }
    proof {
        assert(data@.skip(data@.len() as int) =~= Seq::<u8>::empty());
        assert(out@ + de_escape_seq(data@.skip(data@.len() as int)) =~= out@);
    }
    out
}

/// Length of the trailing escape-byte run of a receive buffer.  An odd
/// count means the last escape byte still waits for its pair: one more
/// byte must be read before pairs are collapsed.
pub fn trailing_escape_run(data: &Vec<u8>) -> (r: usize)
    ensures
        r == trailing_escapes(data@),
{
    let mut run: usize = 0;
    let mut i: usize = data.len();
    proof {
        assert(data@.take(data@.len() as int) =~= data@);
    }
    while i > 0
        invariant
            i <= data.len(),
            run == data.len() - i,
            trailing_escapes(data@) == run + trailing_escapes(data@.take(i as int)),
            forall|j: int| i <= j < data.len() ==> data@[j] == ESCAPE_CHAR,
        decreases i,
    {
        proof {
            assert(data@.take(i as int).take(i - 1) =~= data@.take(i - 1));
        }
        if data[i - 1] != ESCAPE_CHAR {
            proof {
                assert(trailing_escapes(data@.take(i as int)) == 0);
            }
            return run;
        }
        run += 1;
        i -= 1;
    }
    proof {
        assert(data@.take(0) =~= Seq::<u8>::empty());
    }
    run
}

/// A frame on the wire: optional sync preamble, escaped payload, then the
/// escape byte and the command code.
pub open spec fn frame_seq(code: u8, payload: Seq<u8>, sync: bool) -> Seq<u8> {
    (if sync {
        sync_seq()
    } else {
        Seq::empty()
    }) + escape_seq(payload) + seq![ESCAPE_CHAR, code]
}

/// Build the byte frame that carries one command.
pub fn encode_frame(code: u8, payload: &Vec<u8>, sync: bool) -> (r: Vec<u8>)
    ensures
        r@ == frame_seq(code, payload@, sync),
{
    let mut out: Vec<u8> = Vec::new();
    if sync {
        out.push(0x00);
        out.push(0xFC);
        out.push(0x05);
    }
    let mut body = escape(payload);
    out.append(&mut body);
    out.push(ESCAPE_CHAR);
    out.push(code);
    proof {
        if sync {
            assert(out@ =~= frame_seq(code, payload@, sync));
        } else {
            assert(out@ =~= frame_seq(code, payload@, sync));
        }
    }
    out
}


/// The payload of a read-range command: the 32-bit start address and the
/// 16-bit length, both little-endian.
pub fn read_range_payload(address: u32, length: u16) -> (r: Vec<u8>)
    ensures
        r@ == vstd::bytes::spec_u32_to_le_bytes(address) + vstd::bytes::spec_u16_to_le_bytes(
            length,
        ),
{
    let mut out = vstd::bytes::u32_to_le_bytes(address);
    let mut len_bytes = vstd::bytes::u16_to_le_bytes(length);
    out.append(&mut len_bytes);
    out
}

/// The payload of a write-page command: the 32-bit page address followed
/// by the page bytes.
pub fn write_page_payload(address: u32, data: &Vec<u8>) -> (r: Vec<u8>)
    ensures
        r@ == vstd::bytes::spec_u32_to_le_bytes(address) + data@,
{
    let mut out = vstd::bytes::u32_to_le_bytes(address);
    let mut i: usize = 0;
    let ghost head = out@;
    while i < data.len()
        invariant
            i <= data@.len(),
            out@ == head + data@.take(i as int),
        decreases data@.len() - i,
    {
        out.push(data[i]);
        proof {
            assert(head + data@.take(i + 1) =~= (head + data@.take(i as int)).push(
                data@[i as int],
            ));
        }
        i += 1;
    }
    proof {
        assert(data@.take(data@.len() as int) =~= data@);
    }
    out
}

/// The payload of an erase-page command: the 32-bit page address.
pub fn erase_page_payload(address: u32) -> (r: Vec<u8>)
    ensures
        r@ == vstd::bytes::spec_u32_to_le_bytes(address),
{
    vstd::bytes::u32_to_le_bytes(address)
}

/// Validate a two-byte response header: the first byte must be the escape
/// character and the second the code the command expects.
pub fn decode_header(raw: &Vec<u8>, expected_code: u8) -> (r: Result<
    (u8, u8),
    crate::errors::ProtocolError,
>)
    ensures
        r is Ok <==> (raw@.len() >= 2 && raw@[0] == ESCAPE_CHAR && raw@[1] == expected_code),
        r is Ok ==> r->Ok_0 == (raw@[0], raw@[1]),
        r is Err ==> r->Err_0 == (if raw@.len() < 2 {
            crate::errors::ProtocolError::WrongPayloadLength
        } else if raw@[0] != ESCAPE_CHAR {
            crate::errors::ProtocolError::MalformedFrame(raw@[0])
        } else {
            crate::errors::ProtocolError::UnexpectedResponse(raw@[1])
        }),
{
    if raw.len() < 2 {
        return Err(crate::errors::ProtocolError::WrongPayloadLength);
    }
    if raw[0] != ESCAPE_CHAR {
        return Err(crate::errors::ProtocolError::MalformedFrame(raw[0]));
    }
    if raw[1] != expected_code {
        return Err(crate::errors::ProtocolError::UnexpectedResponse(raw[1]));
    }
    Ok((raw[0], raw[1]))
}

/// Extract the payload of a response: collapse doubled escape bytes and
/// check that exactly the expected number of bytes remains.
pub fn decode_payload(raw: &Vec<u8>, expected_len: usize) -> (r: Result<
    Vec<u8>,
    crate::errors::ProtocolError,
>)
    ensures
        r is Ok <==> de_escape_seq(raw@).len() == expected_len,
        r is Ok ==> r->Ok_0@ == de_escape_seq(raw@),
        r is Err ==> r->Err_0 == crate::errors::ProtocolError::WrongPayloadLength,
{
    let out = de_escape(raw);
    if out.len() != expected_len {
        return Err(crate::errors::ProtocolError::WrongPayloadLength);
    }
    Ok(out)
}

} // verus!
