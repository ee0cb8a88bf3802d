//! Wire side of the message protocol: the protocol identifier that both ends
//! select, and one length-prefixed frame per substream.

use vstd::prelude::*;

verus! {

/// Largest payload, in bytes, that one frame may carry.
pub const MAX_FRAME_LEN: usize = 2048;

/// Width, in bytes, of the big-endian length prefix in front of each payload.
pub const PREFIX_LEN: usize = 2;

/// The outcome of a completed outbound exchange.
#[derive(Debug, Clone, Copy, PartialEq, Eq, Structural)]
pub enum Success {
    OK,
}

/// Why a frame could not be written or read.
#[derive(Debug, Clone, Copy, PartialEq, Eq, Structural)]
pub enum FrameError {
    /// The payload, or the length that a prefix declares, is over `MAX_FRAME_LEN`.
    FrameTooLarge,
    /// The bytes ended before the prefix or the payload was complete.
    UnexpectedEof,
}

/// One application message: an opaque payload.
#[derive(Debug, Clone, Default)]
pub struct MsgContent {
    pub data: Vec<u8>,
}

/// The two prefix bytes that announce a payload of `n` bytes.
pub open spec fn length_prefix(n: nat) -> Seq<u8> {
    seq![(n / 256) as u8, (n % 256) as u8]
}

/// The bytes put on the wire for `data`: its length prefix, then the payload.
pub open spec fn frame_of(data: Seq<u8>) -> Seq<u8> {
    length_prefix(data.len()) + data
}

/// The payload length that the first two bytes declare.
pub open spec fn declared_len(bytes: Seq<u8>) -> nat
    recommends
        bytes.len() >= 2,
{
    bytes[0] as nat * 256 + bytes[1] as nat
}

/// What reading one frame from the start of `bytes` gives: the payload, or
/// the reason it cannot be had.
pub open spec fn read_frame(bytes: Seq<u8>) -> Result<Seq<u8>, FrameError> {
    if bytes.len() < 2 {
        Err(FrameError::UnexpectedEof)
    } else if declared_len(bytes) > MAX_FRAME_LEN {
        Err(FrameError::FrameTooLarge)
    } else if bytes.len() < 2 + declared_len(bytes) {
        Err(FrameError::UnexpectedEof)
    } else {
        Ok(bytes.subrange(2, 2 + declared_len(bytes) as int))
    }
}

/// Encodes `data` as one frame. Fails exactly when the payload is too long.
pub fn encode_frame(data: &[u8]) -> (r: Result<Vec<u8>, FrameError>)
    ensures
        data@.len() > MAX_FRAME_LEN <==> r is Err,
        r matches Err(e) ==> e == FrameError::FrameTooLarge,
        r matches Ok(v) ==> v@ == frame_of(data@),
{
    let len = data.len();
    if len > MAX_FRAME_LEN {
        return Err(FrameError::FrameTooLarge);
    }
    let mut out: Vec<u8> = Vec::with_capacity(len + PREFIX_LEN);
    out.push((len / 256) as u8);
    out.push((len % 256) as u8);
    let mut i: usize = 0;
    while i < len
        invariant
            len == data@.len(),
            i <= len,
            out@ == length_prefix(len as nat) + data@.subrange(0, i as int),
        decreases len - i,
    {
        out.push(data[i]);
        i += 1;
        assert(data@.subrange(0, i as int) == data@.subrange(0, i - 1) + seq![data@[i - 1]]);
    }
    assert(data@.subrange(0, len as int) == data@);
    Ok(out)
}

/// Reads the two prefix bytes `hi`, `lo` and returns the payload length that
/// they declare, or `FrameTooLarge` when it is over the maximum.
pub fn decode_header(hi: u8, lo: u8) -> (r: Result<usize, FrameError>)
    ensures
        ({
            let n = hi as nat * 256 + lo as nat;
            &&& n > MAX_FRAME_LEN <==> r is Err
            &&& r matches Err(e) ==> e == FrameError::FrameTooLarge
            &&& r matches Ok(m) ==> m == n
        }),
{
    let n: usize = (hi as usize) * 256 + (lo as usize);
    if n > MAX_FRAME_LEN {
        Err(FrameError::FrameTooLarge)
    } else {
        Ok(n)
    }
}

/// Reads one frame from the start of `bytes`. On success returns the payload
/// and the number of bytes that the frame took; bytes after it are left alone.
pub fn decode_frame(bytes: &[u8]) -> (r: Result<(Vec<u8>, usize), FrameError>)
    ensures
        r matches Ok((p, used)) ==> read_frame(bytes@) == Ok::<Seq<u8>, FrameError>(p@)
            && used == p@.len() + PREFIX_LEN,
        r matches Err(e) ==> read_frame(bytes@) == Err::<Seq<u8>, FrameError>(e),
{
    if bytes.len() < PREFIX_LEN {
        return Err(FrameError::UnexpectedEof);
    }
    let n = match decode_header(bytes[0], bytes[1]) {
        Ok(n) => n,
        Err(e) => {
            return Err(e);
        },
    };
    if bytes.len() - PREFIX_LEN < n {
        return Err(FrameError::UnexpectedEof);
    }
    let mut payload: Vec<u8> = Vec::with_capacity(n);
    let mut i: usize = 0;
    while i < n
        invariant
            n + PREFIX_LEN <= bytes.len(),
            bytes.len() == bytes@.len(),
            i <= n,
            payload@ == bytes@.subrange(2, 2 + i),
        decreases n - i,
    {
        payload.push(bytes[i + PREFIX_LEN]);
        i += 1;
        assert(bytes@.subrange(2, 2 + i) == bytes@.subrange(2, 2 + i - 1) + seq![bytes@[i + 1]]);
    }
    Ok((payload, n + PREFIX_LEN))
}

/// The prefix of a payload of allowed length declares exactly that length.
proof fn lemma_prefix_declares(n: nat)
    requires
        n <= MAX_FRAME_LEN,
    ensures
        length_prefix(n).len() == 2,
        declared_len(length_prefix(n)) == n,
{
    let hi = n / 256;
    let lo = n % 256;
    assert(hi < 256 && lo < 256) by (nonlinear_arith)
        requires
            n <= 2048,
            hi == n / 256,
            lo == n % 256,
    ;
    assert(hi * 256 + lo == n) by (nonlinear_arith)
        requires
            hi == n / 256,
            lo == n % 256,
    ;
}

/// Round trip: a frame written for a payload of at most `MAX_FRAME_LEN` bytes
/// reads back as that payload, whatever bytes follow it on the stream.
pub proof fn lemma_frame_round_trip(data: Seq<u8>, rest: Seq<u8>)
    requires
        data.len() <= MAX_FRAME_LEN,
    ensures
        read_frame(frame_of(data) + rest) == Ok::<Seq<u8>, FrameError>(data),
        frame_of(data).len() == data.len() + PREFIX_LEN,
{
    lemma_prefix_declares(data.len());
    let bytes = frame_of(data) + rest;
    assert(bytes[0] == length_prefix(data.len())[0]);
    assert(bytes[1] == length_prefix(data.len())[1]);
    assert(declared_len(bytes) == data.len());
    assert(bytes.subrange(2, 2 + data.len() as int) =~= data);
}

/// Boundary: a payload of exactly `MAX_FRAME_LEN` bytes goes through, and a
/// prefix that declares one byte more is refused as too large.
pub proof fn lemma_frame_boundary(data: Seq<u8>, bytes: Seq<u8>)
    ensures
        data.len() == MAX_FRAME_LEN ==> read_frame(frame_of(data)) == Ok::<Seq<u8>, FrameError>(data),
        bytes.len() >= PREFIX_LEN && declared_len(bytes) == MAX_FRAME_LEN + 1 ==> read_frame(bytes)
            == Err::<Seq<u8>, FrameError>(FrameError::FrameTooLarge),
{
    if data.len() == MAX_FRAME_LEN {
        lemma_frame_round_trip(data, Seq::empty());
        assert(frame_of(data) + Seq::<u8>::empty() =~= frame_of(data));
    }
}

/// The identifier `/p2p/msg/1.0.0`, as ASCII bytes.
pub open spec fn protocol_id() -> Seq<u8> {
    seq![47, 112, 50, 112, 47, 109, 115, 103, 47, 49, 46, 48, 46, 48]
}

impl MsgContent {
    /// The one protocol identifier advertised for both directions.
    pub fn protocol_info(&self) -> (r: Vec<u8>)
        ensures
            r@ == protocol_id(),
    {
        let r: Vec<u8> = vec![47, 112, 50, 112, 47, 109, 115, 103, 47, 49, 46, 48, 46, 48];
        assert(r@ =~= protocol_id());
        r
    }
}

/// Whether `candidate` names this protocol, by exact byte match.
pub fn is_protocol(candidate: &[u8]) -> (r: bool)
    ensures
        r == (candidate@ == protocol_id()),
{
    let id = MsgContent { data: Vec::new() }.protocol_info();
    if candidate.len() != id.len() {
        return false;
    }
    let mut i: usize = 0;
    while i < id.len()
        invariant
            id@ == protocol_id(),
            candidate@.len() == id@.len(),
            i <= id@.len(),
            candidate@.subrange(0, i as int) == id@.subrange(0, i as int),
        decreases id.len() - i,
    {
        if candidate[i] != id[i] {
            return false;
        }
        i += 1;
        assert(candidate@.subrange(0, i as int) =~= candidate@.subrange(0, i - 1).push(candidate@[i - 1]));
        assert(id@.subrange(0, i as int) =~= id@.subrange(0, i - 1).push(id@[i - 1]));
    }
    assert(candidate@ =~= candidate@.subrange(0, i as int));
    assert(id@ =~= id@.subrange(0, i as int));
    true
}

/// Picks, among the identifiers that the remote offers, the first one that is
/// this protocol; `None` when none of them is.
pub fn select_protocol(offers: &Vec<Vec<u8>>) -> (r: Option<usize>)
    ensures
        r matches Some(i) ==> i < offers@.len() && offers@[i as int]@ == protocol_id() && forall|j: int|
            0 <= j < i ==> offers@[j]@ != protocol_id(),
        r is None ==> forall|j: int| 0 <= j < offers@.len() ==> offers@[j]@ != protocol_id(),
{
    let mut i: usize = 0;
    while i < offers.len()
        invariant
            i <= offers@.len(),
            forall|j: int| 0 <= j < i ==> offers@[j]@ != protocol_id(),
        decreases offers.len() - i,
    {
        if is_protocol(offers[i].as_slice()) {
            return Some(i);
        }
        i += 1;
    }
    None
}

} // verus!
