//! The fixed-size command frame, its wire encoding and its checksum.
//!
//! Wire layout, one byte each unless noted:
//! status, transaction id, remaining packets (two bytes, high first),
//! protocol type, argument length, command class, command id,
//! `ARGS_SIZE` argument bytes, and last the checksum: the exclusive or of
//! every byte before it.
use crate::error::DeviceError;
use vstd::prelude::*;

verus! {

/// Number of argument bytes a frame carries.
pub const ARGS_SIZE: usize = 80;

/// Number of bytes before the arguments.
pub const HEADER_SIZE: usize = 8;

/// Number of bytes in one encoded frame.
pub const FRAME_SIZE: usize = 89;

/// Number of bytes in one feature report: the report id, then a frame.
pub const REPORT_SIZE: usize = 90;

/// The report id that precedes every frame on the feature-report channel.
pub const REPORT_ID: u8 = 0;

/// Exclusive or of all bytes of `s`.
pub open spec fn xor_all(s: Seq<u8>) -> u8
    decreases s.len(),
{
    if s.len() == 0 {
        0
    } else {
        xor_all(s.drop_last()) ^ s.last()
    }
}

/// The mathematical content of a frame.
pub ghost struct FrameView {
    pub status: u8,
    pub transaction_id: u8,
    pub remaining_packets: u16,
    pub protocol_type: u8,
    pub data_size: u8,
    pub command_class: u8,
    pub command_id: u8,
    pub args: Seq<u8>,
}

/// A frame's content is well formed when it has exactly `ARGS_SIZE` argument bytes.
pub open spec fn frame_view_wf(f: FrameView) -> bool {
    f.args.len() == ARGS_SIZE
}

/// The bytes that the checksum covers.
pub open spec fn body_bytes(f: FrameView) -> Seq<u8> {
    seq![
        f.status,
        f.transaction_id,
        (f.remaining_packets / 256) as u8,
        (f.remaining_packets % 256) as u8,
        f.protocol_type,
        f.data_size,
        f.command_class,
        f.command_id,
    ] + f.args
}

/// The wire form of a frame.
pub open spec fn frame_bytes(f: FrameView) -> Seq<u8> {
    body_bytes(f).push(xor_all(body_bytes(f)))
}

/// `b` has the length of a frame and its last byte is the checksum of the rest.
pub open spec fn checksum_valid(b: Seq<u8>) -> bool {
    b.len() == FRAME_SIZE && b[FRAME_SIZE - 1] == xor_all(b.take(FRAME_SIZE - 1))
}

/// The frame that `b` holds, read field by field.
pub open spec fn parse_frame(b: Seq<u8>) -> FrameView {
    FrameView {
        status: b[0],
        transaction_id: b[1],
        remaining_packets: (b[2] as int * 256 + b[3] as int) as u16,
        protocol_type: b[4],
        data_size: b[5],
        command_class: b[6],
        command_id: b[7],
        args: b.subrange(HEADER_SIZE as int, HEADER_SIZE + ARGS_SIZE),
    }
}

/// A response answers `request` when it echoes its transaction id and its
/// command class and id.
pub open spec fn same_command(response: FrameView, request: FrameView) -> bool {
    &&& response.transaction_id == request.transaction_id
    &&& response.command_class == request.command_class
    &&& response.command_id == request.command_id
}

/// The outcome of reading `read_len` bytes into `buf` in answer to `request`.
pub open spec fn response_outcome(request: FrameView, buf: Seq<u8>, read_len: int) -> Result<
    FrameView,
    DeviceError,
> {
    if read_len != REPORT_SIZE || buf.len() != REPORT_SIZE {
        Err(DeviceError::ResponseSizeMismatch)
    } else if !checksum_valid(buf.drop_first()) {
        Err(DeviceError::ResponseChecksumInvalid)
    } else if !same_command(parse_frame(buf.drop_first()), request) {
        Err(DeviceError::ResponseIdentityMismatch)
    } else {
        Ok(parse_frame(buf.drop_first()))
    }
}

/// One command frame.
#[derive(Clone, Debug, PartialEq, Eq)]
pub struct Frame {
    pub status: u8,
    pub transaction_id: u8,
    pub remaining_packets: u16,
    pub protocol_type: u8,
    pub data_size: u8,
    pub command_class: u8,
    pub command_id: u8,
    /// Exactly `ARGS_SIZE` bytes.
    pub args: Vec<u8>,
}

impl View for Frame {
    type V = FrameView;

    open spec fn view(&self) -> FrameView {
        FrameView {
            status: self.status,
            transaction_id: self.transaction_id,
            remaining_packets: self.remaining_packets,
            protocol_type: self.protocol_type,
            data_size: self.data_size,
            command_class: self.command_class,
            command_id: self.command_id,
            args: self.args@,
        }
    }
}

proof fn lemma_xor_step(s: Seq<u8>, i: int)
    requires
        0 <= i < s.len(),
    ensures
        xor_all(s.take(i + 1)) == xor_all(s.take(i)) ^ s[i],
{
    assert(s.take(i + 1).drop_last() =~= s.take(i));
}

/// Exclusive or of `bytes[start .. start + n]`.
fn checksum(bytes: &[u8], start: usize, n: usize) -> (r: u8)
    requires
        start + n <= bytes@.len() <= REPORT_SIZE,
    ensures
        r == xor_all(bytes@.subrange(start as int, start + n)),
{
    let ghost s = bytes@.subrange(start as int, start + n);
    let mut acc: u8 = 0;
    let mut i: usize = 0;
    while i < n
        invariant
            i <= n,
            start + n <= bytes@.len() <= REPORT_SIZE,
            s == bytes@.subrange(start as int, start + n),
            acc == xor_all(s.take(i as int)),
        decreases n - i,
    {
        proof {
            lemma_xor_step(s, i as int);
        }
        acc = acc ^ bytes[start + i];
        i = i + 1;
    }
    assert(s.take(n as int) =~= s);
    acc
}

/// Reads the frame held in `bytes[start .. start + FRAME_SIZE]`, checksum aside.
fn frame_at(bytes: &[u8], start: usize) -> (r: Frame)
    requires
        start + FRAME_SIZE <= bytes@.len() <= REPORT_SIZE,
    ensures
        r@ == parse_frame(bytes@.subrange(start as int, start + FRAME_SIZE)),
        r.wf(),
{
    let ghost b = bytes@.subrange(start as int, start + FRAME_SIZE);
    let mut args: Vec<u8> = Vec::new();
    let mut i: usize = 0;
    while i < ARGS_SIZE
        invariant
            i <= ARGS_SIZE,
            start + FRAME_SIZE <= bytes@.len() <= REPORT_SIZE,
            b == bytes@.subrange(start as int, start + FRAME_SIZE),
            args@ == b.subrange(HEADER_SIZE as int, HEADER_SIZE + i),
        decreases ARGS_SIZE - i,
    {
        args.push(bytes[start + HEADER_SIZE + i]);
        i = i + 1;
        assert(args@ =~= b.subrange(HEADER_SIZE as int, HEADER_SIZE + i));
    }
    let hi = bytes[start + 2];
    let lo = bytes[start + 3];
    let remaining_packets: u16 = (hi as u16) * 256 + (lo as u16);
    Frame {
        status: bytes[start],
        transaction_id: bytes[start + 1],
        remaining_packets,
        protocol_type: bytes[start + 4],
        data_size: bytes[start + 5],
        command_class: bytes[start + 6],
        command_id: bytes[start + 7],
        args,
    }
}

impl Frame {
    /// A frame carries exactly `ARGS_SIZE` argument bytes.
    pub open spec fn wf(&self) -> bool {
        self.args@.len() == ARGS_SIZE
    }

    /// A request for `command_class` / `command_id` with the given arguments,
    /// zero-padded to `ARGS_SIZE`; `data_size` records how many were given.
    pub fn new(transaction_id: u8, command_class: u8, command_id: u8, data: &[u8]) -> (r: Frame)
        requires
            data@.len() <= ARGS_SIZE,
        ensures
            r.wf(),
            r.status == 0,
            r.transaction_id == transaction_id,
            r.remaining_packets == 0,
            r.protocol_type == 0,
            r.data_size == data@.len(),
            r.command_class == command_class,
            r.command_id == command_id,
            r.args@.take(data@.len() as int) == data@,
            forall|k: int| data@.len() <= k < ARGS_SIZE ==> r.args@[k] == 0,
    {
        let mut args: Vec<u8> = Vec::new();
        let mut i: usize = 0;
        while i < ARGS_SIZE
            invariant
                i <= ARGS_SIZE,
                data@.len() <= ARGS_SIZE,
                args@.len() == i,
                forall|k: int| 0 <= k < i && k < data@.len() ==> args@[k] == data@[k],
                forall|k: int| data@.len() <= k < i ==> args@[k] == 0,
            decreases ARGS_SIZE - i,
        {
            if i < data.len() {
                args.push(data[i]);
            } else {
                args.push(0);
            }
            i = i + 1;
        }
        assert(args@.take(data@.len() as int) =~= data@);
        Frame {
            status: 0,
            transaction_id,
            remaining_packets: 0,
            protocol_type: 0,
            data_size: data.len() as u8,
            command_class,
            command_id,
            args,
        }
    }

    /// The wire form of this frame, `FRAME_SIZE` bytes ending in the checksum.
    pub fn encode(&self) -> (r: Vec<u8>)
        requires
            self.wf(),
        ensures
            r@ == frame_bytes(self@),
    {
        let mut out: Vec<u8> = Vec::new();
        out.push(self.status);
        out.push(self.transaction_id);
        out.push((self.remaining_packets / 256) as u8);
        out.push((self.remaining_packets % 256) as u8);
        out.push(self.protocol_type);
        out.push(self.data_size);
        out.push(self.command_class);
        out.push(self.command_id);
        let ghost header = out@;
        let mut i: usize = 0;
        while i < ARGS_SIZE
            invariant
                i <= ARGS_SIZE,
                self.wf(),
                header.len() == HEADER_SIZE,
                out@ == header + self.args@.take(i as int),
            decreases ARGS_SIZE - i,
        {
            out.push(self.args[i]);
            i = i + 1;
            assert(out@ =~= header + self.args@.take(i as int));
        }
        assert(self.args@.take(ARGS_SIZE as int) =~= self.args@);
        assert(out@ =~= body_bytes(self@));
        let c = checksum(out.as_slice(), 0, FRAME_SIZE - 1);
        assert(out@.subrange(0, FRAME_SIZE - 1) =~= out@);
        out.push(c);
        out
    }

    /// The feature report that carries this frame: the report id, then the frame.
    pub fn to_report(&self) -> (r: Vec<u8>)
        requires
            self.wf(),
        ensures
            r@ == seq![REPORT_ID] + frame_bytes(self@),
    {
        let body = self.encode();
        let mut out: Vec<u8> = Vec::new();
        out.push(REPORT_ID);
        let mut i: usize = 0;
        while i < body.len()
            invariant
                i <= body@.len(),
                out@ == seq![REPORT_ID] + body@.take(i as int),
            decreases body@.len() - i,
        {
            out.push(body[i]);
            i = i + 1;
            assert(out@ =~= seq![REPORT_ID] + body@.take(i as int));
        }
        assert(body@.take(body@.len() as int) =~= body@);
        out
    }

    /// Reads a frame from its wire form.
    ///
    /// Fails with `ResponseSizeMismatch` when `bytes` is not `FRAME_SIZE` long,
    /// and with `ResponseChecksumInvalid` when its checksum does not verify.
    pub fn decode(bytes: &[u8]) -> (r: Result<Frame, DeviceError>)
        ensures
            bytes@.len() != FRAME_SIZE ==> r == Err::<Frame, DeviceError>(
                DeviceError::ResponseSizeMismatch,
            ),
            bytes@.len() == FRAME_SIZE && !checksum_valid(bytes@) ==> r == Err::<
                Frame,
                DeviceError,
            >(DeviceError::ResponseChecksumInvalid),
            checksum_valid(bytes@) ==> r is Ok && r->Ok_0@ == parse_frame(bytes@)
                && r->Ok_0.wf(),
    {
        if bytes.len() != FRAME_SIZE {
            return Err(DeviceError::ResponseSizeMismatch);
        }
        let c = checksum(bytes, 0, FRAME_SIZE - 1);
        assert(bytes@.subrange(0, FRAME_SIZE - 1) =~= bytes@.take(FRAME_SIZE - 1));
        if c != bytes[FRAME_SIZE - 1] {
            return Err(DeviceError::ResponseChecksumInvalid);
        }
        let f = frame_at(bytes, 0);
        assert(bytes@.subrange(0, FRAME_SIZE as int) =~= bytes@);
        Ok(f)
    }

    /// Accepts `self` as the answer to `request` only when it echoes the
    /// request's transaction id, command class and command id.
    pub fn ensure_matches_report(self, request: &Frame) -> (r: Result<Frame, DeviceError>)
        ensures
            same_command(self@, request@) ==> r == Ok::<Frame, DeviceError>(self),
            !same_command(self@, request@) ==> r == Err::<Frame, DeviceError>(
                DeviceError::ResponseIdentityMismatch,
            ),
    {
        if self.transaction_id == request.transaction_id && self.command_class
            == request.command_class && self.command_id == request.command_id {
            Ok(self)
        } else {
            Err(DeviceError::ResponseIdentityMismatch)
        }
    }
}

/// Checks what the controller answered to `request`.
///
/// `buf` is the report buffer and `read_len` the byte count the read returned.
/// The count must be exactly `REPORT_SIZE`; the frame after the report id must
/// carry a valid checksum and must answer `request`.
pub fn parse_response(request: &Frame, buf: &[u8], read_len: usize) -> (r: Result<
    Frame,
    DeviceError,
>)
    ensures
        r is Ok <==> response_outcome(request@, buf@, read_len as int) is Ok,
        r is Ok ==> r->Ok_0@ == response_outcome(request@, buf@, read_len as int)->Ok_0
            && r->Ok_0.wf(),
        r is Err ==> r->Err_0 == response_outcome(request@, buf@, read_len as int)->Err_0,
{
    if read_len != REPORT_SIZE || buf.len() != REPORT_SIZE {
        return Err(DeviceError::ResponseSizeMismatch);
    }
    let ghost body = buf@.drop_first();
    let c = checksum(buf, 1, FRAME_SIZE - 1);
    assert(buf@.subrange(1, FRAME_SIZE as int) =~= body.take(FRAME_SIZE - 1));
    if c != buf[FRAME_SIZE] {
        return Err(DeviceError::ResponseChecksumInvalid);
    }
    let f = frame_at(buf, 1);
    assert(buf@.subrange(1, 1 + FRAME_SIZE) =~= body);
    f.ensure_matches_report(request)
}

/// Encoding a well-formed frame yields bytes whose checksum verifies, and
/// reading those same bytes back gives a frame equal in every field.
pub proof fn lemma_round_trip(f: FrameView)
    requires
        frame_view_wf(f),
    ensures
        checksum_valid(frame_bytes(f)),
        parse_frame(frame_bytes(f)) == f,
{
    let b = frame_bytes(f);
    assert(b.take(FRAME_SIZE - 1) =~= body_bytes(f));
    assert(b.subrange(HEADER_SIZE as int, HEADER_SIZE + ARGS_SIZE) =~= f.args);
    let x = f.remaining_packets as int;
    assert(x / 256 < 256);
    assert((x / 256) * 256 + x % 256 == x);
}

proof fn lemma_xor_update(s: Seq<u8>, i: int, v: u8)
    requires
        0 <= i < s.len(),
    ensures
        xor_all(s.update(i, v)) == xor_all(s) ^ s[i] ^ v,
    decreases s.len(),
{
    let t = s.update(i, v);
    let x = xor_all(s.drop_last());
    let a = s[i];
    if i == s.len() - 1 {
        assert(t.drop_last() =~= s.drop_last());
        assert(x ^ v == ((x ^ a) ^ a) ^ v) by (bit_vector);
    } else {
        lemma_xor_update(s.drop_last(), i, v);
        assert(t.drop_last() =~= s.drop_last().update(i, v));
        let l = s.last();
        assert(((x ^ a) ^ v) ^ l == ((x ^ l) ^ a) ^ v) by (bit_vector);
    }
}

/// Changing any single byte of an encoded frame, checksum byte included,
/// makes its checksum fail to verify.
pub proof fn lemma_single_byte_change_detected(f: FrameView, i: int, v: u8)
    requires
        frame_view_wf(f),
        0 <= i < FRAME_SIZE,
        v != frame_bytes(f)[i],
    ensures
        !checksum_valid(frame_bytes(f).update(i, v)),
{
    let b = frame_bytes(f);
    let m = b.update(i, v);
    let body = b.take(FRAME_SIZE - 1);
    assert(body =~= body_bytes(f));
    if i == FRAME_SIZE - 1 {
        assert(m.take(FRAME_SIZE - 1) =~= body);
    } else {
        assert(m.take(FRAME_SIZE - 1) =~= body.update(i, v));
        lemma_xor_update(body, i, v);
        let x = xor_all(body);
        let a = body[i];
        assert(a != v ==> x ^ a ^ v != x) by (bit_vector);
    }
}

/// A response whose transaction id, command class or command id differs from
/// the request's is rejected as an identity mismatch, even though its own
/// checksum is valid.
pub proof fn lemma_foreign_response_rejected(request: FrameView, response: FrameView)
    requires
        frame_view_wf(response),
        !same_command(response, request),
    ensures
        response_outcome(request, seq![REPORT_ID] + frame_bytes(response), REPORT_SIZE as int)
            == Err::<FrameView, DeviceError>(DeviceError::ResponseIdentityMismatch),
{
    let buf = seq![REPORT_ID] + frame_bytes(response);
    assert(buf.drop_first() =~= frame_bytes(response));
    lemma_round_trip(response);
}

/// A read of any byte count other than `REPORT_SIZE` is rejected as a size
/// mismatch, whatever the buffer holds.
pub proof fn lemma_short_or_long_read_rejected(request: FrameView, buf: Seq<u8>, read_len: int)
    requires
        read_len != REPORT_SIZE,
    ensures
        response_outcome(request, buf, read_len) == Err::<FrameView, DeviceError>(
            DeviceError::ResponseSizeMismatch,
        ),
{
}

} // verus!
