//! The 9-byte wire frame of the MH-Z19 protocol: checksum, command encoding,
//! and validation/decoding of read replies.
//!
//! Every frame is `[start, addr/opcode, p0, p1, p2, p3, p4, checksum]` spread
//! over 9 bytes; the checksum at offset 8 is the two's-complement negation of
//! the sum (mod 256) of the 7 middle bytes.

use vstd::arithmetic::div_mod::lemma_add_mod_noop;
use vstd::arithmetic::div_mod::lemma_small_mod;
use vstd::prelude::*;

verus! {

/// Sum of the bytes at offsets `1..n` of a frame, as an unbounded integer.
pub open spec fn mid_sum_to(bytes: Seq<u8>, n: int) -> int
    decreases n,
{
    if n <= 1 {
        0
    } else {
        mid_sum_to(bytes, n - 1) + bytes[n - 1]
    }
}

/// Sum of the 7 middle bytes (offsets 1..8) of a 9-byte frame.
pub open spec fn mid_sum(bytes: Seq<u8>) -> int {
    mid_sum_to(bytes, 8)
}

/// The frame checksum: the two's-complement negation, in one byte, of the
/// sum of the 7 middle bytes.
pub open spec fn checksum_spec(bytes: Seq<u8>) -> u8 {
    ((256 - mid_sum(bytes) % 256) % 256) as u8
}

proof fn lemma_mid_sum_to_bounds(bytes: Seq<u8>, n: int)
    ensures
        0 <= mid_sum_to(bytes, n) <= if n <= 1 { 0 } else { (n - 1) * 255 },
    decreases n,
{
    if n > 1 {
        lemma_mid_sum_to_bounds(bytes, n - 1);
    }
}

/// Computes the checksum of a frame buffer: the 7 middle bytes are summed
/// with eight-bit wraparound, and the sum is negated (bitwise inversion
/// plus one).
pub fn crc8(data: &[u8; 9]) -> (r: u8)
    ensures
        r == checksum_spec(data@),
{
    let mut crc: u8 = 0;
    let mut i: usize = 1;
    while i < 8
        invariant
            1 <= i <= 8,
            crc == mid_sum_to(data@, i as int) % 256,
        decreases 8 - i,
    {
        proof {
            let s = mid_sum_to(data@, i as int);
            let b = data@[i as int] as int;
            lemma_add_mod_noop(s, b, 256);
            lemma_small_mod(b as nat, 256);
            if crc + b < 256 {
                lemma_small_mod((crc + b) as nat, 256);
            } else {
                lemma_sub_multiples_vanish_shifted(crc + b);
            }
        }
        crc = crc.wrapping_add(data[i]);
        i = i + 1;
    }
    let r = (!crc).wrapping_add(1);
    proof {
        assert((!crc) as int == 255 - crc) by (bit_vector);
        if crc == 0 {
            lemma_small_mod(0, 256);
        } else {
            lemma_small_mod((256 - crc) as nat, 256);
        }
    }
    r
}

/// The request kinds the sensor understands, each with a fixed opcode byte.
#[derive(Clone, Copy, Debug, PartialEq, Eq, Structural)]
pub enum Command {
    Read,
    Zero,
    Span,
    ABC,
    Range,
}

/// Supported measure ranges
#[derive(Clone, Copy, Debug, PartialEq, Eq, Structural)]
pub enum Range {
    Range2000,
    Range5000,
}

/// The opcode byte of each command.
pub open spec fn opcode(command: Command) -> u8 {
    match command {
        Command::Read => 0x86,
        Command::Zero => 0x87,
        Command::Span => 0x88,
        Command::ABC => 0x79,
        Command::Range => 0x99,
    }
}

/// The upper bound, in ppm, of a measure range.
pub open spec fn range_ppm(range: Range) -> u16 {
    match range {
        Range::Range2000 => 2000,
        Range::Range5000 => 5000,
    }
}

/// The 9-byte command frame for an opcode and two payload bytes: fixed start
/// byte `0xff`, address `0x01`, three zero filler bytes, and the checksum
/// stamped at offset 8.
pub open spec fn command_frame(op: u8, data1: u8, data2: u8) -> Seq<u8> {
    let body = seq![0xffu8, 0x01u8, op, data1, data2, 0x00u8, 0x00u8, 0x00u8, 0x00u8];
    body.update(8, checksum_spec(body))
}

/// A frame whose stored checksum matches the checksum of its middle bytes.
pub open spec fn frame_valid(bytes: Seq<u8>) -> bool {
    checksum_spec(bytes) == bytes[8]
}

/// A frame whose header identifies it as the reply to a concentration read.
pub open spec fn is_read_ack(bytes: Seq<u8>) -> bool {
    bytes[0] == 0xff && bytes[1] == 0x86
}

/// The concentration carried by a read reply: bytes 2 and 3, big-endian.
pub open spec fn reply_ppm(bytes: Seq<u8>) -> u16 {
    (bytes[2] * 256 + bytes[3]) as u16
}

proof fn lemma_mid_sum_to_agree(a: Seq<u8>, b: Seq<u8>, n: int)
    requires
        forall|j: int| 1 <= j < n ==> a[j] == b[j],
    ensures
        mid_sum_to(a, n) == mid_sum_to(b, n),
    decreases n,
{
    if n > 1 {
        lemma_mid_sum_to_agree(a, b, n - 1);
    }
}

/// Two frames that agree on the 7 middle bytes have the same checksum; in
/// particular the checksum does not depend on the start byte or on the
/// checksum slot itself.
pub proof fn lemma_checksum_depends_on_middle(a: Seq<u8>, b: Seq<u8>)
    requires
        forall|j: int| 1 <= j < 8 ==> a[j] == b[j],
    ensures
        checksum_spec(a) == checksum_spec(b),
{
    lemma_mid_sum_to_agree(a, b, 8);
}

/// The checksum is self-consistent: stamping any 9-byte buffer with its
/// computed checksum at offset 8 yields a frame on which recomputing the
/// checksum reproduces the stored byte, so the frame validates.
pub proof fn lemma_checksum_self_consistent(bytes: Seq<u8>)
    requires
        bytes.len() == 9,
    ensures
        frame_valid(bytes.update(8, checksum_spec(bytes))),
{
    lemma_checksum_depends_on_middle(bytes, bytes.update(8, checksum_spec(bytes)));
}

proof fn lemma_mid_sum_update(bytes: Seq<u8>, i: int, v: u8, n: int)
    requires
        bytes.len() == 9,
        1 <= i < 8,
        i < n <= 8,
    ensures
        mid_sum_to(bytes.update(i, v), n) == mid_sum_to(bytes, n) - bytes[i] + v,
    decreases n,
{
    let u = bytes.update(i, v);
    if n - 1 == i {
        lemma_mid_sum_to_agree(bytes, u, n - 1);
    } else {
        lemma_mid_sum_update(bytes, i, v, n - 1);
    }
}

proof fn lemma_mods_differ(s1: int, s2: int)
    requires
        0 <= s1,
        0 <= s2,
        s1 != s2,
        -256 < s1 - s2 < 256,
    ensures
        s1 % 256 != s2 % 256,
{
    vstd::arithmetic::div_mod::lemma_mod_equivalence(s1, s2, 256);
    let delta = s1 - s2;
    if delta > 0 {
        lemma_small_mod(delta as nat, 256);
    } else {
        vstd::arithmetic::div_mod::lemma_mod_add_multiples_vanish(delta, 256);
        lemma_small_mod((256 + delta) as nat, 256);
    }
}

proof fn lemma_checksum_injective_in_sum(a: Seq<u8>, b: Seq<u8>)
    requires
        mid_sum(a) % 256 != mid_sum(b) % 256,
        0 <= mid_sum(a),
        0 <= mid_sum(b),
    ensures
        checksum_spec(a) != checksum_spec(b),
{
    let r1 = mid_sum(a) % 256;
    let r2 = mid_sum(b) % 256;
    vstd::arithmetic::div_mod::lemma_mod_bound(mid_sum(a), 256);
    vstd::arithmetic::div_mod::lemma_mod_bound(mid_sum(b), 256);
    if r1 != 0 {
        lemma_small_mod((256 - r1) as nat, 256);
    }
    if r2 != 0 {
        lemma_small_mod((256 - r2) as nat, 256);
    }
}

/// Corruption of any single non-checksum byte is detected: changing one of
/// the bytes at offsets 0 through 7 of an accepted read reply to a
/// different value yields a frame that no longer validates as a read
/// acknowledgement.
pub proof fn lemma_single_corruption_detected(bytes: Seq<u8>, i: int, v: u8)
    requires
        bytes.len() == 9,
        frame_valid(bytes),
        is_read_ack(bytes),
        0 <= i < 8,
        v != bytes[i],
    ensures
        !(frame_valid(bytes.update(i, v)) && is_read_ack(bytes.update(i, v))),
{
    let u = bytes.update(i, v);
    if i >= 2 {
        lemma_mid_sum_update(bytes, i, v, 8);
        lemma_mid_sum_to_bounds(bytes, 8);
        lemma_mid_sum_to_bounds(u, 8);
        lemma_mods_differ(mid_sum(u), mid_sum(bytes));
        lemma_checksum_injective_in_sum(u, bytes);
        assert(!frame_valid(u));
    }
}

/// For a value `v` in `[256, 512)`, reducing mod 256 subtracts exactly 256.
proof fn lemma_sub_multiples_vanish_shifted(v: int)
    requires
        256 <= v < 512,
    ensures
        v % 256 == v - 256,
{
    vstd::arithmetic::div_mod::lemma_mod_sub_multiples_vanish(v, 256);
    lemma_small_mod((v - 256) as nat, 256);
}

/// The opcode byte a command is sent as.
pub fn opcode_byte(command: Command) -> (r: u8)
    ensures
        r == opcode(command),
{
    match command {
        Command::Read => 0x86,
        Command::Zero => 0x87,
        Command::Span => 0x88,
        Command::ABC => 0x79,
        Command::Range => 0x99,
    }
}

/// Builds the 9-byte command frame for a command and two payload bytes,
/// stamping the checksum at offset 8. Every frame built here validates.
pub fn generate_command(command: Command, data1: u8, data2: u8) -> (r: [u8; 9])
    ensures
        r@ == command_frame(opcode(command), data1, data2),
        frame_valid(r@),
{
    let op = opcode_byte(command);
    let base: [u8; 9] = [0xff, 0x01, op, data1, data2, 0x00, 0x00, 0x00, 0x00];
    let crc = crc8(&base);
    let r: [u8; 9] = [0xff, 0x01, op, data1, data2, 0x00, 0x00, 0x00, crc];
    proof {
        let body = seq![0xffu8, 0x01u8, op, data1, data2, 0x00u8, 0x00u8, 0x00u8, 0x00u8];
        assert(base@ =~= body);
        assert(r@ =~= body.update(8, checksum_spec(body)));
        lemma_checksum_self_consistent(body);
    }
    r
}

/// The frame that requests a concentration read: opcode `0x86`, no payload.
pub fn read_command() -> (r: [u8; 9])
    ensures
        r@ == command_frame(opcode(Command::Read), 0x00, 0x00),
        frame_valid(r@),
{
    generate_command(Command::Read, 0x00, 0x00)
}

/// The frame that requests a zero-point calibration: opcode `0x87`, no
/// payload.
pub fn zero_calibrate_command() -> (r: [u8; 9])
    ensures
        r@ == command_frame(opcode(Command::Zero), 0x00, 0x00),
        frame_valid(r@),
{
    generate_command(Command::Zero, 0x00, 0x00)
}

/// The frame that requests a span-point calibration at the given target
/// concentration: opcode `0x88`, target in big-endian order in the payload.
pub fn span_calibrate_command(value: u16) -> (r: [u8; 9])
    ensures
        r@ == command_frame(opcode(Command::Span), (value / 256) as u8, (value % 256) as u8),
        frame_valid(r@),
{
    generate_command(Command::Span, (value / 256) as u8, (value % 256) as u8)
}

/// The frame that enables or disables automatic baseline correction:
/// opcode `0x79`, payload byte `0xa0` to enable and `0x00` to disable.
pub fn abc_command(enable: bool) -> (r: [u8; 9])
    ensures
        r@ == command_frame(opcode(Command::ABC), if enable { 0xa0 } else { 0x00 }, 0x00),
        frame_valid(r@),
{
    generate_command(Command::ABC, if enable { 0xa0 } else { 0x00 }, 0x00)
}

/// The frame that sets the detection range: opcode `0x99`, range upper
/// bound in ppm in big-endian order in the payload.
pub fn set_range_command(range: Range) -> (r: [u8; 9])
    ensures
        r@ == command_frame(
            opcode(Command::Range),
            (range_ppm(range) / 256) as u8,
            (range_ppm(range) % 256) as u8,
        ),
        frame_valid(r@),
{
    let value: u16 = match range {
        Range::Range2000 => 2000,
        Range::Range5000 => 5000,
    };
    generate_command(Command::Range, (value / 256) as u8, (value % 256) as u8)
}

/// Validates a received frame and decodes it as a read reply: `Some(ppm)`
/// exactly when the checksum matches and the header identifies a read
/// acknowledgement; any other content decodes to `None`.
pub fn decode_read_reply(buffer: &[u8; 9]) -> (r: Option<u16>)
    ensures
        r is Some <==> frame_valid(buffer@) && is_read_ack(buffer@),
        r is Some ==> r == Some(reply_ppm(buffer@)),
{
    let crc = crc8(buffer);
    if crc == buffer[8] && buffer[0] == 0xff && buffer[1] == 0x86 {
        Some((buffer[2] as u16) * 256 + (buffer[3] as u16))
    } else {
        None
    }
}

} // verus!

