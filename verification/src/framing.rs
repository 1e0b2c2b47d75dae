//! The wire framing of packets: every packet travels as a 4-byte big-endian
//! length, the payload, and the 2-byte internet checksum of the payload.
use vstd::prelude::*;
use vstd::slice::{slice_subrange, slice_to_vec};

verus! {

#[verifier::external_type_specification]
#[verifier::external_body]
pub struct ExBytes(bytes::Bytes);

/// The bytes that a `Bytes` value holds.
pub uninterp spec fn bytes_contents(b: bytes::Bytes) -> Seq<u8>;

/// The contents of each buffer of a sequence of buffers.
pub open spec fn contents_of(v: Seq<bytes::Bytes>) -> Seq<Seq<u8>> {
    v.map_values(|b: bytes::Bytes| bytes_contents(b))
}

/// `bytes::Bytes::from(Vec<u8>)`: the new buffer holds exactly the bytes of the vector.
#[verifier::external_body]
pub fn bytes_from_vec(v: Vec<u8>) -> (b: bytes::Bytes)
    ensures
        bytes_contents(b) == v@,
{
    bytes::Bytes::from(v)
}

/// `<bytes::Bytes as AsRef<[u8]>>::as_ref`: the slice shows exactly the bytes that the
/// buffer holds.
#[verifier::external_body]
pub fn bytes_as_slice(b: &bytes::Bytes) -> (s: &[u8])
    ensures
        s@ == bytes_contents(*b),
{
    b.as_ref()
}

/// The number that four bytes encode in big-endian order, starting at `i`.
pub open spec fn be_u32_at(s: Seq<u8>, i: int) -> int {
    s[i] as int * 16777216 + s[i + 1] as int * 65536 + s[i + 2] as int * 256 + s[i + 3] as int
}

/// The four bytes of `n` in big-endian order.
pub open spec fn be_bytes(n: u32) -> Seq<u8> {
    seq![
        (n / 16777216) as u8,
        ((n / 65536) % 256) as u8,
        ((n / 256) % 256) as u8,
        (n % 256) as u8,
    ]
}

/// `<byteorder::BigEndian as byteorder::ByteOrder>::read_u32`: the big-endian number that
/// the first four bytes of `buf` encode (it panics on a shorter buffer).
#[verifier::external_body]
fn read_u32_be(buf: &[u8]) -> (n: u32)
    requires
        buf@.len() >= 4,
    ensures
        n == be_u32_at(buf@, 0),
{
    <byteorder::BigEndian as byteorder::ByteOrder>::read_u32(buf)
}

/// `<byteorder::BigEndian as byteorder::ByteOrder>::write_u32`, into a fresh 4-byte array:
/// the bytes of `n` in big-endian order.
#[verifier::external_body]
fn write_u32_be(n: u32) -> (b: [u8; 4])
    ensures
        b@ == be_bytes(n),
{
    let mut buf = [0u8; 4];
    <byteorder::BigEndian as byteorder::ByteOrder>::write_u32(&mut buf, n);
    buf
}

/// The sum of the 16-bit big-endian words of `b`, an odd last byte taken as the high
/// byte of a word whose low byte is zero.
pub open spec fn word_sum(b: Seq<u8>) -> nat
    decreases b.len(),
{
    if b.len() == 0 {
        0
    } else if b.len() == 1 {
        b[0] as nat * 256
    } else {
        b[0] as nat * 256 + b[1] as nat + word_sum(b.skip(2))
    }
}

/// A sum folded into 16 bits by end-around carry: zero stays zero, any other sum
/// becomes the number in 1..=0xFFFF that is congruent to it modulo 0xFFFF.
pub open spec fn fold16(s: nat) -> int {
    if s == 0 {
        0
    } else {
        (s - 1) % 65535 + 1
    }
}

/// The RFC 1071 internet checksum of `b`: the one's complement of the one's complement
/// sum of its 16-bit words, as two bytes in big-endian order.
pub open spec fn internet_checksum(b: Seq<u8>) -> Seq<u8> {
    let v = 65535 - fold16(word_sum(b));
    seq![(v / 256) as u8, (v % 256) as u8]
}

/// The sum of the words of `b` from position `i` on is its first word plus the sum from
/// the next word on.
proof fn lemma_word_sum_step(b: Seq<u8>, i: int)
    requires
        0 <= i < b.len(),
    ensures
        i + 1 < b.len() ==> word_sum(b.skip(i)) == b[i] as nat * 256 + b[i + 1] as nat
            + word_sum(b.skip(i + 2)),
        i + 1 == b.len() ==> word_sum(b.skip(i)) == b[i] as nat * 256 && b.skip(i + 1).len()
            == 0,
{
    let t = b.skip(i);
    assert(t[0] == b[i]);
    if i + 1 < b.len() {
        assert(t[1] == b[i + 1]);
        assert(t.skip(2) =~= b.skip(i + 2));
    }
}

/// An end-around carry keeps the folded sum: taking 0xFFFF off a sum above 0xFFFF does not
/// change its fold.
proof fn lemma_fold16_carry(x: nat)
    requires
        x > 65535,
    ensures
        fold16(x) == fold16((x - 65535) as nat),
{
    assert((x - 1) % 65535 == (x - 65536) % 65535) by (nonlinear_arith)
        requires
            x > 65535,
    ;
}

/// The RFC 1071 internet checksum of the bytes (`internet_checksum`): the 16-bit words
/// are added with end-around carry, and the sum is complemented.
fn checksum_of(data: &[u8]) -> (c: [u8; 2])
    ensures
        c@ == internet_checksum(data@),
{
    let ghost b = data@;
    let n = data.len();
    let mut acc: u32 = 0;
    let mut i: usize = 0;
    assert(b.skip(0) =~= b);
    while i < n
        invariant
            b == data@,
            n == b.len(),
            i <= n,
            acc <= 65535,
            fold16(word_sum(b)) == fold16(acc as nat + word_sum(b.skip(i as int))),
        decreases n - i,
    {
        proof {
            lemma_word_sum_step(b, i as int);
        }
        let w: u32 = if n - i >= 2 {
            (data[i] as u32) * 256 + data[i + 1] as u32
        } else {
            (data[i] as u32) * 256
        };
        let next: usize = if n - i >= 2 {
            i + 2
        } else {
            i + 1
        };
        let ghost rest = word_sum(b.skip(next as int));
        assert(word_sum(b.skip(i as int)) == w + rest);
        let t = acc + w;
        if t > 65535 {
            proof {
                lemma_fold16_carry((t + rest) as nat);
            }
            acc = t - 65535;
        } else {
            acc = t;
        }
        i = next;
    }
    proof {
        assert(b.skip(n as int).len() == 0);
        assert(word_sum(b.skip(n as int)) == 0);
        assert(fold16(acc as nat) == acc) by (nonlinear_arith)
            requires
                acc <= 65535,
        ;
    }
    let v: u32 = 65535 - acc;
    let c = [(v / 256) as u8, (v % 256) as u8];
    assert(c@ =~= internet_checksum(b));
    c
}

/// The payloads that `parse_packets_stream_sync` cuts out of the first `n` bytes of `s`,
/// reading from `start` on, and whether the stream was well formed.
///
/// A frame is read while more than four bytes are left. It is refused when its length
/// is not below `n` or runs past `n`.
pub open spec fn stream_frames(s: Seq<u8>, n: int, start: int) -> (Seq<Seq<u8>>, bool)
    decreases n - start,
{
    if !(start + 4 < n) {
        (Seq::empty(), true)
    } else {
        let next = be_u32_at(s, start);
        if next >= n || start + 4 + next > n {
            (Seq::empty(), false)
        } else {
            let rest = stream_frames(s, n, start + 4 + next);
            (seq![s.subrange(start + 4, start + 4 + next)] + rest.0, rest.1)
        }
    }
}

/// Whether reading frames from `start` up to `n` stays inside `s`: every length and every
/// payload read lies in `s`. It does whenever `n` is at most the length of `s`
/// (`lemma_short_stream_in_bounds`).
pub open spec fn frames_in_bounds(s: Seq<u8>, n: int, start: int) -> bool
    decreases n - start,
{
    if !(start + 4 < n) {
        true
    } else if start + 4 > s.len() {
        false
    } else {
        let next = be_u32_at(s, start);
        if next >= n || start + 4 + next > n {
            true
        } else if start + 4 + next > s.len() {
            false
        } else {
            frames_in_bounds(s, n, start + 4 + next)
        }
    }
}

/// Reading frames from a stream stays inside it when no more bytes are read than it
/// holds.
pub proof fn lemma_short_stream_in_bounds(s: Seq<u8>, n: int, start: int)
    requires
        0 <= start,
        n <= s.len(),
    ensures
        frames_in_bounds(s, n, start),
    decreases n - start,
{
    if start + 4 < n {
        let next = be_u32_at(s, start);
        if !(next >= n || start + 4 + next > n) {
            assert(next >= 0) by {
                assert(s[start] >= 0 && s[start + 1] >= 0 && s[start + 2] >= 0 && s[start + 3] >= 0);
            }
            lemma_short_stream_in_bounds(s, n, start + 4 + next);
        }
    }
}

/// Whether reading frames from the first `bytes_read` bytes of `stream` stays inside it
/// (`frames_in_bounds`).
pub fn frames_fit(stream: &[u8], bytes_read: usize) -> (b: bool)
    ensures
        b == frames_in_bounds(stream@, bytes_read as int, 0),
{
    let ghost s = stream@;
    let ghost n = bytes_read as int;
    let len = stream.len();
    let mut start: usize = 0;
    while start < bytes_read && bytes_read - start > 4
        invariant
            s == stream@,
            len == s.len(),
            n == bytes_read,
            start <= bytes_read,
            frames_in_bounds(s, n, 0) == frames_in_bounds(s, n, start as int),
        decreases bytes_read - start,
    {
        if start + 4 > len {
            return false;
        }
        let next = read_u32_be(slice_subrange(stream, start, start + 4)) as usize;
        assert(be_u32_at(s.subrange(start as int, start + 4), 0) == be_u32_at(s, start as int));
        if next >= bytes_read || next > bytes_read - start - 4 {
            return true;
        }
        if start + 4 + next > len {
            return false;
        }
        start = start + next + 4;
    }
    true
}

/// Cuts the first `bytes_read` bytes of `stream` into packets, each given by a 4-byte
/// big-endian length and that many bytes, and appends them to `packets`.
///
/// Returns `Err(())` at the first frame whose length does not fit; the frames before it
/// stay appended. Every byte it reads lies in `stream` (`frames_in_bounds`), as it does
/// when `bytes_read` is at most the stream's length.
pub fn parse_packets_stream_sync(
    stream: &mut [u8],
    bytes_read: usize,
    packets: &mut Vec<bytes::Bytes>,
) -> (res: Result<(), ()>)
    requires
        frames_in_bounds(old(stream)@, bytes_read as int, 0),
    ensures
        final(stream)@ == old(stream)@,
        final(packets)@.len() >= old(packets)@.len(),
        final(packets)@.subrange(0, old(packets)@.len() as int) == old(packets)@,
        contents_of(final(packets)@.skip(old(packets)@.len() as int)) == stream_frames(
            old(stream)@,
            bytes_read as int,
            0,
        ).0,
        res is Ok <==> stream_frames(old(stream)@, bytes_read as int, 0).1,
{
    let ghost s = stream@;
    let ghost n = bytes_read as int;
    let ghost old_packets = packets@;
    let ghost old_len = packets@.len() as int;
    let mut start: usize = 0;
    while start < bytes_read && bytes_read - start > 4
        invariant
            s == stream@,
            s == old(stream)@,
            old_packets == old(packets)@,
            old_len == old_packets.len(),
            n == bytes_read,
            frames_in_bounds(s, n, start as int),
            start <= bytes_read,
            old_len <= packets@.len(),
            packets@.subrange(0, old_len) == old_packets,
            stream_frames(s, n, 0) == (
                contents_of(packets@.skip(old_len)) + stream_frames(s, n, start as int).0,
                stream_frames(s, n, start as int).1,
            ),
        decreases bytes_read - start,
    {
        let next = read_u32_be(slice_subrange(stream, start, start + 4)) as usize;
        assert(be_u32_at(s.subrange(start as int, start + 4), 0) == be_u32_at(s, start as int));
        if next >= bytes_read || next > bytes_read - start - 4 {
            return Err(());
        }
        let payload = slice_to_vec(slice_subrange(stream, start + 4, start + 4 + next));
        let ghost before = packets@;
        packets.push(bytes_from_vec(payload));
        proof {
            let rest = stream_frames(s, n, start + 4 + next);
            assert(packets@.skip(old_len) == before.skip(old_len).push(packets@.last()));
            assert(contents_of(packets@.skip(old_len)) == contents_of(before.skip(old_len)).push(
                s.subrange(start + 4, start + 4 + next),
            ));
            assert(packets@.subrange(0, old_len) == before.subrange(0, old_len));
            assert(seq![s.subrange(start + 4, start + 4 + next)] + rest.0 =~= rest.0.insert(
                0,
                s.subrange(start + 4, start + 4 + next),
            ));
            assert(contents_of(packets@.skip(old_len)) + rest.0 =~= contents_of(
                before.skip(old_len),
            ) + (seq![s.subrange(start + 4, start + 4 + next)] + rest.0));
        }
        start = start + next + 4;
    }
    proof {
        assert(contents_of(packets@.skip(old_len)) + Seq::<Seq<u8>>::empty() =~= contents_of(
            packets@.skip(old_len),
        ));
    }
    Ok(())
}

/// The frame that `prepare_data` makes of a payload: its length plus two as a 4-byte
/// big-endian number (cut to 32 bits), the payload, and its checksum.
pub open spec fn frame_of(d: Seq<u8>) -> Seq<u8> {
    be_bytes((d.len() + 2) as u32) + d + internet_checksum(d)
}

/// Frames a packet for sending: length prefix, payload, checksum.
pub fn prepare_data(data: &bytes::Bytes) -> (framed: bytes::Bytes)
    requires
        bytes_contents(*data).len() + 6 <= usize::MAX,
    ensures
        bytes_contents(framed) == frame_of(bytes_contents(*data)),
{
    let d = bytes_as_slice(data);
    let len = d.len();
    let header = write_u32_be((len + 2) as u32);
    let chk = checksum_of(d);
    let mut out: Vec<u8> = Vec::new();
    out.push(header[0]);
    out.push(header[1]);
    out.push(header[2]);
    out.push(header[3]);
    let mut body = slice_to_vec(d);
    out.append(&mut body);
    out.push(chk[0]);
    out.push(chk[1]);
    proof {
        assert(out@ =~= frame_of(bytes_contents(*data)));
    }
    bytes_from_vec(out)
}

/// The payload that `unpack_payload` accepts from a received packet: the packet without
/// its last two bytes, when it is longer than six bytes and those two bytes are the
/// checksum of the rest.
pub open spec fn checked_payload(p: Seq<u8>) -> Option<Seq<u8>> {
    if p.len() <= 6 {
        None
    } else {
        let body = p.take(p.len() - 2);
        if p.skip(p.len() - 2) == internet_checksum(body) {
            Some(body)
        } else {
            None
        }
    }
}

/// Checks the size and the trailing checksum of a received packet and returns the bytes
/// that the checksum covers.
pub fn unpack_payload(data: &bytes::Bytes) -> (res: Option<Vec<u8>>)
    ensures
        match res {
            Some(v) => checked_payload(bytes_contents(*data)) == Some(v@),
            None => checked_payload(bytes_contents(*data)) is None,
        },
{
    let d = bytes_as_slice(data);
    let len = d.len();
    if len <= 6 {
        return None;
    }
    let sum = slice_subrange(d, len - 2, len);
    let true_data = slice_subrange(d, 0, len - 2);
    let chk = checksum_of(true_data);
    let matches = sum[0] == chk[0] && sum[1] == chk[1];
    proof {
        assert(sum@ == d@.skip(len - 2));
        assert(true_data@ == d@.take(len - 2));
        assert(matches <==> sum@ =~= chk@);
    }
    if !matches {
        return None;
    }
    Some(slice_to_vec(true_data))
}

/// A payload that `prepare_data` framed is cut out of the stream unchanged (with its
/// checksum) by `parse_packets_stream_sync`, and `unpack_payload` then accepts it and
/// gives back the payload, when it is longer than four bytes.
pub proof fn lemma_frame_roundtrip(d: Seq<u8>)
    requires
        d.len() + 2 < 4294967296,
    ensures
        stream_frames(frame_of(d), frame_of(d).len() as int, 0) == (
            seq![d + internet_checksum(d)],
            true,
        ),
        d.len() > 4 ==> checked_payload(d + internet_checksum(d)) == Some(d),
        d.len() <= 4 ==> checked_payload(d + internet_checksum(d)) is None,
{
    let f = frame_of(d);
    let n = f.len() as int;
    let len = (d.len() + 2) as u32;
    assert(len == d.len() + 2);
    assert(be_u32_at(f, 0) == len as int) by {
        assert(f[0] == (len / 16777216) as u8);
        assert(f[1] == ((len / 65536) % 256) as u8);
        assert(f[2] == ((len / 256) % 256) as u8);
        assert(f[3] == (len % 256) as u8);
        assert(be_u32_at(f, 0) == len as int) by (nonlinear_arith)
            requires
                f[0] == (len / 16777216) as u8,
                f[1] == ((len / 65536) % 256) as u8,
                f[2] == ((len / 256) % 256) as u8,
                f[3] == (len % 256) as u8,
        ;
    }
    assert(n == d.len() + 6);
    assert(stream_frames(f, n, n) == (Seq::<Seq<u8>>::empty(), true));
    assert(f.subrange(4, 4 + d.len() as int + 2) =~= d + internet_checksum(d));
    assert(seq![d + internet_checksum(d)] + Seq::<Seq<u8>>::empty() =~= seq![
        d + internet_checksum(d),
    ]);
    let p = d + internet_checksum(d);
    assert(p.take(p.len() - 2) =~= d);
    assert(p.skip(p.len() - 2) =~= internet_checksum(d));
}

/// The frames of several payloads, one after the other, as a stream carries them.
pub open spec fn frames_of(ds: Seq<Seq<u8>>) -> Seq<u8>
    decreases ds.len(),
{
    if ds.len() == 0 {
        Seq::empty()
    } else {
        frame_of(ds[0]) + frames_of(ds.drop_first())
    }
}

/// Each payload followed by its checksum: what its frame holds after the length.
pub open spec fn checked_bodies(ds: Seq<Seq<u8>>) -> Seq<Seq<u8>> {
    ds.map_values(|d: Seq<u8>| d + internet_checksum(d))
}

/// Whether the length of every frame fits its 32-bit length prefix.
pub open spec fn frame_lengths_fit(ds: Seq<Seq<u8>>) -> bool {
    forall|i: int| 0 <= i < ds.len() ==> (#[trigger] ds[i]).len() + 2 < 4294967296
}

/// Reading back the four bytes of a number gives the number.
proof fn lemma_be_bytes_read(len: u32)
    ensures
        be_u32_at(be_bytes(len), 0) == len,
{
    let f = be_bytes(len);
    assert(be_u32_at(f, 0) == len as int) by (nonlinear_arith)
        requires
            f[0] == (len / 16777216) as u8,
            f[1] == ((len / 65536) % 256) as u8,
            f[2] == ((len / 256) % 256) as u8,
            f[3] == (len % 256) as u8,
    ;
}

/// The frames of several payloads, found from `start` to `n` in a stream, are cut out
/// in order.
proof fn lemma_stream_of_frames(s: Seq<u8>, n: int, start: int, ds: Seq<Seq<u8>>)
    requires
        0 <= start <= n <= s.len(),
        s.subrange(start, n) == frames_of(ds),
        frame_lengths_fit(ds),
    ensures
        stream_frames(s, n, start) == (checked_bodies(ds), true),
    decreases ds.len(),
{
    if ds.len() == 0 {
        assert(s.subrange(start, n).len() == 0);
        assert(checked_bodies(ds) =~= Seq::<Seq<u8>>::empty());
    } else {
        let d = ds[0];
        let f = frame_of(d);
        let rest = frames_of(ds.drop_first());
        let len = (d.len() + 2) as u32;
        assert(d.len() + 2 < 4294967296);
        assert(len == d.len() + 2);
        let whole = s.subrange(start, n);
        assert(whole == f + rest);
        assert(f.len() == d.len() + 6);
        assert(s.subrange(start, start + 4) =~= be_bytes(len)) by {
            assert forall|k: int| 0 <= k < 4 implies s.subrange(start, start + 4)[k] == be_bytes(
                len,
            )[k] by {
                assert(whole[k] == f[k]);
            }
        }
        lemma_be_bytes_read(len);
        assert(be_u32_at(s, start) == be_u32_at(s.subrange(start, start + 4), 0));
        let next = len as int;
        assert(s.subrange(start + 4, start + 4 + next) =~= d + internet_checksum(d)) by {
            assert forall|k: int| 0 <= k < next implies s.subrange(start + 4, start + 4 + next)[k]
                == (d + internet_checksum(d))[k] by {
                assert(whole[4 + k] == f[4 + k]);
            }
        }
        assert(s.subrange(start + 4 + next, n) =~= rest) by {
            assert forall|k: int| 0 <= k < n - (start + 4 + next) implies s.subrange(
                start + 4 + next,
                n,
            )[k] == rest[k] by {
                assert(whole[f.len() + k] == rest[k]);
            }
        }
        assert(frame_lengths_fit(ds.drop_first())) by {
            assert forall|i: int| 0 <= i < ds.drop_first().len() implies (
            #[trigger] ds.drop_first()[i]).len() + 2 < 4294967296 by {
                assert(ds.drop_first()[i] == ds[i + 1]);
            }
        }
        lemma_stream_of_frames(s, n, start + 4 + next, ds.drop_first());
        assert(checked_bodies(ds) =~= seq![d + internet_checksum(d)] + checked_bodies(
            ds.drop_first(),
        ));
    }
}

/// Payloads that `prepare_data` framed and that follow one another in a stream are cut
/// out of it by `parse_packets_stream_sync` in order, each with its checksum, and the
/// stream is well formed; `unpack_payload` then gives back each payload longer than four
/// bytes.
pub proof fn lemma_stream_roundtrip(ds: Seq<Seq<u8>>)
    requires
        frame_lengths_fit(ds),
    ensures
        stream_frames(frames_of(ds), frames_of(ds).len() as int, 0) == (checked_bodies(ds), true),
        forall|i: int|
            0 <= i < ds.len() && ds[i].len() > 4 ==> checked_payload(
                #[trigger] checked_bodies(ds)[i],
            ) == Some(ds[i]),
{
    let s = frames_of(ds);
    assert(s.subrange(0, s.len() as int) =~= s);
    lemma_stream_of_frames(s, s.len() as int, 0, ds);
    assert forall|i: int| 0 <= i < ds.len() && ds[i].len() > 4 implies checked_payload(
        #[trigger] checked_bodies(ds)[i],
    ) == Some(ds[i]) by {
        lemma_frame_roundtrip(ds[i]);
    }
}

/// A received packet is accepted only when it is longer than six bytes and both of its
/// last two bytes are those of the internet checksum of the bytes before them; what is
/// given back is then exactly those bytes. A packet with either checksum byte wrong is
/// dropped.
pub proof fn lemma_checksum_guards_payload(p: Seq<u8>)
    ensures
        checked_payload(p) is Some ==> {
            let v = checked_payload(p)->0;
            &&& p.len() > 6
            &&& v == p.take(p.len() - 2)
            &&& p[p.len() - 2] == internet_checksum(v)[0]
            &&& p[p.len() - 1] == internet_checksum(v)[1]
        },
        p.len() > 6 && (p[p.len() - 2] != internet_checksum(p.take(p.len() - 2))[0] || p[p.len()
            - 1] != internet_checksum(p.take(p.len() - 2))[1]) ==> checked_payload(p) is None,
        p.len() > 6 && p[p.len() - 2] == internet_checksum(p.take(p.len() - 2))[0] && p[p.len()
            - 1] == internet_checksum(p.take(p.len() - 2))[1] ==> checked_payload(p) == Some(
            p.take(p.len() - 2),
        ),
{
    if p.len() > 6 {
        let body = p.take(p.len() - 2);
        let tail = p.skip(p.len() - 2);
        let c = internet_checksum(body);
        assert(tail.len() == 2 && c.len() == 2);
        assert(tail[0] == p[p.len() - 2] && tail[1] == p[p.len() - 1]);
        if tail[0] == c[0] && tail[1] == c[1] {
            assert(tail =~= c);
        }
    }
}

} // verus!
