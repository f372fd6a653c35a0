use vstd::prelude::*;

use crate::header::{
    audio_object_type_of, buffer_fullness_of, channel_code_of, frame_length_of, header_error,
    header_length_of, home_of, mpeg_version_of, originality_of, private_bit_of, protection_of,
    raw_blocks_of, sampling_index_of, sync_word_of, AdtsHeaderError, AudioObjectType, MpegVersion,
    Originality, ProtectionIndicator,
};

verus! {

/// A fault in the bitstream, as reported to the consumer.
#[derive(Debug, PartialEq, Eq, Structural, Clone, Copy)]
pub enum AdtsParseError {
    BadSyncWord,
    BadFrameLength,
}

/// One call that a parser made to its consumer. Sampling frequency and
/// channel layout are recorded by their codes in the header.
pub enum Notification {
    NewConfig {
        mpeg_version: MpegVersion,
        protection: ProtectionIndicator,
        audio_object_type: AudioObjectType,
        sampling_index: u8,
        private_bit: u8,
        channel_code: u8,
        originality: Originality,
        home: u8,
    },
    Payload { buffer_fullness: u16, number_of_blocks: u8, data: Seq<u8> },
    Error(AdtsParseError),
}

/// What a parser holds between two chunks: whether it is faulted, the bytes
/// of a frame that is not complete yet, and the configuration fingerprint
/// (the first three header bytes) of the last frame.
pub struct StreamState {
    pub faulted: bool,
    pub pending: Seq<u8>,
    pub config: Seq<u8>,
}

/// The configuration announcement for the frame at the start of `s`.
pub open spec fn config_notification(s: Seq<u8>) -> Notification {
    Notification::NewConfig {
        mpeg_version: mpeg_version_of(s),
        protection: protection_of(s),
        audio_object_type: audio_object_type_of(s),
        sampling_index: sampling_index_of(s) as u8,
        private_bit: private_bit_of(s) as u8,
        channel_code: channel_code_of(s) as u8,
        originality: originality_of(s),
        home: home_of(s) as u8,
    }
}

/// The payload delivery for the complete frame at the start of `s`.
pub open spec fn payload_notification(s: Seq<u8>) -> Notification {
    Notification::Payload {
        buffer_fullness: buffer_fullness_of(s) as u16,
        number_of_blocks: raw_blocks_of(s) as u8,
        data: s.subrange(header_length_of(s), frame_length_of(s)),
    }
}

/// The calls made for the complete frame at the start of `s`: a new
/// configuration where its fingerprint differs from `config`, then its
/// payload.
pub open spec fn frame_notifications(s: Seq<u8>, config: Seq<u8>) -> Seq<Notification> {
    if s.take(3) != config {
        seq![config_notification(s), payload_notification(s)]
    } else {
        seq![payload_notification(s)]
    }
}

/// The report for a header that cannot be decoded.
pub open spec fn error_notification(e: AdtsHeaderError) -> Notification {
    match e {
        AdtsHeaderError::BadSyncWord(_) => Notification::Error(AdtsParseError::BadSyncWord),
        _ => Notification::Error(AdtsParseError::BadFrameLength),
    }
}

/// Reads the frames of `s` one after the other, starting with `config` as
/// the last fingerprint seen. Stops at a fault, or where the bytes left do
/// not yet hold a whole frame: those are kept pending.
#[verifier::opaque]
pub open spec fn scan(s: Seq<u8>, config: Seq<u8>) -> (Seq<Notification>, StreamState)
    decreases s.len(),
{
    match header_error(s) {
        Some(AdtsHeaderError::NotEnoughData { .. }) => (
            seq![],
            StreamState { faulted: false, pending: s, config },
        ),
        Some(e) => (
            seq![error_notification(e)],
            StreamState { faulted: true, pending: seq![], config },
        ),
        None => if frame_length_of(s) > s.len() {
            (seq![], StreamState { faulted: false, pending: s, config })
        } else {
            let rest = scan(s.skip(frame_length_of(s)), s.take(3));
            (frame_notifications(s, config) + rest.0, rest.1)
        },
    }
}

/// The calls that pushing `chunk` makes, and the state after it. A faulted
/// parser ignores its input.
pub open spec fn pushed(st: StreamState, chunk: Seq<u8>) -> (Seq<Notification>, StreamState) {
    if st.faulted {
        (seq![], st)
    } else {
        scan(st.pending + chunk, st.config)
    }
}

/// `p` is the start of a frame whose end has not arrived yet.
pub open spec fn awaits_more(p: Seq<u8>) -> bool {
    match header_error(p) {
        Some(AdtsHeaderError::NotEnoughData { .. }) => true,
        None => frame_length_of(p) > p.len(),
        _ => false,
    }
}

/// How many bytes `p` must grow to before decoding it again can tell more.
pub open spec fn bytes_needed(p: Seq<u8>) -> int {
    match header_error(p) {
        Some(AdtsHeaderError::NotEnoughData { expected, .. }) => expected as int,
        _ => frame_length_of(p),
    }
}

/// Reading a header from `s` and from `s` with bytes appended agree once
/// `s` holds enough bytes to decide.
pub(crate) proof fn lemma_decided_prefix(s: Seq<u8>, t: Seq<u8>, config: Seq<u8>)
    requires
        !(header_error(s) matches Some(AdtsHeaderError::NotEnoughData { .. })),
    ensures
        header_error(s + t) == header_error(s),
        header_error(s) is None && frame_length_of(s) <= s.len() ==> {
            &&& frame_length_of(s + t) == frame_length_of(s)
            &&& (s + t).take(3) == s.take(3)
            &&& frame_notifications(s + t, config) == frame_notifications(s, config)
        },
{
    assert(s.len() >= 7);
    let u = s + t;
    assert(u[0] == s[0] && u[1] == s[1] && u[2] == s[2] && u[3] == s[3]);
    assert(u[4] == s[4] && u[5] == s[5] && u[6] == s[6]);
    if s.len() >= 9 {
        assert(u[7] == s[7] && u[8] == s[8]);
    }
    if header_error(s) is None && frame_length_of(s) <= s.len() {
        assert(u.take(3) =~= s.take(3));
        assert(u.subrange(header_length_of(s), frame_length_of(s)) =~= s.subrange(
            header_length_of(s),
            frame_length_of(s),
        ));
    }
}

/// Scanning a stream in two parts, the second appended to what the first
/// left pending, makes the same calls as scanning it at once.
pub(crate) proof fn lemma_scan_append(s: Seq<u8>, t: Seq<u8>, config: Seq<u8>)
    ensures
        ({
            let first = scan(s, config);
            let second = scan(first.1.pending + t, first.1.config);
            if first.1.faulted {
                scan(s + t, config) == first
            } else {
                scan(s + t, config) == (first.0 + second.0, second.1)
            }
        }),
    decreases s.len(),
{
    reveal_with_fuel(scan, 1);
    let first = scan(s, config);
    match header_error(s) {
        Some(AdtsHeaderError::NotEnoughData { .. }) => {
            assert(first.0 + scan(s + t, config).0 =~= scan(s + t, config).0);
        },
        Some(_) => {
            lemma_decided_prefix(s, t, config);
        },
        None => {
            lemma_decided_prefix(s, t, config);
            if frame_length_of(s) > s.len() {
                assert(first.0 + scan(s + t, config).0 =~= scan(s + t, config).0);
            } else {
                let fl = frame_length_of(s);
                let u = s + t;
                assert(u.skip(fl) =~= s.skip(fl) + t);
                lemma_scan_append(s.skip(fl), t, s.take(3));
                let inner = scan(s.skip(fl), s.take(3));
                let second = scan(inner.1.pending + t, inner.1.config);
                if !inner.1.faulted {
                    assert(frame_notifications(s, config) + (inner.0 + second.0)
                        =~= (frame_notifications(s, config) + inner.0) + second.0);
                }
            }
        },
    }
}

/// A partial frame leaves nothing to report yet, and asks for more bytes
/// than it holds, never more than the largest frame.
pub(crate) proof fn lemma_awaiting(p: Seq<u8>, config: Seq<u8>)
    requires
        awaits_more(p),
    ensures
        p.len() < bytes_needed(p) <= 8191,
        scan(p, config) == (
            Seq::<Notification>::empty(),
            StreamState { faulted: false, pending: p, config },
        ),
{
    reveal_with_fuel(scan, 1);
    if header_error(p) is None {
        let b = p;
        assert((b[3] % 4) * 2048 + b[4] * 8 + b[5] / 32 <= 8191) by (nonlinear_arith)
            requires b[3] <= 255, b[4] <= 255, b[5] <= 255;
    }
}

/// A partial frame that grows by fewer bytes than it asked for is still
/// partial.
pub(crate) proof fn lemma_still_awaiting(p: Seq<u8>, x: Seq<u8>)
    requires
        awaits_more(p),
        (p + x).len() < bytes_needed(p),
    ensures
        awaits_more(p + x),
        bytes_needed(p + x) == bytes_needed(p),
{
    let u = p + x;
    if p.len() >= 7 {
        assert(u[0] == p[0] && u[1] == p[1] && u[2] == p[2] && u[3] == p[3]);
        assert(u[4] == p[4] && u[5] == p[5] && u[6] == p[6]);
        if p.len() >= 9 {
            assert(u[7] == p[7] && u[8] == p[8]);
        }
    }
}

/// A partial frame grown to exactly the bytes it asked for, and then
/// decoded, does not reach past those bytes: where it is complete, it
/// ends exactly there.
pub(crate) proof fn lemma_grown_to_need(p: Seq<u8>, x: Seq<u8>)
    requires
        awaits_more(p),
        (p + x).len() == bytes_needed(p),
        header_error(p + x) is None,
    ensures
        frame_length_of(p + x) >= (p + x).len(),
{
    let u = p + x;
    if p.len() >= 7 {
        assert(u[0] == p[0] && u[1] == p[1] && u[2] == p[2] && u[3] == p[3]);
        assert(u[4] == p[4] && u[5] == p[5] && u[6] == p[6]);
        if p.len() >= 9 {
            assert(u[7] == p[7] && u[8] == p[8]);
        }
    }
}

/// How a byte stream is cut into chunks cannot be seen in what the parser
/// reports: pushing `a` and then `b` makes the same calls, in the same
/// order, and leaves the same state, as pushing `a` and `b` joined.
pub proof fn lemma_chunking_unobservable(st: StreamState, a: Seq<u8>, b: Seq<u8>)
    ensures
        ({
            let first = pushed(st, a);
            let second = pushed(first.1, b);
            pushed(st, a + b) == (first.0 + second.0, second.1)
        }),
{
    if st.faulted {
        assert(Seq::<Notification>::empty() + Seq::<Notification>::empty() =~= Seq::<Notification>::empty());
    } else {
        assert(st.pending + (a + b) =~= (st.pending + a) + b);
        lemma_scan_append(st.pending + a, b, st.config);
        let first = scan(st.pending + a, st.config);
        if first.1.faulted {
            assert(first.0 + Seq::<Notification>::empty() =~= first.0);
        }
    }
}

/// Scanning from a complete frame reports it and goes on after it.
pub(crate) proof fn lemma_scan_frame(s: Seq<u8>, config: Seq<u8>)
    requires
        header_error(s) is None,
        frame_length_of(s) <= s.len(),
    ensures
        ({
            let rest = scan(s.skip(frame_length_of(s)), s.take(3));
            scan(s, config) == (frame_notifications(s, config) + rest.0, rest.1)
        }),
{
    reveal_with_fuel(scan, 1);
}

/// Scanning from a bad header reports the fault and stops.
pub(crate) proof fn lemma_scan_fault(s: Seq<u8>, config: Seq<u8>)
    requires
        header_error(s) matches Some(e) && !(e is NotEnoughData),
    ensures
        scan(s, config) == (
            seq![error_notification(header_error(s).unwrap())],
            StreamState { faulted: true, pending: Seq::empty(), config },
        ),
{
    reveal_with_fuel(scan, 1);
}

/// Once faulted, a parser reports nothing more and keeps its state,
/// whatever it is given.
pub proof fn lemma_faulted_ignores_input(st: StreamState, chunk: Seq<u8>)
    requires
        st.faulted,
    ensures
        pushed(st, chunk) == (Seq::<Notification>::empty(), st),
{
}

/// Where the bytes at a frame boundary hold at least the fixed header
/// fields and do not start with the sync word, the parser reports
/// `BadSyncWord` once, drops the rest, and is faulted from then on.
pub proof fn lemma_bad_sync_faults(st: StreamState, chunk: Seq<u8>)
    requires
        !st.faulted,
        (st.pending + chunk).len() >= 7,
        sync_word_of(st.pending + chunk) != 0xfff,
    ensures
        pushed(st, chunk) == (
            seq![Notification::Error(AdtsParseError::BadSyncWord)],
            StreamState { faulted: true, pending: Seq::empty(), config: st.config },
        ),
        pushed(st, chunk).1.faulted,
{
    lemma_scan_fault(st.pending + chunk, st.config);
}

/// A parser given only the first bytes of a well-formed frame reports
/// nothing and keeps those bytes; given the rest, it reports what it would
/// have for the whole frame in one piece.
pub proof fn lemma_partial_frame_waits(st: StreamState, frame: Seq<u8>, k: int)
    requires
        !st.faulted,
        st.pending.len() == 0,
        header_error(frame) is None,
        frame_length_of(frame) == frame.len(),
        0 < k < frame.len(),
    ensures
        pushed(st, frame.take(k)) == (
            Seq::<Notification>::empty(),
            StreamState { faulted: false, pending: frame.take(k), config: st.config },
        ),
        pushed(pushed(st, frame.take(k)).1, frame.skip(k)) == pushed(st, frame),
{
    let p = frame.take(k);
    assert(st.pending + p =~= p);
    assert(st.pending + frame =~= frame);
    if k >= 7 {
        assert(p[0] == frame[0] && p[1] == frame[1] && p[2] == frame[2] && p[3] == frame[3]);
        assert(p[4] == frame[4] && p[5] == frame[5] && p[6] == frame[6]);
        if k >= 9 {
            assert(p[7] == frame[7] && p[8] == frame[8]);
        }
    }
    assert(awaits_more(p));
    lemma_awaiting(p, st.config);
    lemma_chunking_unobservable(st, p, frame.skip(k));
    assert(p + frame.skip(k) =~= frame);
    assert(Seq::<Notification>::empty() + pushed(pushed(st, p).1, frame.skip(k)).0
        =~= pushed(pushed(st, p).1, frame.skip(k)).0);
}

} // verus!
