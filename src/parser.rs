use vstd::prelude::*;

use crate::header::{
    frame_length_of, header_error, AdtsHeader, AdtsHeaderError, AudioObjectType,
    ChannelConfiguration, MpegVersion, Originality, ProtectionIndicator, SamplingFrequency,
};
use crate::stream::{
    awaits_more, bytes_needed, config_notification, error_notification, frame_notifications,
    lemma_awaiting, lemma_grown_to_need, lemma_scan_append, lemma_scan_fault, lemma_scan_frame,
    lemma_still_awaiting, payload_notification, pushed, scan, AdtsParseError, Notification,
    StreamState,
};

verus! {

/// Implemented by types that consume the frames that [`AdtsParser`] finds.
pub trait AdtsConsumer {
    /// Called when a new configuration is found in the bitstream.
    ///
    /// A well-formed stream keeps one configuration throughout, so this is
    /// usually called once, at the start. The configuration fields appear
    /// in every frame, so a malformed stream may signal a change part way
    /// through.
    fn new_config(
        &mut self,
        mpeg_version: MpegVersion,
        protection: ProtectionIndicator,
        aot: AudioObjectType,
        freq: SamplingFrequency,
        private_bit: u8,
        channels: ChannelConfiguration,
        originality: Originality,
        home: u8,
    );

    /// Called with the payload of a frame and its frame-specific header
    /// values.
    fn payload(&mut self, buffer_fullness: u16, number_of_blocks: u8, buf: &[u8]);

    /// Called when the parser meets an error in the bitstream.
    fn error(&mut self, err: AdtsParseError);
}

#[derive(PartialEq, Eq, Structural)]
enum AdtsState {
    Start,
    Incomplete,
    Error,
}

/// Finds frames in buffers of data pushed one after the other, announcing
/// the audio configuration as it is discovered (normally just once, at the
/// start).
///
/// Does not resynchronise with the bitstream after bad data: after an error
/// it ignores its input until [`start`](#method.start) is called.
pub struct AdtsParser<C> where C: AdtsConsumer {
    pub consumer: C,
    current_config: [u8; 3],
    state: AdtsState,
    incomplete_frame: Vec<u8>,
    desired_data_len: Option<usize>,
    /// Every call made to `consumer` so far, in order.
    delivered: Ghost<Seq<Notification>>,
}

impl<C> AdtsParser<C> where C: AdtsConsumer {
    /// The parser's state in terms of the stream model.
    pub closed spec fn model(&self) -> StreamState {
        StreamState {
            faulted: self.state == AdtsState::Error,
            pending: if self.state == AdtsState::Incomplete {
                self.incomplete_frame@
            } else {
                Seq::empty()
            },
            config: self.current_config@,
        }
    }

    /// The calls made to the consumer so far, in order.
    pub closed spec fn notifications(&self) -> Seq<Notification> {
        self.delivered@
    }

    /// While a frame is incomplete, its bytes so far are a partial frame,
    /// and the parser waits for as many bytes as decoding them asked for.
    pub closed spec fn wf(&self) -> bool {
        self.state == AdtsState::Incomplete ==> {
            &&& awaits_more(self.incomplete_frame@)
            &&& self.desired_data_len == Some(bytes_needed(self.incomplete_frame@) as usize)
        }
    }

    pub fn new(consumer: C) -> (r: AdtsParser<C>)
        ensures
            r.wf(),
            r.model() == (StreamState {
                faulted: false,
                pending: Seq::empty(),
                config: seq![0u8, 0u8, 0u8],
            }),
            r.notifications() == Seq::<Notification>::empty(),
    {
        let r = AdtsParser {
            consumer,
            current_config: [0; 3],
            state: AdtsState::Start,
            incomplete_frame: Vec::new(),
            desired_data_len: None,
            delivered: Ghost(Seq::empty()),
        };
        assert(r.current_config@ =~= seq![0u8, 0u8, 0u8]);
        r
    }

    fn is_new_config(&self, header_data: &[u8]) -> (r: bool)
        requires
            header_data@.len() >= 3,
        ensures
            r == (header_data@.take(3) != self.current_config@),
    {
        let same = self.current_config[0] == header_data[0] && self.current_config[1]
            == header_data[1] && self.current_config[2] == header_data[2];
        if same {
            assert(header_data@.take(3) =~= self.current_config@);
        } else {
            assert(header_data@.take(3) != self.current_config@) by {
                if header_data@.take(3) == self.current_config@ {
                    assert(header_data@.take(3)[0] == header_data@[0]);
                    assert(header_data@.take(3)[1] == header_data@[1]);
                    assert(header_data@.take(3)[2] == header_data@[2]);
                }
            }
        }
        !same
    }

    /// Keeps the unconsumed `remaining_data` until `desired_data_len` bytes
    /// of the frame have arrived.
    fn remember(&mut self, remaining_data: &[u8], desired_data_len: usize)
        requires
            awaits_more(remaining_data@),
            desired_data_len == bytes_needed(remaining_data@),
        ensures
            final(self).wf(),
            final(self).model() == (StreamState {
                faulted: false,
                pending: remaining_data@,
                config: old(self).model().config,
            }),
            final(self).notifications() == old(self).notifications(),
            final(self).consumer == old(self).consumer,
    {
        self.state = AdtsState::Incomplete;
        self.incomplete_frame.clear();
        self.incomplete_frame.extend_from_slice(remaining_data);
        assert(self.incomplete_frame@ =~= remaining_data@);
        self.desired_data_len = Some(desired_data_len);
    }

    /// Initialises or re-initialises the parser: clears an error state, and
    /// drops the bytes of a frame that was not complete.
    pub fn start(&mut self)
        requires
            old(self).wf(),
        ensures
            final(self).wf(),
            final(self).model() == (StreamState {
                faulted: false,
                pending: Seq::empty(),
                config: old(self).model().config,
            }),
            final(self).notifications() == old(self).notifications(),
    {
        if self.state == AdtsState::Incomplete {
            self.incomplete_frame.clear();
            self.desired_data_len = None;
        }
        self.state = AdtsState::Start;
    }

    /// Announces the configuration of the frame `h`, whose bytes are
    /// `frame_buffer`, and remembers its fingerprint.
    fn push_config(&mut self, h: &AdtsHeader<'_>, frame_buffer: &[u8])
        requires
            h@ == frame_buffer@,
            header_error(frame_buffer@) is None,
        ensures
            final(self).state == old(self).state,
            final(self).incomplete_frame == old(self).incomplete_frame,
            final(self).desired_data_len == old(self).desired_data_len,
            final(self).current_config@ == frame_buffer@.take(3),
            final(self).notifications() == old(self).notifications().push(
                config_notification(frame_buffer@),
            ),
    {
        self.current_config = [frame_buffer[0], frame_buffer[1], frame_buffer[2]];
        assert(self.current_config@ =~= frame_buffer@.take(3));
        let mpeg_version = h.mpeg_version();
        let protection = h.protection();
        let aot = h.audio_object_type();
        let freq = h.sampling_frequency();
        let private_bit = h.private_bit();
        let channels = h.channel_configuration();
        let originality = h.originality();
        let home = h.home();
        self.delivered = Ghost(
            self.delivered@.push(
                Notification::NewConfig {
                    mpeg_version,
                    protection,
                    audio_object_type: aot,
                    sampling_index: freq.code(),
                    private_bit,
                    channel_code: channels.code(),
                    originality,
                    home,
                },
            ),
        );
        self.consumer.new_config(
            mpeg_version,
            protection,
            aot,
            freq,
            private_bit,
            channels,
            originality,
            home,
        );
    }

    /// Hands the payload of the complete frame `h` to the consumer.
    fn push_payload(&mut self, h: &AdtsHeader<'_>)
        requires
            header_error(h@) is None,
            frame_length_of(h@) <= h@.len(),
        ensures
            final(self).state == old(self).state,
            final(self).incomplete_frame == old(self).incomplete_frame,
            final(self).desired_data_len == old(self).desired_data_len,
            final(self).current_config == old(self).current_config,
            final(self).notifications() == old(self).notifications().push(
                payload_notification(h@),
            ),
    {
        match h.payload() {
            Ok(payload) => {
                let buffer_fullness = h.adts_buffer_fullness();
                let number_of_blocks = h.number_of_raw_data_blocks_in_frame();
                self.delivered = Ghost(
                    self.delivered@.push(
                        Notification::Payload { buffer_fullness, number_of_blocks, data: payload@ },
                    ),
                );
                self.consumer.payload(buffer_fullness, number_of_blocks, payload);
            },
            Err(_) => {},
        }
    }

    /// Reports a fault to the consumer and stops the parser until `start`.
    fn push_error(&mut self, e: AdtsHeaderError)
        requires
            !(e is NotEnoughData),
        ensures
            final(self).state == AdtsState::Error,
            final(self).current_config == old(self).current_config,
            final(self).notifications() == old(self).notifications().push(
                error_notification(e),
            ),
    {
        self.state = AdtsState::Error;
        let err = match e {
            AdtsHeaderError::BadSyncWord(_) => AdtsParseError::BadSyncWord,
            _ => AdtsParseError::BadFrameLength,
        };
        self.delivered = Ghost(self.delivered@.push(Notification::Error(err)));
        self.consumer.error(err);
    }

    /// The calls for one complete frame: its configuration where the
    /// fingerprint changed, then its payload.
    fn push_frame(&mut self, h: &AdtsHeader<'_>, frame_buffer: &[u8])
        requires
            h@ == frame_buffer@,
            header_error(frame_buffer@) is None,
            frame_length_of(frame_buffer@) <= frame_buffer@.len(),
        ensures
            final(self).state == old(self).state,
            final(self).incomplete_frame == old(self).incomplete_frame,
            final(self).desired_data_len == old(self).desired_data_len,
            final(self).current_config@ == frame_buffer@.take(3),
            final(self).notifications() == old(self).notifications() + frame_notifications(
                frame_buffer@,
                old(self).current_config@,
            ),
    {
        if self.is_new_config(frame_buffer) {
            self.push_config(h, frame_buffer);
        } else {
            assert(self.current_config@ == frame_buffer@.take(3));
        }
        self.push_payload(h);
        assert(final(self).notifications() =~= old(self).notifications() + frame_notifications(
            frame_buffer@,
            old(self).current_config@,
        ));
    }

    /// Completes the pending frame with the first bytes of `adts_buf`.
    /// Returns where the bytes after that frame begin in `adts_buf`, or
    /// `None` where the buffer is used up or the frame turned out bad.
    #[verifier::rlimit(20)]
    fn complete_frame(&mut self, adts_buf: &[u8]) -> (r: Option<usize>)
        requires
            old(self).wf(),
            old(self).state == AdtsState::Incomplete,
        ensures
            final(self).wf(),
            ({
                let whole = scan(old(self).model().pending + adts_buf@, old(self).current_config@);
                match r {
                    Some(pos) => {
                        let rest = scan(adts_buf@.skip(pos as int), final(self).current_config@);
                        &&& pos <= adts_buf@.len()
                        &&& final(self).state == AdtsState::Start
                        &&& final(self).delivered@ + rest.0 == old(self).delivered@ + whole.0
                        &&& rest.1 == whole.1
                    },
                    None => {
                        &&& final(self).delivered@ == old(self).delivered@ + whole.0
                        &&& final(self).model() == whole.1
                    },
                }
            }),
    {
        let ghost stream = self.incomplete_frame@ + adts_buf@;
        let ghost config = self.current_config@;
        let ghost log = self.delivered@;
        let mut frame: Vec<u8> = Vec::new();
        core::mem::swap(&mut frame, &mut self.incomplete_frame);
        let mut pos: usize = 0;
        loop
            invariant
                pos <= adts_buf@.len(),
                frame@ + adts_buf@.skip(pos as int) == stream,
                awaits_more(frame@),
                self.desired_data_len == Some(bytes_needed(frame@) as usize),
                self.state == AdtsState::Incomplete,
                self.current_config@ == config,
                self.delivered@ == log,
                stream == old(self).model().pending + adts_buf@,
                config == old(self).current_config@,
                log == old(self).delivered@,
            decreases adts_buf@.len() - pos,
        {
            proof {
                lemma_awaiting(frame@, config);
            }
            let bytes_needed_to_complete_frame = self.desired_data_len.unwrap() - frame.len();
            if adts_buf.len() - pos < bytes_needed_to_complete_frame {
                let rest = vstd::slice::slice_subrange(adts_buf, pos, adts_buf.len());
                proof {
                    lemma_still_awaiting(frame@, rest@);
                }
                frame.extend_from_slice(rest);
                assert(frame@ =~= stream);
                self.incomplete_frame = frame;
                proof {
                    lemma_awaiting(stream, config);
                    assert(log + Seq::<Notification>::empty() =~= log);
                }
                return None;
            }
            let ghost prev = frame@;
            let part = vstd::slice::slice_subrange(
                adts_buf,
                pos,
                pos + bytes_needed_to_complete_frame,
            );
            frame.extend_from_slice(part);
            pos = pos + bytes_needed_to_complete_frame;
            proof {
                assert(frame@ =~= prev + part@);
                assert(frame@ + adts_buf@.skip(pos as int) =~= stream);
                lemma_scan_append(frame@, adts_buf@.skip(pos as int), config);
            }
            match AdtsHeader::from_bytes(frame.as_slice()) {
                Ok(header) => {
                    if (header.frame_length() as usize) > frame.len() {
                        self.desired_data_len = Some(header.frame_length() as usize);
                    } else {
                        proof {
                            lemma_grown_to_need(prev, part@);
                            lemma_scan_frame(frame@, config);
                            let fl = frame_length_of(frame@);
                            assert(frame@.skip(fl) =~= Seq::<u8>::empty());
                            lemma_awaiting(Seq::<u8>::empty(), frame@.take(3));
                            assert(Seq::<u8>::empty() + adts_buf@.skip(pos as int) =~= adts_buf@.skip(
                                pos as int,
                            ));
                        }
                        self.push_frame(&header, frame.as_slice());
                        self.state = AdtsState::Start;
                        frame.clear();
                        self.incomplete_frame = frame;
                        proof {
                            let notes = frame_notifications(prev + part@, config);
                            assert(notes + Seq::<Notification>::empty() =~= notes);
                            let rest = scan(adts_buf@.skip(pos as int), self.current_config@);
                            assert(log + notes + rest.0 =~= log + (notes + rest.0));
                        }
                        return Some(pos);
                    }
                },
                Err(AdtsHeaderError::NotEnoughData { expected, .. }) => {
                    self.desired_data_len = Some(expected);
                },
                Err(e) => {
                    proof {
                        lemma_scan_fault(frame@, config);
                    }
                    self.push_error(e);
                    self.incomplete_frame = frame;
                    assert(self.delivered@ =~= log + seq![error_notification(e)]);
                    return None;
                },
            }
        }
    }

    /// Passes each complete frame of `adts_buf`, from `pos` on, to the
    /// consumer, and keeps what is left of a frame that is not complete.
    fn push_frames(&mut self, adts_buf: &[u8], start: usize)
        requires
            old(self).wf(),
            old(self).state == AdtsState::Start,
            start <= adts_buf@.len(),
        ensures
            final(self).wf(),
            ({
                let whole = scan(adts_buf@.skip(start as int), old(self).current_config@);
                &&& final(self).delivered@ == old(self).delivered@ + whole.0
                &&& final(self).model() == whole.1
            }),
    {
        let ghost whole = scan(adts_buf@.skip(start as int), self.current_config@);
        let ghost log = self.delivered@;
        let mut pos = start;
        while pos < adts_buf.len()
            invariant
                pos <= adts_buf@.len(),
                self.state == AdtsState::Start,
                log == old(self).delivered@,
                whole == scan(adts_buf@.skip(start as int), old(self).current_config@),
                ({
                    let rest = scan(adts_buf@.skip(pos as int), self.current_config@);
                    &&& self.delivered@ + rest.0 == log + whole.0
                    &&& rest.1 == whole.1
                }),
            decreases adts_buf@.len() - pos,
        {
            let remaining_data = vstd::slice::slice_subrange(adts_buf, pos, adts_buf.len());
            assert(remaining_data@ =~= adts_buf@.skip(pos as int));
            let ghost config = self.current_config@;
            let ghost before = self.delivered@;
            match AdtsHeader::from_bytes(remaining_data) {
                Ok(h) => {
                    let frame_length = h.frame_length() as usize;
                    if frame_length > remaining_data.len() {
                        proof {
                            lemma_awaiting(remaining_data@, config);
                            assert(before + Seq::<Notification>::empty() =~= before);
                        }
                        self.remember(remaining_data, frame_length);
                        return;
                    }
                    proof {
                        lemma_scan_frame(remaining_data@, config);
                    }
                    self.push_frame(&h, remaining_data);
                    pos = pos + frame_length;
                    proof {
                        assert(remaining_data@.skip(frame_length as int) =~= adts_buf@.skip(
                            pos as int,
                        ));
                        let notes = frame_notifications(remaining_data@, config);
                        let rest = scan(adts_buf@.skip(pos as int), self.current_config@);
                        assert(before + notes + rest.0 =~= before + (notes + rest.0));
                    }
                },
                Err(AdtsHeaderError::NotEnoughData { expected, .. }) => {
                    proof {
                        lemma_awaiting(remaining_data@, config);
                        assert(before + Seq::<Notification>::empty() =~= before);
                    }
                    self.remember(remaining_data, expected);
                    return;
                },
                Err(e) => {
                    proof {
                        lemma_scan_fault(remaining_data@, config);
                    }
                    self.push_error(e);
                    assert(self.delivered@ =~= before + seq![error_notification(e)]);
                    return;
                },
            }
        }
        proof {
            assert(adts_buf@.skip(pos as int) =~= Seq::<u8>::empty());
            lemma_awaiting(Seq::<u8>::empty(), self.current_config@);
            assert(self.delivered@ + Seq::<Notification>::empty() =~= self.delivered@);
        }
    }

    /// Extracts each frame from the given buffer and passes what it holds to
    /// the consumer.
    ///
    /// Where the buffer ends part-way through a frame, the unconsumed bytes
    /// are kept, and the rest of the frame may come in the next call.
    pub fn push(&mut self, adts_buf: &[u8])
        requires
            old(self).wf(),
        ensures
            final(self).wf(),
            final(self).notifications() == old(self).notifications() + pushed(
                old(self).model(),
                adts_buf@,
            ).0,
            final(self).model() == pushed(old(self).model(), adts_buf@).1,
    {
        if self.state == AdtsState::Error {
            assert(self.notifications() + Seq::<Notification>::empty() =~= self.notifications());
            return;
        }
        let mut pos: usize = 0;
        if self.state == AdtsState::Incomplete {
            // The end of an earlier buffer held the start of a frame: add
            // bytes from this one until the frame is complete.
            match self.complete_frame(adts_buf) {
                Some(p) => pos = p,
                None => return,
            }
        } else {
            assert(old(self).model().pending + adts_buf@ =~= adts_buf@.skip(0));
        }
        self.push_frames(adts_buf, pos);
    }
}

} // verus!
