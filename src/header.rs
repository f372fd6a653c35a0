use vstd::prelude::*;

verus! {

/// Why the bytes at the start of a buffer are not a frame header.
#[derive(Debug, PartialEq, Eq, Structural, Clone, Copy)]
pub enum AdtsHeaderError {
    /// The buffer does not start with the required sequence of 12 '1'-bits
    /// (`0xfff`); holds the 12 bits that were found instead.
    BadSyncWord(u16),
    /// The buffer is shorter than the header fields read so far require.
    NotEnoughData { expected: usize, actual: usize },
    /// The frame_length field holds a value smaller than the size of the
    /// header fields.
    BadFrameLength { minimum: usize, actual: usize },
}

/// Not enough data was provided to `AdtsHeader` to extract the whole payload
/// that follows the header fields.
#[derive(Debug, PartialEq, Eq, Structural, Clone, Copy)]
pub struct PayloadError {
    pub expected: usize,
    pub actual: usize,
}

#[derive(Debug, PartialEq, Eq, Structural, Clone, Copy)]
pub enum MpegVersion {
    Mpeg2,
    Mpeg4,
}

#[derive(Debug, PartialEq, Eq, Structural, Clone, Copy)]
pub enum AudioObjectType {
    /// 'Main' profile
    AacMain,
    /// 'Low Complexity' profile
    AacLC,
    /// 'Scalable Sample Rate' profile
    AacSSR,
    /// 'Long Term Prediction' profile
    AacLTP,
}

#[derive(Debug, PartialEq, Eq, Structural, Clone, Copy)]
pub enum ProtectionIndicator {
    CrcPresent,
    CrcAbsent,
}

/// The sampling rate signalled by a frame header.
#[derive(Debug, PartialEq, Eq, Structural, Clone, Copy)]
pub enum SamplingFrequency {
    /// 96kHz
    Freq96000,
    /// 88.2kHz
    Freq88200,
    /// 64kHz
    Freq64000,
    /// 48kHz
    Freq48000,
    /// 44.1kHz
    Freq44100,
    /// 32kHz
    Freq32000,
    /// 24kHz
    Freq24000,
    /// 22.05kHz
    Freq22050,
    /// 16kHz
    Freq16000,
    /// 12kHz
    Freq12000,
    /// 11.025kHz
    Freq11025,
    /// 8kHz
    Freq8000,
    FreqReserved0xc,
    FreqReserved0xd,
    FreqReserved0xe,
    FreqReserved0xf,
}

/// The rate in Hz that a four-bit sampling-frequency code stands for; the
/// codes from 0xc up are reserved and stand for no rate.
pub open spec fn rate_of_code(code: u8) -> Option<u32> {
    if code == 0x0 { Some(96000u32) }
    else if code == 0x1 { Some(88200u32) }
    else if code == 0x2 { Some(64000u32) }
    else if code == 0x3 { Some(48000u32) }
    else if code == 0x4 { Some(44100u32) }
    else if code == 0x5 { Some(32000u32) }
    else if code == 0x6 { Some(24000u32) }
    else if code == 0x7 { Some(22050u32) }
    else if code == 0x8 { Some(16000u32) }
    else if code == 0x9 { Some(12000u32) }
    else if code == 0xa { Some(11025u32) }
    else if code == 0xb { Some(8000u32) }
    else { None }
}

impl SamplingFrequency {
    /// The four-bit code of this variant in a frame header.
    pub open spec fn code(self) -> u8 {
        match self {
            SamplingFrequency::Freq96000 => 0x0,
            SamplingFrequency::Freq88200 => 0x1,
            SamplingFrequency::Freq64000 => 0x2,
            SamplingFrequency::Freq48000 => 0x3,
            SamplingFrequency::Freq44100 => 0x4,
            SamplingFrequency::Freq32000 => 0x5,
            SamplingFrequency::Freq24000 => 0x6,
            SamplingFrequency::Freq22050 => 0x7,
            SamplingFrequency::Freq16000 => 0x8,
            SamplingFrequency::Freq12000 => 0x9,
            SamplingFrequency::Freq11025 => 0xa,
            SamplingFrequency::Freq8000 => 0xb,
            SamplingFrequency::FreqReserved0xc => 0xc,
            SamplingFrequency::FreqReserved0xd => 0xd,
            SamplingFrequency::FreqReserved0xe => 0xe,
            SamplingFrequency::FreqReserved0xf => 0xf,
        }
    }

    fn from(value: u8) -> (r: SamplingFrequency)
        requires
            value < 16,
        ensures
            r.code() == value,
    {
        match value {
            0x0 => SamplingFrequency::Freq96000,
            0x1 => SamplingFrequency::Freq88200,
            0x2 => SamplingFrequency::Freq64000,
            0x3 => SamplingFrequency::Freq48000,
            0x4 => SamplingFrequency::Freq44100,
            0x5 => SamplingFrequency::Freq32000,
            0x6 => SamplingFrequency::Freq24000,
            0x7 => SamplingFrequency::Freq22050,
            0x8 => SamplingFrequency::Freq16000,
            0x9 => SamplingFrequency::Freq12000,
            0xa => SamplingFrequency::Freq11025,
            0xb => SamplingFrequency::Freq8000,
            0xc => SamplingFrequency::FreqReserved0xc,
            0xd => SamplingFrequency::FreqReserved0xd,
            0xe => SamplingFrequency::FreqReserved0xe,
            _ => SamplingFrequency::FreqReserved0xf,
        }
    }

    /// The rate in Hz, or `None` for a reserved code.
    pub fn freq(&self) -> (r: Option<u32>)
        ensures
            r == rate_of_code(self.code()),
    {
        match self {
            SamplingFrequency::Freq96000 => Some(96000),
            SamplingFrequency::Freq88200 => Some(88200),
            SamplingFrequency::Freq64000 => Some(64000),
            SamplingFrequency::Freq48000 => Some(48000),
            SamplingFrequency::Freq44100 => Some(44100),
            SamplingFrequency::Freq32000 => Some(32000),
            SamplingFrequency::Freq24000 => Some(24000),
            SamplingFrequency::Freq22050 => Some(22050),
            SamplingFrequency::Freq16000 => Some(16000),
            SamplingFrequency::Freq12000 => Some(12000),
            SamplingFrequency::Freq11025 => Some(11025),
            SamplingFrequency::Freq8000 => Some(8000),
            SamplingFrequency::FreqReserved0xc => None,
            SamplingFrequency::FreqReserved0xd => None,
            SamplingFrequency::FreqReserved0xe => None,
            SamplingFrequency::FreqReserved0xf => None,
        }
    }
}

#[derive(Debug, PartialEq, Eq, Structural, Clone, Copy)]
pub enum ChannelConfiguration {
    ObjectTypeSpecificConfig,
    Mono,
    Stereo,
    Three,
    Four,
    Five,
    FiveOne,
    SevenOne,
}

impl ChannelConfiguration {
    /// The three-bit code of this layout in a frame header.
    pub open spec fn code(self) -> u8 {
        match self {
            ChannelConfiguration::ObjectTypeSpecificConfig => 0x0,
            ChannelConfiguration::Mono => 0x1,
            ChannelConfiguration::Stereo => 0x2,
            ChannelConfiguration::Three => 0x3,
            ChannelConfiguration::Four => 0x4,
            ChannelConfiguration::Five => 0x5,
            ChannelConfiguration::FiveOne => 0x6,
            ChannelConfiguration::SevenOne => 0x7,
        }
    }

    fn from(value: u8) -> (r: ChannelConfiguration)
        requires
            value < 8,
        ensures
            r.code() == value,
    {
        match value {
            0x0 => ChannelConfiguration::ObjectTypeSpecificConfig,
            0x1 => ChannelConfiguration::Mono,
            0x2 => ChannelConfiguration::Stereo,
            0x3 => ChannelConfiguration::Three,
            0x4 => ChannelConfiguration::Four,
            0x5 => ChannelConfiguration::Five,
            0x6 => ChannelConfiguration::FiveOne,
            _ => ChannelConfiguration::SevenOne,
        }
    }
}

#[derive(Debug, PartialEq, Eq, Structural, Clone, Copy)]
pub enum Originality {
    Original,
    Copy,
}

#[derive(Debug, PartialEq, Eq, Structural, Clone, Copy)]
pub enum CopyrightIdentificationStart {
    Start,
    Other,
}

// The header layout, over the bytes of a buffer that starts with a header
// (MSB-first; byte 7 and 8 hold the CRC and are present only when the
// protection_absent bit is clear):
//
//   byte0 : sync[11:4]
//   byte1 : sync[3:0], version(1), layer(2), protection_absent(1)
//   byte2 : profile(2), sampling_frequency_index(4), private_bit(1),
//           channel_configuration[2]
//   byte3 : channel_configuration[1:0], original_copy(1), home(1),
//           copyright_id_bit(1), copyright_id_start(1), frame_length[12:11]
//   byte4 : frame_length[10:3]
//   byte5 : frame_length[2:0], buffer_fullness[10:6]
//   byte6 : buffer_fullness[5:0], raw_data_blocks_minus_one(2)

/// The twelve sync bits.
pub open spec fn sync_word_of(b: Seq<u8>) -> int {
    b[0] * 16 + b[1] / 16
}

/// Whether the header carries a CRC (the protection_absent bit is clear).
pub open spec fn crc_present(b: Seq<u8>) -> bool {
    b[1] % 2 == 0
}

/// The size of the header fields, CRC included.
pub open spec fn header_length_of(b: Seq<u8>) -> int {
    if crc_present(b) {
        9
    } else {
        7
    }
}

pub open spec fn mpeg_version_of(b: Seq<u8>) -> MpegVersion {
    if (b[1] / 8) % 2 == 1 {
        MpegVersion::Mpeg2
    } else {
        MpegVersion::Mpeg4
    }
}

pub open spec fn protection_of(b: Seq<u8>) -> ProtectionIndicator {
    if crc_present(b) {
        ProtectionIndicator::CrcPresent
    } else {
        ProtectionIndicator::CrcAbsent
    }
}

pub open spec fn audio_object_type_of(b: Seq<u8>) -> AudioObjectType {
    let profile = b[2] / 64;
    if profile == 0 {
        AudioObjectType::AacMain
    } else if profile == 1 {
        AudioObjectType::AacLC
    } else if profile == 2 {
        AudioObjectType::AacSSR
    } else {
        AudioObjectType::AacLTP
    }
}

pub open spec fn sampling_index_of(b: Seq<u8>) -> int {
    (b[2] as int / 4) % 16
}

pub open spec fn private_bit_of(b: Seq<u8>) -> int {
    (b[2] as int / 2) % 2
}

pub open spec fn channel_code_of(b: Seq<u8>) -> int {
    (b[2] % 2) * 4 + b[3] / 64
}

pub open spec fn originality_of(b: Seq<u8>) -> Originality {
    if (b[3] / 32) % 2 == 1 {
        Originality::Copy
    } else {
        Originality::Original
    }
}

pub open spec fn home_of(b: Seq<u8>) -> int {
    (b[3] as int / 16) % 2
}

pub open spec fn copyright_id_bit_of(b: Seq<u8>) -> int {
    (b[3] as int / 8) % 2
}

pub open spec fn copyright_id_start_of(b: Seq<u8>) -> CopyrightIdentificationStart {
    if (b[3] / 4) % 2 == 1 {
        CopyrightIdentificationStart::Start
    } else {
        CopyrightIdentificationStart::Other
    }
}

/// The length of the whole frame, header included.
pub open spec fn frame_length_of(b: Seq<u8>) -> int {
    (b[3] % 4) * 2048 + b[4] * 8 + b[5] / 32
}

pub open spec fn buffer_fullness_of(b: Seq<u8>) -> int {
    (b[5] % 32) * 64 + b[6] / 4
}

/// The number of raw data blocks: the stored value plus one.
pub open spec fn raw_blocks_of(b: Seq<u8>) -> int {
    b[6] % 4 + 1
}

pub open spec fn crc_of(b: Seq<u8>) -> int {
    b[7] * 256 + b[8]
}

/// What decoding a header from the start of `b` fails with, if anything.
/// The checks come in order: enough bytes for the fixed fields, the sync
/// word, enough bytes for the CRC, a frame length that covers the header.
pub open spec fn header_error(b: Seq<u8>) -> Option<AdtsHeaderError> {
    if b.len() < 7 {
        Some(AdtsHeaderError::NotEnoughData { expected: 7, actual: b.len() as usize })
    } else if sync_word_of(b) != 0xfff {
        Some(AdtsHeaderError::BadSyncWord(sync_word_of(b) as u16))
    } else if crc_present(b) && b.len() < 9 {
        Some(AdtsHeaderError::NotEnoughData { expected: 9, actual: b.len() as usize })
    } else if frame_length_of(b) < header_length_of(b) {
        Some(
            AdtsHeaderError::BadFrameLength {
                minimum: header_length_of(b) as usize,
                actual: frame_length_of(b) as usize,
            },
        )
    } else {
        None
    }
}

fn sync_word_at(buf: &[u8]) -> (r: u16)
    requires
        buf@.len() >= 2,
    ensures
        r == sync_word_of(buf@),
{
    let b0 = buf[0];
    let b1 = buf[1];
    assert(((b0 as u16) << 4u16 | (b1 >> 4u8) as u16) == b0 as u16 * 16 + b1 as u16 / 16)
        by (bit_vector);
    (b0 as u16) << 4u16 | (b1 >> 4u8) as u16
}

fn crc_present_at(buf: &[u8]) -> (r: bool)
    requires
        buf@.len() >= 2,
    ensures
        r == crc_present(buf@),
{
    let b1 = buf[1];
    assert((b1 & 1u8 == 0) == (b1 % 2 == 0)) by (bit_vector);
    b1 & 0b0000_0001 == 0
}

fn frame_length_at(buf: &[u8]) -> (r: u16)
    requires
        buf@.len() >= 6,
    ensures
        r == frame_length_of(buf@),
{
    let b3 = buf[3];
    let b4 = buf[4];
    let b5 = buf[5];
    assert(((b3 & 3u8) as u16) << 11u16 | (b4 as u16) << 3u16 | (b5 as u16) >> 5u16
        == (b3 % 4) as u16 * 2048 + b4 as u16 * 8 + b5 as u16 / 32) by (bit_vector);
    ((b3 & 0b11) as u16) << 11u16 | (b4 as u16) << 3u16 | (b5 as u16) >> 5u16
}

fn header_length_at(buf: &[u8]) -> (r: u16)
    requires
        buf@.len() >= 2,
    ensures
        r == header_length_of(buf@),
{
    if crc_present_at(buf) {
        9
    } else {
        7
    }
}

/// Extracts the fields of a single frame from the start of the given byte
/// buffer. The buffer may be longer than the frame; the rest is ignored.
pub struct AdtsHeader<'buf> {
    buf: &'buf [u8],
}

impl<'buf> View for AdtsHeader<'buf> {
    type V = Seq<u8>;

    /// The borrowed buffer, which starts with the header.
    closed spec fn view(&self) -> Seq<u8> {
        self.buf@
    }
}

impl<'buf> AdtsHeader<'buf> {
    #[verifier::type_invariant]
    spec fn valid(self) -> bool {
        header_error(self.buf@) is None
    }

    /// Constructs a header view by borrowing the given byte buffer.
    ///
    /// Fails if there is not enough data for the header fields, but may
    /// succeed when the buffer is too short for the whole payload that the
    /// header announces (then [`payload()`](#method.payload) fails).
    pub fn from_bytes(buf: &'buf [u8]) -> (r: Result<AdtsHeader<'buf>, AdtsHeaderError>)
        ensures
            match r {
                Ok(h) => h@ == buf@ && header_error(buf@) is None,
                Err(e) => header_error(buf@) == Some(e),
            },
    {
        let header_len: usize = 7;
        Self::check_len(header_len, buf.len())?;
        let sync = sync_word_at(buf);
        if sync != 0xfff {
            return Err(AdtsHeaderError::BadSyncWord(sync));
        }
        let crc_len: usize = 2;
        if crc_present_at(buf) {
            Self::check_len(header_len + crc_len, buf.len())?;
        }
        let frame_length = frame_length_at(buf);
        let minimum = header_length_at(buf);
        if frame_length < minimum {
            return Err(
                AdtsHeaderError::BadFrameLength {
                    actual: frame_length as usize,
                    minimum: minimum as usize,
                },
            );
        }
        Ok(AdtsHeader { buf })
    }

    fn check_len(expected: usize, actual: usize) -> (r: Result<(), AdtsHeaderError>)
        ensures
            r is Ok <==> actual >= expected,
            r is Err ==> r == Err::<(), AdtsHeaderError>(
                AdtsHeaderError::NotEnoughData { expected, actual },
            ),
    {
        if actual < expected {
            Err(AdtsHeaderError::NotEnoughData { expected, actual })
        } else {
            Ok(())
        }
    }

    /// The size of the header fields: 7 bytes, or 9 where a CRC is present.
    fn header_length(&self) -> (r: u16)
        ensures
            r == header_length_of(self@),
    {
        proof {
            use_type_invariant(self);
        }
        header_length_at(self.buf)
    }

    fn sync_word(&self) -> (r: u16)
        ensures
            r == sync_word_of(self@),
    {
        proof {
            use_type_invariant(self);
        }
        sync_word_at(self.buf)
    }

    pub fn mpeg_version(&self) -> (r: MpegVersion)
        ensures
            r == mpeg_version_of(self@),
    {
        proof {
            use_type_invariant(self);
        }
        let b1 = self.buf[1];
        assert((b1 & 8u8 != 0) == ((b1 / 8) % 2 == 1)) by (bit_vector);
        if b1 & 0b0000_1000 != 0 {
            MpegVersion::Mpeg2
        } else {
            MpegVersion::Mpeg4
        }
    }

    pub fn protection(&self) -> (r: ProtectionIndicator)
        ensures
            r == protection_of(self@),
    {
        proof {
            use_type_invariant(self);
        }
        if crc_present_at(self.buf) {
            ProtectionIndicator::CrcPresent
        } else {
            ProtectionIndicator::CrcAbsent
        }
    }

    /// Indicates what type of AAC data this stream contains.
    pub fn audio_object_type(&self) -> (r: AudioObjectType)
        ensures
            r == audio_object_type_of(self@),
    {
        proof {
            use_type_invariant(self);
        }
        let b2 = self.buf[2];
        assert(b2 >> 6u8 == b2 / 64) by (bit_vector);
        match b2 >> 6 {
            0 => AudioObjectType::AacMain,
            1 => AudioObjectType::AacLC,
            2 => AudioObjectType::AacSSR,
            _ => AudioObjectType::AacLTP,
        }
    }

    pub fn sampling_frequency(&self) -> (r: SamplingFrequency)
        ensures
            r.code() == sampling_index_of(self@),
    {
        proof {
            use_type_invariant(self);
        }
        let b2 = self.buf[2];
        assert(b2 >> 2u8 & 0xfu8 == (b2 / 4) % 16) by (bit_vector);
        SamplingFrequency::from(b2 >> 2 & 0b1111)
    }

    /// Either 1 or 0.
    pub fn private_bit(&self) -> (r: u8)
        ensures
            r == private_bit_of(self@),
    {
        proof {
            use_type_invariant(self);
        }
        let b2 = self.buf[2];
        assert(b2 >> 1u8 & 1u8 == (b2 / 2) % 2) by (bit_vector);
        b2 >> 1 & 1
    }

    pub fn channel_configuration(&self) -> (r: ChannelConfiguration)
        ensures
            r.code() == channel_code_of(self@),
    {
        proof {
            use_type_invariant(self);
        }
        let b2 = self.buf[2];
        let b3 = self.buf[3];
        assert(b2 << 2u8 & 4u8 | b3 >> 6u8 == (b2 % 2) * 4 + b3 / 64) by (bit_vector);
        ChannelConfiguration::from(b2 << 2 & 0b0100 | b3 >> 6)
    }

    pub fn originality(&self) -> (r: Originality)
        ensures
            r == originality_of(self@),
    {
        proof {
            use_type_invariant(self);
        }
        let b3 = self.buf[3];
        assert((b3 & 0x20u8 != 0) == ((b3 / 32) % 2 == 1)) by (bit_vector);
        if b3 & 0b0010_0000 != 0 {
            Originality::Copy
        } else {
            Originality::Original
        }
    }

    /// Either 1 or 0.
    pub fn home(&self) -> (r: u8)
        ensures
            r == home_of(self@),
    {
        proof {
            use_type_invariant(self);
        }
        let b3 = self.buf[3];
        assert(b3 >> 4u8 & 1u8 == (b3 / 16) % 2) by (bit_vector);
        b3 >> 4 & 1
    }

    /// Either 1 or 0.
    pub fn copyright_identification_bit(&self) -> (r: u8)
        ensures
            r == copyright_id_bit_of(self@),
    {
        proof {
            use_type_invariant(self);
        }
        let b3 = self.buf[3];
        assert(b3 >> 3u8 & 1u8 == (b3 / 8) % 2) by (bit_vector);
        b3 >> 3 & 1
    }

    pub fn copyright_identification_start(&self) -> (r: CopyrightIdentificationStart)
        ensures
            r == copyright_id_start_of(self@),
    {
        proof {
            use_type_invariant(self);
        }
        let b3 = self.buf[3];
        assert((b3 & 4u8 != 0) == ((b3 / 4) % 2 == 1)) by (bit_vector);
        if b3 & 0b0000_0100 != 0 {
            CopyrightIdentificationStart::Start
        } else {
            CopyrightIdentificationStart::Other
        }
    }

    /// Length of this frame, including the length of the header.
    pub fn frame_length(&self) -> (r: u16)
        ensures
            r == frame_length_of(self@),
    {
        proof {
            use_type_invariant(self);
        }
        frame_length_at(self.buf)
    }

    /// The length of the payload: `frame_length` less the header fields.
    /// `None` would mean a frame length too small for the header, which
    /// `from_bytes` never lets through.
    pub fn payload_length(&self) -> (r: Option<u16>)
        ensures
            r == Some((frame_length_of(self@) - header_length_of(self@)) as u16),
    {
        proof {
            use_type_invariant(self);
        }
        let frame_length = self.frame_length();
        let header_length = self.header_length();
        if frame_length >= header_length {
            Some(frame_length - header_length)
        } else {
            None
        }
    }

    pub fn adts_buffer_fullness(&self) -> (r: u16)
        ensures
            r == buffer_fullness_of(self@),
    {
        proof {
            use_type_invariant(self);
        }
        let b5 = self.buf[5];
        let b6 = self.buf[6];
        assert(((b5 & 0x1fu8) as u16) << 6u16 | (b6 as u16) >> 2u16
            == (b5 % 32) as u16 * 64 + b6 as u16 / 4) by (bit_vector);
        ((b5 & 0b0001_1111) as u16) << 6u16 | (b6 as u16) >> 2u16
    }

    /// The 16-bit CRC stored in the header, or `None` if the header does not
    /// supply one. The CRC is not checked against the frame.
    pub fn crc(&self) -> (r: Option<u16>)
        ensures
            r == if crc_present(self@) {
                Some(crc_of(self@) as u16)
            } else {
                None
            },
    {
        proof {
            use_type_invariant(self);
        }
        if crc_present_at(self.buf) {
            let b7 = self.buf[7];
            let b8 = self.buf[8];
            assert((b7 as u16) << 8u16 | b8 as u16 == b7 as u16 * 256 + b8 as u16)
                by (bit_vector);
            Some((b7 as u16) << 8u16 | b8 as u16)
        } else {
            None
        }
    }

    /// The number of data blocks in the frame, between 1 and 4 inclusive
    /// (the header stores the number less one).
    pub fn number_of_raw_data_blocks_in_frame(&self) -> (r: u8)
        ensures
            r == raw_blocks_of(self@),
            1 <= r <= 4,
    {
        proof {
            use_type_invariant(self);
        }
        let b6 = self.buf[6];
        assert(b6 & 3u8 == b6 % 4) by (bit_vector);
        (b6 & 0b11) + 1
    }

    /// The payload that follows the header fields, up to `frame_length`.
    pub fn payload(&self) -> (r: Result<&'buf [u8], PayloadError>)
        ensures
            match r {
                Ok(p) => self@.len() >= frame_length_of(self@) && p@ == self@.subrange(
                    header_length_of(self@),
                    frame_length_of(self@),
                ),
                Err(e) => self@.len() < frame_length_of(self@) && e == PayloadError {
                    expected: frame_length_of(self@) as usize,
                    actual: self@.len() as usize,
                },
            },
    {
        proof {
            use_type_invariant(self);
        }
        let len = self.frame_length() as usize;
        if self.buf.len() < len {
            Err(PayloadError { expected: len, actual: self.buf.len() })
        } else {
            Ok(vstd::slice::slice_subrange(self.buf, self.header_length() as usize, len))
        }
    }
}

#[derive(Debug, PartialEq, Eq, Structural, Clone, Copy)]
pub enum CopyrightIdErr {
    TooFewBits,
    TooManyBits,
}

#[derive(Debug, PartialEq, Eq, Structural, Clone, Copy)]
pub struct CopyrightIdentification {
    pub copyright_identifier: u8,
    pub copyright_number: u64,
}

/// A reserved sampling-frequency code stands for no rate, and the code is
/// not among what decoding a header checks: a header passes or fails the
/// same whatever its sampling-frequency bits hold.
pub proof fn lemma_reserved_sampling_index(b: Seq<u8>, byte2: u8)
    requires
        b.len() >= 3,
    ensures
        header_error(b.update(2, byte2)) == header_error(b),
        (byte2 as int / 4) % 16 >= 12 ==> rate_of_code(((byte2 as int / 4) % 16) as u8) is None,
{
    let u = b.update(2, byte2);
    assert(u[0] == b[0] && u[1] == b[1]);
    if b.len() >= 7 {
        assert(u[3] == b[3] && u[4] == b[4] && u[5] == b[5]);
    }
}

} // verus!
