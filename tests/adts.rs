use adts_reader::{
    AdtsConsumer, AdtsHeader, AdtsHeaderError, AdtsParseError, AdtsParser, AudioObjectType,
    ChannelConfiguration, CopyrightIdentificationStart, MpegVersion, Originality, PayloadError,
    ProtectionIndicator, SamplingFrequency,
};

/// Writes values most-significant bit first.
struct BitWriter {
    data: Vec<u8>,
    acc: u64,
    bits: u32,
}

impl BitWriter {
    fn new() -> BitWriter {
        BitWriter { data: Vec::new(), acc: 0, bits: 0 }
    }

    fn write(&mut self, bits: u32, value: u64) {
        self.acc = (self.acc << bits) | (value & ((1u64 << bits) - 1));
        self.bits += bits;
        while self.bits >= 8 {
            self.bits -= 8;
            self.data.push((self.acc >> self.bits) as u8);
            self.acc &= (1u64 << self.bits) - 1;
        }
    }

    fn finish(self) -> Vec<u8> {
        assert_eq!(self.bits, 0);
        self.data
    }
}

struct Fields {
    protection_absent: u64,
    object_type: u64,
    sampling_frequency_index: u64,
    channel_configuration: u64,
    frame_length: u64,
    adts_buffer_fullness: u64,
    raw_blocks_minus_one: u64,
}

fn default_fields() -> Fields {
    Fields {
        protection_absent: 1,
        object_type: 0,
        sampling_frequency_index: 0b0011,
        channel_configuration: 2,
        frame_length: 8,
        adts_buffer_fullness: 123,
        raw_blocks_minus_one: 0,
    }
}

fn write_header(w: &mut BitWriter, f: &Fields) {
    w.write(12, 0xfff); // sync_word
    w.write(1, 0); // mpeg_version
    w.write(2, 0); // layer
    w.write(1, f.protection_absent);
    w.write(2, f.object_type);
    w.write(4, f.sampling_frequency_index);
    w.write(1, 1); // private_bit
    w.write(3, f.channel_configuration);
    w.write(1, 1); // original_copy
    w.write(1, 0); // home
    w.write(1, 0); // copyright_identification_bit
    w.write(1, 1); // copyright_identification_start
    w.write(13, f.frame_length);
    w.write(11, f.adts_buffer_fullness);
    w.write(2, f.raw_blocks_minus_one);
}

fn write_frame(w: &mut BitWriter) {
    write_header(w, &default_fields());
    w.write(8, 0b10000001); // 1 byte of payload data
}

fn one_frame() -> Vec<u8> {
    let mut w = BitWriter::new();
    write_frame(&mut w);
    w.finish()
}

fn two_frames() -> Vec<u8> {
    let mut w = BitWriter::new();
    write_frame(&mut w);
    write_frame(&mut w);
    w.finish()
}

#[test]
fn no_crc() {
    let header_data = one_frame();
    let header = AdtsHeader::from_bytes(&header_data[..]).unwrap();
    assert_eq!(header.mpeg_version(), MpegVersion::Mpeg4);
    assert_eq!(header.protection(), ProtectionIndicator::CrcAbsent);
    assert_eq!(header.audio_object_type(), AudioObjectType::AacMain);
    assert_eq!(header.sampling_frequency(), SamplingFrequency::Freq48000);
    assert_eq!(header.sampling_frequency().freq(), Some(48000));
    assert_eq!(header.channel_configuration(), ChannelConfiguration::Stereo);
    assert_eq!(header.originality(), Originality::Copy);
    assert_eq!(header.home(), 0);
    assert_eq!(header.copyright_identification_bit(), 0);
    assert_eq!(
        header.copyright_identification_start(),
        CopyrightIdentificationStart::Start
    );
    assert_eq!(header.frame_length(), 8);
    assert_eq!(header.payload_length(), Some(8 - 7));
    assert_eq!(header.adts_buffer_fullness(), 123);
    assert_eq!(header.number_of_raw_data_blocks_in_frame(), 1);
    assert_eq!(header.payload(), Ok(&[0b10000001][..]));
}

struct MockConsumer {
    seq: usize,
    payload_seq: usize,
    payload_size: Option<usize>,
}

impl MockConsumer {
    fn new() -> MockConsumer {
        MockConsumer { seq: 0, payload_seq: 0, payload_size: None }
    }

    fn assert_seq(&mut self, expected: usize) {
        assert_eq!(expected, self.seq);
        self.seq += 1;
    }
}

impl AdtsConsumer for MockConsumer {
    fn new_config(
        &mut self,
        mpeg_version: MpegVersion,
        _protection: ProtectionIndicator,
        _aot: AudioObjectType,
        _freq: SamplingFrequency,
        _private_bit: u8,
        _channels: ChannelConfiguration,
        _originality: Originality,
        _home: u8,
    ) {
        self.assert_seq(0);
        assert_eq!(mpeg_version, MpegVersion::Mpeg4);
    }

    fn payload(&mut self, _buffer_fullness: u16, _number_of_blocks: u8, buf: &[u8]) {
        self.payload_seq += 1;
        let new_payload_seq = self.payload_seq;
        self.assert_seq(new_payload_seq);
        self.payload_size = Some(buf.len());
    }

    fn error(&mut self, err: AdtsParseError) {
        panic!("no errors expected in bitstream: {:?}", err);
    }
}

#[test]
fn parser() {
    let header_data = two_frames();
    for split in 0..header_data.len() {
        let mut parser = AdtsParser::new(MockConsumer::new());
        let (head, tail) = header_data.split_at(split);
        parser.push(head);
        parser.push(tail);
        assert_eq!(2, parser.consumer.payload_seq);
        assert_eq!(Some(1), parser.consumer.payload_size);
    }
}

#[test]
fn too_short() {
    let header_data = one_frame();
    let mut parser = AdtsParser::new(MockConsumer::new());
    parser.push(&header_data[..5]);
    parser.push(&header_data[5..7]);
}

#[derive(Debug, PartialEq, Clone)]
enum Call {
    NewConfig {
        mpeg_version: MpegVersion,
        protection: ProtectionIndicator,
        aot: AudioObjectType,
        freq: SamplingFrequency,
        private_bit: u8,
        channels: ChannelConfiguration,
        originality: Originality,
        home: u8,
    },
    Payload { buffer_fullness: u16, number_of_blocks: u8, data: Vec<u8> },
    Error(AdtsParseError),
}

struct Recorder {
    calls: Vec<Call>,
}

impl AdtsConsumer for Recorder {
    fn new_config(
        &mut self,
        mpeg_version: MpegVersion,
        protection: ProtectionIndicator,
        aot: AudioObjectType,
        freq: SamplingFrequency,
        private_bit: u8,
        channels: ChannelConfiguration,
        originality: Originality,
        home: u8,
    ) {
        self.calls.push(Call::NewConfig {
            mpeg_version,
            protection,
            aot,
            freq,
            private_bit,
            channels,
            originality,
            home,
        });
    }

    fn payload(&mut self, buffer_fullness: u16, number_of_blocks: u8, buf: &[u8]) {
        self.calls.push(Call::Payload { buffer_fullness, number_of_blocks, data: buf.to_vec() });
    }

    fn error(&mut self, err: AdtsParseError) {
        self.calls.push(Call::Error(err));
    }
}

fn recorder() -> AdtsParser<Recorder> {
    AdtsParser::new(Recorder { calls: Vec::new() })
}

fn calls_for(chunks: &[&[u8]]) -> Vec<Call> {
    let mut parser = recorder();
    for chunk in chunks {
        parser.push(chunk);
    }
    parser.consumer.calls
}

fn frame_with(f: &Fields, payload: &[u8]) -> Vec<u8> {
    let mut w = BitWriter::new();
    write_header(&mut w, f);
    for b in payload {
        w.write(8, *b as u64);
    }
    w.finish()
}

fn expected_config() -> Call {
    Call::NewConfig {
        mpeg_version: MpegVersion::Mpeg4,
        protection: ProtectionIndicator::CrcAbsent,
        aot: AudioObjectType::AacMain,
        freq: SamplingFrequency::Freq48000,
        private_bit: 1,
        channels: ChannelConfiguration::Stereo,
        originality: Originality::Copy,
        home: 0,
    }
}

fn expected_payload() -> Call {
    Call::Payload { buffer_fullness: 123, number_of_blocks: 1, data: vec![0x81] }
}

#[test]
fn round_trip_private_bit() {
    let data = one_frame();
    assert_eq!(data, vec![0xff, 0xf1, 0x0e, 0xa4, 0x01, 0x01, 0xec, 0x81]);
    let header = AdtsHeader::from_bytes(&data).unwrap();
    assert_eq!(header.private_bit(), 1);
    assert_eq!(header.crc(), None);
}

#[test]
fn chunking_gives_same_calls_at_every_split() {
    let data = two_frames();
    let whole = calls_for(&[&data]);
    assert_eq!(whole, vec![expected_config(), expected_payload(), expected_payload()]);
    for k in 0..=data.len() {
        let (head, tail) = data.split_at(k);
        assert_eq!(calls_for(&[head, tail]), whole, "split at {}", k);
    }
}

#[test]
fn byte_by_byte_gives_same_calls() {
    let data = two_frames();
    let chunks: Vec<&[u8]> = data.chunks(1).collect();
    assert_eq!(calls_for(&chunks), calls_for(&[&data]));
}

#[test]
fn frame_length_smaller_than_header() {
    let mut f = default_fields();
    f.frame_length = 3;
    let data = frame_with(&f, &[]);
    match AdtsHeader::from_bytes(&data) {
        Err(e) => assert_eq!(e, AdtsHeaderError::BadFrameLength { minimum: 7, actual: 3 }),
        Ok(_) => panic!("expected an error"),
    }
    assert_eq!(calls_for(&[&data]), vec![Call::Error(AdtsParseError::BadFrameLength)]);
}

#[test]
fn frame_length_smaller_than_crc_header() {
    let mut f = default_fields();
    f.protection_absent = 0;
    f.frame_length = 8;
    let data = frame_with(&f, &[0x12, 0x34]);
    match AdtsHeader::from_bytes(&data) {
        Err(e) => assert_eq!(e, AdtsHeaderError::BadFrameLength { minimum: 9, actual: 8 }),
        Ok(_) => panic!("expected an error"),
    }
}

#[test]
fn bad_sync_word_faults_until_start() {
    let mut data = one_frame();
    data[1] &= 0x0f; // sync bits become 0xff0
    match AdtsHeader::from_bytes(&data) {
        Err(e) => assert_eq!(e, AdtsHeaderError::BadSyncWord(0xff0)),
        Ok(_) => panic!("expected an error"),
    }
    let mut parser = recorder();
    parser.push(&data);
    assert_eq!(parser.consumer.calls, vec![Call::Error(AdtsParseError::BadSyncWord)]);
    parser.push(&one_frame());
    assert_eq!(parser.consumer.calls.len(), 1);
    parser.start();
    parser.push(&one_frame());
    assert_eq!(
        parser.consumer.calls,
        vec![Call::Error(AdtsParseError::BadSyncWord), expected_config(), expected_payload()]
    );
}

#[test]
fn bad_sync_after_good_frame_drops_rest() {
    let mut data = two_frames();
    data.extend_from_slice(&[0u8; 7]);
    data.extend_from_slice(&one_frame());
    assert_eq!(
        calls_for(&[&data]),
        vec![
            expected_config(),
            expected_payload(),
            expected_payload(),
            Call::Error(AdtsParseError::BadSyncWord)
        ]
    );
}

#[test]
fn five_bytes_of_nine_wait_for_the_rest() {
    let mut f = default_fields();
    f.frame_length = 9;
    let data = frame_with(&f, &[0xaa, 0x55]);
    let mut parser = recorder();
    parser.push(&data[..5]);
    assert!(parser.consumer.calls.is_empty());
    parser.push(&data[5..]);
    let whole = calls_for(&[&data]);
    assert_eq!(parser.consumer.calls, whole);
    assert_eq!(
        whole[1],
        Call::Payload { buffer_fullness: 123, number_of_blocks: 1, data: vec![0xaa, 0x55] }
    );
}

#[test]
fn start_drops_partial_frame() {
    let data = one_frame();
    let mut parser = recorder();
    parser.push(&data[..5]);
    parser.start();
    parser.push(&data);
    assert_eq!(parser.consumer.calls, vec![expected_config(), expected_payload()]);
}

#[test]
fn reserved_sampling_indexes_decode_without_rate() {
    let reserved = [
        SamplingFrequency::FreqReserved0xc,
        SamplingFrequency::FreqReserved0xd,
        SamplingFrequency::FreqReserved0xe,
        SamplingFrequency::FreqReserved0xf,
    ];
    for (i, code) in (0xcu64..=0xf).enumerate() {
        let mut f = default_fields();
        f.sampling_frequency_index = code;
        let data = frame_with(&f, &[0x81]);
        let header = AdtsHeader::from_bytes(&data).unwrap();
        assert_eq!(header.sampling_frequency(), reserved[i]);
        assert_eq!(header.sampling_frequency().freq(), None);
    }
}

#[test]
fn sampling_rates_of_all_defined_codes() {
    let rates = [
        96000, 88200, 64000, 48000, 44100, 32000, 24000, 22050, 16000, 12000, 11025, 8000,
    ];
    for (code, rate) in rates.iter().enumerate() {
        let mut f = default_fields();
        f.sampling_frequency_index = code as u64;
        let data = frame_with(&f, &[0x81]);
        let header = AdtsHeader::from_bytes(&data).unwrap();
        assert_eq!(header.sampling_frequency().freq(), Some(*rate));
    }
}

#[test]
fn not_enough_data_for_fixed_header() {
    let data = one_frame();
    match AdtsHeader::from_bytes(&[]) {
        Err(e) => assert_eq!(e, AdtsHeaderError::NotEnoughData { expected: 7, actual: 0 }),
        Ok(_) => panic!("expected an error"),
    }
    match AdtsHeader::from_bytes(&data[..6]) {
        Err(e) => assert_eq!(e, AdtsHeaderError::NotEnoughData { expected: 7, actual: 6 }),
        Ok(_) => panic!("expected an error"),
    }
}

#[test]
fn crc_header_needs_nine_bytes() {
    let mut f = default_fields();
    f.protection_absent = 0;
    f.frame_length = 10;
    let data = frame_with(&f, &[0xbe, 0xef, 0x81]);
    match AdtsHeader::from_bytes(&data[..8]) {
        Err(e) => assert_eq!(e, AdtsHeaderError::NotEnoughData { expected: 9, actual: 8 }),
        Ok(_) => panic!("expected an error"),
    }
    let header = AdtsHeader::from_bytes(&data).unwrap();
    assert_eq!(header.protection(), ProtectionIndicator::CrcPresent);
    assert_eq!(header.crc(), Some(0xbeef));
    assert_eq!(header.payload_length(), Some(1));
    assert_eq!(header.payload(), Ok(&[0x81][..]));
}

#[test]
fn payload_beyond_buffer_is_an_error() {
    let mut f = default_fields();
    f.frame_length = 20;
    let data = frame_with(&f, &[1, 2, 3]);
    let header = AdtsHeader::from_bytes(&data).unwrap();
    assert_eq!(header.payload(), Err(PayloadError { expected: 20, actual: 10 }));
}

#[test]
fn largest_field_values() {
    let f = Fields {
        protection_absent: 1,
        object_type: 3,
        sampling_frequency_index: 0xb,
        channel_configuration: 7,
        frame_length: 8191,
        adts_buffer_fullness: 2047,
        raw_blocks_minus_one: 3,
    };
    let data = frame_with(&f, &[]);
    let header = AdtsHeader::from_bytes(&data).unwrap();
    assert_eq!(header.audio_object_type(), AudioObjectType::AacLTP);
    assert_eq!(header.sampling_frequency(), SamplingFrequency::Freq8000);
    assert_eq!(header.channel_configuration(), ChannelConfiguration::SevenOne);
    assert_eq!(header.frame_length(), 8191);
    assert_eq!(header.payload_length(), Some(8184));
    assert_eq!(header.adts_buffer_fullness(), 2047);
    assert_eq!(header.number_of_raw_data_blocks_in_frame(), 4);
}

#[test]
fn large_frame_split_in_chunks() {
    let mut f = default_fields();
    f.frame_length = 8191;
    let payload: Vec<u8> = (0..8184u32).map(|i| (i % 251) as u8).collect();
    let data = frame_with(&f, &payload);
    let whole = calls_for(&[&data]);
    assert_eq!(
        whole[1],
        Call::Payload { buffer_fullness: 123, number_of_blocks: 1, data: payload.clone() }
    );
    let chunks: Vec<&[u8]> = data.chunks(1000).collect();
    assert_eq!(calls_for(&chunks), whole);
}

#[test]
fn config_change_is_announced_again() {
    let mut f = default_fields();
    f.channel_configuration = 6; // high bit of the layout lives in the fingerprint
    f.object_type = 1;
    let mut data = one_frame();
    data.extend_from_slice(&frame_with(&f, &[0x81]));
    data.extend_from_slice(&frame_with(&f, &[0x81]));
    let calls = calls_for(&[&data]);
    assert_eq!(calls.len(), 5);
    assert_eq!(
        calls[2],
        Call::NewConfig {
            mpeg_version: MpegVersion::Mpeg4,
            protection: ProtectionIndicator::CrcAbsent,
            aot: AudioObjectType::AacLC,
            freq: SamplingFrequency::Freq48000,
            private_bit: 1,
            channels: ChannelConfiguration::FiveOne,
            originality: Originality::Copy,
            home: 0,
        }
    );
    assert_eq!(calls[4], expected_payload());
}
