//! End-to-end container tests: the encode and decode pipelines driven
//! with a transparent stand-in for the Opus frame primitive (each packet
//! carries its PCM window as little-endian bytes), over the real Ogg
//! layer. This exercises the framing, header layout, pre-skip removal and
//! granule-position trimming exactly.
use ogg_opus::decode::DecodeStream;
use ogg_opus::encode::{build_frame, EncodeStream};
use ogg_opus::Error;

fn pcm_to_bytes(frame: &[i16]) -> Vec<u8> {
    let mut out = Vec::with_capacity(frame.len() * 2);
    for s in frame {
        let b = s.to_le_bytes();
        out.push(b[0]);
        out.push(b[1]);
    }
    out
}

fn bytes_to_pcm(data: &[u8]) -> Vec<i16> {
    let mut out = Vec::with_capacity(data.len() / 2);
    let mut i: usize = 0;
    while i + 1 < data.len() {
        out.push(i16::from_le_bytes([data[i], data[i + 1]]));
        i += 2;
    }
    out
}

fn encode_stub(audio: &[i16], s_ps: u32, channels: u8, skip: u16) -> Result<Vec<u8>, Error> {
    let audio_vec: Vec<i16> = audio.to_vec();
    let mut st = EncodeStream::new(audio.len(), s_ps, channels, skip, 0x1234_5678)?;
    while let Some((a, b)) = st.next_window() {
        let frame = build_frame(&audio_vec, skip as usize, a, b);
        st.push_packet(pcm_to_bytes(&frame))?;
    }
    Ok(st.finish())
}

fn decode_stub(data: Vec<u8>, s_ps: u32) -> Result<(Vec<i16>, u16), Error> {
    let mut st = DecodeStream::new(data, s_ps)?;
    let ch = st.channels() as usize;
    loop {
        match st.next_packet()? {
            None => break,
            Some(p) => {
                let frame = bytes_to_pcm(&p.data);
                let out_size = frame.len() / ch;
                assert!(out_size * ch <= frame.len());
                st.accept_frame(&frame, out_size, p.absgp, p.last)?;
            }
        }
    }
    let (pcm, pd) = st.finish();
    Ok((pcm, pd.channels))
}

fn build_container(packets: Vec<(Vec<u8>, ogg::PacketWriteEndInfo, u64)>) -> Vec<u8> {
    let mut buf: Vec<u8> = Vec::new();
    {
        let mut w = ogg::PacketWriter::new(&mut buf);
        for (d, inf, g) in packets {
            w.write_packet(d, 777, inf, g).unwrap();
        }
    }
    buf
}

fn valid_head(channels: u8, pre_skip: u16, s_ps: u32) -> Vec<u8> {
    ogg_opus::encode::opus_head_bytes(channels, pre_skip, s_ps)
}

fn valid_tags() -> Vec<u8> {
    ogg_opus::encode::opus_tags_bytes()
}

fn read_packets(data: &[u8]) -> Vec<(Vec<u8>, u64, bool)> {
    let mut r = ogg::PacketReader::new(std::io::Cursor::new(data.to_vec()));
    let mut out = Vec::new();
    while let Some(p) = r.read_packet().unwrap() {
        let g = p.absgp_page();
        let last = p.last_in_stream();
        out.push((p.data, g, last));
    }
    out
}

#[test]
fn roundtrip_mono_with_lookahead() {
    let audio: Vec<i16> = (0..48000).map(|i| (i % 1000) as i16).collect();
    let bytes = encode_stub(&audio, 48000, 1, 312).unwrap();
    let (pcm, ch) = decode_stub(bytes, 48000).unwrap();
    assert_eq!(ch, 1);
    assert_eq!(pcm, audio);
}

#[test]
fn roundtrip_mono_odd_length() {
    let audio: Vec<i16> = (0..12345).map(|i| (i * 7 % 500) as i16 - 250).collect();
    let bytes = encode_stub(&audio, 16000, 1, 104).unwrap();
    let (pcm, ch) = decode_stub(bytes, 16000).unwrap();
    assert_eq!(ch, 1);
    assert_eq!(pcm, audio);
}

#[test]
fn roundtrip_stereo() {
    let audio: Vec<i16> = (0..1920).map(|i| (i % 256) as i16).collect();
    let bytes = encode_stub(&audio, 48000, 2, 0).unwrap();
    let (pcm, ch) = decode_stub(bytes, 48000).unwrap();
    assert_eq!(ch, 2);
    assert_eq!(pcm, audio);
}

#[test]
fn roundtrip_single_sample() {
    let audio: Vec<i16> = vec![1234];
    let bytes = encode_stub(&audio, 48000, 1, 0).unwrap();
    let (pcm, ch) = decode_stub(bytes, 48000).unwrap();
    assert_eq!(ch, 1);
    assert_eq!(pcm, audio);
}

#[test]
fn roundtrip_empty_input() {
    let audio: Vec<i16> = Vec::new();
    let bytes = encode_stub(&audio, 8000, 1, 0).unwrap();
    let (pcm, ch) = decode_stub(bytes, 8000).unwrap();
    assert_eq!(ch, 1);
    assert_eq!(pcm.len(), 0);
}

#[test]
fn roundtrip_zero_channels_treated_as_mono() {
    let audio: Vec<i16> = vec![5; 960];
    let bytes = encode_stub(&audio, 48000, 0, 0).unwrap();
    let packets = read_packets(&bytes);
    // The header never carries a channel count of 0.
    assert_eq!(packets[0].0[9], 1);
    let (pcm, ch) = decode_stub(bytes, 48000).unwrap();
    assert_eq!(ch, 1);
    assert_eq!(pcm, audio);
}

#[test]
fn encode_zeros_header_fields_and_terminal_granule() {
    // 48000 zero samples, mono, 48 kHz, with a lookahead of 312.
    let audio: Vec<i16> = vec![0; 48000];
    let skip: u16 = 312;
    let bytes = encode_stub(&audio, 48000, 1, skip).unwrap();
    let packets = read_packets(&bytes);

    let head = &packets[0].0;
    assert_eq!(head.len(), 19);
    assert_eq!(&head[0..8], b"OpusHead");
    assert_eq!(head[8], 1); // version
    assert_eq!(head[9], 1); // channels
    let pre_skip = u16::from_le_bytes([head[10], head[11]]);
    assert_eq!(pre_skip, 312); // 48 kHz stream: lookahead unscaled
    assert_eq!(u32::from_le_bytes([head[12], head[13], head[14], head[15]]), 48000);
    assert_eq!(u16::from_le_bytes([head[16], head[17]]), 0); // output gain
    assert_eq!(head[18], 0); // mapping family
    assert_eq!(packets[0].1, 0); // header page granule

    let tags = &packets[1].0;
    assert_eq!(&tags[0..8], b"OpusTags");
    assert!(tags.len() >= 12);
    assert_eq!(packets[1].1, 0);

    // Audio packets: none empty, and only the final one ends the stream.
    let audio_packets = &packets[2..];
    assert!(!audio_packets.is_empty());
    for (i, (data, _, last)) in audio_packets.iter().enumerate() {
        assert!(!data.is_empty());
        assert_eq!(*last, i == audio_packets.len() - 1);
    }
    // The terminal granule is the true length plus the lookahead, never
    // the silence-padded length.
    let (_, terminal_granule, _) = audio_packets[audio_packets.len() - 1];
    assert_eq!(terminal_granule, 48000 + skip as u64);

    let (pcm, ch) = decode_stub(bytes, 48000).unwrap();
    assert_eq!(ch, 1);
    assert_eq!(pcm, audio);
}

#[test]
fn check_fp_reads_header_fields() {
    let mut head = valid_head(2, 600, 24000);
    // Output gain -16, two's complement little-endian.
    head[16] = 0xf0;
    head[17] = 0xff;
    let (pd, dd) = ogg_opus::decode::check_fp(&head, 24000).unwrap();
    assert_eq!(pd.channels, 2);
    assert_eq!(dd.pre_skip, 300); // 600 at 48 kHz, halved for 24 kHz
    assert_eq!(dd.gain, -16);
    assert!(ogg_opus::decode::check_sp(&valid_tags()).is_ok());
}

#[test]
fn decode_rejects_wrong_magic() {
    let mut head = valid_head(1, 0, 48000);
    head[0] = b'X';
    let c = build_container(vec![
        (head, ogg::PacketWriteEndInfo::EndPage, 0),
        (valid_tags(), ogg::PacketWriteEndInfo::EndStream, 0),
    ]);
    assert_eq!(decode_stub(c, 48000).unwrap_err(), Error::MalformedAudio);
}

#[test]
fn decode_rejects_wrong_version() {
    let mut head = valid_head(1, 0, 48000);
    head[8] = 2;
    let c = build_container(vec![
        (head, ogg::PacketWriteEndInfo::EndPage, 0),
        (valid_tags(), ogg::PacketWriteEndInfo::EndStream, 0),
    ]);
    assert_eq!(decode_stub(c, 48000).unwrap_err(), Error::MalformedAudio);
}

#[test]
fn decode_rejects_short_header() {
    let c = build_container(vec![
        (b"OpusHead".to_vec(), ogg::PacketWriteEndInfo::EndPage, 0),
        (valid_tags(), ogg::PacketWriteEndInfo::EndStream, 0),
    ]);
    assert_eq!(decode_stub(c, 48000).unwrap_err(), Error::MalformedAudio);
}

#[test]
fn decode_rejects_bad_channel_count() {
    let c = build_container(vec![
        (valid_head(3, 0, 48000), ogg::PacketWriteEndInfo::EndPage, 0),
        (valid_tags(), ogg::PacketWriteEndInfo::EndStream, 0),
    ]);
    assert_eq!(decode_stub(c, 48000).unwrap_err(), Error::MalformedAudio);
}

#[test]
fn decode_rejects_wrong_tags_magic() {
    let mut tags = valid_tags();
    tags[7] = b'z';
    let c = build_container(vec![
        (valid_head(1, 0, 48000), ogg::PacketWriteEndInfo::EndPage, 0),
        (tags, ogg::PacketWriteEndInfo::EndStream, 0),
    ]);
    assert_eq!(decode_stub(c, 48000).unwrap_err(), Error::MalformedAudio);
}

#[test]
fn decode_rejects_short_tags() {
    let c = build_container(vec![
        (valid_head(1, 0, 48000), ogg::PacketWriteEndInfo::EndPage, 0),
        (b"OpusTags".to_vec(), ogg::PacketWriteEndInfo::EndStream, 0),
    ]);
    assert_eq!(decode_stub(c, 48000).unwrap_err(), Error::MalformedAudio);
}

#[test]
fn decode_rejects_missing_second_packet() {
    let c = build_container(vec![(valid_head(1, 0, 48000), ogg::PacketWriteEndInfo::EndStream, 0)]);
    assert_eq!(decode_stub(c, 48000).unwrap_err(), Error::MalformedAudio);
}

#[test]
fn decode_truncated_input_fails_cleanly() {
    let audio: Vec<i16> = vec![0; 4800];
    let bytes = encode_stub(&audio, 48000, 1, 0).unwrap();
    let truncated: Vec<u8> = bytes[..10].to_vec();
    assert_eq!(decode_stub(truncated, 48000).unwrap_err(), Error::MalformedAudio);
    assert_eq!(decode_stub(vec![0u8; 10], 48000).unwrap_err(), Error::MalformedAudio);
    assert_eq!(decode_stub(Vec::new(), 48000).unwrap_err(), Error::MalformedAudio);
}

#[test]
fn decode_corrupted_audio_page_is_io_failure() {
    let audio: Vec<i16> = (0..9600).map(|i| (i % 100) as i16).collect();
    let mut bytes = encode_stub(&audio, 48000, 1, 0).unwrap();
    // Flip a byte in the last page's body: the page checksum no longer
    // matches and the container read fails mid-stream.
    let n: usize = bytes.len();
    bytes[n - 1] ^= 0xff;
    assert_eq!(decode_stub(bytes, 48000).unwrap_err(), Error::IOFailure);
}

#[test]
fn encode_unsupported_rate_fails_first() {
    assert!(matches!(
        EncodeStream::new(48000, 44100, 1, 0, 1),
        Err(Error::InvalidSampleRate)
    ));
    assert!(matches!(
        EncodeStream::with_random_serial(48000, 44100, 1, 0),
        Err(Error::InvalidSampleRate)
    ));
}

#[test]
fn decode_unsupported_rate_fails_first() {
    // Rate validation comes before any look at the data.
    assert_eq!(
        DecodeStream::new(vec![0u8; 10], 44100).err().unwrap(),
        Error::InvalidSampleRate
    );
    let audio: Vec<i16> = vec![0; 960];
    let bytes = encode_stub(&audio, 48000, 1, 0).unwrap();
    assert_eq!(decode_stub(bytes, 44100).unwrap_err(), Error::InvalidSampleRate);
}

#[test]
fn decode_trims_padded_terminal_packet() {
    // 100 samples at 48 kHz fit no standard frame: the terminal packet is
    // a zero-padded 2.5 ms frame, and the decoder trims it back to 100.
    let audio: Vec<i16> = (0..100).map(|i| i as i16).collect();
    let bytes = encode_stub(&audio, 48000, 1, 0).unwrap();
    let packets = read_packets(&bytes);
    let (data, granule, last) = &packets[packets.len() - 1];
    assert!(*last);
    assert_eq!(*granule, 100);
    assert_eq!(data.len(), 120 * 2); // one padded 2.5 ms frame
    // Without lookahead, granule positions strictly increase packet to
    // packet.
    for w in packets[2..].windows(2) {
        assert!(w[0].1 < w[1].1);
    }
    let (pcm, _) = decode_stub(bytes, 48000).unwrap();
    assert_eq!(pcm, audio);
}

#[test]
fn decode_keeps_everything_on_underrun() {
    // When the declared end position exceeds the decoded total, nothing
    // is trimmed or padded: everything decoded is kept.
    let c = build_container(vec![
        (valid_head(1, 0, 48000), ogg::PacketWriteEndInfo::EndPage, 0),
        (valid_tags(), ogg::PacketWriteEndInfo::EndPage, 0),
        (
            pcm_to_bytes(&[7i16; 120]),
            ogg::PacketWriteEndInfo::EndStream,
            500,
        ),
    ]);
    let (pcm, _) = decode_stub(c, 48000).unwrap();
    assert_eq!(pcm, vec![7i16; 120]);
}

#[test]
fn decode_rejects_inconsistent_terminal_granule() {
    // A terminal packet whose declared end asks to trim more than the
    // frame holds is a structural violation.
    let c = build_container(vec![
        (valid_head(1, 0, 48000), ogg::PacketWriteEndInfo::EndPage, 0),
        (valid_tags(), ogg::PacketWriteEndInfo::EndPage, 0),
        (
            pcm_to_bytes(&[7i16; 240]),
            ogg::PacketWriteEndInfo::NormalPacket,
            240,
        ),
        (
            pcm_to_bytes(&[7i16; 240]),
            ogg::PacketWriteEndInfo::EndStream,
            10,
        ),
    ]);
    assert_eq!(decode_stub(c, 48000).unwrap_err(), Error::MalformedAudio);
}

#[test]
fn decode_applies_pre_skip_across_packets() {
    // A pre-skip larger than the first frame consumes whole frames.
    let c = build_container(vec![
        (valid_head(1, 200, 48000), ogg::PacketWriteEndInfo::EndPage, 0),
        (valid_tags(), ogg::PacketWriteEndInfo::EndPage, 0),
        (
            pcm_to_bytes(&(0..120).map(|i| i as i16).collect::<Vec<i16>>()),
            ogg::PacketWriteEndInfo::NormalPacket,
            120,
        ),
        (
            pcm_to_bytes(&(120..240).map(|i| i as i16).collect::<Vec<i16>>()),
            ogg::PacketWriteEndInfo::EndStream,
            240,
        ),
    ]);
    let (pcm, _) = decode_stub(c, 48000).unwrap();
    assert_eq!(pcm, (200..240).map(|i| i as i16).collect::<Vec<i16>>());
}

#[test]
fn decode_pre_skip_rescales_to_target_rate() {
    // Pre-skip is stored at 48 kHz; at a 16 kHz target it shrinks by 3.
    let c = build_container(vec![
        (valid_head(1, 300, 16000), ogg::PacketWriteEndInfo::EndPage, 0),
        (valid_tags(), ogg::PacketWriteEndInfo::EndPage, 0),
        (
            pcm_to_bytes(&(0..320).map(|i| i as i16).collect::<Vec<i16>>()),
            ogg::PacketWriteEndInfo::EndStream,
            320 * 3, // 48 kHz domain
        ),
    ]);
    let (pcm, _) = decode_stub(c, 16000).unwrap();
    // 100 samples skipped at the start; nothing trimmed at the end.
    assert_eq!(pcm, (100..320).map(|i| i as i16).collect::<Vec<i16>>());
}
