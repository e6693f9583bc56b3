use asterisk_apps::media_pump::{MediaFrame, RtpTiming, VoiceReorderBuffer, REORDER_CAPACITY};

fn timed_voice(sequence: u16, timestamp: u32, value: u8) -> MediaFrame {
    MediaFrame { timing: Some(RtpTiming { sequence, timestamp }), data: vec![value; 160] }
}

fn sequences(frames: &[MediaFrame]) -> Vec<u16> {
    frames.iter().filter_map(VoiceReorderBuffer::timing).map(|timing| timing.sequence).collect()
}

fn first_payload_bytes(frames: &[MediaFrame]) -> Vec<u8> {
    frames.iter().filter_map(|frame| frame.data.first().copied()).collect()
}

#[test]
fn reorder_recovers_swap_dedupes_and_preserves_gap() {
    let mut swapped = VoiceReorderBuffer::new(4);
    let mut output = Vec::new();
    for frame in [
        timed_voice(10, 1000, 10),
        timed_voice(12, 1320, 12),
        timed_voice(11, 1160, 11),
        timed_voice(11, 1160, 11),
        timed_voice(13, 1480, 13),
    ] {
        output.extend(swapped.push(frame));
    }
    assert_eq!(sequences(&output), vec![10, 11, 12, 13]);
    assert_eq!(first_payload_bytes(&output), vec![10, 11, 12, 13]);

    let mut gap = VoiceReorderBuffer::new(4);
    let mut output = Vec::new();
    for frame in [
        timed_voice(20, 2000, 20),
        timed_voice(22, 2320, 22),
        timed_voice(23, 2480, 23),
        timed_voice(24, 2640, 24),
        timed_voice(25, 2800, 25),
    ] {
        output.extend(gap.push(frame));
    }
    assert_eq!(sequences(&output), vec![20, 22, 23, 24, 25]);
    assert_eq!(first_payload_bytes(&output), vec![20, 22, 23, 24, 25]);
    let timestamps: Vec<u32> = output
        .iter()
        .filter_map(VoiceReorderBuffer::timing)
        .map(|timing| timing.timestamp)
        .collect();
    assert_eq!(timestamps, vec![2000, 2320, 2480, 2640, 2800]);
}

#[test]
fn reorder_passes_untimed_and_drops_late_frames() {
    let mut b = VoiceReorderBuffer::new(REORDER_CAPACITY);
    let dtmf = MediaFrame { timing: None, data: vec![1] };
    assert_eq!(b.push(dtmf).len(), 1);
    assert_eq!(sequences(&b.push(timed_voice(100, 0, 1))), vec![100]);
    assert!(b.push(timed_voice(99, 0, 2)).is_empty());
    assert!(b.push(timed_voice(100, 0, 3)).is_empty());
    assert_eq!(sequences(&b.push(timed_voice(101, 0, 4))), vec![101]);
    assert_eq!(b.expected, Some(102));
}

#[test]
fn reorder_wraps_sequence_numbers() {
    let mut b = VoiceReorderBuffer::new(REORDER_CAPACITY);
    assert_eq!(sequences(&b.push(timed_voice(65534, 0, 1))), vec![65534]);
    assert!(b.push(timed_voice(0, 0, 3)).is_empty());
    assert_eq!(sequences(&b.push(timed_voice(65535, 0, 2))), vec![65535, 0]);
    assert_eq!(b.expected, Some(1));
    assert!(b.pending.is_empty());
}
