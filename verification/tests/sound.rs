use picodsp_ble::audio::{
    i2s_frame, pack_frames, stack_used, without_denormals, BlockClock, MicStream, QueueStats,
    MAX_BLOCK_US,
};

#[test]
fn frames_for_the_converter() {
    assert_eq!(i2s_frame(1, 2), 0x0001_0002);
    assert_eq!(i2s_frame(-1, 0), 0xFFFF_0000);
    assert_eq!(i2s_frame(0, -32768), 0x0000_8000);
    assert_eq!(i2s_frame(32767, -2), 0x7FFF_FFFE);
    for (l, r) in [(-5i16, 7i16), (1234, -4321), (i16::MIN, i16::MAX)] {
        let word = ((l as u16 as u32) << 16) | (r as u16 as u32);
        assert_eq!(i2s_frame(l, r), word);
    }
}

#[test]
fn blocks_are_packed() {
    let mut frames = [9; 3];
    pack_frames(&[1, 2, 3, 4, 5], &mut frames);
    assert_eq!(frames, [0x0001_0002, 0x0003_0004, 9]);
    let mut one = [9; 1];
    pack_frames(&[1, 2, 3, 4], &mut one);
    assert_eq!(one, [0x0001_0002]);
}

#[test]
fn queue_is_watched() {
    let mut q = QueueStats::new();
    assert_eq!(q.report(), (0, 0));
    q.observe(3);
    q.observe(2);
    assert_eq!(q.report(), (0, 2));
    q.observe(0);
    q.observe(0);
    q.observe(4);
    assert_eq!(q.report(), (2, 0));
    q.underruns = u32::MAX;
    q.observe(0);
    assert_eq!(q.underruns, 0);
}

#[test]
fn one_report_a_second() {
    let mut clock = BlockClock::new();
    let mut reports = Vec::new();
    for block in 0..1000u64 {
        let took = if block == 100 { 999 } else { 5 };
        if let Some(peak) = clock.finish_block(took) {
            reports.push((block, peak));
        }
    }
    assert_eq!(reports, vec![(0, 5), (375, 999), (750, 5)]);
    assert_eq!(clock.frame_index, 128_000);
    assert_eq!(MAX_BLOCK_US, 128 * 1_000_000 / 48_000);
    let mut last = BlockClock {
        frame_index: u64::MAX,
        peak_us: 0,
    };
    last.finish_block(1);
    assert_eq!(last.frame_index, 127);
}

#[test]
fn packets_hold_the_blocks_in_order() {
    let mut stream = MicStream::new();
    let mut sent = Vec::new();
    let mut expected = Vec::new();
    let mut next: i16 = -300;
    for _ in 0..9 {
        let mut block = [0i16; 256];
        for s in block.iter_mut() {
            *s = next;
            expected.extend_from_slice(&next.to_le_bytes());
            next += 1;
        }
        assert!(!stream.fill());
        stream.give_block(block);
        while stream.fill() {
            sent.extend_from_slice(&stream.take_packet());
        }
    }
    assert_eq!(sent.len(), 24 * 192);
    assert_eq!(sent[..], expected[..24 * 192]);
    assert_eq!(sent.len(), expected.len());
}

#[test]
fn restart_drops_the_rest() {
    let mut stream = MicStream::new();
    stream.give_block([1; 256]);
    assert!(stream.fill());
    stream.restart();
    assert!(!stream.fill());
    stream.give_block([2; 256]);
    assert!(stream.fill());
    assert_eq!(&stream.take_packet()[..4], &[2, 0, 2, 0]);
}

#[test]
fn stack_use() {
    assert_eq!(stack_used(&[0x55, 0x55, 1, 0x55]), 2);
    assert_eq!(stack_used(&[0x55; 8]), 0);
    assert_eq!(stack_used(&[1, 2, 3]), 3);
    assert_eq!(stack_used(&[]), 0);
}

#[test]
fn denormals_are_switched_off() {
    assert_eq!(without_denormals(0), (1 << 24) | (1 << 25));
    assert_eq!(without_denormals(0x8000_0001), 0x8300_0001);
}
