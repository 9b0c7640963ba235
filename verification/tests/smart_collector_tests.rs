use para_speak::smart_collector::{detect_speech, SmartCollector};

fn create_speech_chunk(value: u8, size: usize) -> Vec<u8> {
    vec![value; size]
}

fn create_silence_chunk(size: usize) -> Vec<u8> {
    vec![0; size]
}

#[test]
fn test_pre_speech_buffer_rotation() {
    let mut collector = SmartCollector::new(48000);

    let chunk_size = 10000;
    for _ in 0..20 {
        collector.process_chunk(&create_silence_chunk(chunk_size));
    }

    let pre_bytes: usize = collector.pre_speech_bytes().unwrap();
    assert!(pre_bytes <= collector.pre_speech_max_bytes());
}

#[test]
fn test_speech_detection_includes_pre_context() {
    let mut collector = SmartCollector::new(48000);

    collector.process_chunk(&create_silence_chunk(10000));
    collector.process_chunk(&create_silence_chunk(10000));

    let result = collector.process_chunk(&create_speech_chunk(200, 10000));
    assert!(result.is_none());
    assert!(collector.speech_detected());
    assert!(collector.pre_speech_chunks() > 0 || collector.accumulated_len() > 0);
}

#[test]
fn test_post_speech_context_collection() {
    let mut collector = SmartCollector::new(48000);

    collector.process_chunk(&create_speech_chunk(200, 10000));
    assert!(collector.speech_detected());

    for _ in 0..30 {
        if let Some(_result) = collector.process_chunk(&create_silence_chunk(10000)) {
            break;
        }
    }

    assert!(collector.post_speech_chunks() == 0 || !collector.speech_detected());
}

#[test]
fn test_interrupted_silence() {
    let mut collector = SmartCollector::new(48000);

    collector.process_chunk(&create_speech_chunk(200, 10000));
    collector.process_chunk(&create_silence_chunk(10000));
    collector.process_chunk(&create_speech_chunk(200, 10000));

    assert!(collector.post_speech_chunks() == 0);
    assert!(collector.accumulated_len() > 10000);
}

fn samples(values: &[i16]) -> Vec<u8> {
    let mut bytes = Vec::new();
    for v in values {
        bytes.extend_from_slice(&v.to_le_bytes());
    }
    bytes
}

#[test]
fn speech_is_a_root_mean_square_of_a_twenty_fifth() {
    // 1311 / 32768 is just above 0.04, 1310 / 32768 just below
    assert!(detect_speech(&samples(&[1311, -1311, 1311])));
    assert!(!detect_speech(&samples(&[1310, -1310, 1310])));
    assert!(!detect_speech(&samples(&[0, 0, 0, 0])));
    assert!(detect_speech(&samples(&[i16::MIN])));
    assert!(detect_speech(&samples(&[i16::MAX, 0, 0, 0])));
    // one loud sample among many silent ones
    let mut quiet = vec![0i16; 700];
    quiet[0] = i16::MAX;
    assert!(!detect_speech(&samples(&quiet)));
    assert!(!detect_speech(&[]));
    assert!(!detect_speech(&[255]));
    // a trailing odd byte is ignored
    let mut odd = samples(&[2000]);
    odd.push(255);
    assert!(detect_speech(&odd));
}

#[test]
fn a_segment_is_context_speech_and_trailing_silence() {
    let mut collector = SmartCollector::new(100);
    // 200 bytes of context, 400 bytes of silence complete a segment
    assert_eq!(collector.pre_speech_max_bytes(), 200);
    let quiet_a = vec![0u8; 120];
    let quiet_b = vec![1u8, 0, 1, 0];
    let speech = samples(&[5000, -5000, 5000]);
    assert!(collector.process_chunk(&quiet_a).is_none());
    assert!(collector.process_chunk(&quiet_b).is_none());
    assert_eq!(collector.pre_speech_bytes(), Some(124));
    assert!(collector.process_chunk(&speech).is_none());
    assert!(collector.speech_detected());
    let tail_a = vec![0u8; 300];
    let tail_b = vec![0u8; 100];
    assert!(collector.process_chunk(&tail_a).is_none());
    let segment = collector.process_chunk(&tail_b).unwrap();
    let mut expected = Vec::new();
    expected.extend_from_slice(&quiet_a);
    expected.extend_from_slice(&quiet_b);
    expected.extend_from_slice(&speech);
    expected.extend_from_slice(&tail_a);
    expected.extend_from_slice(&tail_b);
    assert_eq!(segment, expected);
    assert!(!collector.speech_detected());
    assert_eq!(collector.pre_speech_chunks(), 0);
    assert_eq!(collector.post_speech_chunks(), 0);
    assert_eq!(collector.accumulated_len(), 0);
}

#[test]
fn context_drops_its_oldest_chunks() {
    let mut collector = SmartCollector::new(100);
    collector.process_chunk(&vec![0u8; 150]);
    collector.process_chunk(&vec![0u8; 40]);
    assert_eq!(collector.pre_speech_bytes(), Some(190));
    collector.process_chunk(&vec![0u8; 20]);
    // 210 bytes are over the limit: the oldest chunk goes
    assert_eq!(collector.pre_speech_chunks(), 2);
    assert_eq!(collector.pre_speech_bytes(), Some(60));
    collector.process_chunk(&vec![0u8; 500]);
    // a chunk over the limit by itself leaves nothing
    assert_eq!(collector.pre_speech_chunks(), 0);
}

#[test]
fn the_final_segment_needs_speech() {
    let mut collector = SmartCollector::new(100);
    collector.process_chunk(&vec![0u8; 50]);
    assert!(collector.extract_final_segment().is_none());
    assert_eq!(collector.pre_speech_chunks(), 1);
    let speech = samples(&[9000, 9000]);
    collector.process_chunk(&speech);
    collector.process_chunk(&vec![0u8; 10]);
    let segment = collector.extract_final_segment().unwrap();
    assert_eq!(segment.len(), 50 + 4 + 10);
    assert_eq!(&segment[50..54], speech.as_slice());
    assert!(collector.extract_final_segment().is_none());
    assert!(!collector.speech_detected());
}

#[test]
fn reset_discards_everything() {
    let mut collector = SmartCollector::new(100);
    collector.process_chunk(&vec![0u8; 50]);
    collector.process_chunk(&samples(&[9000, 9000]));
    collector.process_chunk(&vec![0u8; 10]);
    collector.reset();
    assert!(!collector.speech_detected());
    assert_eq!(collector.pre_speech_chunks(), 0);
    assert_eq!(collector.post_speech_chunks(), 0);
    assert_eq!(collector.accumulated_len(), 0);
    assert_eq!(collector.pre_speech_max_bytes(), 200);
}

#[test]
fn the_caller_may_classify() {
    let mut collector = SmartCollector::new(100);
    assert!(collector.process_classified_chunk(&[0, 0], true).is_none());
    assert!(collector.speech_detected());
    assert_eq!(collector.accumulated_len(), 2);
}
