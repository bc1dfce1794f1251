use whispertype::audio::buffer::{AudioRingBuffer, BufferError};

fn standard() -> AudioRingBuffer<f32> {
    AudioRingBuffer::new(16000, 3000, 500, 30, 0.0f32).unwrap()
}

#[test]
fn test_new_buffer_computes_sizes_correctly() {
    let buf = standard();
    assert_eq!(
        buf.chunk_size(),
        48000,
        "chunk_size should be 16000 * 3000 / 1000"
    );
    assert_eq!(
        buf.overlap_size(),
        8000,
        "overlap_size should be 16000 * 500 / 1000"
    );
    assert_eq!(buf.capacity(), 480000, "capacity should be 16000 * 30");
    assert_eq!(buf.write_pos(), 0);
    assert_eq!(buf.samples_since_last(), 0);
}

#[test]
fn test_new_buffer_data_initialized_to_zero() {
    let buf = standard();
    assert!(
        (0..buf.capacity()).all(|i| buf.slot(i).unwrap() == 0.0),
        "buffer data should be initialized to 0.0"
    );
}

#[test]
fn test_write_advances_write_pos() {
    let mut buf = standard();
    let samples = vec![1.0f32; 100];
    buf.write(&samples);
    assert_eq!(buf.write_pos(), 100);
    assert_eq!(buf.samples_since_last(), 100);
}

#[test]
fn test_write_stores_samples_correctly() {
    let mut buf = standard();
    let samples: Vec<f32> = (0..10).map(|i| i as f32 * 0.1).collect();
    buf.write(&samples);
    for i in 0..10 {
        assert!(
            (buf.slot(i).unwrap() - i as f32 * 0.1).abs() < 1e-6,
            "sample at index {} should match written value",
            i
        );
    }
}

#[test]
fn test_write_empty_slice_is_noop() {
    let mut buf = standard();
    buf.write(&[]);
    assert_eq!(buf.write_pos(), 0);
    assert_eq!(buf.samples_since_last(), 0);
}

#[test]
fn test_write_wraps_around_capacity() {
    let mut buf = AudioRingBuffer::new(16000, 500, 100, 1, 0.0f32).unwrap();
    assert_eq!(buf.capacity(), 16000);

    let samples: Vec<f32> = (0..20000).map(|i| (i % 1000) as f32).collect();
    buf.write(&samples);

    assert_eq!(buf.write_pos(), 20000);

    let last_sample_idx = (20000 - 1) % 16000;
    assert!(
        (buf.slot(last_sample_idx).unwrap() - 999.0).abs() < 1e-6,
        "wrapped data should contain correct sample"
    );
}

#[test]
fn test_write_multiple_small_batches() {
    let mut buf = standard();
    for _ in 0..100 {
        buf.write(&[0.5f32; 480]);
    }
    assert_eq!(buf.write_pos(), 48000);
    assert_eq!(buf.samples_since_last(), 48000);
}

#[test]
fn test_has_chunk_false_on_empty_buffer() {
    let buf = standard();
    assert!(!buf.has_chunk(), "empty buffer should not have a chunk");
}

#[test]
fn test_has_chunk_false_below_threshold() {
    let mut buf = standard();
    buf.write(&vec![0.0f32; 39999]);
    assert!(
        !buf.has_chunk(),
        "buffer with insufficient samples should not have a chunk"
    );
}

#[test]
fn test_has_chunk_true_after_enough_samples() {
    let mut buf = standard();
    buf.write(&vec![0.0f32; 48000]);
    assert!(
        buf.has_chunk(),
        "buffer with chunk_size samples should have a chunk"
    );
}

#[test]
fn test_has_chunk_false_after_extraction() {
    let mut buf = standard();
    buf.write(&vec![0.0f32; 48000]);
    buf.extract_chunk();
    assert!(
        !buf.has_chunk(),
        "should not have chunk immediately after extraction"
    );
}

#[test]
fn test_has_chunk_true_after_overlap_amount_written() {
    let mut buf = standard();
    buf.write(&vec![0.0f32; 48000]);
    buf.extract_chunk();
    buf.write(&vec![0.0f32; 40000]);
    assert!(
        buf.has_chunk(),
        "should have chunk after writing chunk_size - overlap_size samples"
    );
}

#[test]
fn test_extract_chunk_returns_none_when_no_chunk() {
    let mut buf = standard();
    assert!(
        buf.extract_chunk().is_none(),
        "should return None with no data"
    );
}

#[test]
fn test_extract_chunk_returns_correct_size() {
    let mut buf = standard();
    buf.write(&vec![0.0f32; 48000]);
    let chunk = buf.extract_chunk().unwrap();
    assert_eq!(
        chunk.len(),
        48000,
        "chunk should be exactly chunk_size samples"
    );
}

#[test]
fn test_extract_chunk_returns_correct_data() {
    let mut buf = standard();
    let samples: Vec<f32> = (0..48000).map(|i| (i as f32) / 48000.0).collect();
    buf.write(&samples);
    let chunk = buf.extract_chunk().unwrap();
    for (i, &val) in chunk.iter().enumerate() {
        assert!(
            (val - (i as f32) / 48000.0).abs() < 1e-6,
            "chunk sample {} should match written data",
            i
        );
    }
}

#[test]
fn test_extract_chunk_resets_samples_since_last() {
    let mut buf = standard();
    buf.write(&vec![0.0f32; 48000]);
    buf.extract_chunk();
    assert_eq!(
        buf.samples_since_last(),
        0,
        "samples_since_last should be reset after extraction"
    );
}

#[test]
fn test_extract_chunk_preserves_write_pos() {
    let mut buf = standard();
    buf.write(&vec![0.0f32; 48000]);
    let pos_before = buf.write_pos();
    buf.extract_chunk();
    assert_eq!(
        buf.write_pos(),
        pos_before,
        "write_pos should not change after extraction"
    );
}

#[test]
fn test_buffer_basic() {
    let mut buf = standard();
    let samples = vec![0.0f32; 48000];
    buf.write(&samples);
    assert!(buf.has_chunk());
    let chunk = buf.extract_chunk().unwrap();
    assert_eq!(chunk.len(), 48000);
}

#[test]
fn test_buffer_overlap() {
    let mut buf = standard();
    buf.write(&vec![0.0f32; 48000]);
    buf.extract_chunk();
    buf.write(&vec![0.0f32; 40000]);
    assert!(buf.has_chunk());
}

#[test]
fn test_overlap_chunk_contains_previous_data() {
    let mut buf = standard();
    buf.write(&vec![1.0f32; 48000]);
    buf.extract_chunk();

    buf.write(&vec![2.0f32; 40000]);
    let chunk = buf.extract_chunk().unwrap();

    let overlap_samples = &chunk[..8000];
    assert!(
        overlap_samples.iter().all(|&s| (s - 1.0).abs() < 1e-6),
        "overlap region should contain data from previous chunk"
    );

    let new_samples = &chunk[8000..];
    assert!(
        new_samples.iter().all(|&s| (s - 2.0).abs() < 1e-6),
        "new region should contain freshly written data"
    );
}

#[test]
fn test_multiple_extractions_work_correctly() {
    let mut buf = standard();

    buf.write(&vec![0.0f32; 48000]);
    assert!(buf.extract_chunk().is_some());

    buf.write(&vec![0.0f32; 40000]);
    assert!(buf.extract_chunk().is_some());

    buf.write(&vec![0.0f32; 40000]);
    let chunk = buf.extract_chunk();
    assert!(chunk.is_some());
    assert_eq!(chunk.unwrap().len(), 48000);
}

#[test]
fn test_has_chunk_at_exact_boundary() {
    let mut buf = standard();
    buf.write(&vec![0.0f32; 40000]);
    assert!(
        !buf.has_chunk(),
        "should not have chunk if write_pos < chunk_size"
    );

    buf.write(&vec![0.0f32; 8000]);
    assert!(buf.has_chunk(), "should have chunk at exactly chunk_size");
}

#[test]
fn test_single_sample_writes_accumulate() {
    let mut buf = standard();
    for i in 0..48000 {
        buf.write(&[i as f32]);
    }
    assert!(buf.has_chunk());
    let chunk = buf.extract_chunk().unwrap();
    assert_eq!(chunk.len(), 48000);
    assert!((chunk[0] - 0.0).abs() < 1e-6);
    assert!((chunk[47999] - 47999.0).abs() < 1e-6);
}

#[test]
fn new_rejects_overlap_not_shorter_than_chunk() {
    assert_eq!(
        AudioRingBuffer::new(16000, 500, 500, 30, 0i16).err(),
        Some(BufferError::OverlapNotShorterThanChunk)
    );
    assert_eq!(
        AudioRingBuffer::new(16000, 500, 3000, 30, 0i16).err(),
        Some(BufferError::OverlapNotShorterThanChunk)
    );
    assert_eq!(
        AudioRingBuffer::new(16000, 0, 0, 30, 0i16).err(),
        Some(BufferError::OverlapNotShorterThanChunk)
    );
    assert_eq!(
        AudioRingBuffer::new(0, 3000, 500, 30, 0i16).err(),
        Some(BufferError::OverlapNotShorterThanChunk)
    );
}

#[test]
fn new_rejects_chunk_longer_than_buffer() {
    assert_eq!(
        AudioRingBuffer::new(16000, 3000, 500, 2, 0i16).err(),
        Some(BufferError::ChunkLongerThanBuffer)
    );
    assert_eq!(
        AudioRingBuffer::new(16000, 3000, 500, 0, 0i16).err(),
        Some(BufferError::ChunkLongerThanBuffer)
    );
    assert!(AudioRingBuffer::new(16000, 3000, 500, 3, 0i16).is_ok());
}

#[test]
fn sizes_round_down_to_whole_samples() {
    let buf = AudioRingBuffer::new(44100, 25, 1, 1, 0u8).unwrap();
    assert_eq!(buf.chunk_size(), 1102);
    assert_eq!(buf.overlap_size(), 44);
    assert_eq!(buf.capacity(), 44100);
}

#[test]
fn chunk_is_due_exactly_when_both_counts_suffice() {
    // chunk 8, overlap 2, capacity 16
    let mut buf = AudioRingBuffer::new(1000, 8, 2, 1, 0u32).unwrap();
    assert_eq!((buf.chunk_size(), buf.overlap_size()), (8, 2));
    let mut total = 0usize;
    let mut since = 0usize;
    for step in 0..60u32 {
        let batch: Vec<u32> = (0..(step % 4)).collect();
        buf.write(&batch);
        total += batch.len();
        since += batch.len();
        assert_eq!(buf.has_chunk(), since >= 6 && total >= 8);
        if step % 5 == 4 {
            let taken = buf.extract_chunk();
            assert_eq!(taken.is_some(), since >= 6 && total >= 8);
            if taken.is_some() {
                since = 0;
            }
            assert_eq!(buf.write_pos(), total);
            assert_eq!(buf.samples_since_last(), since);
        }
    }
}

#[test]
fn consecutive_chunks_share_the_overlap() {
    let mut buf = AudioRingBuffer::new(1000, 8, 3, 1, 0u32).unwrap();
    buf.write(&[1, 2, 3, 4, 5, 6, 7, 8]);
    let first = buf.extract_chunk().unwrap();
    assert_eq!(first, vec![1, 2, 3, 4, 5, 6, 7, 8]);
    buf.write(&[9, 10, 11, 12, 13]);
    let second = buf.extract_chunk().unwrap();
    assert_eq!(second, vec![6, 7, 8, 9, 10, 11, 12, 13]);
    assert_eq!(first[5..], second[..3]);
}

#[test]
fn chunk_is_read_across_the_wrap() {
    // capacity 1000, chunk 600, overlap 100
    let mut buf = AudioRingBuffer::new(1000, 600, 100, 1, 0u32).unwrap();
    let first: Vec<u32> = (0..800).collect();
    buf.write(&first);
    assert_eq!(buf.extract_chunk().unwrap(), (200..800).collect::<Vec<u32>>());
    let second: Vec<u32> = (800..1300).collect();
    buf.write(&second);
    assert_eq!(buf.write_pos(), 1300);
    assert_eq!(buf.extract_chunk().unwrap(), (700..1300).collect::<Vec<u32>>());
    // slot 299 holds stream position 1299, slot 300 still holds position 300
    assert_eq!(buf.slot(299), Some(1299));
    assert_eq!(buf.slot(300), Some(300));
    assert_eq!(buf.slot(1000), None);
}

#[test]
fn full_lap_of_one_value_yields_a_chunk_of_it() {
    let mut buf = AudioRingBuffer::new(1000, 600, 100, 1, 0.0f64).unwrap();
    buf.write(&[0.25, -1.0, 3.0]);
    buf.write(&vec![0.5f64; 1000]);
    let chunk = buf.extract_chunk().unwrap();
    assert_eq!(chunk.len(), 600);
    assert!(chunk.iter().all(|&s| s == 0.5));
}
