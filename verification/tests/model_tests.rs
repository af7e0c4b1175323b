use tfl::model::{GpuVendor, HistoryRingBuffer, VramBreakdown};

/// Largest finite value recorded, at least 0 (what the views plot against).
fn max_of<const N: usize>(buffer: &HistoryRingBuffer<f64, N>) -> f64 {
    buffer
        .as_vec()
        .into_iter()
        .filter(|x| x.is_finite())
        .fold(f64::NEG_INFINITY, f64::max)
        .max(0.0)
}

/// Mean of the finite values recorded, 0 when there are none.
fn average_of<const N: usize>(buffer: &HistoryRingBuffer<f64, N>) -> f64 {
    let finite: Vec<f64> = buffer.as_vec().into_iter().filter(|x| x.is_finite()).collect();
    if finite.is_empty() {
        0.0
    } else {
        finite.iter().sum::<f64>() / finite.len() as f64
    }
}

#[test]
fn test_history_ring_buffer_push_and_capacity() {
    let mut buffer: HistoryRingBuffer<f64, 3> = HistoryRingBuffer::new();
    assert!(buffer.is_empty());
    assert_eq!(buffer.len(), 0);

    buffer.push(10.0);
    buffer.push(20.0);
    assert_eq!(buffer.len(), 2);
    assert_eq!(buffer.latest(), Some(20.0));

    buffer.push(30.0);
    assert_eq!(buffer.len(), 3);
    assert_eq!(buffer.as_vec(), vec![10.0, 20.0, 30.0]);

    // Overflow: should pop oldest element (10.0)
    buffer.push(40.0);
    assert_eq!(buffer.len(), 3);
    assert_eq!(buffer.as_vec(), vec![20.0, 30.0, 40.0]);
    assert_eq!(buffer.latest(), Some(40.0));
    assert_eq!(max_of(&buffer), 40.0);
    assert!((average_of(&buffer) - 30.0).abs() < 1e-6);
}

#[test]
fn test_history_ring_buffer_with_initial() {
    let buffer: HistoryRingBuffer<u32, 5> = HistoryRingBuffer::with_initial(42);
    assert_eq!(buffer.len(), 5);
    assert_eq!(buffer.as_vec(), vec![42, 42, 42, 42, 42]);
}

#[test]
fn test_gpu_vendor_as_str() {
    assert_eq!(GpuVendor::Amd.as_str(), "AMD");
    assert_eq!(GpuVendor::Nvidia.as_str(), "NVIDIA");
    assert_eq!(GpuVendor::Intel.as_str(), "Intel");
    assert_eq!(GpuVendor::Unknown.as_str(), "Generic");
}

#[test]
fn history_keeps_only_the_last_values() {
    let mut buffer: HistoryRingBuffer<u32, 3> = HistoryRingBuffer::new();
    for v in 1..=7 {
        buffer.push(v);
    }
    assert_eq!(buffer.as_vec(), vec![5, 6, 7]);
    assert_eq!(buffer.latest(), Some(7));
}

#[test]
fn history_of_zero_capacity_records_nothing() {
    let mut buffer: HistoryRingBuffer<u32, 0> = HistoryRingBuffer::new();
    buffer.push(1);
    assert!(buffer.is_empty());
    assert_eq!(buffer.latest(), None);
    let full: HistoryRingBuffer<u32, 0> = HistoryRingBuffer::with_initial(9);
    assert_eq!(full.len(), 0);
}

#[test]
fn history_iterates_oldest_first() {
    let mut buffer: HistoryRingBuffer<u32, 4> = HistoryRingBuffer::with_initial(0);
    buffer.push(8);
    buffer.push(9);
    let seen: Vec<u32> = buffer.iter().copied().collect();
    assert_eq!(seen, vec![0, 0, 8, 9]);
}

#[test]
fn history_averages_ignore_non_finite_values() {
    let mut buffer: HistoryRingBuffer<f64, 4> = HistoryRingBuffer::new();
    assert_eq!(max_of(&buffer), 0.0);
    assert_eq!(average_of(&buffer), 0.0);
    buffer.push(f64::NAN);
    buffer.push(2.0);
    buffer.push(4.0);
    assert_eq!(max_of(&buffer), 4.0);
    assert!((average_of(&buffer) - 3.0).abs() < 1e-9);
}

#[test]
fn vram_breakdown_counts_used_memory_as_context() {
    let b = VramBreakdown::from_usage(100, 30);
    assert_eq!(b.weights_bytes, 0);
    assert_eq!(b.kv_cache_bytes, 0);
    assert_eq!(b.context_bytes, 30);
    assert_eq!(b.free_bytes, 70);
    let over = VramBreakdown::from_usage(10, 30);
    assert_eq!(over.free_bytes, 0);
    let empty = VramBreakdown::default();
    assert_eq!(empty.free_bytes, 0);
}

#[test]
fn gpu_vendor_defaults_to_unknown() {
    assert_eq!(GpuVendor::default().as_str(), "Generic");
}
