use moonwalk::buffers::{BatchBuffer, SplitStorage};

#[derive(Debug, Clone, Copy)]
struct TestInstance {
    z: f32,
    _padding: [u8; 12],
}

impl TestInstance {
    fn new(z: f32) -> Self {
        Self { z, _padding: [0; 12] }
    }

    fn get_z_index(&self) -> f32 {
        self.z
    }
}

#[test]
fn test_buffer_clear() {
    let mut buffer = BatchBuffer::<TestInstance>::new();

    assert!(buffer.cpu_buffer.is_empty());
    assert!(buffer.gpu_buffer.is_none());

    buffer.cpu_buffer.push(TestInstance::new(1.0));
    buffer.cpu_buffer.push(TestInstance::new(2.0));
    assert_eq!(buffer.cpu_buffer.len(), 2);

    buffer.clear();
    assert!(buffer.cpu_buffer.is_empty());

    assert!(buffer.gpu_buffer.is_none());
}

#[test]
fn test_buffer_creation() {
    let buffer = BatchBuffer::<TestInstance>::new();

    assert!(buffer.cpu_buffer.capacity() >= 1024);
    assert!(buffer.cpu_buffer.is_empty());
}

#[test]
fn test_z_index_storage() {
    let mut buffer = BatchBuffer::<TestInstance>::new();

    buffer.cpu_buffer.push(TestInstance::new(42.0));
    buffer.cpu_buffer.push(TestInstance::new(24.0));

    assert_eq!(buffer.cpu_buffer[0].get_z_index(), 42.0);
    assert_eq!(buffer.cpu_buffer[1].get_z_index(), 24.0);
}

#[test]
fn test_multiple_clear_cycles() {
    let mut buffer = BatchBuffer::<TestInstance>::new();

    for _cycle in 0..3 {
        for i in 0..10 {
            buffer.cpu_buffer.push(TestInstance::new(i as f32));
        }

        assert_eq!(buffer.cpu_buffer.len(), 10);

        buffer.clear();
        assert!(buffer.cpu_buffer.is_empty());
    }
}

#[test]
fn test_large_batch() {
    let mut buffer = BatchBuffer::<TestInstance>::new();

    for i in 0..10_000 {
        buffer.cpu_buffer.push(TestInstance::new(i as f32));
    }

    assert_eq!(buffer.cpu_buffer.len(), 10_000);
    assert_eq!(buffer.cpu_buffer[5000].get_z_index(), 5000.0);

    buffer.clear();
    assert!(buffer.cpu_buffer.is_empty());

    assert!(buffer.cpu_buffer.capacity() >= 10_000);
}

#[test]
fn batch_push_keeps_order_and_gpu_buffer() {
    let mut buffer: BatchBuffer<u32, &str> = BatchBuffer::new();
    buffer.gpu_buffer = Some("uploaded");
    buffer.push(3);
    buffer.push(1);
    assert_eq!(buffer.cpu_buffer, vec![3, 1]);
    buffer.clear();
    assert!(buffer.cpu_buffer.is_empty());
    assert_eq!(buffer.gpu_buffer, Some("uploaded"));
}

#[test]
fn split_storage_is_ready_after_update() {
    let mut storage: SplitStorage<u32, u64> = SplitStorage::new();
    assert!(!storage.is_ready());
    assert!(storage.bind().is_none());
    storage.update(0, 1, 2);
    assert!(!storage.is_ready());
    storage.update(3, 7, 9);
    assert!(storage.is_ready());
    assert_eq!(storage.bind(), Some((&7, &9)));
    storage.update(0, 5, 6);
    assert_eq!(storage.bind(), Some((&7, &9)));
    storage.update(1, 8, 10);
    assert_eq!(storage.bind(), Some((&8, &10)));
}
