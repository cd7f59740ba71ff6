use ku::ipc::pipe::test_scaffolding::{block, head_tail, header_size, stats, CLEAR, CLOSED, READ, WRITTEN};
use ku::ipc::pipe::{read_size, write_size, ReadBuffer, RingBufferStats, WriteBuffer};
use ku::memory::{Block, Page};

fn pages(count: usize) -> Block<Page> {
    Block::<Page>::from_index(0x100, 0x100 + count).unwrap()
}

#[test]
fn ring_buffer_header_fits_its_size() {
    let buffer = WriteBuffer::new(pages(2));
    assert_eq!(buffer.block(), pages(2));
    assert_eq!(block(&buffer), pages(2));
    assert_eq!(buffer.real_size(), 4096);
    assert_eq!(buffer.mapped_size(), 8192);
    assert_eq!(header_size(&buffer), 3);
    assert_eq!(buffer.max_capacity(), 4096 - 3 - 1);
    assert_eq!(head_tail(&buffer), (0, 0));
    assert_eq!(buffer.header_position(), 0);

    let large = ReadBuffer::new(pages(512));
    assert_eq!(large.real_size(), 0x10_0000);
    assert_eq!(large.header_size(), 4);
    assert_eq!(large.max_capacity(), 0x10_0000 - 4 - 1);
}

#[test]
fn ring_buffer_starts_with_zero_stats() {
    let reader = ReadBuffer::new(pages(2));
    let writer = WriteBuffer::new(pages(2));
    let zero = RingBufferStats::default();
    assert_eq!(*reader.read_stats(), zero);
    assert_eq!(*writer.write_stats(), zero);
    assert_eq!(stats(&reader), zero);
    assert_eq!(*zero.committed(), 0);
    assert_eq!(*zero.commits(), 0);
    assert_eq!(*zero.dropped(), 0);
    assert_eq!(*zero.drops(), 0);
    assert_eq!(*zero.errors(), 0);
    assert_eq!(*zero.txs(), 0);
}

#[test]
fn record_sizes_round_trip() {
    assert_eq!(read_size(&[]), 0);
    assert_eq!(read_size(&[0x01, 0x02]), 0x0102);
    let mut bytes = vec![0xFF; 3];
    write_size(&mut bytes, 0x01_0203);
    assert_eq!(bytes, vec![0x01, 0x02, 0x03]);
    assert_eq!(read_size(&bytes), 0x01_0203);
    write_size(&mut bytes, 7);
    assert_eq!(bytes, vec![0, 0, 7]);
    let mut full = vec![0; 8];
    write_size(&mut full, usize::MAX);
    assert_eq!(read_size(&full), usize::MAX);
}

#[test]
fn record_states_are_distinct() {
    let states = [CLEAR, WRITTEN, READ, CLOSED];
    for (i, a) in states.iter().enumerate() {
        for b in &states[i + 1 ..] {
            assert_ne!(a, b);
        }
    }
}
