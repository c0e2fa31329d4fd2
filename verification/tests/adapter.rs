use musawarah::errors::{BackendFault, StorageError};
use musawarah::stream::{
    adapt_chunk, adapt_for_download, chunk_total, clone_bytes, collect_to_buffer, flatten_chunks,
    BodyStream, RemoteStream,
};

#[test]
fn download_adaptation_passes_bytes_through_exactly() {
    // The concatenation of the adapted stream equals the concatenation
    // of the source, byte-exact.
    let chunks = vec![b"ab".to_vec(), Vec::new(), b"cde".to_vec(), b"f".to_vec()];
    let remote = RemoteStream { chunks: chunks.clone(), fault: None };
    let adapted = adapt_for_download(remote);
    assert!(adapted.fault.is_none());
    assert_eq!(adapted.chunks, chunks);
    assert_eq!(adapted.chunks.concat(), b"abcdef".to_vec());
}

#[test]
fn download_adaptation_translates_the_fault_kind() {
    let remote = RemoteStream {
        chunks: vec![b"head".to_vec()],
        fault: Some(BackendFault::Disconnected),
    };
    let adapted = adapt_for_download(remote);
    // Data already yielded is kept; the terminal fault comes out in the
    // domain vocabulary.
    assert_eq!(adapted.chunks, vec![b"head".to_vec()]);
    assert_eq!(adapted.fault, Some(StorageError::TransportInterrupted));
}

#[test]
fn collecting_a_clean_stream_yields_the_whole_payload() {
    let body = BodyStream {
        chunks: vec![b"one,".to_vec(), b"two,".to_vec(), b"three".to_vec()],
        fault: None,
    };
    let buf = collect_to_buffer(body).unwrap();
    assert_eq!(buf.as_ref(), b"one,two,three");
}

#[test]
fn collecting_a_faulted_stream_is_all_or_error() {
    let body = BodyStream {
        chunks: vec![b"data already pulled".to_vec()],
        fault: Some(StorageError::TransportInterrupted),
    };
    let r = collect_to_buffer(body);
    assert_eq!(r.unwrap_err(), StorageError::TransportInterrupted);
}

#[test]
fn per_chunk_adaptation_maps_data_and_faults() {
    assert_eq!(adapt_chunk(Ok(b"payload".to_vec())), Ok(b"payload".to_vec()));
    assert_eq!(
        adapt_chunk(Err(BackendFault::MissingKey)),
        Err::<Vec<u8>, _>(StorageError::NotFound)
    );
    assert_eq!(
        adapt_chunk(Err(BackendFault::TimedOut)),
        Err::<Vec<u8>, _>(StorageError::TransportInterrupted)
    );
}

#[test]
fn chunk_total_counts_every_byte() {
    let chunks = vec![vec![0u8; 3], Vec::new(), vec![0u8; 41]];
    assert_eq!(chunk_total(&chunks), Some(44));
    assert_eq!(chunk_total(&Vec::new()), Some(0));
}

#[test]
fn flatten_and_clone_keep_content() {
    let chunks = vec![b"xy".to_vec(), b"z".to_vec()];
    assert_eq!(flatten_chunks(&chunks), b"xyz".to_vec());
    let v = b"unchanged".to_vec();
    assert_eq!(clone_bytes(&v), v);
}

#[test]
fn large_upload_streams_through_one_chunk_at_a_time() {
    // A 12 MiB payload in fixed 64 KiB chunks: the per-chunk adapter is
    // the whole translation step, so at no point is more than one chunk
    // alive in the adapter — peak adapter buffering is O(1) chunks, not
    // O(payload).
    const CHUNK: usize = 64 * 1024;
    const CHUNKS: usize = 192; // 12 MiB total
    let mut total: usize = 0;
    let mut checksum: u64 = 0;
    for i in 0..CHUNKS {
        // Produce one chunk lazily, never the whole payload.
        let chunk = vec![(i % 251) as u8; CHUNK];
        let adapted = adapt_chunk(Ok(chunk)).unwrap();
        assert!(adapted.len() <= CHUNK);
        total += adapted.len();
        checksum = checksum.wrapping_add(adapted.iter().map(|b| *b as u64).sum::<u64>());
        // The chunk is dropped here, before the next one exists.
    }
    assert_eq!(total, 12 * 1024 * 1024);
    let expected: u64 = (0..CHUNKS).map(|i| (i % 251) as u64 * CHUNK as u64).sum();
    assert_eq!(checksum, expected);
}
