use poc_framework::chunk::chunk_payload;

fn concat(chunks: &[(u32, Vec<u8>)]) -> Vec<u8> {
    let mut out = Vec::new();
    for (_, c) in chunks {
        out.extend_from_slice(c);
    }
    out
}

#[test]
fn chunks_of_empty_payload() {
    let chunks = chunk_payload(&[]);
    assert_eq!(chunks.len(), 0);
}

#[test]
fn chunks_of_exact_stride() {
    let data: Vec<u8> = (0..900u32).map(|i| (i % 251) as u8).collect();
    let chunks = chunk_payload(&data);
    assert_eq!(chunks.len(), 1);
    assert_eq!(chunks[0].0, 0);
    assert_eq!(chunks[0].1, data);
}

#[test]
fn chunks_of_stride_plus_one() {
    let data: Vec<u8> = (0..901u32).map(|i| (i % 251) as u8).collect();
    let chunks = chunk_payload(&data);
    assert_eq!(chunks.len(), 2);
    assert_eq!(chunks[0].0, 0);
    assert_eq!(chunks[0].1.len(), 900);
    assert_eq!(chunks[1].0, 900);
    assert_eq!(chunks[1].1.len(), 1);
    assert_eq!(concat(&chunks), data);
}

#[test]
fn chunks_cover_large_payload() {
    let data: Vec<u8> = (0..2048u32).map(|i| (i % 251) as u8).collect();
    let chunks = chunk_payload(&data);
    assert_eq!(chunks.len(), 3);
    assert_eq!(chunks[0].0, 0);
    assert_eq!(chunks[1].0, 900);
    assert_eq!(chunks[2].0, 1800);
    assert_eq!(chunks[0].1.len(), 900);
    assert_eq!(chunks[1].1.len(), 900);
    assert_eq!(chunks[2].1.len(), 248);
    assert_eq!(concat(&chunks), data);
}
