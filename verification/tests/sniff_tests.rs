use yoinkx::file_type::{DeclaredMime, FileCategory};
use yoinkx::sniff::{fill_probe, sniff_upload, ProbeReplay, PROBE_LEN};

#[test]
fn short_stream_consumed_whole() {
    let chunks: Vec<Vec<u8>> = vec![vec![1, 2, 3], vec![4, 5]];
    let (probe, k) = fill_probe(&chunks);
    assert_eq!(k, 2);
    assert_eq!(probe, vec![1, 2, 3, 4, 5]);
    // the probe recorded the true, shorter length
    assert_eq!(probe.len(), 5);
}

#[test]
fn empty_stream_probe() {
    let chunks: Vec<Vec<u8>> = Vec::new();
    let (probe, k) = fill_probe(&chunks);
    assert_eq!(k, 0);
    assert!(probe.is_empty());
}

#[test]
fn probe_stops_once_length_reached() {
    let big = vec![7u8; PROBE_LEN + 100];
    let chunks: Vec<Vec<u8>> = vec![big.clone(), vec![1, 2, 3]];
    let (probe, k) = fill_probe(&chunks);
    // whole chunks are consumed; the first one already passes the probe length
    assert_eq!(k, 1);
    assert_eq!(probe, big);
}

#[test]
fn probe_replay_loses_no_bytes() {
    let chunks: Vec<Vec<u8>> = vec![vec![9u8; 5000], vec![8u8; 5000], vec![7u8; 5000]];
    let (probe, k) = fill_probe(&chunks);
    assert_eq!(k, 2);
    let mut replayed: Vec<u8> = probe.clone();
    for c in &chunks[k..] {
        replayed.extend_from_slice(c);
    }
    let original: Vec<u8> = chunks.concat();
    assert_eq!(replayed, original);
}

#[test]
fn probe_is_replayed_exactly_once() {
    let mut replay = ProbeReplay::new(vec![1, 2, 3]);
    assert_eq!(replay.next_replay(), Some(vec![1, 2, 3]));
    assert_eq!(replay.next_replay(), None);
    assert_eq!(replay.next_replay(), None);
    let mut empty = ProbeReplay::new(Vec::new());
    assert_eq!(empty.next_replay(), None);
}

#[test]
fn sniff_uses_fixed_name_when_none_declared() {
    let chunks: Vec<Vec<u8>> = vec![vec![1, 2, 3]];
    let sniffed = sniff_upload(&chunks, &None, None);
    assert_eq!(sniffed.base_file_name, "unnamed screenshot");
}

#[test]
fn sniff_reconciles_declared_against_magic() {
    let chunks: Vec<Vec<u8>> = vec![b"#!/bin/sh\nrm -rf nothing\n".to_vec()];
    let declared = Some(DeclaredMime {
        top_level: "image".to_string(),
        essence: "image/png".to_string(),
        subtype: "png".to_string(),
    });
    let sniffed = sniff_upload(&chunks, &declared, Some("shot.png".to_string()));
    // the magic numbers say shell script; the declaration does not override them
    assert_eq!(sniffed.file_type.category, FileCategory::Text);
    assert_eq!(sniffed.base_file_name, "shot.png");
}
