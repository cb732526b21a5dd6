use unbg::digest::{digest_of, Transfer};
use unbg::download::{Download, Phase};

const ABC: &str = "ba7816bf8f01cfea414140de5dae2223b00361a396177a9cb410ff61f20015ad";
const EMPTY: &str = "e3b0c44298fc1c149afbf4c8996fb92427ae41e4649b934ca495991b7852b855";

#[test]
fn digest_of_known_inputs() {
    assert_eq!(digest_of(b"abc"), ABC);
    assert_eq!(digest_of(b""), EMPTY);
    assert_eq!(digest_of(b"abc").len(), 64);
}

#[test]
fn transfer_in_pieces_matches_the_whole() {
    let mut transfer = Transfer::begin();
    assert_eq!(transfer.received(), 0);
    assert!(transfer.absorb(b"a"));
    assert!(transfer.absorb(b""));
    assert!(transfer.absorb(b"bc"));
    assert_eq!(transfer.received(), 3);
    let (size, digest) = transfer.finish();
    assert_eq!(size, 3);
    assert_eq!(digest, ABC);
}

#[test]
fn empty_transfer() {
    let (size, digest) = Transfer::begin().finish();
    assert_eq!(size, 0);
    assert_eq!(digest, EMPTY);
}

fn chunks_of(data: &[u8], size: usize) -> Vec<&[u8]> {
    data.chunks(size).collect()
}

/// Runs a transfer against a stub source that answers with `status` and
/// `body`, and with `restart_body` to the request that follows a restart.
fn transfer(partial: &[u8], status: u16, body: &[u8], restart: Option<(u16, &[u8])>, chunk: usize) -> Result<(u64, String), u16> {
    let mut download = Download::begin(partial.len() as u64);
    assert_eq!(download.phase(), Phase::Asking);
    assert_eq!(download.range().is_some(), !partial.is_empty());
    download.answered(status);
    let mut body = body;
    if download.phase() == Phase::Restarting {
        assert_eq!(download.range(), None);
        let (status, whole) = restart.expect("the stub knows the answer to the second request");
        download.answered(status);
        body = whole;
    }
    if let Phase::Refused(status) = download.phase() {
        return Err(status);
    }
    if download.phase() == Phase::TakingPartial {
        for piece in chunks_of(partial, chunk) {
            assert!(download.take(piece));
        }
        download.partial_taken();
    }
    assert_eq!(download.phase(), Phase::TakingBody);
    for piece in chunks_of(body, chunk) {
        assert!(download.take(piece));
    }
    Ok(download.finish())
}

#[test]
fn resumed_file_has_the_hash_of_the_whole() {
    let file: Vec<u8> = (0..5000u32).map(|i| (i % 251) as u8).collect();
    let (whole_size, whole) = transfer(&[], 200, &file, None, 16 * 1024).unwrap();
    assert_eq!(whole_size, 5000);
    assert_eq!(whole, digest_of(&file));
    for k in [1usize, 17, 2500, 4999, 5000] {
        for chunk in [1usize, 7, 1024, 16 * 1024] {
            let (size, digest) = transfer(&file[..k], 206, &file[k..], None, chunk).unwrap();
            assert_eq!(size, 5000);
            assert_eq!(digest, whole);
        }
    }
}

#[test]
fn restart_discards_the_partial_data() {
    let file = b"the whole file".to_vec();
    let (size, digest) = transfer(b"stale bytes", 200, &file, Some((200, &file)), 4).unwrap();
    assert_eq!(size, file.len() as u64);
    assert_eq!(digest, digest_of(&file));
    let (kept_size, kept) = transfer(b"stale bytes", 206, &file, None, 4).unwrap();
    assert_eq!(kept_size, 11 + file.len() as u64);
    assert_ne!(kept, digest);
}

#[test]
fn refused_transfer_ends_with_the_status() {
    assert_eq!(transfer(&[], 404, b"", None, 4), Err(404));
    assert_eq!(transfer(b"part", 416, b"", None, 4), Err(416));
    assert_eq!(transfer(b"part", 200, b"", Some((503, b"")), 4), Err(503));
    let mut download = Download::begin(0);
    assert_eq!(download.range(), None);
    download.answered(206);
    assert_eq!(download.phase(), Phase::TakingBody);
    let mut download = Download::begin(10);
    assert_eq!(download.range().as_deref(), Some("bytes=10-"));
    download.answered(204);
    assert_eq!(download.phase(), Phase::TakingPartial);
}
