use sha2::Digest;
use synker::checksum::{checksum_of, to_hex, ChecksumProgress, ChecksumStream, ReadEvent};
use synker::error::StorageError;

const HELLO: &str = "b94d27b9934d3e08a52e52d7da7dabfac484efe37a5380ee9088f7ace2efcde9";
const EMPTY: &str = "e3b0c44298fc1c149afbf4c8996fb92427ae41e4649b934ca495991b7852b855";

#[test]
fn hex_is_lower_case_with_two_digits_a_byte() {
    assert_eq!(to_hex(&[]), "");
    assert_eq!(to_hex(&[0x00, 0x0f, 0xa0, 0xff, 0x9c]), "000fa0ff9c");
}

#[test]
fn checksum_of_known_contents() {
    assert_eq!(checksum_of(b"hello world"), HELLO);
    assert_eq!(checksum_of(b""), EMPTY);
    assert_eq!(
        checksum_of(b"Hello, World!"),
        "dffd6021bb2bd5b0af676290809ec3a53191dd81c7f70a4b28688a362182986f"
    );
}

#[test]
fn checksum_is_not_the_content() {
    let checksum = checksum_of(b"abc");
    assert_eq!(checksum.len(), 64);
    assert_ne!(checksum, to_hex(b"abc"));
    assert_eq!(checksum, "ba7816bf8f01cfea414140de5dae2223b00361a396177a9cb410ff61f20015ad");
}

#[test]
fn checksum_agrees_with_the_hasher_on_large_content() {
    let content: Vec<u8> = (0..20_000u32).map(|i| (i % 251) as u8).collect();
    let direct = sha2::Sha256::digest(&content);
    assert_eq!(checksum_of(&content), to_hex(direct.as_slice()));
}

#[test]
fn checksum_is_the_same_for_the_same_content() {
    let first: Vec<u8> = b"the same bytes".to_vec();
    let second: Vec<u8> = b"the same bytes".to_vec();
    assert_eq!(checksum_of(&first), checksum_of(&second));
}

#[test]
fn checksum_differs_when_one_byte_differs() {
    let first: Vec<u8> = b"the same bytes".to_vec();
    let mut second = first.clone();
    second[3] ^= 1;
    assert_ne!(checksum_of(&first), checksum_of(&second));
}

#[test]
fn stream_does_not_depend_on_the_pieces() {
    let content: Vec<u8> = (0..10_000u32).map(|i| (i * 7 % 256) as u8).collect();
    let whole = checksum_of(&content);
    for size in [1usize, 2, 3, 64, 1000, 8192, 9999, 10_000, 20_000] {
        let mut stream = ChecksumStream::new();
        for piece in content.chunks(size) {
            stream.absorb(piece);
        }
        assert_eq!(stream.finish(), whole);
    }
}

#[test]
fn stream_with_nothing_taken_in() {
    assert_eq!(ChecksumStream::new().finish(), EMPTY);
}

#[test]
fn advance_takes_in_pieces_until_the_end() {
    let stream = ChecksumStream::new();
    let stream = match stream.advance(ReadEvent::Chunk(b"hello ")) {
        ChecksumProgress::More(stream) => stream,
        _ => panic!("a piece with bytes asks for more"),
    };
    let stream = match stream.advance(ReadEvent::Chunk(b"world")) {
        ChecksumProgress::More(stream) => stream,
        _ => panic!("a piece with bytes asks for more"),
    };
    match stream.advance(ReadEvent::Chunk(b"")) {
        ChecksumProgress::Complete(stream) => assert_eq!(stream.finish(), HELLO),
        _ => panic!("an empty piece ends the file"),
    }
}

#[test]
fn advance_gives_no_checksum_after_a_failed_read() {
    let stream = ChecksumStream::new();
    let stream = match stream.advance(ReadEvent::Chunk(b"hello ")) {
        ChecksumProgress::More(stream) => stream,
        _ => panic!("a piece with bytes asks for more"),
    };
    match stream.advance(ReadEvent::Failed) {
        ChecksumProgress::Aborted(error) => assert_eq!(error, StorageError::IoFailure),
        _ => panic!("a failed read ends without a checksum"),
    }
}
