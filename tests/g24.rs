use fxt2txt::{G24Parser, G24ParserError, RNCError};

fn header_bytes(words: &[u32]) -> Vec<u8> {
    words.iter().flat_map(|w| w.to_le_bytes()).collect()
}

fn good_words() -> Vec<u32> {
    let mut w: Vec<u32> = (0..16).map(|i| i * 4096).collect();
    w[0] = 336;
    w[15] = 42;
    w[4] = 0x0102_0304;
    w
}

#[test]
fn header_reads_all_sizes() {
    let mut p = G24Parser::new(header_bytes(&good_words()));
    let h = p.parse_header().unwrap();
    assert_eq!(h.side_size, 4096);
    assert_eq!(h.lid_size, 8192);
    assert_eq!(h.animation_size, 0x0102_0304);
    assert_eq!(h.sprite_graphics_size, 14 * 4096);
    assert_eq!(h.sprite_numbers_size, 42);
}

#[test]
fn header_with_wrong_version_is_refused() {
    let mut w = good_words();
    w[0] = 335;
    let mut p = G24Parser::new(header_bytes(&w));
    assert_eq!(
        p.parse_header(),
        Err(G24ParserError::InvalidHeaderMagicVersion(335))
    );
}

#[test]
fn header_with_wrong_sprite_number_is_refused() {
    let mut w = good_words();
    w[15] = 7;
    let mut p = G24Parser::new(header_bytes(&w));
    assert_eq!(p.parse_header(), Err(G24ParserError::InvalidSpriteNumber(7)));
}

#[test]
fn short_stream_with_wrong_version_is_refused() {
    let mut p = G24Parser::new(vec![0, 0, 0, 0]);
    assert_eq!(
        p.parse_header(),
        Err(G24ParserError::InvalidHeaderMagicVersion(0))
    );
    let mut p = G24Parser::new(header_bytes(&[337, 1, 2]));
    assert_eq!(
        p.parse_header(),
        Err(G24ParserError::InvalidHeaderMagicVersion(337))
    );
}

#[test]
fn invalid_arguments_message() {
    assert_eq!(
        RNCError::InvalidArguments.message(),
        "Invalid arguments!\n\nUsage: car-dump <car_file>"
    );
}
