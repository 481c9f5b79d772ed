use fxt2txt::{Character, Font, FontParser};

fn font_bytes() -> Vec<u8> {
    let mut b = vec![2u8, 2];
    b.extend_from_slice(&[1, 0, 1]);
    b.extend_from_slice(&[2, 1, 1, 0, 1]);
    let mut palette = vec![0u8; 768];
    palette[0] = 10;
    palette[1] = 20;
    palette[2] = 30;
    palette[3] = 40;
    palette[4] = 50;
    palette[5] = 60;
    b.extend_from_slice(&palette);
    b
}

#[test]
fn font_reads_characters_and_palette() {
    let mut parser = FontParser::new(font_bytes());
    assert!(parser.has_font());
    let font = Font::new(&mut parser);
    assert_eq!(font.character_count(), 2);
    assert_eq!(font.character_height(), 2);
    assert_eq!(font.character_width(), 1);
    assert_eq!(
        font.character_bitmap(0),
        vec![10, 20, 30, 0, 40, 50, 60, 255]
    );
    assert_eq!(font.character_bitmap(1).len(), 16);
    assert_eq!(&font.character_bitmap(1)[0..4], &[40, 50, 60, 255]);
}

#[test]
fn font_too_short_is_refused() {
    let mut bytes = font_bytes();
    bytes.pop();
    assert!(!FontParser::new(bytes).has_font());
    assert!(!FontParser::new(vec![1]).has_font());
    assert!(!FontParser::new(vec![1, 2, 3, 0]).has_font());
    assert!(!FontParser::new(vec![0, 5]).has_font());
    assert!(FontParser::new(vec![0u8; 770]).has_font());
}

#[test]
fn empty_font_has_no_characters() {
    let mut parser = FontParser::new(vec![0u8; 770]);
    let font = Font::new(&mut parser);
    assert_eq!(font.character_count(), 0);
}

#[test]
fn character_reads_width_and_data() {
    let mut parser = FontParser::new(vec![3, 1, 2, 3, 4, 5, 6, 9]);
    let c = Character::new(&mut parser, 2);
    assert_eq!(c.width, 3);
    assert_eq!(c.data, vec![1, 2, 3, 4, 5, 6]);
    let c = Character::new(&mut parser, 0);
    assert_eq!(c.width, 9);
    assert!(c.data.is_empty());
}
