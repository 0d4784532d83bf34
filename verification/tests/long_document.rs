use busytube::page::MAX_DOCUMENT_BYTES;
use busytube::{ExtractError, Metada, Page, PageError};

#[test]
fn the_longest_document_is_two_to_the_twenty_ninth_bytes() {
    assert_eq!(MAX_DOCUMENT_BYTES, 536_870_912);
}

#[test]
fn a_document_one_byte_too_long_is_not_read() {
    let text = String::from_utf8(vec![b' '; MAX_DOCUMENT_BYTES + 1]).unwrap();
    assert_eq!(Page::read(&text), Err(PageError::TooLong));
}

#[test]
fn bytes_that_decode_to_too_long_a_text_give_no_record() {
    // Every stray continuation byte decodes to a character of three bytes.
    let bytes = vec![0x80u8; MAX_DOCUMENT_BYTES / 3 + 1];
    assert_eq!(Metada::extract(&bytes).unwrap_err(), ExtractError::DocumentTooLong);
}
