use busytube::duration::find_duration;
use busytube::{Page, PageError};

fn texts(blocks: &[&[&str]]) -> Vec<Vec<String>> {
    blocks.iter().map(|b| b.iter().map(|t| t.to_string()).collect()).collect()
}

#[test]
fn a_page_holds_titles_scripts_and_addresses() {
    let html = "<html><head>\
        <meta name=\"title\" content=\"First\">\
        <meta name=\"other\" content=\"no\">\
        <meta name=\"title\" content=\"Second\">\
        <meta property=\"og:url\" content=\"https://youtu.be/h9Z4oGN89MU\">\
        </head><body><script>one</script><p>text</p><script>two</script></body></html>";
    let page = Page::read(html).unwrap();
    assert_eq!(page.titles, vec![Some("First".to_string()), Some("Second".to_string())]);
    assert_eq!(page.scripts, texts(&[&["one"], &["two"]]));
    assert_eq!(page.canonical_urls, vec![Some("https://youtu.be/h9Z4oGN89MU".to_string())]);
}

#[test]
fn an_element_without_the_attribute_is_kept_as_none() {
    let html = "<head><meta name=\"title\"><meta name=\"title\" content=\"x\">\
        <meta property=\"og:url\"></head>";
    let page = Page::read(html).unwrap();
    assert_eq!(page.titles, vec![None, Some("x".to_string())]);
    assert_eq!(page.canonical_urls, vec![None]);
}

#[test]
fn scripts_of_the_head_and_of_the_body_are_both_read() {
    let html = "<html><head><script>in the head</script></head>\
        <body><script>in the body</script></body></html>";
    let page = Page::read(html).unwrap();
    assert_eq!(page.scripts, texts(&[&["in the head"], &["in the body"]]));
}

#[test]
fn the_two_failures_of_reading_are_told_apart() {
    assert_ne!(PageError::TooLong, PageError::InvalidSelector);
    assert_eq!(Page::read("<p>short</p>").map(|p| p.titles.len()), Ok(0));
}

#[test]
fn an_empty_document_is_an_empty_page() {
    let page = Page::read("").unwrap();
    assert!(page.titles.is_empty());
    assert!(page.scripts.is_empty());
    assert!(page.canonical_urls.is_empty());
}

#[test]
fn plain_text_is_no_title() {
    // A page is what the markup holds, not the text handed in.
    let page = Page::read("meta[name='title']").unwrap();
    assert!(page.titles.is_empty());
    assert!(page.scripts.is_empty());
}

#[test]
fn an_empty_script_has_no_text() {
    let page = Page::read("<body><script></script><script>a</script></body>").unwrap();
    assert_eq!(page.scripts, texts(&[&[], &["a"]]));
}

#[test]
fn a_document_cut_inside_a_tag_keeps_what_came_before() {
    let html = "<head><meta name=\"title\" content=\"T\"></head><body><script>a</script><scr";
    let page = Page::read(html).unwrap();
    assert_eq!(page.titles, vec![Some("T".to_string())]);
    assert_eq!(page.scripts, texts(&[&["a"]]));
}

#[test]
fn entities_in_attributes_are_decoded() {
    let page = Page::read("<meta name=\"title\" content=\"a &amp; b\">").unwrap();
    assert_eq!(page.titles, vec![Some("a & b".to_string())]);
}

#[test]
fn the_digits_behind_the_key_are_found() {
    let scripts = texts(&[&["var x = {\"approxDurationMs\":\"1709569\",\"y\":1}"]]);
    assert_eq!(find_duration(&scripts), Some(Some("1709569".to_string())));
}

#[test]
fn the_search_goes_block_by_block_and_text_by_text() {
    let scripts = texts(&[
        &[],
        &["none", "\"approxDurationMs\":\"2\""],
        &["\"approxDurationMs\":\"1\""],
    ]);
    assert_eq!(find_duration(&scripts), Some(Some("2".to_string())));
}

#[test]
fn without_the_key_nothing_is_found() {
    assert_eq!(find_duration(&texts(&[])), Some(None));
    assert_eq!(find_duration(&texts(&[&["approxDurationMs: 12"]])), Some(None));
    assert_eq!(find_duration(&texts(&[&["\"approxDurationMs\":\"12"]])), Some(None));
    assert_eq!(find_duration(&texts(&[&["\"approxDurationMs\":\"1a\""]])), Some(None));
}

#[test]
fn digits_of_any_script_are_captured() {
    let scripts = texts(&[&["\"approxDurationMs\":\"\u{661}\u{662}\""]]);
    assert_eq!(find_duration(&scripts), Some(Some("\u{661}\u{662}".to_string())));
}
