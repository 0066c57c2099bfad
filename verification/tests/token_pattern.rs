use hemnet_pipeline::errors::ExtractionError;
use hemnet_pipeline::errors::PatternNotFoundError;
use hemnet_pipeline::pattern::clean_content;
use hemnet_pipeline::pattern::extract_property_id;
use hemnet_pipeline::pattern::find_gallery_token;
use hemnet_pipeline::token::extract_search_key;

#[test]
fn search_key_extracted() {
    let html = "<html>stuff search_key&quot;:&quot;abc123&more</html>";
    assert_eq!(extract_search_key(html), Ok("abc123".to_string()));
}

#[test]
fn search_key_first_marker_wins() {
    let html = "search_key&quot;:&quot;zzz9&later search_key&quot;:&quot;abc123&";
    assert_eq!(extract_search_key(html), Ok("zzz9".to_string()));
}

#[test]
fn search_key_empty_run_fails() {
    let html = "search_key&quot;:&quot;&";
    assert_eq!(extract_search_key(html), Err(ExtractionError::MarkerNotFound));
}

#[test]
fn search_key_skips_empty_run_marker() {
    let html = "search_key&quot;:&quot;& search_key&quot;:&quot;ok1&";
    assert_eq!(extract_search_key(html), Ok("ok1".to_string()));
}

#[test]
fn search_key_missing_marker_fails() {
    let html = "<html>no marker here</html>";
    assert_eq!(extract_search_key(html), Err(ExtractionError::MarkerNotFound));
}

#[test]
fn search_key_marker_without_terminator_fails() {
    let html = "search_key&quot;:&quot;abc123 no ampersand";
    assert_eq!(extract_search_key(html), Err(ExtractionError::MarkerNotFound));
}

#[test]
fn search_key_skips_uncapturable_marker() {
    let html = "search_key&quot;:&quot;nope search_key&quot;:&quot;good7&";
    assert_eq!(extract_search_key(html), Ok("good7".to_string()));
}

#[test]
fn clean_strips_soft_breaks_then_crlf() {
    assert_eq!(clean_content("A=\r\n B\r\nC"), "A BC".to_string());
}

#[test]
fn clean_keeps_plain_text() {
    assert_eq!(clean_content("hello world"), "hello world".to_string());
}

#[test]
fn property_id_from_soft_wrapped_content() {
    let content = "A=\r\n B\r\nhttps://bilder.hemnet.se/images/itemgallery/foo.jpg";
    assert_eq!(extract_property_id(content), Ok("foo".to_string()));
}

#[test]
fn property_id_from_gallery_url() {
    let content = "see https://bilder.hemnet.se/images/itemgallery/xyz789.jpg here";
    assert_eq!(extract_property_id(content), Ok("xyz789".to_string()));
}

#[test]
fn property_id_missing_pattern_fails() {
    let content = "no gallery link in this mail";
    assert_eq!(extract_property_id(content), Err(PatternNotFoundError::NoMatch));
}

#[test]
fn gallery_token_needs_jpg_terminator() {
    assert_eq!(
        find_gallery_token("https://bilder.hemnet.se/images/itemgallery/foo.png"),
        None
    );
}

#[test]
fn gallery_token_earliest_capture_wins() {
    let text = "https://bilder.hemnet.se/images/itemgallery_cut/aa11.jpg and \
                https://bilder.hemnet.se/images/itemgallery/bb22.jpg";
    assert_eq!(find_gallery_token(text), Some("aa11".to_string()));
}
