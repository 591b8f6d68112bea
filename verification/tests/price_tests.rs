use tui_watcher::price::{extract_price, FetchError};

#[test]
fn price_is_read_from_the_script_json() {
    let html = "<html><head></head><body>\
        <script>var data = {\"product\":{\"currentPrice\":5642.0}};</script>\
        </body></html>";
    assert_eq!(extract_price(html), Ok("5642.0".to_string()));
}

#[test]
fn only_script_text_is_searched_not_the_page_body() {
    // the page body mentions the key and braces of its own; only the script
    // elements' text may be read, or the span would not parse
    let html = "<html><body><p>{ currentPrice is shown below </p>\
        <script>var x = 1;</script>\
        <script>currentPrice = {\"product\":{\"currentPrice\":7}};</script>\
        <p>}</p></body></html>";
    assert_eq!(extract_price(html), Ok("7".to_string()));
}

#[test]
fn string_prices_are_handed_back_as_rendered() {
    let html = "<script>{\"product\":{\"currentPrice\":\"99.50\"}}</script>";
    assert_eq!(extract_price(html), Ok("\"99.50\"".to_string()));
}

#[test]
fn page_without_a_marked_script_yields_script_not_found() {
    assert_eq!(
        extract_price("<html><body><p>no price here</p></body></html>"),
        Err(FetchError::ScriptNotFound)
    );
    // a script that mentions the key without a brace-delimited span is
    // skipped as well
    assert_eq!(
        extract_price("<script>currentPrice</script>"),
        Err(FetchError::ScriptNotFound)
    );
    assert_eq!(
        extract_price("<script>currentPrice } {</script>"),
        Err(FetchError::ScriptNotFound)
    );
}

#[test]
fn malformed_span_yields_malformed_json() {
    let html = "<script>currentPrice {this is not json}</script>";
    assert_eq!(extract_price(html), Err(FetchError::MalformedJson));
}

#[test]
fn missing_product_key_is_reported() {
    let html = "<script>{\"currentPrice\": 10}</script>";
    assert_eq!(extract_price(html), Err(FetchError::ProductKeyMissing));
}

#[test]
fn missing_price_key_is_reported() {
    let html = "<script>currentPrice {\"product\":{\"name\":\"trip\"}}</script>";
    assert_eq!(extract_price(html), Err(FetchError::PriceKeyMissing));
}

#[test]
fn the_first_qualifying_script_decides() {
    let html = "<script>currentPrice {\"product\":{\"currentPrice\":1}}</script>\
        <script>currentPrice {\"product\":{\"currentPrice\":2}}</script>";
    assert_eq!(extract_price(html), Ok("1".to_string()));
}
