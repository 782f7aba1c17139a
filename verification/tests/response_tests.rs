use weixin_reader::error::AppError;
use weixin_reader::parser::ArticleData;
use weixin_reader::parser::WeixinParser;
use weixin_reader::response::failure_response;
use weixin_reader::response::fetch_response;
use weixin_reader::response::is_weixin_url;
use weixin_reader::response::json_escape;
use weixin_reader::response::reject_if_invalid;
use weixin_reader::response::success_response;

#[test]
fn wrong_host_is_rejected() {
    let resp = reject_if_invalid("https://example.com/foo").expect("must be rejected");
    assert!(resp.contains("Invalid URL format"));
    assert!(resp.contains("\"success\":false"));
    assert!(resp.contains("https://example.com/foo"));
}

#[test]
fn valid_prefix_is_accepted() {
    assert!(reject_if_invalid("https://mp.weixin.qq.com/s/abc123").is_none());
    assert!(reject_if_invalid("https://mp.weixin.qq.com/s/").is_none());
}

#[test]
fn prefix_check_matches_starts_with() {
    let cases = [
        "https://mp.weixin.qq.com/s/xyz",
        "https://mp.weixin.qq.com/s",
        "http://mp.weixin.qq.com/s/xyz",
        "",
        "https://mp.weixin.qq.com/a/xyz",
    ];
    for url in cases {
        assert_eq!(
            is_weixin_url(url),
            url.starts_with("https://mp.weixin.qq.com/s/"),
            "mismatch on {url}"
        );
    }
}

#[test]
fn json_escape_handles_specials() {
    assert_eq!(json_escape("plain"), "plain");
    assert_eq!(json_escape("a\"b"), "a\\\"b");
    assert_eq!(json_escape("a\\b"), "a\\\\b");
    assert_eq!(json_escape("a\nb\tc\rd"), "a\\nb\\tc\\rd");
    assert_eq!(json_escape("\u{1}"), "\\u0001");
    assert_eq!(json_escape("\u{1f}"), "\\u001f");
}

#[test]
fn success_response_parses_back() {
    let article = ArticleData {
        title: String::from("He said \"hi\""),
        author: String::from("A\\B"),
        publish_time: String::from("2024-01-01"),
        content: String::from("Line1\nLine2\tend \u{2} 微信"),
    };
    let resp = success_response(&article);
    let v: serde_json::Value = serde_json::from_str(&resp).expect("valid JSON");
    assert_eq!(v["success"], serde_json::Value::Bool(true));
    assert_eq!(v["title"].as_str().unwrap(), article.title);
    assert_eq!(v["author"].as_str().unwrap(), article.author);
    assert_eq!(v["publish_time"].as_str().unwrap(), article.publish_time);
    assert_eq!(v["content"].as_str().unwrap(), article.content);
    assert!(v["error"].is_null());
}

#[test]
fn failure_response_parses_back() {
    let resp = failure_response("bad \"thing\"\nhappened");
    let v: serde_json::Value = serde_json::from_str(&resp).expect("valid JSON");
    assert_eq!(v["success"], serde_json::Value::Bool(false));
    assert_eq!(v["error"].as_str().unwrap(), "bad \"thing\"\nhappened");
}

#[test]
fn fetch_response_success_path() {
    let parser = WeixinParser::new();
    let html = "<h1 id=\"activity-name\">Hello</h1><div id=\"js_content\"><p>Body</p></div>";
    let resp = fetch_response(&parser, Ok(html));
    let v: serde_json::Value = serde_json::from_str(&resp).expect("valid JSON");
    assert_eq!(v["success"], serde_json::Value::Bool(true));
    assert_eq!(v["title"].as_str().unwrap(), "Hello");
    assert_eq!(v["content"].as_str().unwrap(), "Body");
    assert_eq!(v["author"].as_str().unwrap(), "未知作者");
}

#[test]
fn fetch_response_failure_path() {
    let parser = WeixinParser::new();
    let err = AppError::Timeout(String::from("Waiting for #js_content failed: deadline"));
    let resp = fetch_response(&parser, Err(&err));
    let v: serde_json::Value = serde_json::from_str(&resp).expect("valid JSON");
    assert_eq!(v["success"], serde_json::Value::Bool(false));
    let msg = v["error"].as_str().unwrap();
    assert!(msg.contains("Page load timeout"));
    assert!(msg.contains("Waiting for #js_content failed"));
}

#[test]
fn error_messages_follow_taxonomy() {
    assert_eq!(
        AppError::InvalidUrl(String::from("u")).message(),
        "Invalid URL format: u. Must be https://mp.weixin.qq.com/s/xxx"
    );
    assert_eq!(AppError::BrowserError(String::from("b")).message(), "Browser error: b");
    assert_eq!(AppError::Timeout(String::from("t")).message(), "Page load timeout: t");
    assert_eq!(AppError::ParseError(String::from("p")).message(), "Parse error: p");
}
