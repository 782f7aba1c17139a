use weixin_reader::parser::WeixinParser;

#[test]
fn end_to_end_fixture() {
    let parser = WeixinParser::new();
    let html = "<h1 id=\"activity-name\">Hello</h1><span id=\"js_author_name\"> Jane </span><em id=\"publish_time\">2024-01-01</em><div id=\"js_content\"><p>Line1</p><p>Line2</p></div>";
    let article = parser.parse(html);
    assert_eq!(article.title, "Hello");
    assert_eq!(article.author, "Jane");
    assert_eq!(article.publish_time, "2024-01-01");
    assert_eq!(article.content, "Line1\nLine2");
}

#[test]
fn missing_content_gives_placeholder() {
    let parser = WeixinParser::new();
    let html = "<h1 id=\"activity-name\">Hello</h1>";
    let article = parser.parse(html);
    assert_eq!(article.content, "未找到正文内容");
}

#[test]
fn missing_title_gives_placeholder() {
    let parser = WeixinParser::new();
    let html = "<div id=\"js_content\"><p>Body</p></div>";
    let article = parser.parse(html);
    assert_eq!(article.title, "未找到标题");
}

#[test]
fn missing_time_gives_placeholder() {
    let parser = WeixinParser::new();
    let article = parser.parse("<p>nothing here</p>");
    assert_eq!(article.publish_time, "未知时间");
}

#[test]
fn title_text_is_trimmed() {
    let parser = WeixinParser::new();
    let html = "<h1 id=\"activity-name\">  Spaced Title </h1>";
    let article = parser.parse(html);
    assert_eq!(article.title, "Spaced Title");
}

#[test]
fn author_primary_wins_when_nonempty() {
    let parser = WeixinParser::new();
    let html = "<span id=\"js_author_name\">Jane</span><a id=\"js_name\">Org</a>";
    let article = parser.parse(html);
    assert_eq!(article.author, "Jane");
}

#[test]
fn author_empty_primary_falls_back() {
    let parser = WeixinParser::new();
    let html = "<span id=\"js_author_name\">   </span><a id=\"js_name\">Org</a>";
    let article = parser.parse(html);
    assert_eq!(article.author, "Org");
}

#[test]
fn author_absent_primary_falls_back() {
    let parser = WeixinParser::new();
    let html = "<a id=\"js_name\"> Org </a>";
    let article = parser.parse(html);
    assert_eq!(article.author, "Org");
}

#[test]
fn author_nothing_gives_placeholder() {
    let parser = WeixinParser::new();
    let html = "<span id=\"js_author_name\">  </span>";
    let article = parser.parse(html);
    assert_eq!(article.author, "未知作者");
}

#[test]
fn content_whitespace_is_normalized() {
    let parser = WeixinParser::new();
    let html = "<div id=\"js_content\"><p>One</p><p></p><p></p><p></p><p>Two  three</p></div>";
    let article = parser.parse(html);
    // Empty paragraphs contribute no text nodes; the joined text is
    // "One\nTwo  three", and the space run collapses.
    assert_eq!(article.content, "One\nTwo three");
}

#[test]
fn extract_functions_match_parse() {
    let parser = WeixinParser::new();
    let html = "<h1 id=\"activity-name\">T</h1><span id=\"js_author_name\">A</span><em id=\"publish_time\">P</em><div id=\"js_content\">C</div>";
    let article = parser.parse(html);
    assert_eq!(parser.extract_title(html), article.title);
    assert_eq!(parser.extract_author(html), article.author);
    assert_eq!(parser.extract_publish_time(html), article.publish_time);
    assert_eq!(parser.extract_content(html), article.content);
}
