use weixin_reader::parser::WeixinParser;
use weixin_reader::text::normalize;

#[test]
fn five_newlines_collapse_to_two() {
    assert_eq!(normalize("a\n\n\n\n\nb"), "a\n\nb");
}

#[test]
fn three_newlines_collapse_to_two() {
    assert_eq!(normalize("a\n\n\nb"), "a\n\nb");
}

#[test]
fn two_newlines_survive() {
    assert_eq!(normalize("a\n\nb"), "a\n\nb");
}

#[test]
fn four_spaces_collapse_to_one() {
    assert_eq!(normalize("a    b"), "a b");
}

#[test]
fn two_spaces_collapse_to_one() {
    assert_eq!(normalize("a  b"), "a b");
}

#[test]
fn single_space_survives() {
    assert_eq!(normalize("a b"), "a b");
}

#[test]
fn result_is_trimmed() {
    assert_eq!(normalize("   hello world \n\n"), "hello world");
}

#[test]
fn empty_stays_empty() {
    assert_eq!(normalize(""), "");
}

#[test]
fn all_whitespace_becomes_empty() {
    assert_eq!(normalize(" \n\n\n\n \t "), "");
}

#[test]
fn newlines_collapse_before_spaces() {
    // The space run collapses without merging the paragraph break.
    assert_eq!(normalize("one\n\n\n\n  two"), "one\n\n two");
}

#[test]
fn spaces_between_newlines_survive() {
    assert_eq!(normalize("a\n \nb"), "a\n \nb");
}

#[test]
fn normalize_is_idempotent_on_samples() {
    let samples = [
        "",
        "plain",
        "a\n\n\n\n\nb",
        "a    b",
        "  mixed \n\n\n  text   with\n\n\n\n\ngaps  ",
        " \n \n \n ",
        "多行\n\n\n中文   文本",
    ];
    for s in samples {
        let once = normalize(s);
        let twice = normalize(&once);
        assert_eq!(twice, once);
    }
}

#[test]
fn clean_text_matches_normalize() {
    let parser = WeixinParser::new();
    let s = "  a\n\n\n\nb   c ";
    assert_eq!(parser.clean_text(s), normalize(s));
}

#[test]
fn wide_characters_kept() {
    assert_eq!(normalize("微信  文章"), "微信 文章");
}
