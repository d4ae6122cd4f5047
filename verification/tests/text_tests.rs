use anemone_bot::clip::{encoded_len, fitting_prefix, preview, truncate_to_limit, width_of};
use anemone_bot::cq::{extract_images, extract_reply_id, strip_cq_codes, try_extract_images};
use anemone_bot::num::{i64_to_string, parse_i64, parse_u64, push_i64, push_u64, u64_to_string};
use anemone_bot::text::{
    chars_eq, chars_of, contains_char, contains_str, escape_html, find_char, find_first_field,
    find_last_field, find_seq, is_whitespace, key_of, matches_at, push_chars, push_str,
    slice_chars, split_chars, string_from_chars, string_of, trim_chars, trim_end_matches_char,
    trim_end_matches_seq, trim_start_matches_seq, trim_str, value_of,
};

fn cs(s: &str) -> Vec<char> {
    s.chars().collect()
}

#[test]
fn string_building() {
    let mut s = String::from("abc");
    push_chars(&mut s, &['d', 'e']);
    push_str(&mut s, "fg");
    assert_eq!(s, "abcdefg");
    assert_eq!(chars_of("héllo"), cs("héllo"));
    assert_eq!(string_of(&cs("wörld")), "wörld");
    assert_eq!(string_from_chars(cs("xyz")), "xyz");
}

#[test]
fn whitespace_and_trimming() {
    assert!(is_whitespace(' '));
    assert!(is_whitespace('\t'));
    assert!(is_whitespace('\u{3000}'));
    assert!(!is_whitespace('a'));
    assert_eq!(trim_str("  hi there \n"), "hi there");
    assert_eq!(trim_str("   "), "");
    assert_eq!(trim_chars(&cs("\u{3000}x y\t")), cs("x y"));
    assert_eq!(trim_end_matches_char("https://hs.org///", '/'), "https://hs.org");
    assert_eq!(trim_start_matches_seq("wss://wss://g.io", &cs("wss://")), "g.io");
    assert_eq!(trim_end_matches_seq("g.io/?v=10/?v=10", &cs("/?v=10")), "g.io");
}

#[test]
fn searching() {
    let t = cs("a[CQ:reply,id=5]b");
    assert!(matches_at(&t, &cs("[CQ:"), 1));
    assert!(!matches_at(&t, &cs("[CQ:"), 0));
    assert_eq!(find_seq(&t, &cs("id="), 0), Some(11));
    assert_eq!(find_seq(&t, &cs("zz"), 0), None);
    assert_eq!(find_char(&t, ']', 0), Some(15));
    assert_eq!(find_char(&t, ']', 16), None);
    assert!(contains_char(&t, 'b'));
    assert!(!contains_char(&t, 'z'));
    assert!(contains_str(&t, &cs("reply")));
    assert!(!contains_str(&t, &cs("image")));
    assert_eq!(slice_chars(&t, 2, 4), cs("CQ"));
    assert!(chars_eq(&cs("abc"), &cs("abc")));
    assert!(!chars_eq(&cs("abc"), &cs("abd")));
}

#[test]
fn fields() {
    let parts = split_chars(&cs("url=a,file=b=c,url=d,flag"), ',');
    assert_eq!(parts, vec![cs("url=a"), cs("file=b=c"), cs("url=d"), cs("flag")]);
    assert_eq!(key_of(&cs("file=b=c")), cs("file"));
    assert_eq!(value_of(&cs("file=b=c")), Some(cs("b=c")));
    assert_eq!(value_of(&cs("flag")), None);
    assert_eq!(find_first_field(&parts, &cs("url")), Some(cs("a")));
    assert_eq!(find_last_field(&parts, &cs("url")), Some(cs("d")));
    assert_eq!(find_first_field(&parts, &cs("flag")), None);
}

#[test]
fn html_escaping() {
    assert_eq!(escape_html("a<b>&c"), "a&lt;b&gt;&amp;c");
    assert_eq!(escape_html("plain"), "plain");
}

#[test]
fn decimal_formatting() {
    assert_eq!(u64_to_string(0), "0");
    assert_eq!(u64_to_string(18446744073709551615), "18446744073709551615");
    assert_eq!(i64_to_string(-42), "-42");
    assert_eq!(i64_to_string(i64::MIN), "-9223372036854775808");
    let mut s = String::from("id=");
    push_u64(&mut s, 907);
    push_i64(&mut s, -3);
    assert_eq!(s, "id=907-3");
}

#[test]
fn decimal_parsing() {
    assert_eq!(parse_u64("123"), Some(123));
    assert_eq!(parse_u64("+7"), Some(7));
    assert_eq!(parse_u64(""), None);
    assert_eq!(parse_u64("-1"), None);
    assert_eq!(parse_u64("12a"), None);
    assert_eq!(parse_u64("18446744073709551616"), None);
    assert_eq!(parse_i64("-9223372036854775808"), Some(i64::MIN));
    assert_eq!(parse_i64("9223372036854775808"), None);
    assert_eq!(parse_i64("+15"), Some(15));
    assert_eq!(parse_i64("-"), None);
}

#[test]
fn decimal_round_trip_values() {
    for n in [0u64, 9, 10, 1234567890123, u64::MAX] {
        assert_eq!(parse_u64(&u64_to_string(n)), Some(n));
    }
    for n in [0i64, -1, 77, i64::MIN, i64::MAX] {
        assert_eq!(parse_i64(&i64_to_string(n)), Some(n));
    }
}

#[test]
fn cq_stripping() {
    assert_eq!(strip_cq_codes("[CQ:reply,id=12]hello [CQ:face,id=1]world"), "hello world");
    assert_eq!(strip_cq_codes("  just text  "), "just text");
    assert_eq!(strip_cq_codes("[CQ:image,url=a[b]c]"), "");
    assert_eq!(strip_cq_codes("x [CQ:unclosed"), "x");
}

#[test]
fn cq_reply_id() {
    assert_eq!(extract_reply_id("[CQ:reply,id=12345]hi"), Some(String::from("12345")));
    assert_eq!(extract_reply_id("[CQ:reply,qq=1,id= 77 ]"), Some(String::from("77")));
    assert_eq!(extract_reply_id("no reply"), None);
    assert_eq!(extract_reply_id("[CQ:reply,qq=1]"), None);
    assert_eq!(extract_reply_id("[CQ:reply,id=5"), None);
}

#[test]
fn cq_images() {
    let imgs = extract_images("look [CQ:image,file=x.jpg,url=https://a/1.jpg] and [CQ:image,url=u2]");
    assert_eq!(imgs.len(), 2);
    assert_eq!(imgs[0].url.as_deref(), Some("https://a/1.jpg"));
    assert_eq!(imgs[1].url.as_deref(), Some("u2"));
    assert_eq!(imgs[0].filename, "image.jpg");
    assert_eq!(imgs[0].content_type.as_deref(), Some("image/jpeg"));
    assert!(imgs[0].data.is_none());
    let last = extract_images("[CQ:image,url=a,url=b]");
    assert_eq!(last.len(), 1);
    assert_eq!(last[0].url.as_deref(), Some("b"));
    assert!(extract_images("[CQ:image,file=x]").is_empty());
    assert!(try_extract_images("oops [CQ:image,").is_none());
}

#[test]
fn utf8_widths() {
    assert_eq!(width_of('a'), 1);
    assert_eq!(width_of('é'), 2);
    assert_eq!(width_of('图'), 3);
    assert_eq!(width_of('😀'), 4);
    assert_eq!(encoded_len(&cs("a图😀")), 8);
    assert_eq!(fitting_prefix(&cs("ab图c"), 4), 2);
    assert_eq!(fitting_prefix(&cs("ab图c"), 5), 3);
}

#[test]
fn previews() {
    assert_eq!(preview("hello world", 5), "hello...");
    assert_eq!(preview("short", 10), "short");
    assert_eq!(preview("五个汉字呀啊", 5), "五个汉字呀...");
    assert_eq!(preview("exact", 5), "exact");
}

#[test]
fn truncation() {
    let mut s = String::from("hello world");
    truncate_to_limit(&mut s, 8);
    assert_eq!(s, "hello...");
    let mut fits = String::from("fits");
    truncate_to_limit(&mut fits, 4);
    assert_eq!(fits, "fits");
    let mut wide = String::from("图图图");
    truncate_to_limit(&mut wide, 8);
    assert_eq!(wide, "图...");
    let mut tiny = String::from("abcdef");
    truncate_to_limit(&mut tiny, 2);
    assert_eq!(tiny, "...");
}

#[test]
fn truncation_twice_is_once() {
    for limit in [0usize, 2, 3, 5, 8, 2000] {
        let mut once = String::from("a fairly long line of text 图图图");
        truncate_to_limit(&mut once, limit);
        let mut twice = once.clone();
        truncate_to_limit(&mut twice, limit);
        assert_eq!(once, twice);
        if limit >= 3 {
            assert!(once.len() <= limit);
        }
    }
}
