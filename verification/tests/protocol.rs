use vhenncoin::amount::Amount;
use vhenncoin::protocol::{
    field, field_or_empty, http_reply_clean_data, http_reply_fields, parse_http_balance_reply,
    parse_tcp_balance_reply, request_formatter, response_formatter, tcp_reply_data, ReplyFault,
    Response,
};
use vhenncoin::services::{get_env, DB};
use vhenncoin::text::{remove_char, split_fields, u64_to_decimal};

fn s(x: &str) -> String {
    x.to_string()
}

#[test]
fn http_response_is_framed_with_escaped_newlines() {
    let r = Response::response_formatter(s("1"), s("ok"), s("{\"a\":1}"));
    assert_eq!(r, "1\\nok\\n{\"a\":1}\\n");
    let (code, message, data) = http_reply_fields(&r);
    assert_eq!((code.as_str(), message.as_str(), data.as_str()), ("1", "ok", "{\"a\":1}"));
}

#[test]
fn tcp_response_is_framed_with_line_breaks() {
    let r = response_formatter(s("1"), s("message"), s("{}"));
    assert_eq!(r, "1\nmessage\n{}\n");
    assert_eq!(tcp_reply_data(&r), Some(s("{}")));
    assert_eq!(tcp_reply_data("only\none"), None);
}

#[test]
fn request_is_framed() {
    let r = request_formatter(s("GetNodeList"), s(""), s(""), s(""), s("0"));
    assert_eq!(r, "GetNodeList\\n\\n\\n\\n0\\n");
    assert_eq!(field(&r, "\\n", 0), Some(s("GetNodeList")));
    assert_eq!(field(&r, "\\n", 4), Some(s("0")));
    assert_eq!(field(&r, "\\n", 5), Some(s("")));
    assert_eq!(field(&r, "\\n", 6), None);
}

#[test]
fn split_matches_str_split() {
    for (text, sep) in [("a,b,,c", ","), ("", ","), ("abc", "bc"), ("x\\ny\\n", "\\n"), ("aaa", "aa")] {
        let expected: Vec<String> = text.split(sep).map(|x| x.to_string()).collect();
        assert_eq!(split_fields(text, sep), expected);
    }
}

#[test]
fn missing_fields_read_as_empty() {
    assert_eq!(field_or_empty("a\\nb", "\\n", 2), "");
    assert_eq!(field_or_empty("a\\nb", "\\n", 1), "b");
}

#[test]
fn wallet_list_data_loses_backslashes() {
    let reply = "1\\nok\\n{\\\"names\\\":[]}\\n";
    assert_eq!(http_reply_clean_data(reply), "{\"names\":[]}");
    assert_eq!(remove_char("a\\b\\c", '\\'), "abc");
}

fn parts(a: &Amount) -> (i128, i64) {
    let mut v: i128 = 0;
    for b in a.magnitude.iter().rev() {
        v = v * 256 + *b as i128;
    }
    (if a.negative { -v } else { v }, a.scale)
}

#[test]
fn tcp_balance_reply() {
    let ok = parse_tcp_balance_reply("1\nok\n12.50").unwrap();
    assert_eq!(parts(&ok), (1250, 2));
    assert_eq!(parse_tcp_balance_reply("0\nfail\n12.50"), Err(ReplyFault::RemoteFailure));
    assert_eq!(parse_tcp_balance_reply("1\nok"), Err(ReplyFault::Malformed));
    let junk = parse_tcp_balance_reply("1\nok\nnot a number").unwrap();
    assert_eq!(parts(&junk), (0, 1));
}

#[test]
fn http_balance_reply() {
    let ok = parse_http_balance_reply("1\\nok\\n7\\n").unwrap();
    assert_eq!(parts(&ok), (7, 0));
    assert_eq!(parse_http_balance_reply("0\\nfail\\n7\\n"), Err(ReplyFault::RemoteFailure));
    let none = parse_http_balance_reply("1").unwrap();
    assert_eq!(parts(&none), (0, 1));
}

#[test]
fn decimal_text_of_u64() {
    assert_eq!(u64_to_decimal(0), "0");
    assert_eq!(u64_to_decimal(1234567890), "1234567890");
    assert_eq!(u64_to_decimal(u64::MAX), u64::MAX.to_string());
}

#[test]
fn empty_services() {
    DB::say_hello();
    get_env();
}

#[test]
fn balance_reply_beyond_machine_integers() {
    let big = "123456789012345678901234567890123456789012.5";
    let ok = parse_http_balance_reply(&format!("1\\nok\\n{}\\n", big)).unwrap();
    assert_eq!(ok.to_text(), big);
    let ok2 = parse_tcp_balance_reply(&format!("1\nok\n{}", big)).unwrap();
    assert_eq!(ok2.to_text(), big);
}
