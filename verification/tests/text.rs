use codex_openai_proxy::bytes::{copy_bytes, lines_of_bytes, split_bytes, take_whole_lines};
use codex_openai_proxy::encoding::to_hex;
use codex_openai_proxy::json::{Json, JsonNumber};
use codex_openai_proxy::json_codec::{
    from_value, read_json, read_json_bytes, to_value, write_json, write_json_bytes,
    write_json_pretty,
};
use codex_openai_proxy::sse::{read_body_events, read_chunk_items, StreamItem};
use codex_openai_proxy::text::{
    comes_before, contains, ends_with, eq_ignore_ascii_case, insert_in_order, joined, lines_of,
    parse_bool, parse_i64, parse_u64, replaced, split, starts_with, strip_prefix,
    strip_suffix, trim_end_matches, trim_matches, trimmed, trimmed_end,
};

#[test]
fn trims_white_space_at_both_ends() {
    assert_eq!(trimmed(" \t a b\u{a0}\n"), "a b");
    assert_eq!(trimmed("\u{3000}\u{85}"), "");
    assert_eq!(trimmed_end(" a \r\n"), " a");
    assert_eq!(trim_matches("\"\"a\"b\"", '"'), "a\"b");
    assert_eq!(trim_end_matches("a----", "--"), "a");
    assert_eq!(trim_end_matches("a---", "--"), "a-");
}

#[test]
fn texts_are_cut_as_std_cuts_them() {
    for s in ["a\r\nb\n\nc", "a\n", "\n", "", "a\r", "a\r\r\n"] {
        let expected: Vec<&str> = s.lines().collect();
        assert_eq!(lines_of(s), expected);
    }
    for s in ["a,b", ",", "", "ab", "a,,b,"] {
        let expected: Vec<&str> = s.split(',').collect();
        assert_eq!(split(s, ','), expected);
    }
    for s in ["a--b", "--", "", "ab", "a----b--", "---"] {
        let expected: Vec<&str> = s.split("--").collect();
        let pieces: Vec<String> = split_bytes(s.as_bytes(), b"--")
            .into_iter()
            .map(|b| String::from_utf8(b).unwrap())
            .collect();
        assert_eq!(pieces, expected);
    }
    assert_eq!(joined(&vec!["a".to_string(), "b".to_string()], ", "), "a, b");
    assert_eq!(joined(&vec![], ", "), "");
    assert_eq!(replaced("a-b-", '-', '_'), "a_b_");
}

#[test]
fn prefixes_and_suffixes_are_found() {
    assert!(starts_with("éa", "é") && !starts_with("a", "ab"));
    assert!(ends_with("aé", "é") && !ends_with("", "a"));
    assert_eq!(strip_prefix("data: x", "data: ").as_deref(), Some("x"));
    assert_eq!(strip_suffix("x-low", "-low").as_deref(), Some("x"));
    assert_eq!(strip_suffix("x", "-low"), None);
    assert!(contains("abc", "bc") && contains("abc", "") && !contains("abc", "d"));
    assert!(eq_ignore_ascii_case("TrUe", "true") && !eq_ignore_ascii_case("É", "é"));
}

#[test]
fn numbers_are_read_as_std_reads_them() {
    for s in [
        "0", "+7", "-0", "-7", "007", "", "+", "-", "1a", " 1", "18446744073709551615",
        "18446744073709551616", "9223372036854775807", "9223372036854775808",
        "-9223372036854775808", "-9223372036854775809", "٣",
    ] {
        assert_eq!(parse_u64(s), s.parse::<u64>().ok(), "{s}");
        assert_eq!(parse_i64(s), s.parse::<i64>().ok(), "{s}");
    }
    assert_eq!(parse_bool("true"), Some(true));
    assert_eq!(parse_bool("false"), Some(false));
    assert_eq!(parse_bool("True"), None);
}

#[test]
fn texts_are_put_in_order() {
    let mut v: Vec<String> = Vec::new();
    for s in ["b", "a", "ab", "b", "é", ""] {
        insert_in_order(&mut v, s.to_string());
    }
    assert_eq!(v, vec!["", "a", "ab", "b", "é"]);
    assert!(comes_before("a", "ab") && !comes_before("b", "ab") && !comes_before("a", "a"));
}

#[test]
fn json_is_read_and_written() {
    let text = r#"{"a":[1,-2,2.5,"é",null,true],"b":{}}"#;
    let j = read_json(text).unwrap();
    assert_eq!(write_json(&j), text);
    assert_eq!(write_json_bytes(&j), text.as_bytes());
    assert_eq!(write_json_pretty(&read_json(r#"{"a":1}"#).unwrap()), "{\n  \"a\": 1\n}");
    assert!(read_json("{").is_none());
    assert!(read_json_bytes(&[0xff]).is_none());
    assert_eq!(write_json(&read_json_bytes(b" 7 ").unwrap()), "7");
    let v = to_value(&j);
    assert_eq!(v["a"][2], 2.5);
    assert_eq!(write_json(&from_value(v)), text);
    let twice = Json::Object(vec![
        ("k".to_string(), Json::Null),
        ("k".to_string(), Json::Bool(true)),
    ]);
    assert_eq!(twice.get_bool("k"), Some(true));
    assert_eq!(write_json(&twice), r#"{"k":true}"#);
}

#[test]
fn events_are_read_off_data_lines() {
    let raw = b" data: {\"a\":1} \r\n\nevent: x\ndata: [DONE]\ndata:{}\ndata:  2\xff\ndata: 3";
    let events = read_body_events(raw);
    assert_eq!(events.len(), 2);
    assert_eq!(write_json(&events[0]), r#"{"a":1}"#);
    assert_eq!(write_json(&events[1]), "3");
    let items = read_chunk_items(b"data: [DONE]\ndata: 1\ndata:  [DONE]\n");
    assert_eq!(items.len(), 2);
    assert!(matches!(items[0], StreamItem::Done));
    assert!(matches!(items[1], StreamItem::Event(_)));
}

#[test]
fn bytes_are_copied_and_written_in_hexadecimal() {
    assert_eq!(copy_bytes(&[1, 2]), vec![1, 2]);
    assert_eq!(
        lines_of_bytes(b"a\r\n\n\xffb"),
        vec![b"a\r\n".to_vec(), b"\n".to_vec(), b"\xffb".to_vec()]
    );
    assert!(lines_of_bytes(b"").is_empty());
    let mut pending = b"a".to_vec();
    assert_eq!(take_whole_lines(&mut pending, b"b\nc\nd"), b"ab\nc\n");
    assert_eq!(pending, b"d");
    assert_eq!(take_whole_lines(&mut pending, b"e"), b"");
    assert_eq!(pending, b"de");
    assert_eq!(to_hex(&vec![0, 0xab, 0x0f]), "00ab0f");
}

#[test]
fn the_key_of_unread_text_is_not_read_as_an_object() {
    let text = r#"{"$serde_json::private::RawValue":"[1]"}"#;
    assert_eq!(write_json(&read_json(text).unwrap()), "[1]");
    let j = read_json(r#"{"a":1,"$serde_json::private::RawValue":"[1]"}"#).unwrap();
    assert_eq!(
        write_json(&j),
        r#"{"$serde_json::private::RawValue":"[1]","a":1}"#
    );
    assert!(read_json(&write_json(&j)).is_none());
}

#[test]
fn numbers_that_are_not_integers_keep_their_bits() {
    for text in ["1.5", "-0.0", "1e300", "0.1", "-2.5e-10"] {
        let j = read_json(text).unwrap();
        let bits = text.parse::<f64>().unwrap().to_bits();
        match &j {
            Json::Number(JsonNumber::Float(f)) => {
                assert_eq!(f.to_bits(), bits);
                assert_eq!(f.clone().to_bits(), bits);
            }
            other => panic!("{other:?}"),
        }
        assert_eq!(to_value(&j).as_f64().unwrap().to_bits(), bits);
    }
}
