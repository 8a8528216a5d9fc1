use sudo_plugin::option_map::{OptionMap, RawOption, ValueError};
use sudo_plugin::text::{render_decimal, COLON};

fn make_entry(key: &[u8], value: &[u8]) -> Vec<u8> {
    RawOption { key: key.to_vec(), value: Some(value.to_vec()) }.to_bytes()
}

fn table_from(lines: &[&[u8]]) -> OptionMap {
    let entries: Vec<Vec<u8>> = lines.iter().map(|l| l.to_vec()).collect();
    OptionMap::from_entries(&entries)
}

#[test]
fn an_entry_is_split_at_its_first_equals_sign_only() {
    let o = RawOption::parse(b"key=value");
    assert_eq!(o.key, b"key".to_vec());
    assert_eq!(o.value, Some(b"value".to_vec()));
    let o = RawOption::parse(b"a=b=c");
    assert_eq!(o.key, b"a".to_vec());
    assert_eq!(o.value, Some(b"b=c".to_vec()));
    assert_eq!(o.value_or_key(), &b"b=c".to_vec());
}

#[test]
fn a_bare_entry_has_no_value_and_reads_as_its_key() {
    let o = RawOption::parse(b"disabled");
    assert_eq!(o.key, b"disabled".to_vec());
    assert_eq!(o.value, None);
    assert_eq!(o.value_or_key(), &b"disabled".to_vec());
}

#[test]
fn empty_keys_and_empty_values_are_kept_as_they_are() {
    let o = RawOption::parse(b"key=");
    assert_eq!(o.key, b"key".to_vec());
    assert_eq!(o.value, Some(Vec::new()));
    assert_eq!(o.value_or_key(), &Vec::<u8>::new());
    let o = RawOption::parse(b"=value");
    assert_eq!(o.key, Vec::<u8>::new());
    assert_eq!(o.value, Some(b"value".to_vec()));
    let o = RawOption::parse(b"");
    assert_eq!(o.key, Vec::<u8>::new());
    assert_eq!(o.value, None);
    let o = RawOption::parse(b"=");
    assert_eq!(o.key, Vec::<u8>::new());
    assert_eq!(o.value, Some(Vec::new()));
}

#[test]
fn an_empty_list_gives_an_empty_table() {
    let t = table_from(&[]);
    assert!(!t.contains_key(b"anything"));
    assert_eq!(t.get_bytes(b"anything"), None);
    assert_eq!(t.get_bool("anything"), Err(ValueError::Missing));
    let n = OptionMap::new();
    assert!(!n.contains_key(b""));
    assert_eq!(n.get_bytes(b""), None);
}

#[test]
fn the_table_holds_each_entry_under_its_key() {
    let t = table_from(&[b"uid=1000", b"cwd=/home/a=b", b"login_shell"]);
    assert!(t.contains_key(b"uid"));
    assert!(t.contains_key(b"cwd"));
    assert!(t.contains_key(b"login_shell"));
    assert!(!t.contains_key(b"gid"));
    assert!(!t.contains_key(b"uid=1000"));
    assert_eq!(t.get_bytes(b"uid"), Some(&b"1000".to_vec()));
    assert_eq!(t.get_bytes(b"cwd"), Some(&b"/home/a=b".to_vec()));
    assert_eq!(t.get_bytes(b"login_shell"), Some(&b"login_shell".to_vec()));
    assert_eq!(t.get_bytes(b"gid"), None);
}

#[test]
fn the_last_entry_with_a_key_wins() {
    let t = table_from(&[b"uid=1", b"gid=5", b"uid=2", b"uid=3"]);
    assert_eq!(t.get_u32("uid"), Ok(3));
    assert_eq!(t.get_u32("gid"), Ok(5));
    let t = table_from(&[b"flag=false", b"flag"]);
    assert_eq!(t.get_bool("flag"), Ok(true));
    let t = table_from(&[b"flag", b"flag=false"]);
    assert_eq!(t.get_bool("flag"), Ok(false));
}

#[test]
fn with_option_replaces_an_entry_with_the_same_key() {
    let t = OptionMap::new()
        .with_option(RawOption::parse(b"a=1"))
        .with_option(RawOption::parse(b"b=2"))
        .with_option(RawOption::parse(b"a=3"));
    assert_eq!(t.get_u32("a"), Ok(3));
    assert_eq!(t.get_u32("b"), Ok(2));
    assert_eq!(t.get_u32("c"), Err(ValueError::Missing));
    let t = t.with_option(RawOption { key: b"c".to_vec(), value: None });
    assert_eq!(t.get_bytes(b"c"), Some(&b"c".to_vec()));
}

#[test]
fn bare_flag_and_flag_equals_flag_read_alike() {
    let bare = table_from(&[b"flag"]);
    let explicit = table_from(&[b"flag=flag"]);
    assert_eq!(bare.get_bytes(b"flag"), explicit.get_bytes(b"flag"));
    assert_eq!(bare.get_bool("flag"), Ok(true));
    assert_eq!(explicit.get_bool("flag"), Ok(true));
    assert_eq!(bare.get_string("flag"), Ok("flag".to_string()));
    assert_eq!(explicit.get_string("flag"), Ok("flag".to_string()));
    assert_eq!(bare.get_path("flag"), explicit.get_path("flag"));
    assert_eq!(bare.get_u32("flag"), explicit.get_u32("flag"));
    assert_eq!(bare.get_u64("flag"), explicit.get_u64("flag"));
    assert_eq!(bare.get_id_list("flag"), explicit.get_id_list("flag"));
    assert_eq!(bare.get_path_list("flag", COLON), explicit.get_path_list("flag", COLON));
}

#[test]
fn bare_number_reads_as_that_number() {
    let bare = table_from(&[b"42"]);
    let explicit = table_from(&[b"42=42"]);
    assert_eq!(bare.get_u32("42"), Ok(42));
    assert_eq!(explicit.get_u32("42"), Ok(42));
}

#[test]
fn get_string_decodes_text_and_refuses_what_is_not_text() {
    let t = table_from(&[
        b"progname=sudo",
        b"prompt=caf\xc3\xa9 \xe2\x82\xac",
        b"bad=\xff\xfe",
        b"cut=\xc3",
    ]);
    assert_eq!(t.get_string("progname"), Ok("sudo".to_string()));
    assert_eq!(t.get_string("prompt"), Ok("caf\u{e9} \u{20ac}".to_string()));
    assert_eq!(t.get_string("bad"), Err(ValueError::Malformed));
    assert_eq!(t.get_string("cut"), Err(ValueError::Malformed));
    assert_eq!(t.get_string("absent"), Err(ValueError::Missing));
    let empty = table_from(&[b"prompt="]);
    assert_eq!(empty.get_string("prompt"), Ok(String::new()));
}

#[test]
fn get_path_takes_any_bytes() {
    let t = table_from(&[b"cwd=/tmp/\xff\xfe", b"tty="]);
    assert_eq!(t.get_path("cwd"), Ok(b"/tmp/\xff\xfe".to_vec()));
    assert_eq!(t.get_path("tty"), Ok(Vec::new()));
    assert_eq!(t.get_path("absent"), Err(ValueError::Missing));
}

#[test]
fn get_bool_reads_true_false_and_bare_presence() {
    let t = table_from(&[b"a=true", b"b=false", b"c", b"d=yes", b"e=", b"f=c"]);
    assert_eq!(t.get_bool("a"), Ok(true));
    assert_eq!(t.get_bool("b"), Ok(false));
    assert_eq!(t.get_bool("c"), Ok(true));
    assert_eq!(t.get_bool("d"), Err(ValueError::Malformed));
    assert_eq!(t.get_bool("e"), Err(ValueError::Malformed));
    assert_eq!(t.get_bool("f"), Err(ValueError::Malformed));
    assert_eq!(t.get_bool("g"), Err(ValueError::Missing));
}

#[test]
fn get_u32_and_get_u64_read_decimal_numbers() {
    let t = table_from(&[
        b"uid=1000",
        b"big=4294967296",
        b"huge=18446744073709551616",
        b"neg=-1",
        b"none=",
        b"max32=4294967295",
        b"max64=18446744073709551615",
    ]);
    assert_eq!(t.get_u32("uid"), Ok(1000));
    assert_eq!(t.get_u64("uid"), Ok(1000));
    assert_eq!(t.get_u32("max32"), Ok(u32::MAX));
    assert_eq!(t.get_u32("big"), Err(ValueError::Malformed));
    assert_eq!(t.get_u64("big"), Ok(4294967296));
    assert_eq!(t.get_u64("max64"), Ok(u64::MAX));
    assert_eq!(t.get_u64("huge"), Err(ValueError::Malformed));
    assert_eq!(t.get_u32("neg"), Err(ValueError::Malformed));
    assert_eq!(t.get_u64("neg"), Err(ValueError::Malformed));
    assert_eq!(t.get_u32("none"), Err(ValueError::Malformed));
    assert_eq!(t.get_u32("absent"), Err(ValueError::Missing));
    assert_eq!(t.get_u64("absent"), Err(ValueError::Missing));
}

#[test]
fn get_id_list_reads_comma_separated_ids() {
    let t = table_from(&[b"groups=10,20,30", b"one=7", b"bad=10,x", b"empty=", b"gap=1,,2"]);
    assert_eq!(t.get_id_list("groups"), Ok(vec![10, 20, 30]));
    assert_eq!(t.get_id_list("one"), Ok(vec![7]));
    assert_eq!(t.get_id_list("bad"), Err(ValueError::Malformed));
    assert_eq!(t.get_id_list("empty"), Err(ValueError::Malformed));
    assert_eq!(t.get_id_list("gap"), Err(ValueError::Malformed));
    assert_eq!(t.get_id_list("absent"), Err(ValueError::Missing));
}

#[test]
fn get_path_list_splits_at_the_delimiter() {
    let t = table_from(&[b"path=/bin:/usr/bin:/opt/x y", b"single=/bin", b"none="]);
    assert_eq!(
        t.get_path_list("path", COLON),
        Ok(vec![b"/bin".to_vec(), b"/usr/bin".to_vec(), b"/opt/x y".to_vec()])
    );
    assert_eq!(t.get_path_list("single", COLON), Ok(vec![b"/bin".to_vec()]));
    assert_eq!(t.get_path_list("none", COLON), Ok(vec![Vec::new()]));
    assert_eq!(t.get_path_list("absent", COLON), Err(ValueError::Missing));
}

#[test]
fn keys_are_matched_byte_for_byte() {
    let t = table_from(&[b"Uid=1", b"uid =2", b" uid=3"]);
    assert_eq!(t.get_u32("uid"), Err(ValueError::Missing));
    assert_eq!(t.get_u32("Uid"), Ok(1));
    assert_eq!(t.get_u32("uid "), Ok(2));
    assert_eq!(t.get_u32(" uid"), Ok(3));
}

#[test]
fn an_option_is_written_as_key_equals_value_or_bare() {
    assert_eq!(make_entry(b"uid", b"1000"), b"uid=1000".to_vec());
    assert_eq!(make_entry(b"k", b""), b"k=".to_vec());
    assert_eq!(make_entry(b"k", b"a=b"), b"k=a=b".to_vec());
    let bare = RawOption { key: b"debug".to_vec(), value: None };
    assert_eq!(bare.to_bytes(), b"debug".to_vec());
}

#[test]
fn an_option_written_and_split_again_is_the_same_option() {
    for option in [
        RawOption { key: b"uid".to_vec(), value: Some(b"1000".to_vec()) },
        RawOption { key: b"k".to_vec(), value: Some(b"a=b=c".to_vec()) },
        RawOption { key: b"k".to_vec(), value: Some(Vec::new()) },
        RawOption { key: b"bare".to_vec(), value: None },
        RawOption { key: Vec::new(), value: Some(b"x".to_vec()) },
    ] {
        assert_eq!(RawOption::parse(&option.to_bytes()), option);
    }
}

#[test]
fn text_and_paths_are_read_back_exactly() {
    let text = "na\u{ef}ve pr\u{f6}mpt: ";
    let path: &[u8] = b"/home/\xff\xfe odd=dir";
    let entries = vec![
        make_entry(b"other", b"x"),
        make_entry(b"prompt", text.as_bytes()),
        make_entry(b"cwd", path),
        make_entry(b"more", b"y"),
    ];
    let t = OptionMap::from_entries(&entries);
    assert_eq!(t.get_string("prompt"), Ok(text.to_string()));
    assert_eq!(t.get_path("cwd"), Ok(path.to_vec()));
    assert_eq!(t.get_bytes(b"cwd"), Some(&path.to_vec()));
}

#[test]
fn numbers_and_flags_are_read_back_equal() {
    for n in [0u64, 1, 1000, 4294967295, 4294967296, u64::MAX] {
        let entries = vec![make_entry(b"closefrom", &render_decimal(n))];
        let t = OptionMap::from_entries(&entries);
        assert_eq!(t.get_u64("closefrom"), Ok(n));
        if n <= u32::MAX as u64 {
            assert_eq!(t.get_u32("closefrom"), Ok(n as u32));
        } else {
            assert_eq!(t.get_u32("closefrom"), Err(ValueError::Malformed));
        }
    }
    for on in [true, false] {
        let text: &[u8] = if on { b"true" } else { b"false" };
        let entries = vec![make_entry(b"set_home", text)];
        let t = OptionMap::from_entries(&entries);
        assert_eq!(t.get_bool("set_home"), Ok(on));
    }
}
