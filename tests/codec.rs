use chainmaker_contract::codec::{
    EasyCodec, EasyCodecItem, EASY_KEY_TYPE_SYSTEM, EASY_KEY_TYPE_USER, EASY_VALUE_TYPE_BYTES,
    EASY_VALUE_TYPE_INT32, EASY_VALUE_TYPE_STRING,
};
use chainmaker_contract::wire::parse_le_i32;

fn assert_equal_byte(a: &[u8], b: &[u8]) {
    if a.len() != b.len() {
        println!("a \t {:?}", a);
        println!("b \t {:?}", b);
        panic!("not equal")
    }
    for i in 0..a.len() {
        if a[i] != b[i] {
            println!("a \t {:?}", a);
            println!("b \t {:?}", b);
            println!("i {:?} a val={:?} b val={:?}", i, a[i], b[i]);
            panic!("not equal")
        }
    }
}

#[test]
fn base_test() {
    let val: i32 = 12345678;
    let b = val.to_le_bytes();
    let v = b.to_vec();
    let slice = v.as_slice();
    println!("slice {:?}", slice);
    let kv_count = parse_le_i32(slice, 0);
    let index = 4;
    let slice = &slice[index..slice.len()];
    println!("slice {:?}", slice);
    println!("kv_count {:?}", kv_count);
    assert_eq!(kv_count, 12345678);
    assert!(slice.is_empty());

    let iiii = parse_le_i32("1cmec2312".as_bytes(), 1);
    println!("iiii {:?}", iiii);
    assert_eq!(iiii, i32::from_le_bytes(*b"cmec"));
}

#[test]
fn easy_codec_test() {
    let a: i32 = 123;
    let item1 = EasyCodecItem {
        key_type: EASY_KEY_TYPE_USER,
        key: "key1".to_string(),
        value_type: EASY_VALUE_TYPE_INT32,
        value: a.to_le_bytes().to_vec(),
    };

    let bytes = "chainmaker长安链".as_bytes().to_vec();
    let item2 = EasyCodecItem {
        key_type: EASY_KEY_TYPE_USER,
        key: "keyStr".to_string(),
        value_type: EASY_VALUE_TYPE_STRING,
        value: bytes,
    };

    let item3 = EasyCodecItem {
        key_type: EASY_KEY_TYPE_USER,
        key: "bytes".to_string(),
        value_type: EASY_VALUE_TYPE_BYTES,
        value: "222222222222".as_bytes().to_vec(),
    };

    println!("===================marshal start==================");
    let items = vec![item1, item2, item3];
    let ec = EasyCodec::new_with(items);
    let bytes = ec.marshal();
    println!("bytes {:?}", bytes);

    let j = ec.to_json();
    println!("to_json {:?}", j);
    println!("===================marshal end==================");

    println!("===================unmarshal start==================");
    let ec_new = EasyCodec::unmarshal(&bytes);
    let j2 = ec_new.to_json();
    println!("to_json {:?}", j2);
    assert_eq!(j, j2);
    let bytes2 = ec_new.marshal();
    println!("bytes {:?}", bytes2);
    assert_eq!(bytes, bytes2);
    println!("===================unmarshal end==================");

    println!("===================other use start==================");
    let mut ec = EasyCodec::new();
    ec.add_i32("key1", 123);
    ec.add_string("keyStr", "chainmaker长安链");
    ec.add_bytes("bytes", "2".as_bytes().to_vec());
    let bytes = ec.marshal();
    println!("bytes {:?}", bytes);

    let mut ec = EasyCodec::unmarshal(&bytes);
    let bytes = ec.get_bytes("bytes").unwrap();
    let key1 = ec.get_i32("key1").unwrap();
    let key_str = ec.get_string("keyStr").unwrap();

    println!("bytes {:?}", bytes);
    println!("key1 {:?}", key1);
    println!("key_str {:?}", key_str);
    println!("before 【remove】 len {:?}", ec.len());
    assert_eq!(bytes, vec![0x32u8]);
    assert_eq!(key1, 123);
    assert_eq!(key_str, "chainmaker长安链");
    assert_eq!(ec.len(), 3);

    println!("remove key keyStr");
    ec.remove("keyStr");
    let key_str = ec.get_string("keyStr");
    println!("key_str {:?}", key_str);
    println!("after  【remove】 len {:?}", ec.len());
    assert_eq!(key_str, Err("not found".to_string()));
    assert_eq!(ec.len(), 2);

    println!("===================other use end==================");
    println!("========json test start=========");
    let mut ec = EasyCodec::new();
    ec.add_i32("key1", 123);
    ec.add_string("keyStr", "chainmaker长安链{\"name\":\"abcd\"}");
    ec.add_bytes("bytes", "2".as_bytes().to_vec());
    let j = ec.to_json();
    println!("json: \n{:?}", j);
    assert_eq!(
        j,
        "{\"key1\":123,\"keyStr\":\"chainmaker长安链{\\\"name\\\":\\\"abcd\\\"}\",\"bytes\":\"Mg==\"}"
    );
    println!("========json test end==========");
}

#[test]
fn easy_codec_field_test() {
    let origin1: [u8; 174] = [
        99, 109, 101, 99, 118, 49, 46, 48, 255, 255, 255, 255, 255, 255, 255, 255, 3, 0, 0, 0,
        1, 0, 0, 0, 8, 0, 0, 0, 107, 101, 121, 66, 121, 116, 101, 115, 2, 0, 0, 0, 40, 0, 0, 0,
        99, 104, 97, 105, 110, 109, 97, 107, 101, 114, 233, 149, 191, 229, 174, 137, 233, 147,
        190, 33, 64, 35, 36, 37, 94, 38, 42, 40, 41, 95, 43, 45, 61, 123, 125, 124, 58, 63, 62,
        60, 1, 0, 0, 0, 8, 0, 0, 0, 107, 101, 121, 73, 110, 116, 51, 50, 0, 0, 0, 0, 4, 0, 0,
        0, 21, 205, 91, 7, 1, 0, 0, 0, 6, 0, 0, 0, 107, 101, 121, 83, 116, 114, 1, 0, 0, 0, 40,
        0, 0, 0, 99, 104, 97, 105, 110, 109, 97, 107, 101, 114, 233, 149, 191, 229, 174, 137,
        233, 147, 190, 33, 64, 35, 36, 37, 94, 38, 42, 40, 41, 95, 43, 45, 61, 123, 125, 124,
        58, 63, 62, 60,
    ];

    let origin2: [u8; 158] = [
        3, 0, 0, 0, 1, 0, 0, 0, 8, 0, 0, 0, 107, 101, 121, 66, 121, 116, 101, 115, 2, 0, 0, 0,
        40, 0, 0, 0, 99, 104, 97, 105, 110, 109, 97, 107, 101, 114, 233, 149, 191, 229, 174,
        137, 233, 147, 190, 33, 64, 35, 36, 37, 94, 38, 42, 40, 41, 95, 43, 45, 61, 123, 125,
        124, 58, 63, 62, 60, 1, 0, 0, 0, 8, 0, 0, 0, 107, 101, 121, 73, 110, 116, 51, 50, 0, 0,
        0, 0, 4, 0, 0, 0, 21, 205, 91, 7, 1, 0, 0, 0, 6, 0, 0, 0, 107, 101, 121, 83, 116, 114,
        1, 0, 0, 0, 40, 0, 0, 0, 99, 104, 97, 105, 110, 109, 97, 107, 101, 114, 233, 149, 191,
        229, 174, 137, 233, 147, 190, 33, 64, 35, 36, 37, 94, 38, 42, 40, 41, 95, 43, 45, 61,
        123, 125, 124, 58, 63, 62, 60,
    ];

    let str_val = "chainmaker长安链!@#$%^&*()_+-={}|:?><";
    let mut ec = EasyCodec::new();
    ec.add_bytes("keyBytes", str_val.as_bytes().to_vec());
    ec.add_i32("keyInt32", 123456789);
    ec.add_string("keyStr", str_val);
    println!("{:?}", ec.to_json());
    let data = ec.marshal();

    let ec1 = EasyCodec::new_with_bytes(&origin1.to_vec());
    assert_equal_byte(data.as_slice(), ec1.marshal().as_slice());

    let ec2 = EasyCodec::new_with_bytes(&origin2.to_vec());
    assert_equal_byte(data.as_slice(), ec2.marshal().as_slice());
}

fn sample() -> EasyCodec {
    let mut ec = EasyCodec::new();
    ec.add_i32("key1", 123);
    ec.add_string("keyStr", "abc");
    ec.add_bytes("bytes", vec![0x32]);
    ec
}

#[test]
fn example_vectors_decode() {
    let bytes = sample().marshal();
    let ec = EasyCodec::unmarshal(&bytes);
    assert_eq!(ec.get_i32("key1"), Ok(123));
    assert_eq!(ec.get_string("keyStr"), Ok("abc".to_string()));
    assert_eq!(ec.get_bytes("bytes"), Ok(vec![0x32]));
}

#[test]
fn marshal_exact_layout() {
    let mut ec = EasyCodec::new();
    ec.add_i32("k", -2);
    let bytes = ec.marshal();
    let expected: Vec<u8> = vec![
        99, 109, 101, 99, 118, 49, 46, 48, 255, 255, 255, 255, 255, 255, 255, 255, // header
        1, 0, 0, 0, // count
        1, 0, 0, 0, 1, 0, 0, 0, b'k', // USER key "k"
        0, 0, 0, 0, 4, 0, 0, 0, 254, 255, 255, 255, // INT32 -2
    ];
    assert_eq!(bytes, expected);
    assert_eq!(EasyCodec::new().marshal().len(), 20);
}

#[test]
fn round_trip_keeps_order_and_bytes() {
    let mut ec = EasyCodec::new();
    ec.add_val(EASY_KEY_TYPE_SYSTEM, "z", EASY_VALUE_TYPE_BYTES, vec![0, 255, 7]);
    ec.add_string("a", "héllo");
    ec.add_i32("m", i32::MIN);
    ec.add_bytes("z", vec![]);
    let back = EasyCodec::unmarshal(&ec.marshal());
    assert_eq!(back.len(), 4);
    let a = ec.get_items();
    let b = back.get_items();
    for i in 0..4 {
        assert_eq!(a[i].key_type, b[i].key_type);
        assert_eq!(a[i].key, b[i].key);
        assert_eq!(a[i].value_type, b[i].value_type);
        assert_eq!(a[i].value, b[i].value);
    }
    assert_eq!(back.get_i32("m"), Ok(i32::MIN));
    assert_eq!(back.get_bytes("z"), Ok(vec![0, 255, 7]));
}

#[test]
fn headerless_decodes_like_headed() {
    let full = sample().marshal();
    let body = full[16..].to_vec();
    let a = EasyCodec::unmarshal(&body);
    let b = EasyCodec::unmarshal(&full);
    assert_eq!(a.len(), 3);
    assert_eq!(a.marshal(), b.marshal());
}

#[test]
fn short_input_is_empty() {
    assert_eq!(EasyCodec::unmarshal(&vec![]).len(), 0);
    assert_eq!(EasyCodec::unmarshal(&vec![1, 0, 0, 0]).len(), 0);
    let twenty = EasyCodec::new().marshal();
    assert_eq!(twenty.len(), 20);
    assert_eq!(EasyCodec::unmarshal(&twenty).len(), 0);
    // a whole record in 20 bytes, without header: still too short
    let mut body: Vec<u8> = vec![1, 0, 0, 0];
    body.extend_from_slice(&[1, 0, 0, 0, 0, 0, 0, 0, 2, 0, 0, 0, 0, 0, 0, 0]);
    assert_eq!(body.len(), 20);
    assert_eq!(EasyCodec::unmarshal(&body).len(), 0);
}

#[test]
fn count_cap_gives_empty() {
    let mut one = EasyCodec::new();
    one.add_i32("k", 1);
    let mut bytes = one.marshal();
    bytes[16] = 129;
    assert_eq!(EasyCodec::unmarshal(&bytes).len(), 0);
    bytes[16] = 128;
    // 128 declared, one present: the second record is missing, so nothing decodes
    assert_eq!(EasyCodec::unmarshal(&bytes).len(), 0);
    bytes[16] = 1;
    assert_eq!(EasyCodec::unmarshal(&bytes).len(), 1);
}

#[test]
fn damaged_header_gives_empty() {
    let mut bytes = sample().marshal();
    bytes[10] = 0;
    assert_eq!(EasyCodec::unmarshal(&bytes).len(), 0);
}

#[test]
fn unknown_key_type_is_skipped() {
    let mut ec = EasyCodec::new();
    ec.add_val(7, "skip", EASY_VALUE_TYPE_STRING, "xyz".as_bytes().to_vec());
    ec.add_i32("after", 5);
    ec.add_val(-1, "skip2", EASY_VALUE_TYPE_BYTES, vec![1, 2, 3, 4, 5, 6, 7, 8, 9]);
    ec.add_string("last", "ok");
    let back = EasyCodec::unmarshal(&ec.marshal());
    assert_eq!(back.len(), 2);
    assert_eq!(back.get_i32("after"), Ok(5));
    assert_eq!(back.get_string("last"), Ok("ok".to_string()));
    assert!(back.get_bytes("skip2").is_err());
}

#[test]
fn truncated_record_gives_empty() {
    let mut bytes = sample().marshal();
    bytes.truncate(bytes.len() - 1);
    assert_eq!(EasyCodec::unmarshal(&bytes).len(), 0);
}

#[test]
fn invalid_utf8_key_gives_empty() {
    let mut ec = EasyCodec::new();
    ec.add_i32("ab", 1);
    ec.add_i32("cd", 2);
    let mut bytes = ec.marshal();
    // first key byte of the first record
    bytes[28] = 0xFF;
    assert_eq!(EasyCodec::unmarshal(&bytes).len(), 0);
}

#[test]
fn lookup_errors_are_distinct() {
    let ec = sample();
    assert_eq!(ec.get_i32("nope"), Err("not found".to_string()));
    assert_eq!(ec.get_i32("keyStr"), Err("value type not i32".to_string()));
    assert_eq!(ec.get_string("bytes"), Err("value type not string".to_string()));
    assert_eq!(ec.get_bytes("key1"), Err("value type not bytes".to_string()));
    assert_eq!(ec.get_bytes("nope"), Err("not found".to_string()));
    assert_eq!(ec.get_string("nope"), Err("not found".to_string()));
}

#[test]
fn bytes_as_text() {
    let mut ec = EasyCodec::new();
    ec.add_bytes("t", "长安".as_bytes().to_vec());
    ec.add_bytes("bad", vec![0xC3]);
    ec.add_i32("n", 1);
    assert_eq!(ec.get_bytes_as_utf8_string("t"), Ok("长安".to_string()));
    assert_eq!(ec.get_bytes_as_utf8_string("bad"), Err("not found utf-8 bytes".to_string()));
    assert_eq!(ec.get_bytes_as_utf8_string("n"), Err("value type is not bytes".to_string()));
    assert_eq!(ec.get_bytes_as_utf8_string("x"), Err("not found".to_string()));
}

#[test]
fn duplicate_keys_first_wins_and_remove_first() {
    let mut ec = EasyCodec::new();
    ec.add_i32("k", 1);
    ec.add_i32("k", 2);
    assert_eq!(ec.get_i32("k"), Ok(1));
    ec.remove("k");
    assert_eq!(ec.get_i32("k"), Ok(2));
    ec.remove("absent");
    assert_eq!(ec.len(), 1);
    ec.remove("k");
    assert_eq!(ec.len(), 0);
}

#[test]
fn item_getters() {
    let item = EasyCodecItem {
        key_type: EASY_KEY_TYPE_USER,
        key: "k".to_string(),
        value_type: EASY_VALUE_TYPE_INT32,
        value: vec![0x15, 0xCD, 0x5B, 0x07],
    };
    assert_eq!(item.get_int(), Ok(123456789));
    assert_eq!(item.get_string(), Err("value type not string".to_string()));
    assert_eq!(item.get_bytes(), Err("value type not bytes".to_string()));
    let mut ec = EasyCodec::new();
    ec.put_item(item);
    assert_eq!(ec.get_items().len(), 1);
}

#[test]
fn json_empty_and_escape() {
    assert_eq!(EasyCodec::new().to_json(), "{}");
    let mut ec = EasyCodec::new();
    ec.add_string("q", "say \"hi\"");
    assert_eq!(ec.to_json(), "{\"q\":\"say \\\"hi\\\"\"}");
}

#[test]
fn json_numbers_and_base64() {
    let mut ec = EasyCodec::new();
    ec.add_i32("neg", -42);
    ec.add_bytes("b", vec![1, 2, 3, 4]);
    ec.add_val(EASY_KEY_TYPE_USER, "other", 9, vec![1]);
    assert_eq!(ec.to_json(), "{\"neg\":-42,\"b\":\"AQIDBA==\",\"other\":}");
}
