//! The self-describing key-value codec: an ordered list of typed records and
//! its flat byte encoding.

use crate::wire::{
    i32_bytes, le_bytes, le_i32_at, lemma_i32_bytes_round_trip, lemma_le_i32_at_subrange,
    lemma_length_round_trip, parse_le_i32, push_le_i32, push_le_u64,
};
use vstd::prelude::*;
use vstd::string::*;
use vstd::utf8::*;

verus! {

/// Who owns a key: the protocol (`EASY_KEY_TYPE_SYSTEM`) or the caller (`EASY_KEY_TYPE_USER`).
pub type EasyKeyType = i32;

/// How a value's bytes are read: `EASY_VALUE_TYPE_INT32`, `EASY_VALUE_TYPE_STRING` or `EASY_VALUE_TYPE_BYTES`.
pub type EasyValueType = i32;

pub const EASY_KEY_TYPE_SYSTEM: EasyKeyType = 0;

pub const EASY_KEY_TYPE_USER: EasyKeyType = 1;

pub const EASY_VALUE_TYPE_INT32: EasyValueType = 0;

pub const EASY_VALUE_TYPE_STRING: EasyValueType = 1;

pub const EASY_VALUE_TYPE_BYTES: EasyValueType = 2;

/// Most records an encoded container may declare; more decodes to an empty container.
pub const PARAMETERS_KEY_MAX_COUNT: i32 = 128;

/// Inputs of at most this many bytes decode to an empty container.
pub const MIN_LEN: usize = 20;

/// One record: a typed key and a typed value.
pub struct EasyCodecItem {
    pub key_type: EasyKeyType,
    pub key: String,
    pub value_type: EasyValueType,
    pub value: Vec<u8>,
}

/// The mathematical content of a record.
pub struct RecordView {
    pub key_type: i32,
    pub key: Seq<char>,
    pub value_type: i32,
    pub value: Seq<u8>,
}

impl View for EasyCodecItem {
    type V = RecordView;

    open spec fn view(&self) -> RecordView {
        RecordView {
            key_type: self.key_type,
            key: self.key@,
            value_type: self.value_type,
            value: self.value@,
        }
    }
}

/// An ordered sequence of records; order is kept and is part of the encoding.
pub struct EasyCodec {
    items: Vec<EasyCodecItem>,
}

/// The records of a vector of items.
pub open spec fn records_of(items: Seq<EasyCodecItem>) -> Seq<RecordView> {
    items.map_values(|i: EasyCodecItem| i@)
}

impl View for EasyCodec {
    type V = Seq<RecordView>;

    closed spec fn view(&self) -> Seq<RecordView> {
        records_of(self.items@)
    }
}

// ---------------------------------------------------------------------------
// Encoding

/// The 16-byte header: magic "cmec", version "v1.0", then 8 reserved bytes of 0xFF.
pub open spec fn header_bytes() -> Seq<u8> {
    seq![99u8, 109u8, 101u8, 99u8, 118u8, 49u8, 46u8, 48u8,
         255u8, 255u8, 255u8, 255u8, 255u8, 255u8, 255u8, 255u8]
}

/// The magic number that opens a header.
pub open spec fn magic_bytes() -> Seq<u8> {
    header_bytes().subrange(0, 4)
}

/// The encoding of one record: key type, key length, key, value type, value length, value.
/// Lengths are written as their low 32 bits.
#[verifier::opaque]
pub open spec fn record_bytes(r: RecordView) -> Seq<u8> {
    i32_bytes(r.key_type as int) + le_bytes(encode_utf8(r.key).len() as int) + encode_utf8(r.key)
        + i32_bytes(r.value_type as int) + le_bytes(r.value.len() as int) + r.value
}

/// The encodings of the records, one after the other.
pub open spec fn records_bytes(rs: Seq<RecordView>) -> Seq<u8>
    decreases rs.len(),
{
    if rs.len() == 0 {
        Seq::empty()
    } else {
        records_bytes(rs.drop_last()) + record_bytes(rs.last())
    }
}

/// The full encoding of a container: header, record count, records.
pub open spec fn marshal_bytes(rs: Seq<RecordView>) -> Seq<u8> {
    header_bytes() + le_bytes(rs.len() as int) + records_bytes(rs)
}


// ---------------------------------------------------------------------------
// Decoding

/// Reads one record at the start of `s`: the record (`None` when its key type is
/// neither SYSTEM nor USER, so that it is skipped) and the number of bytes it spans.
/// `None` when the bytes end early, a length is negative, or a kept key is not UTF-8.
#[verifier::opaque]
pub open spec fn parse_record(s: Seq<u8>) -> Option<(Option<RecordView>, int)> {
    if s.len() < 8 {
        None
    } else {
        let kt = le_i32_at(s, 0);
        let kl = le_i32_at(s, 4);
        if kl < 0 || s.len() < 16 + kl {
            None
        } else {
            let kb = s.subrange(8, 8 + kl);
            let vt = le_i32_at(s, 8 + kl);
            let vl = le_i32_at(s, 12 + kl);
            if vl < 0 || s.len() < 16 + kl + vl {
                None
            } else if kt != EASY_KEY_TYPE_SYSTEM && kt != EASY_KEY_TYPE_USER {
                Some((None, 16 + kl + vl))
            } else if !valid_utf8(kb) {
                None
            } else {
                Some(
                    (
                        Some(
                            RecordView {
                                key_type: kt as i32,
                                key: decode_utf8(kb),
                                value_type: vt as i32,
                                value: s.subrange(16 + kl, 16 + kl + vl),
                            },
                        ),
                        16 + kl + vl,
                    ),
                )
            }
        }
    }
}

/// Reads `n` records one after the other from the start of `s`.
pub open spec fn parse_records(s: Seq<u8>, n: nat) -> Option<Seq<RecordView>>
    decreases n,
{
    if n == 0 {
        Some(Seq::empty())
    } else {
        match parse_record(s) {
            None => None,
            Some((r, used)) => match parse_records(s.subrange(used, s.len() as int), (n - 1) as nat) {
                None => None,
                Some(rest) => Some(
                    match r {
                        Some(x) => seq![x] + rest,
                        None => rest,
                    },
                ),
            },
        }
    }
}

/// Decodes a record count followed by the records; a count above the cap, a
/// count of zero or less, or malformed records give no records at all.
pub open spec fn decode_body(b: Seq<u8>) -> Seq<RecordView> {
    let n = le_i32_at(b, 0);
    if n > PARAMETERS_KEY_MAX_COUNT || n <= 0 {
        Seq::empty()
    } else {
        match parse_records(b.subrange(4, b.len() as int), n as nat) {
            Some(rs) => rs,
            None => Seq::empty(),
        }
    }
}

/// What a byte buffer decodes to. Buffers of at most `MIN_LEN` bytes hold no
/// records. A buffer that opens with the magic number must carry the whole header;
/// one that does not is read from its first byte as count and records.
pub open spec fn unmarshal_records(s: Seq<u8>) -> Seq<RecordView> {
    if s.len() <= MIN_LEN {
        Seq::empty()
    } else if s.subrange(0, 4) == magic_bytes() {
        if s.subrange(0, 16) == header_bytes() {
            decode_body(s.subrange(16, s.len() as int))
        } else {
            Seq::empty()
        }
    } else {
        decode_body(s)
    }
}


// ---------------------------------------------------------------------------
// Lookup

/// The first record whose key is `key`, if any.
pub open spec fn find_record(rs: Seq<RecordView>, key: Seq<char>) -> Option<RecordView>
    decreases rs.len(),
{
    if rs.len() == 0 {
        None
    } else if rs[0].key == key {
        Some(rs[0])
    } else {
        find_record(rs.drop_first(), key)
    }
}

/// The records with the first one whose key is `key` taken out.
pub open spec fn remove_first(rs: Seq<RecordView>, key: Seq<char>) -> Seq<RecordView>
    decreases rs.len(),
{
    if rs.len() == 0 {
        rs
    } else if rs[0].key == key {
        rs.drop_first()
    } else {
        seq![rs[0]] + remove_first(rs.drop_first(), key)
    }
}

/// An INT32 record holds at least the 4 bytes that are read from it.
pub open spec fn int_readable(r: RecordView) -> bool {
    r.value_type == EASY_VALUE_TYPE_INT32 ==> r.value.len() >= 4
}

/// A STRING record holds valid UTF-8.
pub open spec fn text_readable(r: RecordView) -> bool {
    r.value_type == EASY_VALUE_TYPE_STRING ==> valid_utf8(r.value)
}

/// The 32-bit integer that an INT32 value holds: its first 4 bytes, little-endian.
pub open spec fn int_value(r: RecordView) -> i32 {
    le_i32_at(r.value, 0) as i32
}

/// Error text: no record has the key.
pub const ERR_NOT_FOUND: &'static str = "not found";

/// Error text: the record is not INT32.
pub const ERR_NOT_I32: &'static str = "value type not i32";

/// Error text: the record is not STRING.
pub const ERR_NOT_STRING: &'static str = "value type not string";

/// Error text: the record is not BYTES.
pub const ERR_NOT_BYTES: &'static str = "value type not bytes";

/// Error text: the record is not BYTES, when its bytes were asked for as text.
pub const ERR_BYTES_EXPECTED: &'static str = "value type is not bytes";

/// Error text: the BYTES record is not valid UTF-8.
pub const ERR_NOT_UTF8: &'static str = "not found utf-8 bytes";

impl EasyCodecItem {
    /// The value as a 32-bit integer, when the record is INT32.
    pub fn get_int(&self) -> (r: Result<i32, String>)
        requires
            int_readable(self@),
        ensures
            self.value_type == EASY_VALUE_TYPE_INT32 ==> r == Ok::<i32, String>(int_value(self@)),
            self.value_type != EASY_VALUE_TYPE_INT32 ==> (r matches Err(e) && e@ == ERR_NOT_I32@),
    {
        if self.value_type == EASY_VALUE_TYPE_INT32 {
            return Ok(parse_le_i32(self.value.as_slice(), 0));
        }
        Err(ERR_NOT_I32.to_string())
    }

    /// The value as text, when the record is STRING.
    pub fn get_string(&self) -> (r: Result<String, String>)
        requires
            text_readable(self@),
        ensures
            self.value_type == EASY_VALUE_TYPE_STRING ==> (r matches Ok(s) && s@ == decode_utf8(self.value@)),
            self.value_type != EASY_VALUE_TYPE_STRING ==> (r matches Err(e) && e@ == ERR_NOT_STRING@),
    {
        if self.value_type == EASY_VALUE_TYPE_STRING {
            let bytes = copy_range(self.value.as_slice(), 0, self.value.len());
            assert(bytes@ =~= self.value@);
            match string_from_utf8(bytes) {
                Some(s) => {
                    return Ok(s);
                },
                None => {
                    assert(false);
                },
            }
        }
        Err(ERR_NOT_STRING.to_string())
    }

    /// A copy of the value, when the record is BYTES.
    pub fn get_bytes(&self) -> (r: Result<Vec<u8>, String>)
        ensures
            self.value_type == EASY_VALUE_TYPE_BYTES ==> (r matches Ok(b) && b@ == self.value@),
            self.value_type != EASY_VALUE_TYPE_BYTES ==> (r matches Err(e) && e@ == ERR_NOT_BYTES@),
    {
        if self.value_type == EASY_VALUE_TYPE_BYTES {
            let b = copy_range(self.value.as_slice(), 0, self.value.len());
            assert(b@ =~= self.value@);
            return Ok(b);
        }
        Err(ERR_NOT_BYTES.to_string())
    }
}

impl EasyCodec {
    /// An empty container.
    pub fn new() -> (r: EasyCodec)
        ensures
            r@ == Seq::<RecordView>::empty(),
    {
        let r = EasyCodec { items: Vec::new() };
        assert(r@ =~= Seq::<RecordView>::empty());
        r
    }

    /// A container holding `data`, in order.
    pub fn new_with(data: Vec<EasyCodecItem>) -> (r: EasyCodec)
        ensures
            r@ == records_of(data@),
    {
        EasyCodec { items: data }
    }

    /// The number of records.
    pub fn len(&self) -> (r: usize)
        ensures
            r == self@.len(),
    {
        self.items.len()
    }

    /// The records, in order.
    pub fn get_items(&self) -> (r: &Vec<EasyCodecItem>)
        ensures
            records_of(r@) == self@,
    {
        &self.items
    }

    /// Appends `item` at the end.
    pub fn put_item(&mut self, item: EasyCodecItem)
        ensures
            final(self)@ == old(self)@.push(item@),
    {
        self.items.push(item);
        assert(final(self)@ =~= old(self)@.push(item@));
    }

    /// Appends a record with the given types, key and value bytes.
    pub fn add_val(&mut self, key_type: EasyKeyType, key: &str, value_type: EasyValueType, value: Vec<u8>)
        ensures
            final(self)@ == old(self)@.push(
                (RecordView { key_type: key_type, key: key@, value_type: value_type, value: value@ }),
            ),
    {
        let item = EasyCodecItem { key_type, key: key.to_string(), value_type, value };
        self.put_item(item);
    }

    /// Appends a user record holding `val` as a 4-byte little-endian INT32.
    pub fn add_i32(&mut self, key: &str, val: i32)
        ensures
            final(self)@ == old(self)@.push(
                (RecordView {
                    key_type: EASY_KEY_TYPE_USER,
                    key: key@,
                    value_type: EASY_VALUE_TYPE_INT32,
                    value: i32_bytes(val as int),
                }),
            ),
    {
        let mut v: Vec<u8> = Vec::new();
        push_le_i32(&mut v, val);
        assert(v@ =~= i32_bytes(val as int));
        self.add_val(EASY_KEY_TYPE_USER, key, EASY_VALUE_TYPE_INT32, v);
    }

    /// Appends a user record holding the UTF-8 bytes of `val` as a STRING.
    pub fn add_string(&mut self, key: &str, val: &str)
        ensures
            final(self)@ == old(self)@.push(
                (RecordView {
                    key_type: EASY_KEY_TYPE_USER,
                    key: key@,
                    value_type: EASY_VALUE_TYPE_STRING,
                    value: encode_utf8(val@),
                }),
            ),
    {
        let v = val.as_bytes_vec();
        self.add_val(EASY_KEY_TYPE_USER, key, EASY_VALUE_TYPE_STRING, v);
    }

    /// Appends a user record holding `val` as BYTES.
    pub fn add_bytes(&mut self, key: &str, val: Vec<u8>)
        ensures
            final(self)@ == old(self)@.push(
                (RecordView {
                    key_type: EASY_KEY_TYPE_USER,
                    key: key@,
                    value_type: EASY_VALUE_TYPE_BYTES,
                    value: val@,
                }),
            ),
    {
        self.add_val(EASY_KEY_TYPE_USER, key, EASY_VALUE_TYPE_BYTES, val);
    }

    /// Index of the first record whose key is `key`, if any.
    fn position(&self, key: &str) -> (r: Option<usize>)
        ensures
            match r {
                None => find_record(self@, key@) is None,
                Some(i) => i < self@.len() && find_record(self@, key@) == Some(self@[i as int])
                    && self@[i as int].key == key@
                    && remove_first(self@, key@) == self@.remove(i as int),
            },
            r is None ==> remove_first(self@, key@) == self@,
    {
        let key_s = key.to_string();
        let mut i: usize = 0;
        assert(self@.subrange(0, self@.len() as int) =~= self@);
        assert(Seq::<RecordView>::empty() + remove_first(self@, key@) =~= remove_first(self@, key@));
        assert(self@.subrange(0, 0) =~= Seq::<RecordView>::empty());
        while i < self.items.len()
            invariant
                i <= self@.len(),
                key_s@ == key@,
                find_record(self@, key@) == find_record(self@.subrange(i as int, self@.len() as int), key@),
                remove_first(self@, key@) == self@.subrange(0, i as int) + remove_first(
                    self@.subrange(i as int, self@.len() as int),
                    key@,
                ),
            decreases self@.len() - i,
        {
            let ghost rest = self@.subrange(i as int, self@.len() as int);
            assert(rest[0] == self@[i as int]);
            assert(rest.drop_first() =~= self@.subrange(i + 1, self@.len() as int));
            if self.items[i].key == key_s {
                assert(self@.subrange(0, i as int) + rest.drop_first() =~= self@.remove(i as int));
                return Some(i);
            }
            assert(self@.subrange(0, i as int) + (seq![rest[0]] + rest.drop_first())
                =~= self@.subrange(0, i + 1) + rest.drop_first());
            i = i + 1;
        }
        assert(self@.subrange(0, i as int) =~= self@);
        assert(self@ + Seq::<RecordView>::empty() =~= self@);
        None
    }

    /// The INT32 value of the first record with key `key`.
    pub fn get_i32(&self, key: &str) -> (r: Result<i32, String>)
        requires
            find_record(self@, key@) matches Some(rec) ==> int_readable(rec),
        ensures
            match find_record(self@, key@) {
                None => r matches Err(e) && e@ == ERR_NOT_FOUND@,
                Some(rec) => if rec.value_type == EASY_VALUE_TYPE_INT32 {
                    r == Ok::<i32, String>(int_value(rec))
                } else {
                    r matches Err(e) && e@ == ERR_NOT_I32@
                },
            },
    {
        match self.position(key) {
            Some(i) => self.items[i].get_int(),
            None => Err(ERR_NOT_FOUND.to_string()),
        }
    }

    /// The STRING value of the first record with key `key`.
    pub fn get_string(&self, key: &str) -> (r: Result<String, String>)
        requires
            find_record(self@, key@) matches Some(rec) ==> text_readable(rec),
        ensures
            match find_record(self@, key@) {
                None => r matches Err(e) && e@ == ERR_NOT_FOUND@,
                Some(rec) => if rec.value_type == EASY_VALUE_TYPE_STRING {
                    r matches Ok(s) && s@ == decode_utf8(rec.value)
                } else {
                    r matches Err(e) && e@ == ERR_NOT_STRING@
                },
            },
    {
        match self.position(key) {
            Some(i) => self.items[i].get_string(),
            None => Err(ERR_NOT_FOUND.to_string()),
        }
    }

    /// The BYTES value of the first record with key `key`.
    pub fn get_bytes(&self, key: &str) -> (r: Result<Vec<u8>, String>)
        ensures
            match find_record(self@, key@) {
                None => r matches Err(e) && e@ == ERR_NOT_FOUND@,
                Some(rec) => if rec.value_type == EASY_VALUE_TYPE_BYTES {
                    r matches Ok(b) && b@ == rec.value
                } else {
                    r matches Err(e) && e@ == ERR_NOT_BYTES@
                },
            },
    {
        match self.position(key) {
            Some(i) => self.items[i].get_bytes(),
            None => Err(ERR_NOT_FOUND.to_string()),
        }
    }

    /// The BYTES value of the first record with key `key`, read as UTF-8 text.
    pub fn get_bytes_as_utf8_string(&self, key: &str) -> (r: Result<String, String>)
        ensures
            match find_record(self@, key@) {
                None => r matches Err(e) && e@ == ERR_NOT_FOUND@,
                Some(rec) => if rec.value_type != EASY_VALUE_TYPE_BYTES {
                    r matches Err(e) && e@ == ERR_BYTES_EXPECTED@
                } else if !valid_utf8(rec.value) {
                    r matches Err(e) && e@ == ERR_NOT_UTF8@
                } else {
                    r matches Ok(s) && s@ == decode_utf8(rec.value)
                },
            },
    {
        match self.position(key) {
            Some(i) => {
                let val = self.items[i].get_bytes();
                match val {
                    Err(_) => Err(ERR_BYTES_EXPECTED.to_string()),
                    Ok(b) => match string_from_utf8(b) {
                        Some(s) => Ok(s),
                        None => Err(ERR_NOT_UTF8.to_string()),
                    },
                }
            },
            None => Err(ERR_NOT_FOUND.to_string()),
        }
    }

    /// Takes out the first record with key `key`; does nothing when there is none.
    pub fn remove(&mut self, key: &str)
        ensures
            final(self)@ == remove_first(old(self)@, key@),
    {
        match self.position(key) {
            Some(i) => {
                let ghost before = self@;
                self.items.remove(i);
                assert(self@ =~= before.remove(i as int));
            },
            None => {},
        }
    }

    /// Decodes `data`, as `unmarshal` does.
    pub fn new_with_bytes(data: &Vec<u8>) -> (r: EasyCodec)
        ensures
            r@ == unmarshal_records(data@),
    {
        EasyCodec::unmarshal(data)
    }

    /// Decodes `data`. Never fails: input that is too short, carries a damaged
    /// header, declares too many records or ends inside a record gives an empty container.
    #[verifier::rlimit(30)]
    pub fn unmarshal(data: &Vec<u8>) -> (r: EasyCodec)
        ensures
            r@ == unmarshal_records(data@),
    {
        if data.len() <= MIN_LEN {
            return EasyCodec::new();
        }
        let slice = data.as_slice();
        let mut start: usize = 0;
        if slice[0] == 99u8 && slice[1] == 109u8 && slice[2] == 101u8 && slice[3] == 99u8 {
            let mut k: usize = 4;
            while k < 16
                invariant
                    4 <= k <= 16,
                    slice@ == data@,
                    data@.len() > 20,
                    data@.subrange(0, k as int) == header_bytes().subrange(0, k as int),
                decreases 16 - k,
            {
                let expected = header_byte(k);
                if slice[k] != expected {
                    assert(data@.subrange(0, 16)[k as int] != header_bytes()[k as int]);
                    assert(data@.subrange(0, 4) =~= magic_bytes());
                    return EasyCodec::new();
                }
                assert(data@.subrange(0, k + 1) =~= header_bytes().subrange(0, k + 1)) by {
                    assert(data@.subrange(0, k as int) =~= header_bytes().subrange(0, k as int));
                }
                k = k + 1;
            }
            assert(data@.subrange(0, 4) =~= magic_bytes());
            assert(data@.subrange(0, 16) =~= header_bytes());
            start = 16;
        } else {
            assert(data@.subrange(0, 4) != magic_bytes()) by {
                if data@.subrange(0, 4) == magic_bytes() {
                    assert(data@.subrange(0, 4)[0] == data@[0]);
                    assert(data@.subrange(0, 4)[1] == data@[1]);
                    assert(data@.subrange(0, 4)[2] == data@[2]);
                    assert(data@.subrange(0, 4)[3] == data@[3]);
                }
            }
        }
        let ghost body = data@.subrange(start as int, data@.len() as int);
        let kv_count = parse_le_i32(slice, start);
        assert(le_i32_at(body, 0) == le_i32_at(data@, start as int));
        if kv_count > PARAMETERS_KEY_MAX_COUNT || kv_count <= 0 {
            return EasyCodec::new();
        }
        let ghost records_start = (start + 4) as int;
        assert(body.subrange(4, body.len() as int) =~= data@.subrange(records_start, data@.len() as int));
        assert(unmarshal_records(data@) == match parse_records(
            data@.subrange(records_start, data@.len() as int),
            kv_count as nat,
        ) {
            Some(rs) => rs,
            None => Seq::<RecordView>::empty(),
        });
        let mut items: Vec<EasyCodecItem> = Vec::new();
        let mut index: usize = start + 4;
        let mut done: i32 = 0;
        while done < kv_count
            invariant
                0 <= done <= kv_count <= PARAMETERS_KEY_MAX_COUNT,
                records_start <= index <= data@.len(),
                unmarshal_records(data@) == match parse_records(
                    data@.subrange(records_start, data@.len() as int),
                    kv_count as nat,
                ) {
                    Some(rs) => rs,
                    None => Seq::<RecordView>::empty(),
                },
                parse_records(data@.subrange(records_start, data@.len() as int), kv_count as nat)
                    == match parse_records(data@.subrange(index as int, data@.len() as int), (kv_count - done) as nat) {
                        None => None,
                        Some(rest) => Some(records_of(items@) + rest),
                    },
            decreases kv_count - done,
        {
            let ghost tail = data@.subrange(index as int, data@.len() as int);
            let ghost n = (kv_count - done) as nat;
            let read = read_record(data, index);
            match read {
                None => {
                    assert(parse_records(tail, n) == None::<Seq<RecordView>>);
                    return EasyCodec::new();
                }
                Some((rec, next)) => {
                    assert(index <= next);
                    assert(next <= data@.len());
                    let ghost used = next - index;
                    assert(tail.subrange(used, tail.len() as int) =~= data@.subrange(next as int, data@.len() as int));
                    let ghost old_items = records_of(items@);
                    match rec {
                        Some(item) => {
                            items.push(item);
                            proof {
                                assert(records_of(items@) =~= old_items.push(item@));
                                match parse_records(data@.subrange(next as int, data@.len() as int), (n - 1) as nat) {
                                    None => {},
                                    Some(rest) => {
                                        assert(old_items + (seq![item@] + rest) =~= records_of(items@) + rest);
                                    },
                                }
                            }
                        },
                        None => {},
                    }
                    index = next;
                    done = done + 1;
                }
            }
        }
        assert(data@.subrange(index as int, data@.len() as int).subrange(0, 0) =~= Seq::<u8>::empty());
        assert(records_of(items@) + Seq::<RecordView>::empty() =~= records_of(items@));
        EasyCodec::new_with(items)
    }

    /// The full encoding: header, record count, then each record in order.
    pub fn marshal(&self) -> (r: Vec<u8>)
        ensures
            r@ == marshal_bytes(self@),
    {
        let mut out: Vec<u8> = Vec::new();
        push_header(&mut out);
        push_le_u64(&mut out, self.items.len() as u64);
        let mut i: usize = 0;
        while i < self.items.len()
            invariant
                i <= self.items@.len(),
                out@ == header_bytes() + le_bytes(self@.len() as int) + records_bytes(
                    self@.subrange(0, i as int),
                ),
            decreases self.items@.len() - i,
        {
            let item = &self.items[i];
            let ghost before = out@;
            push_le_i32(&mut out, item.key_type);
            let kb = item.key.as_str().as_bytes();
            push_le_u64(&mut out, kb.len() as u64);
            append_bytes(&mut out, kb);
            push_le_i32(&mut out, item.value_type);
            push_le_u64(&mut out, item.value.len() as u64);
            append_bytes(&mut out, item.value.as_slice());
            proof {
                reveal(record_bytes);
                let s = self@.subrange(0, i + 1);
                assert(s.drop_last() =~= self@.subrange(0, i as int));
                assert(s.last() == item@);
                assert(out@ =~= before + record_bytes(item@));
            }
            i = i + 1;
        }
        assert(self@.subrange(0, self@.len() as int) =~= self@);
        out
    }
}

/// Reads the record that starts at `index` of `data`, as `parse_record` says,
/// with the index just past it.
fn read_record(data: &Vec<u8>, index: usize) -> (r: Option<(Option<EasyCodecItem>, usize)>)
    requires
        index <= data@.len(),
    ensures
        match parse_record(data@.subrange(index as int, data@.len() as int)) {
            None => r is None,
            Some((rec, used)) => match r {
                None => false,
                Some((item, next)) => next == index + used && index <= next <= data@.len() && match rec {
                    None => item is None,
                    Some(x) => item is Some && item->0@ == x,
                },
            },
        },
{
    let ghost s = data@.subrange(index as int, data@.len() as int);
    reveal(parse_record);
    let slice = data.as_slice();
    let remaining = data.len() - index;
    if remaining < 8 {
        return None;
    }
    let key_type = parse_le_i32(slice, index);
    let key_len = parse_le_i32(slice, index + 4);
    assert(le_i32_at(s, 0) == le_i32_at(data@, index as int));
    assert(le_i32_at(s, 4) == le_i32_at(data@, index + 4));
    if key_len < 0 || remaining < 16 || remaining - 16 < key_len as usize {
        return None;
    }
    let kl = key_len as usize;
    let value_type = parse_le_i32(slice, index + 8 + kl);
    let value_len = parse_le_i32(slice, index + 12 + kl);
    assert(le_i32_at(s, 8 + kl) == le_i32_at(data@, index + 8 + kl));
    assert(le_i32_at(s, 12 + kl) == le_i32_at(data@, index + 12 + kl));
    if value_len < 0 || remaining - 16 - kl < value_len as usize {
        return None;
    }
    let vl = value_len as usize;
    let next = index + 16 + kl + vl;
    if key_type != EASY_KEY_TYPE_SYSTEM && key_type != EASY_KEY_TYPE_USER {
        return Some((None, next));
    }
    let key_bytes = copy_range(slice, index + 8, index + 8 + kl);
    assert(key_bytes@ =~= s.subrange(8, 8 + kl));
    let key = match string_from_utf8(key_bytes) {
        Some(k) => k,
        None => {
            return None;
        }
    };
    let value = copy_range(slice, index + 16 + kl, next);
    assert(value@ =~= s.subrange(16 + kl, 16 + kl + vl));
    Some((Some(EasyCodecItem { key_type, key, value_type, value }), next))
}

/// The bytes of `s` from `start` up to `end`.
pub(crate) fn copy_range(s: &[u8], start: usize, end: usize) -> (r: Vec<u8>)
    requires
        start <= end <= s@.len(),
    ensures
        r@ == s@.subrange(start as int, end as int),
{
    let mut r: Vec<u8> = Vec::new();
    let mut i: usize = start;
    while i < end
        invariant
            start <= i <= end <= s@.len(),
            r@ == s@.subrange(start as int, i as int),
        decreases end - i,
    {
        r.push(s[i]);
        i = i + 1;
        assert(r@ =~= s@.subrange(start as int, i as int));
    }
    r
}

/// Relies on `String::from_utf8`: it succeeds exactly on valid UTF-8 and then
/// holds the characters that the bytes encode.
#[verifier::external_body]
pub(crate) fn string_from_utf8(b: Vec<u8>) -> (r: Option<String>)
    ensures
        r is Some <==> valid_utf8(b@),
        r is Some ==> r->0@ == decode_utf8(b@),
{
    String::from_utf8(b).ok()
}

/// The header byte at position `k`.
fn header_byte(k: usize) -> (r: u8)
    requires
        k < 16,
    ensures
        r == header_bytes()[k as int],
{
    if k == 0 {
        99u8
    } else if k == 1 {
        109u8
    } else if k == 2 {
        101u8
    } else if k == 3 {
        99u8
    } else if k == 4 {
        118u8
    } else if k == 5 {
        49u8
    } else if k == 6 {
        46u8
    } else if k == 7 {
        48u8
    } else {
        assert(header_bytes().subrange(8, 16) =~= seq![255u8, 255u8, 255u8, 255u8, 255u8, 255u8, 255u8, 255u8]);
        assert(header_bytes()[k as int] == header_bytes().subrange(8, 16)[k - 8]);
        255u8
    }
}

/// Appends the 16 header bytes.
fn push_header(out: &mut Vec<u8>)
    ensures
        final(out)@ == old(out)@ + header_bytes(),
{
    out.push(99u8);
    out.push(109u8);
    out.push(101u8);
    out.push(99u8);
    out.push(118u8);
    out.push(49u8);
    out.push(46u8);
    out.push(48u8);
    let mut k: usize = 0;
    while k < 8
        invariant
            k <= 8,
            out@ =~= old(out)@ + header_bytes().subrange(0, 8 + k as int),
        decreases 8 - k,
    {
        out.push(255u8);
        k = k + 1;
        assert(out@ =~= old(out)@ + header_bytes().subrange(0, 8 + k as int));
    }
    assert(header_bytes().subrange(0, 16) =~= header_bytes());
}

/// Appends every byte of `s`.
pub fn append_bytes(out: &mut Vec<u8>, s: &[u8])
    ensures
        final(out)@ == old(out)@ + s@,
{
    let ghost start = out@;
    let mut i: usize = 0;
    while i < s.len()
        invariant
            i <= s@.len(),
            out@ == start + s@.subrange(0, i as int),
        decreases s@.len() - i,
    {
        out.push(s[i]);
        i = i + 1;
        assert(out@ =~= start + s@.subrange(0, i as int));
    }
    assert(s@.subrange(0, s@.len() as int) =~= s@);
}

// ---------------------------------------------------------------------------
// Laws

/// The key type is one that decoding keeps: SYSTEM or USER.
pub open spec fn known_key_type(r: RecordView) -> bool {
    r.key_type == EASY_KEY_TYPE_SYSTEM || r.key_type == EASY_KEY_TYPE_USER
}

/// Key and value lengths fit the signed 4-byte length fields.
pub open spec fn fits_fields(r: RecordView) -> bool {
    encode_utf8(r.key).len() <= i32::MAX && r.value.len() <= i32::MAX
}

/// A record that survives encoding and decoding unchanged.
pub open spec fn encodable(r: RecordView) -> bool {
    known_key_type(r) && fits_fields(r)
}

/// The records that decoding keeps, in order: those with a known key type.
pub open spec fn kept_records(rs: Seq<RecordView>) -> Seq<RecordView>
    decreases rs.len(),
{
    if rs.len() == 0 {
        rs
    } else if known_key_type(rs[0]) {
        seq![rs[0]] + kept_records(rs.drop_first())
    } else {
        kept_records(rs.drop_first())
    }
}

/// Keeping records works piece by piece.
pub proof fn lemma_kept_concat(a: Seq<RecordView>, b: Seq<RecordView>)
    ensures
        kept_records(a + b) == kept_records(a) + kept_records(b),
    decreases a.len(),
{
    if a.len() == 0 {
        assert(a + b =~= b);
        assert(kept_records(a) + kept_records(b) =~= kept_records(b));
    } else {
        assert((a + b).drop_first() =~= a.drop_first() + b);
        assert((a + b)[0] == a[0]);
        lemma_kept_concat(a.drop_first(), b);
        assert(kept_records(a + b) =~= kept_records(a) + kept_records(b));
    }
}

/// When every key type is known, every record is kept.
pub proof fn lemma_kept_all(rs: Seq<RecordView>)
    requires
        forall|i: int| 0 <= i < rs.len() ==> known_key_type(#[trigger] rs[i]),
    ensures
        kept_records(rs) == rs,
    decreases rs.len(),
{
    if rs.len() > 0 {
        let tail = rs.drop_first();
        assert forall|i: int| 0 <= i < tail.len() implies known_key_type(#[trigger] tail[i]) by {
            assert(tail[i] == rs[i + 1]);
        }
        lemma_kept_all(tail);
        assert(seq![rs[0]] + tail =~= rs);
    }
}

/// Encoding a record in front of others is the record's bytes, then theirs.
pub proof fn lemma_records_bytes_cons(r: RecordView, rs: Seq<RecordView>)
    ensures
        records_bytes(seq![r] + rs) == record_bytes(r) + records_bytes(rs),
    decreases rs.len(),
{
    let all = seq![r] + rs;
    if rs.len() == 0 {
        assert(all.drop_last() =~= Seq::<RecordView>::empty());
        assert(all.last() == r);
        assert(records_bytes(all.drop_last()) =~= Seq::<u8>::empty());
        assert(records_bytes(rs) =~= Seq::<u8>::empty());
        assert(records_bytes(all) =~= record_bytes(r) + records_bytes(rs));
    } else {
        assert(all.drop_last() =~= seq![r] + rs.drop_last());
        assert(all.last() == rs.last());
        lemma_records_bytes_cons(r, rs.drop_last());
        assert(records_bytes(all) =~= record_bytes(r) + records_bytes(rs));
    }
}

/// A record whose lengths fit the signed length fields reads back from its encoding,
/// whatever follows: as itself when its key type is SYSTEM or USER, as a skipped
/// record otherwise, spanning exactly its own bytes either way.
#[verifier::rlimit(30)]
pub proof fn lemma_parse_record_bytes(r: RecordView, rest: Seq<u8>)
    requires
        fits_fields(r),
    ensures
        record_bytes(r).len() == 16 + encode_utf8(r.key).len() + r.value.len(),
        parse_record(record_bytes(r) + rest) == Some(
            (
                if encodable(r) {
                    Some(r)
                } else {
                    None
                },
                record_bytes(r).len() as int,
            ),
        ),
{
    let kb = encode_utf8(r.key);
    let kl = kb.len() as int;
    let vl = r.value.len() as int;
    let s = record_bytes(r) + rest;
    reveal(record_bytes);
    reveal(parse_record);
    lemma_i32_bytes_round_trip(r.key_type as int);
    lemma_i32_bytes_round_trip(r.value_type as int);
    lemma_length_round_trip(kl);
    lemma_length_round_trip(vl);
    encode_utf8_decode_utf8(r.key);
    encode_utf8_valid_utf8(r.key);
    assert(s.subrange(0, 4) =~= i32_bytes(r.key_type as int));
    assert(s.subrange(4, 8) =~= le_bytes(kl));
    assert(s.subrange(8, 8 + kl) =~= kb);
    assert(s.subrange(8 + kl, 12 + kl) =~= i32_bytes(r.value_type as int));
    assert(s.subrange(12 + kl, 16 + kl) =~= le_bytes(vl));
    assert(s.subrange(16 + kl, 16 + kl + vl) =~= r.value);
    lemma_le_i32_at_subrange(s, 0);
    lemma_le_i32_at_subrange(s, 4);
    lemma_le_i32_at_subrange(s, 8 + kl);
    lemma_le_i32_at_subrange(s, 12 + kl);
    assert(record_bytes(r).len() == 16 + kl + vl);
}

/// The encodings of records whose lengths fit read back as the records with a
/// known key type, in order; the others are stepped over.
pub proof fn lemma_parse_records_bytes(rs: Seq<RecordView>, rest: Seq<u8>)
    requires
        forall|i: int| 0 <= i < rs.len() ==> fits_fields(#[trigger] rs[i]),
    ensures
        parse_records(records_bytes(rs) + rest, rs.len()) == Some(kept_records(rs)),
    decreases rs.len(),
{
    if rs.len() == 0 {
    } else {
        let r = rs[0];
        let tail = rs.drop_first();
        assert(rs =~= seq![r] + tail);
        lemma_records_bytes_cons(r, tail);
        let s = records_bytes(rs) + rest;
        assert(s =~= record_bytes(r) + (records_bytes(tail) + rest));
        assert(fits_fields(r));
        lemma_parse_record_bytes(r, records_bytes(tail) + rest);
        let used = record_bytes(r).len() as int;
        assert(s.subrange(used, s.len() as int) =~= records_bytes(tail) + rest);
        assert forall|i: int| 0 <= i < tail.len() implies fits_fields(#[trigger] tail[i]) by {
            assert(tail[i] == rs[i + 1]);
        }
        lemma_parse_records_bytes(tail, rest);
    }
}

/// Decoding an encoding gives back, in order, the records whose key type is
/// SYSTEM or USER, for at most `PARAMETERS_KEY_MAX_COUNT` records whose lengths
/// fit the length fields.
#[verifier::rlimit(30)]
pub proof fn lemma_decode_marshal(rs: Seq<RecordView>)
    requires
        rs.len() <= PARAMETERS_KEY_MAX_COUNT,
        forall|i: int| 0 <= i < rs.len() ==> fits_fields(#[trigger] rs[i]),
    ensures
        unmarshal_records(marshal_bytes(rs)) == kept_records(rs),
{
    let m = marshal_bytes(rs);
    let n = rs.len() as int;
    lemma_length_round_trip(n);
    if rs.len() == 0 {
        assert(m.len() == 20);
    } else {
        assert(fits_fields(rs[0]));
        lemma_parse_record_bytes(rs[0], Seq::empty());
        assert(rs =~= seq![rs[0]] + rs.drop_first());
        lemma_records_bytes_cons(rs[0], rs.drop_first());
        assert(m.len() > 20);
        assert(m.subrange(0, 16) =~= header_bytes());
        assert(m.subrange(0, 4) =~= magic_bytes());
        let body = m.subrange(16, m.len() as int);
        assert(body =~= le_bytes(n) + records_bytes(rs));
        assert(body.subrange(0, 4) =~= le_bytes(n));
        lemma_le_i32_at_subrange(body, 0);
        assert(body.subrange(4, body.len() as int) =~= records_bytes(rs) + Seq::<u8>::empty());
        lemma_parse_records_bytes(rs, Seq::empty());
    }
}

/// Round trip: a container of at most `PARAMETERS_KEY_MAX_COUNT` encodable records
/// decodes from its encoding to the same records, in the same order.
pub proof fn lemma_round_trip(rs: Seq<RecordView>)
    requires
        rs.len() <= PARAMETERS_KEY_MAX_COUNT,
        forall|i: int| 0 <= i < rs.len() ==> encodable(#[trigger] rs[i]),
    ensures
        unmarshal_records(marshal_bytes(rs)) == rs,
{
    assert forall|i: int| 0 <= i < rs.len() implies fits_fields(#[trigger] rs[i]) by {
        assert(encodable(rs[i]));
    }
    assert forall|i: int| 0 <= i < rs.len() implies known_key_type(#[trigger] rs[i]) by {
        assert(encodable(rs[i]));
    }
    lemma_decode_marshal(rs);
    lemma_kept_all(rs);
}

/// A buffer without the header decodes as the same buffer with the header put in
/// front, when it does not itself open with the magic number and is longer than `MIN_LEN`.
pub proof fn lemma_headerless(body: Seq<u8>)
    requires
        body.len() > MIN_LEN,
        body.subrange(0, 4) != magic_bytes(),
    ensures
        unmarshal_records(body) == unmarshal_records(header_bytes() + body),
{
    let full = header_bytes() + body;
    assert(full.subrange(0, 16) =~= header_bytes());
    assert(full.subrange(0, 4) =~= magic_bytes());
    assert(full.subrange(16, full.len() as int) =~= body);
}

/// Any input of at most `MIN_LEN` bytes decodes to no records.
pub proof fn lemma_short_input(s: Seq<u8>)
    requires
        s.len() <= MIN_LEN,
    ensures
        unmarshal_records(s) == Seq::<RecordView>::empty(),
{
}

/// A declared record count above `PARAMETERS_KEY_MAX_COUNT` decodes to no records,
/// whatever follows it, with the header or without it.
pub proof fn lemma_count_cap(body: Seq<u8>)
    requires
        body.len() >= 4,
        le_i32_at(body, 0) > PARAMETERS_KEY_MAX_COUNT,
    ensures
        unmarshal_records(header_bytes() + body) == Seq::<RecordView>::empty(),
        body.subrange(0, 4) != magic_bytes() ==> unmarshal_records(body) == Seq::<RecordView>::empty(),
{
    let full = header_bytes() + body;
    assert(full.subrange(0, 16) =~= header_bytes());
    assert(full.subrange(0, 4) =~= magic_bytes());
    assert(full.subrange(16, full.len() as int) =~= body);
}

/// A record whose key type is neither SYSTEM nor USER is left out of what its
/// container decodes to, and the records around it decode as if it were not there.
pub proof fn lemma_skip_unknown_key_type(before: Seq<RecordView>, r: RecordView, after: Seq<RecordView>)
    requires
        before.len() + 1 + after.len() <= PARAMETERS_KEY_MAX_COUNT,
        !known_key_type(r),
        fits_fields(r),
        forall|i: int| 0 <= i < before.len() ==> encodable(#[trigger] before[i]),
        forall|i: int| 0 <= i < after.len() ==> encodable(#[trigger] after[i]),
    ensures
        unmarshal_records(marshal_bytes(before + seq![r] + after)) == before + after,
{
    let all = before + seq![r] + after;
    assert forall|i: int| 0 <= i < all.len() implies fits_fields(#[trigger] all[i]) by {
        if i < before.len() {
            assert(encodable(before[i]));
        } else if i > before.len() {
            assert(all[i] == after[i - before.len() - 1]);
            assert(encodable(after[i - before.len() - 1]));
        }
    }
    lemma_decode_marshal(all);
    lemma_kept_concat(before + seq![r], after);
    lemma_kept_concat(before, seq![r]);
    let one = seq![r];
    assert(one[0] == r);
    assert(one.drop_first() =~= Seq::<RecordView>::empty());
    assert(kept_records(one.drop_first()) =~= Seq::<RecordView>::empty());
    assert(kept_records(one) =~= Seq::<RecordView>::empty());
    assert forall|i: int| 0 <= i < before.len() implies known_key_type(#[trigger] before[i]) by {
        assert(encodable(before[i]));
    }
    assert forall|i: int| 0 <= i < after.len() implies known_key_type(#[trigger] after[i]) by {
        assert(encodable(after[i]));
    }
    lemma_kept_all(before);
    lemma_kept_all(after);
    assert(before + Seq::<RecordView>::empty() =~= before);
}

} // verus!
