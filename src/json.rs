//! A flat JSON rendering of a container, for logs and results.

use crate::codec::{
    copy_range, int_readable, string_from_utf8, text_readable, EasyCodec, RecordView,
    EASY_VALUE_TYPE_BYTES, EASY_VALUE_TYPE_INT32, EASY_VALUE_TYPE_STRING,
};
use crate::wire::{le_i32_at, parse_le_i32};
use vstd::prelude::*;
use vstd::string::*;
use vstd::utf8::*;

verus! {

/// What `base64::encode` returns: standard alphabet, with padding.
pub uninterp spec fn base64_of(b: Seq<u8>) -> Seq<char>;

/// `s` with every double quote preceded by a backslash.
pub open spec fn escape_quotes(s: Seq<char>) -> Seq<char>
    decreases s.len(),
{
    if s.len() == 0 {
        s
    } else {
        escape_quotes(s.drop_last()) + if s.last() == '"' {
            seq!['\\', '"']
        } else {
            seq![s.last()]
        }
    }
}

/// The decimal digits of `n`, most significant first.
pub open spec fn digits(n: nat) -> Seq<char>
    decreases n,
{
    if n < 10 {
        seq![(48 + n) as char]
    } else {
        digits(n / 10) + seq![(48 + n % 10) as char]
    }
}

/// `n` written in decimal, with a leading minus sign when negative.
pub open spec fn decimal(n: int) -> Seq<char> {
    if n < 0 {
        seq!['-'] + digits((-n) as nat)
    } else {
        digits(n as nat)
    }
}

/// How a value is rendered: STRING as a quoted string with its quotes escaped,
/// INT32 as a bare number, BYTES as quoted base64, any other type as nothing.
pub open spec fn json_value(r: RecordView) -> Seq<char> {
    if r.value_type == EASY_VALUE_TYPE_STRING {
        seq!['"'] + escape_quotes(decode_utf8(r.value)) + seq!['"']
    } else if r.value_type == EASY_VALUE_TYPE_INT32 {
        decimal(le_i32_at(r.value, 0))
    } else if r.value_type == EASY_VALUE_TYPE_BYTES {
        seq!['"'] + base64_of(r.value) + seq!['"']
    } else {
        Seq::empty()
    }
}

/// One member: the quoted key, a colon, the value.
pub open spec fn json_member(r: RecordView) -> Seq<char> {
    seq!['"'] + r.key + seq!['"', ':'] + json_value(r)
}

/// The members of the records, in order, separated by commas.
pub open spec fn json_members(rs: Seq<RecordView>) -> Seq<char>
    decreases rs.len(),
{
    if rs.len() == 0 {
        Seq::empty()
    } else if rs.len() == 1 {
        json_member(rs[0])
    } else {
        json_members(rs.drop_last()) + seq![','] + json_member(rs.last())
    }
}

/// The whole object.
pub open spec fn json_of(rs: Seq<RecordView>) -> Seq<char> {
    seq!['{'] + json_members(rs) + seq!['}']
}

/// A BYTES value is short enough for the size of its base64 text to be a `usize`.
pub open spec fn base64_sized(r: RecordView) -> bool {
    r.value_type == EASY_VALUE_TYPE_BYTES ==> r.value.len() <= usize::MAX / 2
}

/// Every record can be rendered: INT32 values hold 4 bytes, STRING values are
/// UTF-8, BYTES values are within the size that base64 can count.
pub open spec fn renderable(rs: Seq<RecordView>) -> bool {
    forall|i: int|
        0 <= i < rs.len() ==> int_readable(#[trigger] rs[i]) && text_readable(rs[i]) && base64_sized(rs[i])
}

/// Relies on `base64::encode`, which renders bytes in the standard base64 alphabet
/// with padding; it panics only when the size of its output overflows a `usize`.
#[verifier::external_body]
fn base64_encode(b: &[u8]) -> (r: String)
    requires
        b@.len() <= usize::MAX / 2,
    ensures
        r@ == base64_of(b@),
{
    base64::encode(b)
}

/// Relies on `str::replace`: every `"` of `s` becomes `\"`, the rest is kept.
#[verifier::external_body]
fn escape_quotes_of(s: &str) -> (r: String)
    ensures
        r@ == escape_quotes(s@),
{
    s.replace("\"", "\\\"")
}

/// Relies on the `Display` of `i32`: decimal digits, a leading `-` when negative.
#[verifier::external_body]
fn i32_decimal(v: i32) -> (r: String)
    ensures
        r@ == decimal(v as int),
{
    v.to_string()
}

/// Appends the rendering of one record's value.
fn push_value(out: &mut String, r: &crate::codec::EasyCodecItem)
    requires
        int_readable(r@),
        text_readable(r@),
        base64_sized(r@),
    ensures
        final(out)@ == old(out)@ + json_value(r@),
{
    proof {
        reveal_strlit("\"");
    }
    if r.value_type == EASY_VALUE_TYPE_STRING {
        let bytes = copy_range(r.value.as_slice(), 0, r.value.len());
        assert(bytes@ =~= r.value@);
        match string_from_utf8(bytes) {
            Some(text) => {
                let escaped = escape_quotes_of(text.as_str());
                out.append("\"");
                out.append(escaped.as_str());
                out.append("\"");
                assert(final(out)@ =~= old(out)@ + json_value(r@));
            },
            None => {
                assert(false);
            },
        }
    } else if r.value_type == EASY_VALUE_TYPE_INT32 {
        let v = parse_le_i32(r.value.as_slice(), 0);
        let text = i32_decimal(v);
        out.append(text.as_str());
    } else if r.value_type == EASY_VALUE_TYPE_BYTES {
        let text = base64_encode(r.value.as_slice());
        out.append("\"");
        out.append(text.as_str());
        out.append("\"");
        assert(final(out)@ =~= old(out)@ + json_value(r@));
    } else {
        assert(final(out)@ =~= old(out)@ + json_value(r@));
    }
}

impl EasyCodec {
    /// Renders the records as one flat JSON object, keys in container order.
    pub fn to_json(&self) -> (r: String)
        requires
            renderable(self@),
        ensures
            r@ == json_of(self@),
    {
        proof {
            reveal_strlit("{");
            reveal_strlit("}");
            reveal_strlit(",");
            reveal_strlit("\"");
            reveal_strlit("\":");
        }
        let items = self.get_items();
        let ghost rs = self@;
        assert(rs.len() == items@.len());
        let mut out = String::new();
        out.append("{");
        let mut i: usize = 0;
        while i < items.len()
            invariant
                i <= items@.len(),
                rs == crate::codec::records_of(items@),
                renderable(rs),
                out@ == seq!['{'] + json_members(rs.subrange(0, i as int)),
            decreases items@.len() - i,
        {
            let ghost before = out@;
            let item = &items[i];
            assert(item@ == rs[i as int]);
            if i > 0 {
                out.append(",");
            }
            out.append("\"");
            out.append(item.key.as_str());
            out.append("\":");
            push_value(&mut out, item);
            proof {
                reveal_strlit(",");
                reveal_strlit("\"");
                reveal_strlit("\":");
                assert(","@ =~= seq![',']);
                assert("\""@ =~= seq!['"']);
                assert("\":"@ =~= seq!['"', ':']);
                let sep: Seq<char> = if i > 0 { seq![','] } else { Seq::empty() };
                assert(out@ =~= before + sep + json_member(item@));
                let s = rs.subrange(0, i + 1);
                assert(s.last() == item@);
                if i == 0 {
                    assert(rs.subrange(0, 0) =~= Seq::<RecordView>::empty());
                    assert(out@ =~= seq!['{'] + json_members(s));
                } else {
                    assert(s.drop_last() =~= rs.subrange(0, i as int));
                    assert(out@ =~= seq!['{'] + json_members(s));
                }
            }
            i = i + 1;
        }
        out.append("}");
        assert(rs.subrange(0, rs.len() as int) =~= rs);
        out
    }
}

/// An empty container renders as `{}`.
pub proof fn lemma_json_empty()
    ensures
        json_of(Seq::empty()) == seq!['{', '}'],
{
    assert(json_of(Seq::empty()) =~= seq!['{', '}']);
}

/// Escaping works piece by piece: the escape of two texts put together is the
/// two escapes put together.
pub proof fn lemma_escape_concat(a: Seq<char>, b: Seq<char>)
    ensures
        escape_quotes(a + b) == escape_quotes(a) + escape_quotes(b),
    decreases b.len(),
{
    if b.len() == 0 {
        assert(a + b =~= a);
        assert(escape_quotes(a) + escape_quotes(b) =~= escape_quotes(a));
    } else {
        assert((a + b).drop_last() =~= a + b.drop_last());
        assert((a + b).last() == b.last());
        lemma_escape_concat(a, b.drop_last());
        assert(escape_quotes(a + b) =~= escape_quotes(a) + escape_quotes(b));
    }
}

/// A double quote inside a text is rendered as a backslash and the quote.
pub proof fn lemma_escape_quote(a: Seq<char>, b: Seq<char>)
    ensures
        escape_quotes(a + seq!['"'] + b) == escape_quotes(a) + seq!['\\', '"'] + escape_quotes(b),
{
    lemma_escape_concat(a + seq!['"'], b);
    lemma_escape_concat(a, seq!['"']);
    let q = seq!['"'];
    assert(q.drop_last() =~= Seq::<char>::empty());
    assert(q.last() == '"');
    assert(escape_quotes(q.drop_last()) =~= Seq::<char>::empty());
    assert(escape_quotes(q) =~= seq!['\\', '"']);
}

/// A container of one STRING record renders as the quoted key, a colon, and the
/// quoted text with its quotes escaped.
pub proof fn lemma_json_single_string(r: RecordView)
    requires
        r.value_type == EASY_VALUE_TYPE_STRING,
    ensures
        json_of(seq![r]) == seq!['{', '"'] + r.key + seq!['"', ':', '"'] + escape_quotes(
            decode_utf8(r.value),
        ) + seq!['"', '}'],
{
    assert(json_of(seq![r]) =~= seq!['{', '"'] + r.key + seq!['"', ':', '"'] + escape_quotes(
        decode_utf8(r.value),
    ) + seq!['"', '}']);
}

} // verus!
