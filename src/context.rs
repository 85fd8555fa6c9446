//! The contract's view of one invocation: its parameters, and the bodies of the
//! requests it sends to the host for state, events, iterators, SQL and crypto
//! operators.

use crate::codec::{find_record, EasyCodec, RecordView, EASY_VALUE_TYPE_BYTES};
use crate::protocol::{bytes_record, int_record, result_code, text_record, CommonUtils, ERROR_CODE};
use vstd::prelude::*;
use vstd::utf8::*;

verus! {

pub const CONTRACT_PARAM_CREATOR_ORG_ID: &'static str = "__creator_org_id__";

pub const CONTRACT_PARAM_CREATOR_ROLE: &'static str = "__creator_role__";

pub const CONTRACT_PARAM_CREATOR_PK: &'static str = "__creator_pk__";

pub const CONTRACT_PARAM_SENDER_ORG_ID: &'static str = "__sender_org_id__";

pub const CONTRACT_PARAM_SENDER_ROLE: &'static str = "__sender_role__";

pub const CONTRACT_PARAM_SENDER_PK: &'static str = "__sender_pk__";

pub const CONTRACT_PARAM_BLOCK_HEIGHT: &'static str = "__block_height__";

pub const CONTRACT_PARAM_TX_ID: &'static str = "__tx_id__";

pub const CONTRACT_PARAM_CONTEXT_PTR: &'static str = "__context_ptr__";

// ---------------------------------------------------------------------------
// Decimal text

/// The value of a sequence of decimal digits.
pub open spec fn digits_value(s: Seq<char>) -> int
    decreases s.len(),
{
    if s.len() == 0 {
        0
    } else {
        digits_value(s.drop_last()) * 10 + (s.last() as int - 48)
    }
}

/// One or more ASCII decimal digits.
pub open spec fn all_digits(s: Seq<char>) -> bool {
    s.len() > 0 && forall|i: int| 0 <= i < s.len() ==> 48 <= #[trigger] (s[i] as int) <= 57
}

/// What `u64::from_str` accepts: an optional `+`, then digits, within range.
pub open spec fn parse_u64_spec(s: Seq<char>) -> Option<u64> {
    let d = if s.len() > 0 && s[0] == '+' { s.drop_first() } else { s };
    if all_digits(d) && digits_value(d) <= u64::MAX {
        Some(digits_value(d) as u64)
    } else {
        None
    }
}

/// What `i32::from_str` accepts: an optional `+` or `-`, then digits, within range.
pub open spec fn parse_i32_spec(s: Seq<char>) -> Option<i32> {
    if s.len() > 0 && s[0] == '-' {
        let d = s.drop_first();
        if all_digits(d) && -digits_value(d) >= i32::MIN {
            Some((-digits_value(d)) as i32)
        } else {
            None
        }
    } else {
        let d = if s.len() > 0 && s[0] == '+' { s.drop_first() } else { s };
        if all_digits(d) && digits_value(d) <= i32::MAX {
            Some(digits_value(d) as i32)
        } else {
            None
        }
    }
}

/// Relies on `str::parse::<u64>`, which accepts an optional `+` and decimal digits within range.
#[verifier::external_body]
fn parse_u64(s: &str) -> (r: Option<u64>)
    ensures
        r == parse_u64_spec(s@),
{
    s.parse::<u64>().ok()
}

/// Relies on `str::parse::<i32>`, which accepts an optional sign and decimal digits within range.
#[verifier::external_body]
fn parse_i32(s: &str) -> (r: Option<i32>)
    ensures
        r == parse_i32_spec(s@),
{
    s.parse::<i32>().ok()
}

// ---------------------------------------------------------------------------
// Parameters of the invocation

/// The text of parameter `key`: its BYTES value read as UTF-8, or empty when the
/// parameter is missing, not BYTES, or not UTF-8.
pub open spec fn arg_text(args: Seq<RecordView>, key: Seq<char>) -> Seq<char> {
    match find_record(args, key) {
        Some(rec) => if rec.value_type == EASY_VALUE_TYPE_BYTES && valid_utf8(rec.value) {
            decode_utf8(rec.value)
        } else {
            Seq::empty()
        },
        None => Seq::empty(),
    }
}

/// The context pointer that the parameters carry as decimal text, if they do.
pub open spec fn context_ptr_of(args: Seq<RecordView>) -> Option<i32> {
    match find_record(args, CONTRACT_PARAM_CONTEXT_PTR@) {
        Some(rec) => if rec.value_type == EASY_VALUE_TYPE_BYTES && valid_utf8(rec.value) {
            parse_i32_spec(decode_utf8(rec.value))
        } else {
            None
        },
        None => None,
    }
}

/// One invocation of the contract: the host's context pointer and the parameters.
pub struct SimContextImpl {
    pub ctx_ptr: i32,
    pub params: EasyCodec,
    pub common: CommonUtils,
}

impl SimContextImpl {
    /// The parameters of the invocation.
    pub open spec fn args_view(&self) -> Seq<RecordView> {
        self.params@
    }

    pub fn new(ctx_ptr: i32, params: EasyCodec) -> (r: SimContextImpl)
        ensures
            r.ctx_ptr == ctx_ptr,
            r.common.ctx_ptr == ctx_ptr,
            r.args_view() == params@,
    {
        SimContextImpl { ctx_ptr, params, common: CommonUtils { ctx_ptr } }
    }

    /// The context of an invocation whose parameters are encoded in `data`; `None`
    /// when they carry no context pointer in decimal.
    pub fn from_bytes(data: &Vec<u8>) -> (r: Option<SimContextImpl>)
        ensures
            match context_ptr_of(crate::codec::unmarshal_records(data@)) {
                None => r is None,
                Some(p) => r matches Some(c) && c.ctx_ptr == p && c.common.ctx_ptr == p
                    && c.args_view() == crate::codec::unmarshal_records(data@),
            },
    {
        let params = EasyCodec::unmarshal(data);
        let text = params.get_bytes_as_utf8_string(CONTRACT_PARAM_CONTEXT_PTR);
        match text {
            Ok(t) => match parse_i32(t.as_str()) {
                Some(p) => Some(SimContextImpl::new(p, params)),
                None => None,
            },
            Err(_) => None,
        }
    }

    /// The BYTES value of parameter `key`.
    pub fn arg(&self, key: &str) -> (r: Result<Vec<u8>, String>)
        ensures
            match find_record(self.args_view(), key@) {
                None => r matches Err(e) && e@ == crate::codec::ERR_NOT_FOUND@,
                Some(rec) => if rec.value_type == EASY_VALUE_TYPE_BYTES {
                    r matches Ok(b) && b@ == rec.value
                } else {
                    r matches Err(e) && e@ == crate::codec::ERR_NOT_BYTES@
                },
            },
    {
        self.params.get_bytes(key)
    }

    /// The text of parameter `key`, empty when there is none.
    pub fn arg_as_utf8_str(&self, key: &str) -> (r: String)
        ensures
            r@ == arg_text(self.args_view(), key@),
    {
        match self.params.get_bytes_as_utf8_string(key) {
            Ok(s) => s,
            Err(_) => String::new(),
        }
    }

    /// All parameters.
    pub fn args(&self) -> (r: &EasyCodec)
        ensures
            r@ == self.args_view(),
    {
        &self.params
    }

    /// Org id of the contract's creator.
    pub fn get_creator_org_id(&self) -> (r: String)
        ensures
            r@ == arg_text(self.args_view(), CONTRACT_PARAM_CREATOR_ORG_ID@),
    {
        self.arg_as_utf8_str(CONTRACT_PARAM_CREATOR_ORG_ID)
    }

    /// Public key of the contract's creator.
    pub fn get_creator_pub_key(&self) -> (r: String)
        ensures
            r@ == arg_text(self.args_view(), CONTRACT_PARAM_CREATOR_PK@),
    {
        self.arg_as_utf8_str(CONTRACT_PARAM_CREATOR_PK)
    }

    /// Role of the contract's creator.
    pub fn get_creator_role(&self) -> (r: String)
        ensures
            r@ == arg_text(self.args_view(), CONTRACT_PARAM_CREATOR_ROLE@),
    {
        self.arg_as_utf8_str(CONTRACT_PARAM_CREATOR_ROLE)
    }

    /// Org id of the transaction's sender.
    pub fn get_sender_org_id(&self) -> (r: String)
        ensures
            r@ == arg_text(self.args_view(), CONTRACT_PARAM_SENDER_ORG_ID@),
    {
        self.arg_as_utf8_str(CONTRACT_PARAM_SENDER_ORG_ID)
    }

    /// Public key of the transaction's sender.
    pub fn get_sender_pub_key(&self) -> (r: String)
        ensures
            r@ == arg_text(self.args_view(), CONTRACT_PARAM_SENDER_PK@),
    {
        self.arg_as_utf8_str(CONTRACT_PARAM_SENDER_PK)
    }

    /// Role of the transaction's sender.
    pub fn get_sender_role(&self) -> (r: String)
        ensures
            r@ == arg_text(self.args_view(), CONTRACT_PARAM_SENDER_ROLE@),
    {
        self.arg_as_utf8_str(CONTRACT_PARAM_SENDER_ROLE)
    }

    /// Height of the block that holds the transaction.
    pub fn get_block_height(&self) -> (r: u64)
        requires
            parse_u64_spec(arg_text(self.args_view(), CONTRACT_PARAM_BLOCK_HEIGHT@)) is Some,
        ensures
            Some(r) == parse_u64_spec(arg_text(self.args_view(), CONTRACT_PARAM_BLOCK_HEIGHT@)),
    {
        let text = self.arg_as_utf8_str(CONTRACT_PARAM_BLOCK_HEIGHT);
        match parse_u64(text.as_str()) {
            Some(h) => h,
            None => {
                assert(false);
                0
            },
        }
    }

    /// Id of the transaction.
    pub fn get_tx_id(&self) -> (r: String)
        ensures
            r@ == arg_text(self.args_view(), CONTRACT_PARAM_TX_ID@),
    {
        self.arg_as_utf8_str(CONTRACT_PARAM_TX_ID)
    }
}

// ---------------------------------------------------------------------------
// Request bodies

/// Body of a state read or delete: `key` and `field`.
pub fn state_params(key: &str, field: &str) -> (r: EasyCodec)
    ensures
        r@ == seq![text_record("key"@, key@), text_record("field"@, field@)],
{
    let mut ec = EasyCodec::new();
    ec.add_string("key", key);
    ec.add_string("field", field);
    assert(ec@ =~= seq![text_record("key"@, key@), text_record("field"@, field@)]);
    ec
}

/// Body of a state write: `key`, `field` and the bytes to store.
pub fn put_state_params(key: &str, field: &str, value: &[u8]) -> (r: EasyCodec)
    ensures
        r@ == seq![text_record("key"@, key@), text_record("field"@, field@), bytes_record("value"@, value@)],
{
    let mut ec = EasyCodec::new();
    ec.add_string("key", key);
    ec.add_string("field", field);
    let bytes = crate::codec::copy_range(value, 0, value.len());
    assert(bytes@ =~= value@);
    ec.add_bytes("value", bytes);
    assert(ec@ =~= seq![
        text_record("key"@, key@),
        text_record("field"@, field@),
        bytes_record("value"@, value@),
    ]);
    ec
}

/// Body of an event: the topic, then one `data` record per item, in order.
pub fn event_params(topic: &str, data: &Vec<String>) -> (r: EasyCodec)
    ensures
        r@ == seq![text_record("topic"@, topic@)] + data@.map_values(|s: String| text_record("data"@, s@)),
{
    let mut ec = EasyCodec::new();
    ec.add_string("topic", topic);
    let mut i: usize = 0;
    while i < data.len()
        invariant
            i <= data@.len(),
            ec@ == seq![text_record("topic"@, topic@)] + data@.subrange(0, i as int).map_values(
                |s: String| text_record("data"@, s@),
            ),
        decreases data@.len() - i,
    {
        ec.add_string("data", data[i].as_str());
        i = i + 1;
        assert(ec@ =~= seq![text_record("topic"@, topic@)] + data@.subrange(0, i as int).map_values(
            |s: String| text_record("data"@, s@),
        ));
    }
    assert(data@.subrange(0, data@.len() as int) =~= data@);
    ec
}

/// Body of a key-value iterator request over `[start, limit)`.
pub fn iterator_params(start_key: &str, start_field: &str, limit_key: &str, limit_field: &str) -> (r: EasyCodec)
    ensures
        r@ == seq![
            text_record("start_key"@, start_key@),
            text_record("start_field"@, start_field@),
            text_record("limit_key"@, limit_key@),
            text_record("limit_field"@, limit_field@),
        ],
{
    let mut ec = EasyCodec::new();
    ec.add_string("start_key", start_key);
    ec.add_string("start_field", start_field);
    ec.add_string("limit_key", limit_key);
    ec.add_string("limit_field", limit_field);
    assert(ec@ =~= seq![
        text_record("start_key"@, start_key@),
        text_record("start_field"@, start_field@),
        text_record("limit_key"@, limit_key@),
        text_record("limit_field"@, limit_field@),
    ]);
    ec
}

/// Body of a request about the open result set `index`.
pub fn rs_index_params(index: i32) -> (r: EasyCodec)
    ensures
        r@ == seq![int_record("rs_index"@, index)],
{
    let mut ec = EasyCodec::new();
    ec.add_i32("rs_index", index);
    assert(ec@ =~= seq![int_record("rs_index"@, index)]);
    ec
}

/// Body of a SQL statement.
pub fn sql_params(sql: &str) -> (r: EasyCodec)
    ensures
        r@ == seq![text_record("sql"@, sql@)],
{
    let mut ec = EasyCodec::new();
    ec.add_string("sql", sql);
    assert(ec@ =~= seq![text_record("sql"@, sql@)]);
    ec
}

/// Body of a call to another contract: its name, the method, and the encoded
/// parameters. Fails with `ERROR_CODE` when the name or the method is empty.
pub fn call_contract_params(contract_name: &str, method: &str, param: &EasyCodec) -> (r: Result<
    EasyCodec,
    result_code,
>)
    ensures
        contract_name@.len() == 0 || method@.len() == 0 ==> r == Err::<EasyCodec, i32>(ERROR_CODE),
        contract_name@.len() != 0 && method@.len() != 0 ==> (r matches Ok(ec) && ec@ == seq![
            text_record("contract_name"@, contract_name@),
            text_record("method"@, method@),
            bytes_record("param"@, crate::codec::marshal_bytes(param@)),
        ]),
{
    if contract_name.is_empty() || method.is_empty() {
        return Err(ERROR_CODE);
    }
    let mut ec = EasyCodec::new();
    ec.add_string("contract_name", contract_name);
    ec.add_string("method", method);
    ec.add_bytes("param", param.marshal());
    assert(ec@ =~= seq![
        text_record("contract_name"@, contract_name@),
        text_record("method"@, method@),
        bytes_record("param"@, crate::codec::marshal_bytes(param@)),
    ]);
    Ok(ec)
}

/// Body of a Paillier operator: public key, two operands, and the operator's name.
pub fn paillier_params(pubkey: Vec<u8>, operand_one: Vec<u8>, operand_two: Vec<u8>, op_type: &str) -> (r: EasyCodec)
    ensures
        r@ == seq![
            bytes_record("pubKey"@, pubkey@),
            bytes_record("operandOne"@, operand_one@),
            bytes_record("operandTwo"@, operand_two@),
            text_record("opType"@, op_type@),
        ],
{
    let ghost (p, a, b) = (pubkey@, operand_one@, operand_two@);
    let mut ec = EasyCodec::new();
    ec.add_bytes("pubKey", pubkey);
    ec.add_bytes("operandOne", operand_one);
    ec.add_bytes("operandTwo", operand_two);
    ec.add_string("opType", op_type);
    assert(ec@ =~= seq![
        bytes_record("pubKey"@, p),
        bytes_record("operandOne"@, a),
        bytes_record("operandTwo"@, b),
        text_record("opType"@, op_type@),
    ]);
    ec
}

/// Body of a bulletproofs operator: two operands and the operator's name.
pub fn bulletproofs_params(param1: Vec<u8>, param2: Vec<u8>, func_name: &str) -> (r: EasyCodec)
    ensures
        r@ == seq![
            bytes_record("param1"@, param1@),
            bytes_record("param2"@, param2@),
            text_record("bulletproofsFuncName"@, func_name@),
        ],
{
    let ghost (a, b) = (param1@, param2@);
    let mut ec = EasyCodec::new();
    ec.add_bytes("param1", param1);
    ec.add_bytes("param2", param2);
    ec.add_string("bulletproofsFuncName", func_name);
    assert(ec@ =~= seq![
        bytes_record("param1"@, a),
        bytes_record("param2"@, b),
        text_record("bulletproofsFuncName"@, func_name@),
    ]);
    ec
}

// ---------------------------------------------------------------------------
// Handles on the host's services

/// An open key-value iterator on the host.
pub struct ResultSetKvImpl {
    pub common: CommonUtils,
    pub index: i32,
}

impl ResultSetKvImpl {
    pub fn new(ctx_ptr: i32, index: i32) -> (r: ResultSetKvImpl)
        ensures
            r.common.ctx_ptr == ctx_ptr,
            r.index == index,
    {
        ResultSetKvImpl { common: CommonUtils { ctx_ptr }, index }
    }
}

/// An open SQL result set on the host.
pub struct ResultSetSqlImpl {
    pub common: CommonUtils,
    pub index: i32,
}

impl ResultSetSqlImpl {
    pub fn new(ctx_ptr: i32, index: i32) -> (r: ResultSetSqlImpl)
        ensures
            r.common.ctx_ptr == ctx_ptr,
            r.index == index,
    {
        ResultSetSqlImpl { common: CommonUtils { ctx_ptr }, index }
    }
}

/// The host's SQL service.
pub struct SqlSimContextImpl {
    pub common: CommonUtils,
}

impl SqlSimContextImpl {
    pub fn new(ctx_ptr: i32) -> (r: SqlSimContextImpl)
        ensures
            r.common.ctx_ptr == ctx_ptr,
    {
        SqlSimContextImpl { common: CommonUtils { ctx_ptr } }
    }
}

/// The host's Paillier operators.
pub struct PaillierSimContextImpl {
    pub common: CommonUtils,
}

impl PaillierSimContextImpl {
    pub fn new(ctx_ptr: i32) -> (r: PaillierSimContextImpl)
        ensures
            r.common.ctx_ptr == ctx_ptr,
    {
        PaillierSimContextImpl { common: CommonUtils { ctx_ptr } }
    }
}

/// The host's bulletproofs operators.
pub struct BulletproofsSimContextImpl {
    pub common: CommonUtils,
}

impl BulletproofsSimContextImpl {
    pub fn new(ctx_ptr: result_code) -> (r: BulletproofsSimContextImpl)
        ensures
            r.common.ctx_ptr == ctx_ptr,
    {
        BulletproofsSimContextImpl { common: CommonUtils { ctx_ptr } }
    }
}

/// Whether a yes/no query on a result set answered yes: it succeeded with a
/// nonzero value.
pub fn answered_yes(r: Result<i32, result_code>) -> (b: bool)
    ensures
        b == (r matches Ok(v) && v != 0),
{
    match r {
        Ok(v) => v != 0,
        Err(_) => false,
    }
}

} // verus!
