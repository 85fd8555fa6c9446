//! The call protocol: the header and body that each boundary call carries, and
//! the decisions of the two-phase "length, then data" exchange.
//!
//! The boundary call itself, and the memory the host writes into, stay with the
//! caller: it performs each `FetchAction` and hands back what the call returned.

use crate::arena::VecBox;
use crate::codec::{
    remove_first, EasyCodec, RecordView, EASY_KEY_TYPE_SYSTEM, EASY_KEY_TYPE_USER,
    EASY_VALUE_TYPE_BYTES, EASY_VALUE_TYPE_INT32, EASY_VALUE_TYPE_STRING,
};
use crate::wire::{i32_bytes, le_i32_at, parse_le_i32, push_le_i32};
use vstd::prelude::*;
use vstd::string::*;
use vstd::utf8::*;

verus! {

/// A status returned by the boundary call: 0 for success, anything else an error.
#[allow(non_camel_case_types)]
pub type result_code = i32;

pub const SUCCESS_CODE: result_code = 0;

pub const ERROR_CODE: result_code = 1;

/// Size of the buffer that receives a pending result's length.
pub const I_32_LENGTH: usize = 4;

/// Protocol version carried in every header.
pub const CONTRACT_VERSION: &'static str = "v1.2.0";

/// The body parameter that tells the host where to write.
pub const VALUE_PTR_KEY: &'static str = "value_ptr";

pub const CONTRACT_METHOD_LOG_MESSAGE: &'static str = "LogMessage";

pub const CONTRACT_METHOD_GET_STATE_LEN: &'static str = "GetStateLen";

pub const CONTRACT_METHOD_GET_STATE: &'static str = "GetState";

pub const CONTRACT_METHOD_PUT_STATE: &'static str = "PutState";

pub const CONTRACT_METHOD_DELETE_STATE: &'static str = "DeleteState";

pub const CONTRACT_METHOD_SUCCESS_RESULT: &'static str = "SuccessResult";

pub const CONTRACT_METHOD_ERROR_RESULT: &'static str = "ErrorResult";

pub const CONTRACT_METHOD_CALL_CONTRACT: &'static str = "CallContract";

pub const CONTRACT_METHOD_CALL_CONTRACT_LEN: &'static str = "CallContractLen";

pub const CONTRACT_METHOD_EMIT_EVENT: &'static str = "EmitEvent";

pub const CONTRACT_METHOD_KV_ITERATOR: &'static str = "KvIterator";

pub const CONTRACT_METHOD_KV_PRE_ITERATOR: &'static str = "KvPreIterator";

pub const CONTRACT_METHOD_KV_ITERATOR_HAS_NEXT: &'static str = "KvIteratorHasNext";

pub const CONTRACT_METHOD_KV_ITERATOR_NEXT_LEN: &'static str = "KvIteratorNextLen";

pub const CONTRACT_METHOD_KV_ITERATOR_NEXT: &'static str = "KvIteratorNext";

pub const CONTRACT_METHOD_KV_ITERATOR_CLOSE: &'static str = "KvIteratorClose";

pub const CONTRACT_METHOD_EXECUTE_QUERY_SQL: &'static str = "ExecuteQuery";

pub const CONTRACT_METHOD_EXECUTE_QUERY_ONE: &'static str = "ExecuteQueryOne";

pub const CONTRACT_METHOD_EXECUTE_QUERY_ONE_LEN: &'static str = "ExecuteQueryOneLen";

pub const CONTRACT_METHOD_ITERATOR_NEXT: &'static str = "RSNext";

pub const CONTRACT_METHOD_ITERATOR_NEXT_LEN: &'static str = "RSNextLen";

pub const CONTRACT_METHOD_ITERATOR_HAS_NEXT: &'static str = "RSHasNext";

pub const CONTRACT_METHOD_ITERATOR_CLOSE: &'static str = "RSClose";

pub const CONTRACT_METHOD_EXECUTE_UPDATE_SQL: &'static str = "ExecuteUpdate";

pub const CONTRACT_METHOD_EXECUTE_DDL_SQL: &'static str = "ExecuteDDL";

pub const CONTRACT_METHOD_GET_PAILLIER_OPERATION_RESULT: &'static str = "GetPaillierOperationResult";

pub const CONTRACT_METHOD_GET_PAILLIER_OPERATION_RESULT_LEN: &'static str = "GetPaillierOperationResultLen";

pub const CONTRACT_METHOD_GET_BULLETPROOFS_RESULT: &'static str = "GetBulletproofsResult";

pub const CONTRACT_METHOD_GET_BULLETPROOFS_RESULT_LEN: &'static str = "GetBulletproofsResultLen";

// ---------------------------------------------------------------------------
// Records of requests

/// A USER record holding the UTF-8 bytes of `text` as a STRING.
pub open spec fn text_record(key: Seq<char>, text: Seq<char>) -> RecordView {
    RecordView { key_type: EASY_KEY_TYPE_USER, key, value_type: EASY_VALUE_TYPE_STRING, value: encode_utf8(text) }
}

/// A USER record holding `bytes` as BYTES.
pub open spec fn bytes_record(key: Seq<char>, bytes: Seq<u8>) -> RecordView {
    RecordView { key_type: EASY_KEY_TYPE_USER, key, value_type: EASY_VALUE_TYPE_BYTES, value: bytes }
}

/// A USER record holding `v` as INT32.
pub open spec fn int_record(key: Seq<char>, v: i32) -> RecordView {
    RecordView {
        key_type: EASY_KEY_TYPE_USER,
        key,
        value_type: EASY_VALUE_TYPE_INT32,
        value: i32_bytes(v as int),
    }
}

/// The header of a call: context pointer, protocol version and method name, all SYSTEM records.
pub open spec fn header_records(ctx_ptr: i32, method: Seq<char>) -> Seq<RecordView> {
    seq![
        RecordView {
            key_type: EASY_KEY_TYPE_SYSTEM,
            key: "ctx_ptr"@,
            value_type: EASY_VALUE_TYPE_INT32,
            value: i32_bytes(ctx_ptr as int),
        },
        RecordView {
            key_type: EASY_KEY_TYPE_SYSTEM,
            key: "version"@,
            value_type: EASY_VALUE_TYPE_STRING,
            value: encode_utf8(CONTRACT_VERSION@),
        },
        RecordView {
            key_type: EASY_KEY_TYPE_SYSTEM,
            key: "method"@,
            value_type: EASY_VALUE_TYPE_STRING,
            value: encode_utf8(method),
        },
    ]
}

/// The body with its output pointer set to `out_ptr`: any earlier one taken
/// out, the new one last.
pub open spec fn with_value_ptr(body: Seq<RecordView>, out_ptr: i32) -> Seq<RecordView> {
    remove_first(body, VALUE_PTR_KEY@).push(int_record(VALUE_PTR_KEY@, out_ptr))
}

/// Helpers shared by every part of the call protocol.
pub struct CommonUtils {
    pub ctx_ptr: i32,
}

impl CommonUtils {
    /// A fresh exchange buffer with `capacity` bytes reserved.
    pub fn allocate(&self, capacity: usize) -> (r: VecBox<u8>)
        ensures
            r@.capacity == capacity,
            r@.contents == Seq::<u8>::empty(),
            r@.live,
    {
        VecBox::new(capacity)
    }

    /// The encoded header of a call to `method`.
    pub fn get_req_header(&self, method: &str) -> (r: Vec<u8>)
        ensures
            r@ == crate::codec::marshal_bytes(header_records(self.ctx_ptr, method@)),
    {
        let mut ec = EasyCodec::new();
        let mut ptr: Vec<u8> = Vec::new();
        push_le_i32(&mut ptr, self.ctx_ptr);
        assert(ptr@ =~= i32_bytes(self.ctx_ptr as int));
        ec.add_val(EASY_KEY_TYPE_SYSTEM, "ctx_ptr", EASY_VALUE_TYPE_INT32, ptr);
        ec.add_val(EASY_KEY_TYPE_SYSTEM, "version", EASY_VALUE_TYPE_STRING, CONTRACT_VERSION.as_bytes_vec());
        ec.add_val(EASY_KEY_TYPE_SYSTEM, "method", EASY_VALUE_TYPE_STRING, method.as_bytes_vec());
        assert(ec@ =~= header_records(self.ctx_ptr, method@));
        ec.marshal()
    }

    /// Header and body of a call to `method` whose result the host writes at
    /// `out_ptr`: the body's output pointer is set first.
    pub fn call_request(&self, ec: &mut EasyCodec, method: &str, out_ptr: i32) -> (r: (Vec<u8>, Vec<u8>))
        ensures
            final(ec)@ == with_value_ptr(old(ec)@, out_ptr),
            r.0@ == crate::codec::marshal_bytes(header_records(self.ctx_ptr, method@)),
            r.1@ == crate::codec::marshal_bytes(final(ec)@),
    {
        ec.remove(VALUE_PTR_KEY);
        ec.add_i32(VALUE_PTR_KEY, out_ptr);
        let header = self.get_req_header(method);
        let body = ec.marshal();
        (header, body)
    }
}

/// Reads the little-endian 32-bit integer at the start of `v`.
pub fn vecu8_to_i32(v: Vec<u8>) -> (r: i32)
    requires
        v@.len() >= 4,
    ensures
        r as int == le_i32_at(v@, 0),
{
    parse_le_i32(v.as_slice(), 0)
}

// ---------------------------------------------------------------------------
// The two-phase exchange

/// Where a two-phase exchange stands.
#[derive(Clone, Copy, PartialEq, Eq, Debug)]
pub enum FetchState {
    /// The length probe is in flight.
    Probing,
    /// The data fetch of `len` bytes is in flight.
    Fetching { len: usize },
    /// The exchange is over.
    Finished,
}

/// What the caller does next. Before either, it releases the buffer of the call
/// that just returned, if any.
pub enum FetchAction {
    /// Allocate a buffer of `capacity` bytes and invoke the length method
    /// (`fetch == false`) or the data method (`fetch == true`) with its address.
    Call { capacity: usize, fetch: bool },
    /// Return this result.
    Return(Result<Vec<u8>, result_code>),
}

/// A `FetchAction` with its bytes as a sequence.
pub enum FetchActionView {
    Call { capacity: nat, fetch: bool },
    Return(Result<Seq<u8>, i32>),
}

impl View for FetchAction {
    type V = FetchActionView;

    open spec fn view(&self) -> FetchActionView {
        match self {
            FetchAction::Call { capacity, fetch } => FetchActionView::Call { capacity: *capacity as nat, fetch: *fetch },
            FetchAction::Return(Ok(v)) => FetchActionView::Return(Ok(v@)),
            FetchAction::Return(Err(e)) => FetchActionView::Return(Err(*e)),
        }
    }
}

/// The buffer a state's call writes into holds enough bytes to be read.
pub open spec fn fetch_output_ok(state: FetchState, out: Seq<u8>) -> bool {
    match state {
        FetchState::Probing => out.len() >= I_32_LENGTH,
        FetchState::Fetching { len } => out.len() >= len,
        FetchState::Finished => false,
    }
}

/// The next state and action once the call of `state` returned `status`, with
/// `out` the bytes the host wrote. A failed call ends the exchange with its
/// status. A probe that reports 0 ends it with no data and no fetch; one that
/// reports `n > 0` asks for one fetch of exactly `n` bytes; a negative length is
/// an error. A fetch ends the exchange with its first `len` bytes.
pub open spec fn fetch_next(state: FetchState, status: i32, out: Seq<u8>) -> (FetchState, FetchActionView) {
    if status != SUCCESS_CODE {
        (FetchState::Finished, FetchActionView::Return(Err(status)))
    } else {
        match state {
            FetchState::Probing => {
                let n = le_i32_at(out, 0);
                if n == 0 {
                    (FetchState::Finished, FetchActionView::Return(Ok(Seq::empty())))
                } else if n < 0 {
                    (FetchState::Finished, FetchActionView::Return(Err(ERROR_CODE)))
                } else {
                    (FetchState::Fetching { len: n as usize }, FetchActionView::Call { capacity: n as nat, fetch: true })
                }
            },
            FetchState::Fetching { len } => (FetchState::Finished, FetchActionView::Return(Ok(out.subrange(0, len as int)))),
            FetchState::Finished => (FetchState::Finished, FetchActionView::Return(Err(ERROR_CODE))),
        }
    }
}

/// The start of an exchange: probe for the length with a 4-byte buffer.
pub fn fetch_start() -> (r: (FetchState, FetchAction))
    ensures
        r.0 == FetchState::Probing,
        r.1@ == (FetchActionView::Call { capacity: I_32_LENGTH as nat, fetch: false }),
{
    (FetchState::Probing, FetchAction::Call { capacity: I_32_LENGTH, fetch: false })
}

/// One step of the exchange, as `fetch_next` says.
pub fn fetch_step(state: FetchState, status: result_code, out: &Vec<u8>) -> (r: (FetchState, FetchAction))
    requires
        status == SUCCESS_CODE ==> fetch_output_ok(state, out@),
        state != FetchState::Finished,
    ensures
        (r.0, r.1@) == fetch_next(state, status, out@),
{
    if status != SUCCESS_CODE {
        return (FetchState::Finished, FetchAction::Return(Err(status)));
    }
    match state {
        FetchState::Probing => {
            let n = parse_le_i32(out.as_slice(), 0);
            if n == 0 {
                let r = (FetchState::Finished, FetchAction::Return(Ok(Vec::new())));
                assert(r.1@ == FetchActionView::Return(Ok(Seq::<u8>::empty())));
                r
            } else if n < 0 {
                (FetchState::Finished, FetchAction::Return(Err(ERROR_CODE)))
            } else {
                (FetchState::Fetching { len: n as usize }, FetchAction::Call { capacity: n as usize, fetch: true })
            }
        },
        FetchState::Fetching { len } => {
            let data = crate::codec::copy_range(out.as_slice(), 0, len);
            (FetchState::Finished, FetchAction::Return(Ok(data)))
        },
        FetchState::Finished => (FetchState::Finished, FetchAction::Return(Err(ERROR_CODE))),
    }
}

/// Two-phase exchange: a probe that succeeds and reports length 0 ends the
/// exchange with no data and no fetch; one that reports `n > 0` asks for exactly
/// one fetch of `n` bytes, after which the exchange ends whatever the fetch returns.
pub proof fn lemma_two_phase(probe: Seq<u8>, status: i32, out: Seq<u8>)
    requires
        probe.len() >= I_32_LENGTH,
    ensures
        le_i32_at(probe, 0) == 0 ==> fetch_next(FetchState::Probing, SUCCESS_CODE, probe) == (
            FetchState::Finished,
            FetchActionView::Return(Ok(Seq::<u8>::empty())),
        ),
        le_i32_at(probe, 0) > 0 ==> {
            let (state, action) = fetch_next(FetchState::Probing, SUCCESS_CODE, probe);
            &&& action == (FetchActionView::Call { capacity: le_i32_at(probe, 0) as nat, fetch: true })
            &&& state == (FetchState::Fetching { len: le_i32_at(probe, 0) as usize })
            &&& fetch_next(state, status, out).0 == FetchState::Finished
            &&& fetch_next(state, status, out).1 is Return
            &&& (status == SUCCESS_CODE && out.len() >= le_i32_at(probe, 0) ==> fetch_next(state, status, out).1
                == FetchActionView::Return(Ok(out.subrange(0, le_i32_at(probe, 0)))))
        },
{
}

/// The result of a single-call exchange that returns a 32-bit integer: the
/// status when the call failed, otherwise the integer the host wrote.
pub fn i32_result(status: result_code, out: &Vec<u8>) -> (r: Result<i32, result_code>)
    requires
        status == SUCCESS_CODE ==> out@.len() >= I_32_LENGTH,
    ensures
        status != SUCCESS_CODE ==> r == Err::<i32, i32>(status),
        status == SUCCESS_CODE ==> (r matches Ok(v) && v as int == le_i32_at(out@, 0)),
{
    if status != SUCCESS_CODE {
        return Err(status);
    }
    Ok(parse_le_i32(out.as_slice(), 0))
}

} // verus!
