use chainmaker_contract::arena::VecBox;
use chainmaker_contract::codec::EasyCodec;
use chainmaker_contract::context::{
    answered_yes, bulletproofs_params, call_contract_params, event_params, iterator_params,
    paillier_params, put_state_params, rs_index_params, sql_params, state_params,
    BulletproofsSimContextImpl, PaillierSimContextImpl, ResultSetKvImpl, ResultSetSqlImpl,
    SimContextImpl, SqlSimContextImpl, CONTRACT_PARAM_BLOCK_HEIGHT, CONTRACT_PARAM_CONTEXT_PTR,
    CONTRACT_PARAM_SENDER_ORG_ID, CONTRACT_PARAM_TX_ID,
};
use chainmaker_contract::protocol::{
    fetch_start, fetch_step, i32_result, vecu8_to_i32, CommonUtils, FetchAction, FetchState,
    ERROR_CODE,
};

#[test]
fn arena_reuse_same_capacity() {
    let mut vb: VecBox<u8> = VecBox::new(4);
    assert_eq!(vb.copy(&vec![1, 2]), Ok(2));
    vb.get_or_create(4);
    // same size: the buffer and what it holds stay
    assert_eq!(vb.len(), 4);
    assert_eq!(vb.value().clone(), vec![1, 2]);
    vb.get_or_create(8);
    assert_eq!(vb.len(), 8);
    assert!(vb.value().is_empty());
}

#[test]
fn arena_release_and_overflow() {
    let mut vb: VecBox<u8> = VecBox::new(2);
    assert_eq!(vb.copy(&vec![1, 2, 3]), Err("Vec size overflow"));
    assert!(vb.data_as_mut().is_empty());
    vb.deallocated();
    assert_eq!(vb.len(), 0);
    vb.get_or_create(0);
    assert_eq!(vb.len(), 0);
    vb.reset_data_size(3);
    assert_eq!(vb.len(), 3);
    vb.drop();
    assert_eq!(vb.len(), 0);
}

#[test]
fn header_records() {
    let common = CommonUtils { ctx_ptr: 7 };
    let header = EasyCodec::unmarshal(&common.get_req_header("GetState"));
    assert_eq!(header.len(), 3);
    assert_eq!(header.get_i32("ctx_ptr"), Ok(7));
    assert_eq!(header.get_string("version"), Ok("v1.2.0".to_string()));
    assert_eq!(header.get_string("method"), Ok("GetState".to_string()));
    assert_eq!(header.get_items()[0].key_type, 0);
    let mb = common.allocate(9);
    drop(mb);
}

#[test]
fn call_request_sets_output_pointer() {
    let common = CommonUtils { ctx_ptr: 1 };
    let mut ec = state_params("k", "f");
    let (_, body1) = common.call_request(&mut ec, "GetStateLen", 100);
    let (_, body2) = common.call_request(&mut ec, "GetState", 200);
    let b1 = EasyCodec::unmarshal(&body1);
    let b2 = EasyCodec::unmarshal(&body2);
    assert_eq!(b1.get_i32("value_ptr"), Ok(100));
    assert_eq!(b2.get_i32("value_ptr"), Ok(200));
    assert_eq!(b2.len(), 3);
    assert_eq!(b2.get_string("key"), Ok("k".to_string()));
}

#[test]
fn probe_zero_short_circuits() {
    let (state, action) = fetch_start();
    assert_eq!(state, FetchState::Probing);
    assert!(matches!(action, FetchAction::Call { capacity: 4, fetch: false }));
    let (state, action) = fetch_step(state, 0, &vec![0, 0, 0, 0]);
    assert_eq!(state, FetchState::Finished);
    match action {
        FetchAction::Return(Ok(v)) => assert!(v.is_empty()),
        _ => panic!("expected an empty result"),
    }
}

#[test]
fn probe_positive_fetches_once() {
    let (state, action) = fetch_step(FetchState::Probing, 0, &vec![3, 0, 0, 0]);
    assert_eq!(state, FetchState::Fetching { len: 3 });
    assert!(matches!(action, FetchAction::Call { capacity: 3, fetch: true }));
    let (state, action) = fetch_step(state, 0, &vec![9, 8, 7]);
    assert_eq!(state, FetchState::Finished);
    match action {
        FetchAction::Return(Ok(v)) => assert_eq!(v, vec![9, 8, 7]),
        _ => panic!("expected the fetched bytes"),
    }
}

#[test]
fn failures_pass_status_through() {
    let (state, action) = fetch_step(FetchState::Probing, 5, &vec![]);
    assert_eq!(state, FetchState::Finished);
    assert!(matches!(action, FetchAction::Return(Err(5))));
    let (_, action) = fetch_step(FetchState::Fetching { len: 2 }, -3, &vec![]);
    assert!(matches!(action, FetchAction::Return(Err(-3))));
    let (_, action) = fetch_step(FetchState::Probing, 0, &vec![255, 255, 255, 255]);
    assert!(matches!(action, FetchAction::Return(Err(1))));
    assert_eq!(i32_result(0, &vec![1, 1, 0, 0]), Ok(257));
    assert_eq!(i32_result(4, &vec![]), Err(4));
    assert_eq!(vecu8_to_i32(vec![255, 255, 255, 127]), i32::MAX);
    assert!(answered_yes(Ok(2)));
    assert!(!answered_yes(Ok(0)));
    assert!(!answered_yes(Err(0)));
}

fn context_bytes(ptr: &str, height: &str) -> Vec<u8> {
    let mut ec = EasyCodec::new();
    ec.add_bytes(CONTRACT_PARAM_CONTEXT_PTR, ptr.as_bytes().to_vec());
    ec.add_bytes(CONTRACT_PARAM_BLOCK_HEIGHT, height.as_bytes().to_vec());
    ec.add_bytes(CONTRACT_PARAM_TX_ID, "tx-1".as_bytes().to_vec());
    ec.add_string(CONTRACT_PARAM_SENDER_ORG_ID, "not bytes");
    ec.marshal()
}

#[test]
fn context_from_parameters() {
    let ctx = SimContextImpl::from_bytes(&context_bytes("-17", "+42")).unwrap();
    assert_eq!(ctx.ctx_ptr, -17);
    assert_eq!(ctx.common.ctx_ptr, -17);
    assert_eq!(ctx.get_block_height(), 42);
    assert_eq!(ctx.get_tx_id(), "tx-1");
    assert_eq!(ctx.get_sender_org_id(), "");
    assert_eq!(ctx.get_creator_org_id(), "");
    assert_eq!(ctx.get_creator_pub_key(), "");
    assert_eq!(ctx.get_creator_role(), "");
    assert_eq!(ctx.get_sender_pub_key(), "");
    assert_eq!(ctx.get_sender_role(), "");
    assert_eq!(ctx.arg("__tx_id__"), Ok("tx-1".as_bytes().to_vec()));
    assert_eq!(ctx.arg("missing"), Err("not found".to_string()));
    assert_eq!(ctx.args().len(), 4);
    assert!(SimContextImpl::from_bytes(&context_bytes("12x", "1")).is_none());
    assert!(SimContextImpl::from_bytes(&vec![]).is_none());
    let plain = SimContextImpl::new(3, EasyCodec::new());
    assert_eq!(plain.arg_as_utf8_str("x"), "");
}

#[test]
fn request_bodies() {
    let put = put_state_params("k", "f", &[1, 2]);
    assert_eq!(put.get_bytes("value"), Ok(vec![1, 2]));
    let ev = event_params("t", &vec!["a".to_string(), "b".to_string()]);
    assert_eq!(ev.len(), 3);
    assert_eq!(ev.get_items()[2].value, "b".as_bytes().to_vec());
    let it = iterator_params("s", "", "l", "");
    assert_eq!(it.get_string("limit_key"), Ok("l".to_string()));
    assert_eq!(rs_index_params(9).get_i32("rs_index"), Ok(9));
    assert_eq!(sql_params("select 1").get_string("sql"), Ok("select 1".to_string()));
    let p = paillier_params(vec![1], vec![2], vec![3], "AddCiphertext");
    assert_eq!(p.get_string("opType"), Ok("AddCiphertext".to_string()));
    assert_eq!(p.get_bytes("operandTwo"), Ok(vec![3]));
    let b = bulletproofs_params(vec![4], vec![5], "PedersenAddNum");
    assert_eq!(b.get_bytes("param1"), Ok(vec![4]));
    assert_eq!(b.get_string("bulletproofsFuncName"), Ok("PedersenAddNum".to_string()));
}

#[test]
fn call_contract_checks_names() {
    let mut param = EasyCodec::new();
    param.add_i32("x", 1);
    assert!(matches!(call_contract_params("", "m", &param), Err(e) if e == ERROR_CODE));
    assert!(matches!(call_contract_params("c", "", &param), Err(e) if e == ERROR_CODE));
    let ec = call_contract_params("c", "m", &param).unwrap();
    assert_eq!(ec.get_bytes("param"), Ok(param.marshal()));
    assert_eq!(ec.get_string("contract_name"), Ok("c".to_string()));
}

#[test]
fn service_handles() {
    assert_eq!(ResultSetKvImpl::new(2, 5).index, 5);
    assert_eq!(ResultSetSqlImpl::new(2, 6).common.ctx_ptr, 2);
    assert_eq!(SqlSimContextImpl::new(3).common.ctx_ptr, 3);
    assert_eq!(PaillierSimContextImpl::new(4).common.ctx_ptr, 4);
    assert_eq!(BulletproofsSimContextImpl::new(5).common.ctx_ptr, 5);
}
