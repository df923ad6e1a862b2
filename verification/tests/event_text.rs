use freenet_core::contract::event::describe_delegate;
use freenet_core::contract::event::describe_get;
use freenet_core::contract::event::describe_put;
use freenet_core::contract::event::describe_register;
use freenet_core::contract::event::in_braces;
use freenet_core::contract::event::ClientId;
use freenet_core::contract::event::ContractContainer;
use freenet_core::contract::event::ContractHandlerEvent;
use freenet_core::contract::event::ContractInstanceId;
use freenet_core::contract::event::ContractKey;
use freenet_core::contract::event::DelegateKey;
use freenet_core::contract::event::DelegateRequest;
use freenet_core::contract::event::ExecutorError;
use freenet_core::contract::event::RelatedContracts;
use freenet_core::contract::event::StoreResponse;
use freenet_core::contract::event::UpdateData;
use freenet_core::contract::event::WrappedState;

type Event = ContractHandlerEvent<u8, u8>;

/// The base 58 form of the numbers from 1 to 32, most significant byte first.
fn key() -> ContractKey {
    let mut bytes = [0u8; 32];
    for i in 0..32 {
        bytes[i] = i as u8 + 1;
    }
    ContractKey { instance: ContractInstanceId { bytes }, code: [9; 32] }
}

const KEY_TEXT: &str = "4wBqpZM9xaSheZzJSMawUKKwhdpChKbZ5eu5ky4Vigw";

fn state(bytes: &[u8]) -> WrappedState {
    WrappedState { bytes: bytes.to_vec() }
}

fn error() -> ExecutorError {
    ExecutorError { message: "missing contract".to_string() }
}

fn related() -> RelatedContracts {
    RelatedContracts { entries: vec![] }
}

fn contract(params: &[u8]) -> ContractContainer {
    ContractContainer { key: key(), code: vec![1], params: params.to_vec() }
}

#[test]
fn the_key_is_displayed_in_base_58() {
    assert_eq!(key().to_string(), KEY_TEXT);
    let other = ContractKey { code: [0; 32], ..key() };
    assert_eq!(other.to_string(), KEY_TEXT);
    let zero = ContractKey { instance: ContractInstanceId { bytes: [0; 32] }, code: [9; 32] };
    assert_eq!(zero.to_string(), "1".repeat(32));
}

#[test]
fn an_instance_shows_its_type_when_debugging() {
    assert_eq!(key().instance.to_debug(), format!("ContractInstanceId(\"{KEY_TEXT}\")"));
}

#[test]
fn a_state_shows_its_first_bytes() {
    assert_eq!(state(&[]).to_string(), "ContractState(data: [0x...])");
    assert_eq!(state(&[0, 7]).to_string(), "ContractState(data: [0x0007...])");
    assert_eq!(
        state(&[1, 2, 3, 4, 5, 6, 7, 255, 9]).to_string(),
        "ContractState(data: [0x01020304050607ff...])"
    );
}

#[test]
fn delegate_events_are_described() {
    let req = DelegateRequest {
        key: DelegateKey { key: [2; 32], code_hash: [0; 32] },
        body: vec![1, 2, 3],
    };
    let ev: Event = Event::DelegateRequest { req, attested_contract: None };
    let bytes = vec!["2"; 32].join(", ");
    let hash = "1".repeat(32);
    let delegate = format!("DelegateKey {{ key: [{bytes}], code_hash: CodeHash(\"{hash}\") }}");
    assert_eq!(ev.to_string(), format!("delegate request {{ key: {delegate}, attested: None }}"));

    let req = DelegateRequest {
        key: DelegateKey { key: [2; 32], code_hash: [0; 32] },
        body: vec![],
    };
    let ev: Event = Event::DelegateRequest { req, attested_contract: Some(key().instance) };
    assert_eq!(
        ev.to_string(),
        format!(
            "delegate request {{ key: {delegate}, \
             attested: Some(ContractInstanceId(\"{KEY_TEXT}\")) }}"
        )
    );
    let mut code_hash = [0u8; 32];
    let mut delegate = [0u8; 32];
    for i in 0..32 {
        code_hash[i] = i as u8 + 1;
        delegate[i] = 255 - i as u8;
    }
    let req = DelegateRequest { key: DelegateKey { key: delegate, code_hash }, body: vec![] };
    let ev: Event = Event::DelegateRequest { req, attested_contract: None };
    let bytes: Vec<String> = (0..32).map(|i| (255 - i).to_string()).collect();
    assert_eq!(
        ev.to_string(),
        format!(
            "delegate request {{ key: DelegateKey {{ key: [{}], \
             code_hash: CodeHash(\"{}\") }}, attested: None }}",
            bytes.join(", "),
            KEY_TEXT.to_lowercase()
        )
    );
    let ev: Event = Event::DelegateResponse(vec![vec![1]]);
    assert_eq!(ev.to_string(), "delegate response");
}

#[test]
fn put_events_are_described() {
    let put = |contract| Event::PutQuery {
        key: key(),
        state: state(&[6, 7, 8]),
        related_contracts: related(),
        contract,
    };
    assert_eq!(put(None).to_string(), format!("put query {{ {KEY_TEXT} }}"));
    assert_eq!(
        put(Some(contract(&[4, 5]))).to_string(),
        format!("put query {{ {KEY_TEXT}, params: 0x0405... }}")
    );
    assert_eq!(
        put(Some(contract(&[1, 2, 3, 4, 5, 6, 7, 8, 9]))).to_string(),
        format!("put query {{ {KEY_TEXT}, params: 0x0102030405060708... }}")
    );
    assert_eq!(
        put(Some(contract(&[]))).to_string(),
        format!("put query {{ {KEY_TEXT}, params: 0x... }}")
    );
    let done: Event = Event::PutResponse { new_value: Ok(state(&[0, 7])) };
    assert_eq!(done.to_string(), "put query response { ContractState(data: [0x0007...]) }");
    let failed: Event = Event::PutResponse { new_value: Err(error()) };
    assert_eq!(failed.to_string(), "put query failed { missing contract }");
}

#[test]
fn get_events_are_described() {
    let get = |code| Event::GetQuery { key: key(), return_contract_code: code };
    assert_eq!(
        get(true).to_string(),
        format!("get query {{ {KEY_TEXT}, return contract code: true }}")
    );
    assert_eq!(
        get(false).to_string(),
        format!("get query {{ {KEY_TEXT}, return contract code: false }}")
    );
    let found: Event = Event::GetResponse {
        key: key(),
        response: Ok(StoreResponse { state: Some(state(&[1])), contract: None }),
    };
    assert_eq!(found.to_string(), format!("get query response {{ {KEY_TEXT} }}"));
    let failed: Event = Event::GetResponse { key: key(), response: Err(error()) };
    assert_eq!(failed.to_string(), format!("get query failed {{ {KEY_TEXT} }}"));
}

#[test]
fn update_events_are_described() {
    let query: Event = Event::UpdateQuery {
        key: key(),
        data: UpdateData::Delta(vec![1]),
        related_contracts: related(),
    };
    assert_eq!(query.to_string(), format!("update query {{ {KEY_TEXT} }}"));
    let done: Event = Event::UpdateResponse { new_value: Ok(state(&[16])) };
    assert_eq!(done.to_string(), "update query response { ContractState(data: [0x10...]) }");
    let failed: Event = Event::UpdateResponse { new_value: Err(error()) };
    assert_eq!(failed.to_string(), "update query failed { missing contract }");
    let same: Event = Event::UpdateNoChange { key: key() };
    assert_eq!(same.to_string(), format!("update query no change {{ {KEY_TEXT} }}"));
}

#[test]
fn subscription_events_are_described() {
    let register: Event = Event::RegisterSubscriberListener {
        key: key(),
        client_id: ClientId(42),
        summary: None,
        subscriber_listener: 0,
    };
    assert_eq!(
        register.to_string(),
        format!("register subscriber listener {{ {KEY_TEXT}, client_id: 42 }}")
    );
    let done: Event = Event::RegisterSubscriberListenerResponse;
    assert_eq!(done.to_string(), "register subscriber listener response");
    let query: Event = Event::QuerySubscriptions { callback: 0 };
    assert_eq!(query.to_string(), "query subscriptions");
    let answer: Event = Event::QuerySubscriptionsResponse;
    assert_eq!(answer.to_string(), "query subscriptions response");
}

#[test]
fn descriptions_take_any_text_for_a_key() {
    assert_eq!(in_braces("update query", "k"), "update query { k }");
    assert_eq!(describe_delegate("d", "None"), "delegate request { key: d, attested: None }");
    assert_eq!(describe_put("k", None), "put query { k }");
    assert_eq!(describe_put("k", Some(&vec![171, 5])), "put query { k, params: 0xab05... }");
    assert_eq!(describe_get("k", false), "get query { k, return contract code: false }");
    assert_eq!(
        describe_register("k", ClientId(0)),
        "register subscriber listener { k, client_id: 0 }"
    );
}
