//! What holds of the channel to the contract handler and of the descriptions of its events.
use vstd::prelude::*;

use crate::contract::channel::ChannelDropped;
use crate::contract::channel::ContractError;
use crate::contract::channel::ContractHandlerChannel;
use crate::contract::channel::ContractHandlerHalve;
use crate::contract::channel::EventId;
use crate::contract::channel::HandlerReply;
use crate::contract::channel::InternalCHEvent;
use crate::contract::channel::SenderHalve;
use crate::contract::channel::WaitingResolution;
use crate::contract::channel::WaitingTransaction;
use crate::contract::channel::CH_EV_RESPONSE_TIME_OUT;
use crate::contract::channel::WAITING_CLIENTS;
use crate::contract::event::ClientId;
use crate::contract::event::ContractHandlerEvent;
use crate::contract::event::ContractInstanceId;
use crate::contract::event::ContractKey;

verus! {

use crate::contract::channel::after_receiving;
use crate::contract::channel::after_responding;
use crate::contract::channel::event_id_count;
use crate::contract::channel::id_after;
use crate::contract::channel::next_event_id;
use crate::contract::channel::receipt_of;
use crate::contract::event::attested_text;
use crate::contract::event::braced;
use crate::contract::event::delegate_inner;
use crate::contract::event::get_inner;
use crate::contract::event::key_text;
use crate::contract::event::put_inner;
use crate::contract::event::register_inner;
use crate::contract::rendering::byte_list;
use crate::contract::rendering::code_hash_text;
use crate::contract::rendering::contract_key_text;
use crate::contract::rendering::delegate_key_debug;
use crate::contract::rendering::instance_id_debug;
use crate::contract::rendering::state_text;
use crate::text::decimal;
use crate::text::hex;
use crate::text::leading;
use crate::transport::laws::law_counters_count_by_one;

/// Receiving an event adds its handle under its number, in place of another one there, and
/// responding to it takes the handle away. The handles under other numbers stay.
pub proof fn law_handles_wait_under_their_numbers<R>(
    waiting: Map<u64, R>,
    id: u64,
    result: R,
    other: u64,
)
    ensures
        after_receiving(waiting, id, result).contains_key(id),
        after_receiving(waiting, id, result)[id] == result,
        !after_responding(waiting, id).contains_key(id),
        other != id ==> {
            &&& after_receiving(waiting, id, result).contains_key(other) <==> waiting.contains_key(
                other,
            )
            &&& after_responding(waiting, id).contains_key(other) <==> waiting.contains_key(other)
            &&& waiting.contains_key(other) ==> {
                &&& after_receiving(waiting, id, result)[other] == waiting[other]
                &&& after_responding(waiting, id)[other] == waiting[other]
            }
        },
{
}

/// The contract handler gets the event that was sent under the number that it was sent with, and
/// an error where nothing will come any more.
pub proof fn law_events_are_handed_over_unchanged<L, Q, R>(sent: InternalCHEvent<L, Q, R>)
    ensures
        ({
            let got = receipt_of(Some(sent));
            &&& got is Ok
            &&& got->Ok_0.0 == EventId::of(sent.id)
            &&& got->Ok_0.1 == sent.ev
            &&& receipt_of::<L, Q, R>(None) == Err::<
                (EventId, ContractHandlerEvent<L, Q>),
                ContractError<L, Q>,
            >(ContractError::NoEvHandlerResponse)
        }),
{
}

/// Events are numbered one by one, and the number after the largest one is zero.
pub proof fn law_events_are_numbered_one_by_one(id: u64, n: nat)
    ensures
        id < u64::MAX ==> next_event_id(id) == id + 1,
        id == u64::MAX ==> next_event_id(id) == 0,
        id + n <= u64::MAX ==> id_after(id, n) == id + n,
        event_id_count() == u64::MAX + 1,
    decreases n,
{
    law_counters_count_by_one(id as nat, 1, 0x1_0000_0000_0000_0000);
    if n > 0 && id + n <= u64::MAX {
        law_events_are_numbered_one_by_one(id, (n - 1) as nat);
        law_counters_count_by_one((id + n - 1) as nat, 1, 0x1_0000_0000_0000_0000);
    }
}

/// An answer of the contract handler is waited for five minutes, and ten waiting clients are
/// queued before the next one has to wait.
pub proof fn law_limits_of_the_channel()
    ensures
        CH_EV_RESPONSE_TIME_OUT == 5 * 60,
        WAITING_CLIENTS == 10,
{
}

/// How every event is described.
pub proof fn law_event_descriptions<L, Q>(ev: ContractHandlerEvent<L, Q>)
    ensures
        match ev {
            ContractHandlerEvent::DelegateRequest { req, attested_contract } => ev.text()
                == "delegate request"@ + " { "@ + ("key: "@ + ("DelegateKey { key: ["@ + byte_list(
                req.key.key@,
            ) + "], code_hash: CodeHash(\""@ + code_hash_text(req.key.code_hash@) + "\") }"@)
                + ", attested: "@ + match attested_contract {
                Some(id) => "Some("@ + ("ContractInstanceId(\""@ + contract_key_text(id.bytes@)
                    + "\")"@) + ")"@,
                None => "None"@,
            }) + " }"@,
            ContractHandlerEvent::DelegateResponse(_) => ev.text() == "delegate response"@,
            ContractHandlerEvent::PutQuery { key, contract: Some(sent), .. } => ev.text()
                == "put query"@ + " { "@ + (contract_key_text(key.instance.bytes@) + ", params: "@
                + "0x"@ + hex(leading(sent.params@, 8)) + "..."@) + " }"@,
            ContractHandlerEvent::PutQuery { key, contract: None, .. } => ev.text() == "put query"@
                + " { "@ + contract_key_text(key.instance.bytes@) + " }"@,
            ContractHandlerEvent::PutResponse { new_value: Ok(state) } => ev.text()
                == "put query response"@ + " { "@ + ("ContractState(data: [0x"@ + hex(
                leading(state.bytes@, 8),
            ) + "...])"@) + " }"@,
            ContractHandlerEvent::PutResponse { new_value: Err(e) } => ev.text()
                == "put query failed"@ + " { "@ + e.message@ + " }"@,
            ContractHandlerEvent::GetQuery { key, return_contract_code: true } => ev.text()
                == "get query"@ + " { "@ + (contract_key_text(key.instance.bytes@)
                + ", return contract code: "@ + "true"@) + " }"@,
            ContractHandlerEvent::GetQuery { key, return_contract_code: false } => ev.text()
                == "get query"@ + " { "@ + (contract_key_text(key.instance.bytes@)
                + ", return contract code: "@ + "false"@) + " }"@,
            ContractHandlerEvent::GetResponse { key, response: Ok(_) } => ev.text()
                == "get query response"@ + " { "@ + contract_key_text(key.instance.bytes@) + " }"@,
            ContractHandlerEvent::GetResponse { key, response: Err(_) } => ev.text()
                == "get query failed"@ + " { "@ + contract_key_text(key.instance.bytes@) + " }"@,
            ContractHandlerEvent::UpdateQuery { key, .. } => ev.text() == "update query"@ + " { "@
                + contract_key_text(key.instance.bytes@) + " }"@,
            ContractHandlerEvent::UpdateResponse { new_value: Ok(state) } => ev.text()
                == "update query response"@ + " { "@ + ("ContractState(data: [0x"@ + hex(
                leading(state.bytes@, 8),
            ) + "...])"@) + " }"@,
            ContractHandlerEvent::UpdateResponse { new_value: Err(e) } => ev.text()
                == "update query failed"@ + " { "@ + e.message@ + " }"@,
            ContractHandlerEvent::UpdateNoChange { key } => ev.text()
                == "update query no change"@ + " { "@ + contract_key_text(key.instance.bytes@)
                + " }"@,
            ContractHandlerEvent::RegisterSubscriberListener { key, client_id, .. } => ev.text()
                == "register subscriber listener"@ + " { "@ + (contract_key_text(
                key.instance.bytes@,
            ) + ", client_id: "@ + decimal(client_id.0 as nat)) + " }"@,
            ContractHandlerEvent::RegisterSubscriberListenerResponse => ev.text()
                == "register subscriber listener response"@,
            ContractHandlerEvent::QuerySubscriptions { .. } => ev.text()
                == "query subscriptions"@,
            ContractHandlerEvent::QuerySubscriptionsResponse => ev.text()
                == "query subscriptions response"@,
        },
{
}

/// The parts of which descriptions are made.
pub proof fn law_parts_of_descriptions(
    head: Seq<char>,
    inner: Seq<char>,
    bytes: Seq<u8>,
    client: nat,
    key: ContractKey,
    id: ContractInstanceId,
)
    ensures
        braced(head, inner) == head + " { "@ + inner + " }"@,
        delegate_inner(head, inner) == "key: "@ + head + ", attested: "@ + inner,
        put_inner(head, Some(bytes)) == head + ", params: "@ + "0x"@ + hex(leading(bytes, 8))
            + "..."@,
        put_inner(head, None) == head,
        get_inner(head, true) == head + ", return contract code: "@ + "true"@,
        get_inner(head, false) == head + ", return contract code: "@ + "false"@,
        register_inner(head, client) == head + ", client_id: "@ + decimal(client),
        attested_text(None) == "None"@,
        attested_text(Some(id)) == "Some("@ + ("ContractInstanceId(\""@ + contract_key_text(
            id.bytes@,
        ) + "\")"@) + ")"@,
        key_text(key) == contract_key_text(key.instance.bytes@),
        instance_id_debug(bytes) == "ContractInstanceId(\""@ + contract_key_text(bytes) + "\")"@,
        state_text(bytes) == "ContractState(data: [0x"@ + hex(leading(bytes, 8)) + "...])"@,
        delegate_key_debug(bytes, inner) == "DelegateKey { key: ["@ + byte_list(bytes)
            + "], code_hash: CodeHash(\""@ + inner + "\") }"@,
{
}

/// A list of bytes has the bytes in base ten, in order, with a comma and a space between any two
/// parts of it.
pub proof fn law_bytes_are_listed_in_order(left: Seq<u8>, right: Seq<u8>, byte: u8)
    ensures
        byte_list(Seq::empty()) == Seq::<char>::empty(),
        byte_list(seq![byte]) == decimal(byte as nat),
        left.len() > 0 && right.len() > 0 ==> byte_list(left + right) == byte_list(left) + ", "@
            + byte_list(right),
    decreases right.len(),
{
    if left.len() > 0 && right.len() > 0 {
        let all = left + right;
        assert(all.drop_last() =~= left + right.drop_last());
        assert(all.last() == right.last());
        if right.len() == 1 {
            assert(left + right.drop_last() =~= left);
        } else {
            law_bytes_are_listed_in_order(left, right.drop_last(), byte);
            assert(byte_list(all) =~= byte_list(left) + ", "@ + byte_list(right));
        }
    }
}

/// A sender gets the response to its event, the event itself where it could not be sent, and an
/// error where no response came, in time or at all.
pub proof fn law_senders_get_the_response<L, Q>(
    end: ContractHandlerChannel<SenderHalve>,
    ev: ContractHandlerEvent<L, Q>,
    reply: HandlerReply<L, Q>,
    r: Result<ContractHandlerEvent<L, Q>, ContractError<L, Q>>,
)
    requires
        call_ensures(ContractHandlerChannel::<SenderHalve>::on_reply::<L, Q>, (&end, reply), r),
    ensures
        reply == HandlerReply::<L, Q>::Response(ev) ==> r == Ok::<_, ContractError<L, Q>>(ev),
        reply == HandlerReply::<L, Q>::NotSent(ev) ==> r == Err::<ContractHandlerEvent<L, Q>, _>(
            ContractError::ChannelDropped(Box::new(ev)),
        ),
        reply is Dropped || reply is TimedOut ==> r == Err::<ContractHandlerEvent<L, Q>, _>(
            ContractError::<L, Q>::NoEvHandlerResponse,
        ),
{
}

/// A client that is announced comes out as it was announced, and an error where no other one will
/// come. What could not be delivered, an announcement or a response, is an error.
pub proof fn law_announced_clients_come_out_unchanged<L, Q, R>(
    sender: ContractHandlerChannel<SenderHalve>,
    handler: ContractHandlerChannel<ContractHandlerHalve<R>>,
    resolution: ContractHandlerChannel<WaitingResolution>,
    transaction: WaitingTransaction,
    client: ClientId,
    announced: (ClientId, WaitingTransaction),
    received: Option<(ClientId, WaitingTransaction)>,
    got: Result<(ClientId, WaitingTransaction), ChannelDropped>,
    delivered: bool,
    outcome: Result<(), ContractError<L, Q>>,
)
    requires
        call_ensures(
            ContractHandlerChannel::<SenderHalve>::waiting_for_transaction_result,
            (&sender, transaction, client),
            announced,
        ),
        call_ensures(
            ContractHandlerChannel::<WaitingResolution>::relay_transaction_result_to_client,
            (&resolution, received),
            got,
        ),
        call_ensures(
            ContractHandlerChannel::<SenderHalve>::on_announced::<L, Q>,
            (&sender, delivered),
            outcome,
        ) || call_ensures(
            ContractHandlerChannel::<ContractHandlerHalve<R>>::on_responded::<L, Q>,
            (&handler, delivered),
            outcome,
        ),
    ensures
        received == Some(announced) ==> got == Ok::<_, ChannelDropped>((client, transaction)),
        received is None ==> got is Err,
        delivered ==> outcome is Ok,
        !delivered ==> outcome == Err::<(), ContractError<L, Q>>(
            ContractError::<L, Q>::NoEvHandlerResponse,
        ),
{
}

} // verus!
