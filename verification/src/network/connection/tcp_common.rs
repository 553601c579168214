//! What the request flow of every framing shares: a request becomes the
//! envelope of a message, and an envelope that came back becomes a response.

use crate::error::Error;
use crate::network::state::counter_after;
use crate::network::state::seq_no_for;
use crate::network::state::MessagePurpose;
use crate::network::state::State;
use crate::network::state::StateView;
use crate::tl::envelope::inner_block;
use crate::tl::envelope::is_sealed;
use crate::tl::envelope::lemma_inner_block_len;
use crate::tl::envelope::opened;
use crate::tl::envelope::padding_len;
use crate::tl::envelope::Direction;
use crate::tl::envelope::MessageView;
use crate::tl::message::parse_plain;
use crate::tl::message::plain_envelope;
use crate::tl::message::Message;
use crate::tl::message::MessageCommon;
use crate::tl::message::MessagePlain;
use crate::tl::message::MAX_BODY_LEN;
use vstd::prelude::*;

verus! {

/// What an unauthenticated envelope adds to a body, in bytes.
pub const PLAIN_OVERHEAD: usize = 20;

/// The most that an authenticated envelope from `request_payload` adds to a
/// body, in bytes: the two headers and the longest padding it chooses.
pub const SEALED_OVERHEAD: usize = 83;

/// The length of the authenticated envelope of a body of `body_len` bytes
/// behind the least padding.
pub open spec fn sealed_len(body_len: nat) -> nat {
    56 + body_len + padding_len(32 + body_len)
}

/// The session after a content message with the id `id` was made.
pub open spec fn after_request(before: StateView, id: i64) -> StateView {
    StateView {
        last_msg_id: id,
        seq_no: counter_after(before.seq_no as int, MessagePurpose::Content) as u32,
        ..before
    }
}

/// The message that a request becomes in the session `before` under the id
/// `id`.
pub open spec fn request_message(before: StateView, id: i64, body: Seq<u8>) -> MessageView {
    MessageView {
        salt: before.salt,
        session_id: before.id,
        message_id: id,
        seq_no: seq_no_for(before.seq_no as int, MessagePurpose::Content) as u32,
        body,
    }
}

/// Makes the unauthenticated envelope of a request. A request that would
/// not fit in a packet of `limit` bytes is refused before the session is
/// touched. Else the session issues an id, greater than every id before,
/// and a sequence number: from here on the request has left its mark on the
/// session, whether or not it is ever written to a socket.
pub fn plain_request_payload(state: &mut State, request_data: Vec<u8>, limit: usize) -> (r: Result<
    Vec<u8>,
    Error,
>)
    requires
        old(state)@.can_issue(),
        limit <= MAX_BODY_LEN,
    ensures
        request_data@.len() + PLAIN_OVERHEAD > limit ==> r == Err::<Vec<u8>, Error>(
            Error::MessageTooLong(request_data@.len() as usize),
        ) && final(state)@ == old(state)@,
        request_data@.len() + PLAIN_OVERHEAD <= limit ==> ({
            let id = final(state)@.last_msg_id;
            &&& r is Ok
            &&& r->Ok_0@ == plain_envelope(id, request_data@)
            &&& final(state)@ == after_request(old(state)@, id)
            &&& id > old(state)@.last_msg_id
            &&& id % 4 == 0
        }),
{
    if limit < PLAIN_OVERHEAD || request_data.len() > limit - PLAIN_OVERHEAD {
        return Err(Error::MessageTooLong(request_data.len()));
    }
    let made: Result<MessagePlain, Error> = state.create_message(
        request_data,
        MessagePurpose::Content,
    );
    match made {
        Ok(message) => message.to_bytes(),
        Err(e) => Err(e),
    }
}

/// Makes the authenticated envelope of a request under the session's key
/// and version. A request that would not fit in a packet of `limit` bytes
/// is refused before the session is touched. Else the session issues an
/// id, greater than every id before, and a sequence number, and the
/// envelope gets the least random padding: from here on the request has
/// left its mark on the session, whether or not it is ever written to a
/// socket.
pub fn request_payload(state: &mut State, request_data: Vec<u8>, limit: usize) -> (r: Result<
    Vec<u8>,
    Error,
>)
    requires
        old(state)@.can_issue(),
        limit <= MAX_BODY_LEN,
    ensures
        request_data@.len() + SEALED_OVERHEAD > limit ==> r == Err::<Vec<u8>, Error>(
            Error::MessageTooLong(request_data@.len() as usize),
        ) && final(state)@ == old(state)@,
        request_data@.len() + SEALED_OVERHEAD <= limit ==> ({
            let id = final(state)@.last_msg_id;
            let message = request_message(old(state)@, id, request_data@);
            &&& r is Ok
            &&& r->Ok_0@.len() == sealed_len(request_data@.len())
            &&& r->Ok_0@.len() <= limit
            &&& final(state)@ == after_request(old(state)@, id)
            &&& id > old(state)@.last_msg_id
            &&& id % 4 == 0
            &&& exists|padding: Seq<u8>|
                padding.len() == padding_len(inner_block(message).len()) && #[trigger] is_sealed(
                    old(state)@.auth_raw_key,
                    old(state)@.version,
                    Direction::ToServer,
                    message,
                    padding,
                    r->Ok_0@,
                )
        }),
{
    if limit < SEALED_OVERHEAD || request_data.len() > limit - SEALED_OVERHEAD {
        return Err(Error::MessageTooLong(request_data.len()));
    }
    let made: Result<Message, Error> = state.create_message(request_data, MessagePurpose::Content);
    match made {
        Ok(message) => {
            let r = message.to_bytes(state.auth_raw_key(), state.version(), Direction::ToServer);
            proof {
                let m = request_message(old(state)@, state@.last_msg_id, request_data@);
                assert(message@ == m);
                lemma_inner_block_len(m);
                if r is Ok {
                    let padding = choose|padding: Seq<u8>|
                        padding.len() == padding_len(inner_block(m).len()) && #[trigger] is_sealed(
                            state@.auth_raw_key,
                            state@.version,
                            Direction::ToServer,
                            m,
                            padding,
                            r->Ok_0@,
                        );
                    crate::tl::envelope::lemma_sealed_len(
                        state@.auth_raw_key,
                        state@.version,
                        Direction::ToServer,
                        m,
                        padding,
                        r->Ok_0@,
                    );
                }
            }
            r
        },
        Err(e) => Err(e),
    }
}

/// The body of the response in an unauthenticated envelope.
pub fn parse_response_plain(response_bytes: &[u8]) -> (r: Result<Vec<u8>, Error>)
    ensures
        match parse_plain(response_bytes@) {
            Ok((message_id, body)) => r is Ok && r->Ok_0@ == body,
            Err(e) => r is Err && r->Err_0 == e,
        },
{
    match MessagePlain::from_bytes(response_bytes) {
        Ok(message) => Ok(message.into_body()),
        Err(e) => Err(e),
    }
}

/// The body of the response in an authenticated envelope, opened with the
/// session's key and version.
pub fn parse_response(state: &State, response_bytes: &[u8]) -> (r: Result<Vec<u8>, Error>)
    ensures
        match opened(
            response_bytes@,
            state@.auth_raw_key,
            state@.version,
            Direction::FromServer,
        ) {
            Ok(m) => r is Ok && r->Ok_0@ == m.body,
            Err(e) => r is Err && r->Err_0 == e,
        },
{
    match Message::from_bytes(
        response_bytes,
        state.auth_raw_key(),
        state.version(),
        Direction::FromServer,
    ) {
        Ok(message) => Ok(message.into_body()),
        Err(e) => Err(e),
    }
}

} // verus!
