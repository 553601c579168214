//! Per-session bookkeeping: message ids, sequence numbers, salt and time offset.

use crate::error::Error;
use crate::protocol::ProtocolVersion;
use crate::tl::message::MessageCommon;
use vstd::prelude::*;

verus! {

/// Whether a message must be acknowledged by the peer.
#[derive(Clone, Copy, Debug, PartialEq, Eq, Structural)]
pub enum MessagePurpose {
    Content,
    NonContent,
}

/// The low 32 bits of `x`, read as a two's complement number.
pub open spec fn low32_signed(x: int) -> int {
    let m = x % 0x1_0000_0000;
    if m < 0x8000_0000 {
        m
    } else {
        m - 0x1_0000_0000
    }
}

/// The upper 32 bits of a message id, read as an unsigned number of seconds.
pub open spec fn upper32(msg_id: i64) -> int {
    (msg_id as int / 0x1_0000_0000) % 0x1_0000_0000
}

/// The message id that a clock reading stands for: the server time `ts` (in
/// seconds, of which the low 32 bits count) shifted left by 32 bits, or'ed
/// with the nanoseconds shifted left by 2 bits.
pub open spec fn clock_msg_id(ts: int, nanos: u32) -> i64 {
    ((low32_signed(ts) as i64) << 32) | ((nanos as i64) << 2)
}

/// The id issued after `last` when the clock stands for `candidate`.
pub open spec fn next_msg_id(last: int, candidate: int) -> int {
    if last >= candidate {
        last + 4
    } else {
        candidate
    }
}

/// The sequence number handed out for a message of the given purpose when
/// `counter` content messages have been issued so far.
pub open spec fn seq_no_for(counter: int, purpose: MessagePurpose) -> int {
    match purpose {
        MessagePurpose::Content => 2 * counter + 1,
        MessagePurpose::NonContent => 2 * counter,
    }
}

/// The content counter after a message of the given purpose was numbered.
pub open spec fn counter_after(counter: int, purpose: MessagePurpose) -> int {
    match purpose {
        MessagePurpose::Content => counter + 1,
        MessagePurpose::NonContent => counter,
    }
}

/// The time offset that reconciles the local clock at `now_secs` with a
/// message id issued by the peer.
pub open spec fn offset_for(correct_msg_id: i64, now_secs: int) -> int {
    low32_signed(upper32(correct_msg_id) - now_secs)
}

/// What a session holds, as mathematical values.
pub ghost struct StateView {
    pub id: i64,
    pub auth_raw_key: Seq<u8>,
    pub time_offset: i32,
    pub salt: i64,
    pub seq_no: u32,
    pub last_msg_id: i64,
    pub version: ProtocolVersion,
}

impl StateView {
    /// Whether the session can number one more message: neither the ids nor
    /// the sequence numbers have run out.
    pub open spec fn can_issue(self) -> bool {
        self.last_msg_id <= i64::MAX - 4 && self.seq_no < 0x8000_0000
    }
}

/// The mutable record of one logical conversation.
pub struct State {
    id: i64,
    auth_raw_key: [u8; 256],
    time_offset: i32,
    salt: i64,
    seq_no: u32,
    last_msg_id: i64,
    version: ProtocolVersion,
}

impl View for State {
    type V = StateView;

    closed spec fn view(&self) -> StateView {
        StateView {
            id: self.id,
            auth_raw_key: self.auth_raw_key@,
            time_offset: self.time_offset,
            salt: self.salt,
            seq_no: self.seq_no,
            last_msg_id: self.last_msg_id,
            version: self.version,
        }
    }
}

/// Reads the wall clock with `chrono::Utc::now`: the whole seconds since the
/// Unix epoch (`timestamp`) and the nanoseconds within the second
/// (`nanosecond`). Nothing is promised of either value. The outside
/// function panics on a system clock that is set before the epoch.
#[verifier::external_body]
fn wall_clock() -> (i64, u32) {
    let now = chrono::Utc::now();
    (now.timestamp(), chrono::Timelike::nanosecond(&now))
}

/// Cutting a number down to 32 bits keeps its low 32 bits.
proof fn lemma_truncate_i32(x: i64)
    ensures
        (x as i32) as int == low32_signed(x as int),
{
    assert((x as i32) as int == (if (x & 0xffff_ffff) < 0x8000_0000 {
        (x & 0xffff_ffff) as int
    } else {
        (x & 0xffff_ffff) - 0x1_0000_0000
    })) by (bit_vector);
    assert((x & 0xffff_ffff) as int == (x as int) % 0x1_0000_0000) by (bit_vector);
}

/// The upper half of a 64-bit pattern, cut down to 32 bits, is the upper
/// 32 bits.
proof fn lemma_upper32_bits(x: i64)
    ensures
        (((x as u64) >> 32) as i32) as int == low32_signed(upper32(x)),
        0 <= upper32(x) < 0x1_0000_0000,
{
    let u: u64 = (x as u64) >> 32;
    assert(u < 0x1_0000_0000) by (bit_vector)
        requires
            u == (x as u64) >> 32,
    ;
    assert(u as int == ((x as int) / 0x1_0000_0000) % 0x1_0000_0000) by (bit_vector)
        requires
            u == (x as u64) >> 32,
    ;
    assert((u as i32) as int == (if u < 0x8000_0000 {
        u as int
    } else {
        u - 0x1_0000_0000
    })) by (bit_vector)
        requires
            u < 0x1_0000_0000,
    ;
}

/// Every id that a clock reading stands for has its two low bits clear.
pub proof fn lemma_clock_msg_id_aligned(ts: int, nanos: u32)
    ensures
        clock_msg_id(ts, nanos) % 4 == 0,
{
    let hi: i64 = low32_signed(ts) as i64;
    let lo: i64 = nanos as i64;
    assert(((hi << 32) | (lo << 2)) % 4 == 0) by (bit_vector);
}

/// For a server time that fits in 32 signed bits and a nanosecond count below
/// 2^30 (every count below one second is), the id is the seconds times 2^32
/// plus four times the nanoseconds.
pub proof fn lemma_clock_msg_id_arith(ts: int, nanos: u32)
    requires
        -0x8000_0000 <= ts < 0x8000_0000,
        nanos < 0x4000_0000,
    ensures
        clock_msg_id(ts, nanos) == ts * 0x1_0000_0000 + 4 * nanos,
{
    let hi: i64 = low32_signed(ts) as i64;
    let lo: i64 = nanos as i64;
    assert(hi == ts);
    assert(((hi << 32) | (lo << 2)) == hi * 0x1_0000_0000 + 4 * lo) by (bit_vector)
        requires
            -0x8000_0000 <= hi < 0x8000_0000,
            0 <= lo < 0x4000_0000,
    ;
}

/// Two ids issued one after the other: the second is greater than the first,
/// and both are multiples of four.
pub proof fn lemma_successive_msg_ids(last: int, first: int, second: int)
    requires
        last % 4 == 0,
        first % 4 == 0,
        second % 4 == 0,
    ensures
        ({
            let a = next_msg_id(last, first);
            let b = next_msg_id(a, second);
            b > a && a % 4 == 0 && b % 4 == 0
        }),
{
}

/// The content counter after messages of the given purposes were numbered
/// one after the other.
pub open spec fn counter_after_all(counter: int, purposes: Seq<MessagePurpose>) -> int
    decreases purposes.len(),
{
    if purposes.len() == 0 {
        counter
    } else {
        counter_after(counter_after_all(counter, purposes.drop_last()), purposes.last())
    }
}

/// The sequence number that the message at place `i` gets when messages of
/// the given purposes are numbered one after the other.
pub open spec fn seq_no_at(counter: int, purposes: Seq<MessagePurpose>, i: int) -> int {
    seq_no_for(counter_after_all(counter, purposes.take(i)), purposes[i])
}

/// Whether no message from place `from` up to place `to` is a content message.
pub open spec fn no_content_between(purposes: Seq<MessagePurpose>, from: int, to: int) -> bool {
    forall|k: int| from <= k < to ==> #[trigger] purposes[k] == MessagePurpose::NonContent
}

/// The counter never goes back, and a content message advances it.
pub proof fn lemma_counter_grows(counter: int, purposes: Seq<MessagePurpose>, i: int, j: int)
    requires
        0 <= i <= j <= purposes.len(),
    ensures
        counter_after_all(counter, purposes.take(i)) <= counter_after_all(
            counter,
            purposes.take(j),
        ),
        i < j && purposes[i] == MessagePurpose::Content ==> counter_after_all(
            counter,
            purposes.take(i),
        ) < counter_after_all(counter, purposes.take(j)),
        no_content_between(purposes, i, j) ==> counter_after_all(counter, purposes.take(i))
            == counter_after_all(counter, purposes.take(j)),
    decreases j - i,
{
    if i < j {
        lemma_counter_grows(counter, purposes, i, j - 1);
        assert(purposes.take(j).drop_last() =~= purposes.take(j - 1));
        assert(purposes.take(j).last() == purposes[j - 1]);
        if no_content_between(purposes, i, j) {
            assert(purposes[j - 1] == MessagePurpose::NonContent);
            assert(no_content_between(purposes, i, j - 1));
        }
    }
}

/// However content and non-content messages follow one another: every
/// content message gets an odd number, a later content message gets a
/// greater one, and a non-content message gets one less than the content
/// message that comes next.
pub proof fn lemma_seq_no_parity(counter: int, purposes: Seq<MessagePurpose>, i: int, j: int)
    requires
        0 <= i < j < purposes.len(),
        purposes[j] == MessagePurpose::Content,
    ensures
        seq_no_at(counter, purposes, j) % 2 == 1,
        purposes[i] == MessagePurpose::Content ==> seq_no_at(counter, purposes, i) < seq_no_at(
            counter,
            purposes,
            j,
        ),
        purposes[i] == MessagePurpose::NonContent && no_content_between(purposes, i, j)
            ==> seq_no_at(counter, purposes, i) == seq_no_at(counter, purposes, j) - 1,
{
    lemma_counter_grows(counter, purposes, i, j);
}

impl State {
    #[verifier::type_invariant]
    spec fn ids_aligned(&self) -> bool {
        self.last_msg_id % 4 == 0
    }

    /// A fresh session: a random id, an all-zero key, and every counter at zero.
    pub fn new(version: ProtocolVersion) -> (state: State)
        ensures
            state@.auth_raw_key == Seq::new(256, |i: int| 0u8),
            state@.time_offset == 0,
            state@.salt == 0,
            state@.seq_no == 0,
            state@.last_msg_id == 0,
            state@.version == version,
    {
        let drawn = crate::crypto::random::random_bytes(8);
        let state = State {
            id: crate::tl::message::i64_at(drawn.as_slice(), 0),
            auth_raw_key: [0u8;256],
            time_offset: 0,
            salt: 0,
            seq_no: 0,
            last_msg_id: 0,
            version,
        };
        assert(state@.auth_raw_key =~= Seq::new(256, |i: int| 0u8));
        state
    }

    /// The random id of the session.
    pub fn id(&self) -> (id: i64)
        ensures
            id == self@.id,
    {
        self.id
    }

    /// The authorization key: zero until a handshake installs one.
    pub fn auth_raw_key(&self) -> (key: &[u8; 256])
        ensures
            key@ == self@.auth_raw_key,
    {
        &self.auth_raw_key
    }

    /// The seconds by which the peer's clock is ahead of the local one.
    pub fn time_offset(&self) -> (offset: i32)
        ensures
            offset == self@.time_offset,
    {
        self.time_offset
    }

    /// The server salt: zero until one is assigned.
    pub fn salt(&self) -> (salt: i64)
        ensures
            salt == self@.salt,
    {
        self.salt
    }

    /// How many content messages have been numbered.
    pub fn seq_no(&self) -> (counter: u32)
        ensures
            counter == self@.seq_no,
    {
        self.seq_no
    }

    /// The last id issued, zero when none was since the clock was last
    /// reconciled. It is a multiple of four.
    pub fn last_msg_id(&self) -> (id: i64)
        ensures
            id == self@.last_msg_id,
            id % 4 == 0,
    {
        proof {
            use_type_invariant(self);
        }
        self.last_msg_id
    }

    /// The protocol version of the session.
    pub fn version(&self) -> (version: ProtocolVersion)
        ensures
            version == self@.version,
    {
        self.version
    }

    /// Whether the session can number one more message.
    pub fn can_issue(&self) -> (can: bool)
        ensures
            can == self@.can_issue(),
    {
        self.last_msg_id <= i64::MAX - 4 && self.seq_no < 0x8000_0000
    }

    /// Installs the authorization key.
    pub fn set_auth_key(&mut self, key: [u8; 256])
        ensures
            final(self)@ == (StateView { auth_raw_key: key@, ..old(self)@ }),
    {
        proof {
            use_type_invariant(&*self);
        }
        self.auth_raw_key = key;
    }

    /// Installs the server salt.
    pub fn set_salt(&mut self, salt: i64)
        ensures
            final(self)@ == (StateView { salt, ..old(self)@ }),
    {
        proof {
            use_type_invariant(&*self);
        }
        self.salt = salt;
    }

    /// Makes a message of `obj`, sent when the wall clock reads `secs`
    /// seconds and `nanos` nanoseconds. The sequence number is taken in any
    /// case; the id is taken only if the message could be made.
    pub fn create_message_at<T, M: MessageCommon<T>>(
        &mut self,
        obj: T,
        purpose: MessagePurpose,
        secs: i64,
        nanos: u32,
    ) -> (r: Result<M, Error>)
        requires
            old(self)@.can_issue(),
        ensures
            ({
                let id = next_msg_id(
                    old(self)@.last_msg_id as int,
                    clock_msg_id(secs + old(self)@.time_offset, nanos) as int,
                ) as i64;
                let seq_no = seq_no_for(old(self)@.seq_no as int, purpose) as u32;
                let counter = counter_after(old(self)@.seq_no as int, purpose) as u32;
                &&& M::accepts(&obj) ==> r == Ok::<M, Error>(
                    M::built(old(self)@.salt, old(self)@.id, id, seq_no, obj),
                ) && final(self)@ == (StateView { last_msg_id: id, seq_no: counter, ..old(self)@ })
                &&& !M::accepts(&obj) ==> r is Err && r->Err_0 is MessageTooLong && final(self)@
                    == (StateView { seq_no: counter, ..old(self)@ })
            }),
    {
        proof {
            use_type_invariant(&*self);
        }
        let last = self.last_msg_id;
        let message_id = self.new_message_id_at(secs, nanos);
        let seq_no = self.next_seq_no(purpose);
        match M::new(self.salt, self.id, message_id, seq_no, obj) {
            Ok(message) => Ok(message),
            Err(e) => {
                self.last_msg_id = last;
                Err(e)
            },
        }
    }

    /// Makes a message of `obj`, sent now. The sequence number is taken in
    /// any case; the id, which exceeds every id issued before whatever the
    /// clock reads, is taken only if the message could be made.
    pub fn create_message<T, M: MessageCommon<T>>(&mut self, obj: T, purpose: MessagePurpose) -> (r:
        Result<M, Error>)
        requires
            old(self)@.can_issue(),
        ensures
            ({
                let seq_no = seq_no_for(old(self)@.seq_no as int, purpose) as u32;
                let counter = counter_after(old(self)@.seq_no as int, purpose) as u32;
                let id = final(self)@.last_msg_id;
                &&& M::accepts(&obj) ==> r == Ok::<M, Error>(
                    M::built(old(self)@.salt, old(self)@.id, id, seq_no, obj),
                ) && id > old(self)@.last_msg_id && id % 4 == 0 && final(self)@ == (StateView {
                    last_msg_id: id,
                    seq_no: counter,
                    ..old(self)@
                })
                &&& !M::accepts(&obj) ==> r is Err && r->Err_0 is MessageTooLong && final(self)@
                    == (StateView { seq_no: counter, ..old(self)@ })
            }),
    {
        let (secs, nanos) = wall_clock();
        proof {
            use_type_invariant(&*self);
            lemma_clock_msg_id_aligned(secs + self.time_offset, nanos);
        }
        self.create_message_at(obj, purpose, secs, nanos)
    }

    /// Gives `msg` the id of a message sent when the wall clock reads `secs`
    /// seconds and `nanos` nanoseconds.
    pub fn update_message_id_at<M: MessageCommon<T>, T>(
        &mut self,
        msg: &mut M,
        secs: i64,
        nanos: u32,
    )
        requires
            old(self)@.last_msg_id <= i64::MAX - 4,
        ensures
            ({
                let id = next_msg_id(
                    old(self)@.last_msg_id as int,
                    clock_msg_id(secs + old(self)@.time_offset, nanos) as int,
                ) as i64;
                &&& *final(msg) == old(msg).with_message_id(id)
                &&& final(self)@ == (StateView { last_msg_id: id, ..old(self)@ })
            }),
    {
        let message_id = self.new_message_id_at(secs, nanos);
        msg.set_message_id(message_id);
    }

    /// Gives `msg` a new id, which exceeds every id issued before whatever
    /// the clock reads.
    pub fn update_message_id<M: MessageCommon<T>, T>(&mut self, msg: &mut M)
        requires
            old(self)@.last_msg_id <= i64::MAX - 4,
        ensures
            *final(msg) == old(msg).with_message_id(final(self)@.last_msg_id),
            final(self)@.last_msg_id > old(self)@.last_msg_id,
            final(self)@.last_msg_id % 4 == 0,
            final(self)@ == (StateView { last_msg_id: final(self)@.last_msg_id, ..old(self)@ }),
    {
        let message_id = self.new_message_id();
        msg.set_message_id(message_id);
    }

    /// Issues the id for a message sent when the wall clock reads `secs`
    /// seconds and `nanos` nanoseconds.
    pub fn new_message_id_at(&mut self, secs: i64, nanos: u32) -> (id: i64)
        requires
            old(self)@.last_msg_id <= i64::MAX - 4,
        ensures
            id == next_msg_id(
                old(self)@.last_msg_id as int,
                clock_msg_id(secs + old(self)@.time_offset, nanos) as int,
            ),
            id > old(self)@.last_msg_id,
            id % 4 == 0,
            final(self)@ == (StateView { last_msg_id: id, ..old(self)@ }),
    {
        proof {
            use_type_invariant(&*self);
            lemma_truncate_i32(secs);
            lemma_clock_msg_id_aligned(secs + self.time_offset, nanos);
        }
        let secs_low: i32 = #[verifier::truncate] (secs as i32);
        let ts_low: i32 = secs_low.wrapping_add(self.time_offset);
        assert(ts_low == low32_signed(secs + self.time_offset));
        let mut new_msg_id: i64 = ((ts_low as i64) << 32) | ((nanos as i64) << 2);
        if self.last_msg_id >= new_msg_id {
            new_msg_id = self.last_msg_id + 4;
        }
        self.last_msg_id = new_msg_id;
        new_msg_id
    }

    /// Issues the id for a message sent now. Whatever the clock reads, the id
    /// exceeds every id issued before and is a multiple of four.
    pub fn new_message_id(&mut self) -> (id: i64)
        requires
            old(self)@.last_msg_id <= i64::MAX - 4,
        ensures
            exists|secs: i64, nanos: u32|
                id == next_msg_id(
                    old(self)@.last_msg_id as int,
                    #[trigger] clock_msg_id(secs + old(self)@.time_offset, nanos) as int,
                ),
            id > old(self)@.last_msg_id,
            id % 4 == 0,
            final(self)@ == (StateView { last_msg_id: id, ..old(self)@ }),
    {
        let (secs, nanos) = wall_clock();
        self.new_message_id_at(secs, nanos)
    }

    /// Reconciles the local clock, which reads `now_secs`, with an id issued
    /// by the peer, and starts the id sequence anew.
    pub fn update_time_offset_at(&mut self, correct_msg_id: i64, now_secs: i64) -> (offset: i32)
        ensures
            offset == offset_for(correct_msg_id, now_secs as int),
            final(self)@ == (StateView { time_offset: offset, last_msg_id: 0, ..old(self)@ }),
    {
        proof {
            lemma_upper32_bits(correct_msg_id);
            lemma_truncate_i32(now_secs);
        }
        let correct_low: i32 = #[verifier::truncate] (((#[verifier::truncate] (correct_msg_id
            as u64)) >> 32) as i32);
        let now_low: i32 = #[verifier::truncate] (now_secs as i32);
        self.last_msg_id = 0;
        self.time_offset = correct_low.wrapping_sub(now_low);
        self.time_offset
    }

    /// Reconciles the local clock with an id issued by the peer, and starts
    /// the id sequence anew.
    pub fn update_time_offset(&mut self, correct_msg_id: i64) -> (offset: i32)
        ensures
            exists|now_secs: i64| offset == #[trigger] offset_for(correct_msg_id, now_secs as int),
            final(self)@ == (StateView { time_offset: offset, last_msg_id: 0, ..old(self)@ }),
    {
        let (now_secs, _) = wall_clock();
        self.update_time_offset_at(correct_msg_id, now_secs)
    }

    /// Numbers a message: a content message takes twice the counter plus one
    /// and advances the counter, any other takes twice the counter.
    pub fn next_seq_no(&mut self, purpose: MessagePurpose) -> (seq_no: u32)
        requires
            old(self)@.seq_no < 0x8000_0000,
        ensures
            seq_no == seq_no_for(old(self)@.seq_no as int, purpose),
            final(self)@ == (StateView {
                seq_no: counter_after(old(self)@.seq_no as int, purpose) as u32,
                ..old(self)@
            }),
    {
        proof {
            use_type_invariant(&*self);
        }
        match purpose {
            MessagePurpose::Content => {
                let result = self.seq_no * 2 + 1;
                self.seq_no += 1;
                result
            },
            MessagePurpose::NonContent => self.seq_no * 2,
        }
    }
}

} // verus!
