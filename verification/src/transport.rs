//! Datagram framing.
//!
//! Outbound, a payload of any length is cut into datagrams of at most
//! [`MAX_PACKET_SIZE`] bytes. Inbound, received bytes are accumulated and cut
//! into messages at every [`DELIMITER`] byte.

use vstd::prelude::*;

verus! {

/// Largest number of payload bytes carried by one outbound datagram.
pub const MAX_PACKET_SIZE: usize = 32768;

/// Byte that terminates every message on the wire (form feed).
pub const DELIMITER: u8 = 12;

/// Number of datagrams needed to carry `len` payload bytes: `len / 32768`,
/// rounded up.
pub open spec fn datagram_count(len: nat) -> nat {
    ((len + MAX_PACKET_SIZE - 1) / (MAX_PACKET_SIZE as int)) as nat
}

/// The `k`-th datagram of `payload`: the bytes from `k * 32768` up to the next
/// multiple of 32768, or to the end of the payload if that comes first.
pub open spec fn datagram_at(payload: Seq<u8>, k: int) -> Seq<u8> {
    let start = k * MAX_PACKET_SIZE;
    let end = if start + MAX_PACKET_SIZE <= payload.len() {
        start + MAX_PACKET_SIZE
    } else {
        payload.len() as int
    };
    payload.subrange(start, end)
}

/// All datagrams of `payload`, in sending order.
pub open spec fn datagrams_of(payload: Seq<u8>) -> Seq<Seq<u8>> {
    Seq::new(datagram_count(payload.len()), |k: int| datagram_at(payload, k))
}

/// The bytes of `parts`, one part after the other.
pub open spec fn concat(parts: Seq<Seq<u8>>) -> Seq<u8>
    decreases parts.len(),
{
    if parts.len() == 0 {
        Seq::empty()
    } else {
        concat(parts.drop_last()) + parts.last()
    }
}

/// The byte sequences held by a list of byte vectors.
pub open spec fn contents(parts: Seq<Vec<u8>>) -> Seq<Seq<u8>> {
    Seq::new(parts.len(), |i: int| parts[i]@)
}

/// Cuts `payload` into the datagrams to send, in order.
pub fn split_datagrams(payload: &[u8]) -> (datagrams: Vec<Vec<u8>>)
    ensures
        contents(datagrams@) == datagrams_of(payload@),
{
    let mut datagrams: Vec<Vec<u8>> = Vec::new();
    let mut sent: usize = 0;
    let total: usize = payload.len();
    while sent < total
        invariant
            total == payload@.len(),
            sent <= total,
            sent < total ==> sent == datagrams@.len() * MAX_PACKET_SIZE,
            sent == total ==> datagrams@.len() == datagram_count(total as nat),
            datagrams@.len() <= datagram_count(total as nat),
            forall|k: int|
                0 <= k < datagrams@.len() ==> (#[trigger] datagrams@[k])@ == datagram_at(
                    payload@,
                    k,
                ),
        decreases total - sent,
    {
        let remaining: usize = total - sent;
        let size: usize = if remaining < MAX_PACKET_SIZE {
            remaining
        } else {
            MAX_PACKET_SIZE
        };
        let end: usize = sent + size;
        let chunk: Vec<u8> = vstd::slice::slice_to_vec(
            vstd::slice::slice_subrange(payload, sent, end),
        );
        proof {
            let k = datagrams@.len() as int;
            assert(chunk@ == datagram_at(payload@, k));
            assert(k < datagram_count(total as nat)) by (nonlinear_arith)
                requires
                    sent == k * MAX_PACKET_SIZE,
                    sent < total,
                    MAX_PACKET_SIZE == 32768,
                    k >= 0,
                    datagram_count(total as nat) == (total + 32768 - 1) / 32768,
            ;
            if end == total {
                assert(k + 1 == datagram_count(total as nat)) by (nonlinear_arith)
                    requires
                        sent == k * MAX_PACKET_SIZE,
                        sent < total,
                        total - sent <= MAX_PACKET_SIZE,
                        MAX_PACKET_SIZE == 32768,
                        k >= 0,
                        datagram_count(total as nat) == (total + 32768 - 1) / 32768,
                ;
            }
        }
        datagrams.push(chunk);
        sent = end;
    }
    proof {
        assert(datagrams@.len() == datagram_count(total as nat)) by {
            if total == 0 {
                assert(datagram_count(0) == 0);
            }
        }
        assert(contents(datagrams@) =~= datagrams_of(payload@));
    }
    datagrams
}

/// The datagrams of a payload are as many as its length divided by 32768,
/// rounded up; none is empty or longer than 32768 bytes; and put end to end
/// in sending order they are the payload again.
pub proof fn lemma_datagrams_reassemble(payload: Seq<u8>)
    ensures
        datagrams_of(payload).len() == datagram_count(payload.len()),
        forall|k: int|
            0 <= k < datagrams_of(payload).len() ==> 0 < (#[trigger] datagrams_of(payload)[k]).len()
                <= MAX_PACKET_SIZE,
        concat(datagrams_of(payload)) == payload,
{
    let all = datagrams_of(payload);
    let count = all.len() as int;
    let len = payload.len() as int;
    assert((count - 1) * 32768 < len <= count * 32768 || (count == 0 && len == 0))
        by (nonlinear_arith)
        requires
            count == (len + 32768 - 1) / 32768,
            len >= 0,
    ;
    assert forall|k: int| 0 <= k < count implies 0 < (#[trigger] all[k]).len()
        <= MAX_PACKET_SIZE by {
        assert(k * 32768 <= (count - 1) * 32768) by (nonlinear_arith)
            requires
                k <= count - 1,
        ;
    }
    lemma_concat_prefix(payload, count);
    assert(all.take(count) =~= all);
    assert(payload.subrange(0, len) =~= payload);
}

/// The first `n` datagrams of a payload, put end to end, are the payload's
/// first `n * 32768` bytes, or all of it if it is shorter.
proof fn lemma_concat_prefix(payload: Seq<u8>, n: int)
    requires
        0 <= n <= datagram_count(payload.len()),
    ensures
        concat(datagrams_of(payload).take(n)) == payload.subrange(
            0,
            if n * MAX_PACKET_SIZE <= payload.len() {
                n * MAX_PACKET_SIZE
            } else {
                payload.len() as int
            },
        ),
    decreases n,
{
    let all = datagrams_of(payload);
    let count = all.len() as int;
    let len = payload.len() as int;
    if n == 0 {
        assert(concat(all.take(0)) =~= payload.subrange(0, 0));
    } else {
        lemma_concat_prefix(payload, n - 1);
        assert((count - 1) * 32768 < len) by (nonlinear_arith)
            requires
                count == (len + 32768 - 1) / 32768,
                len >= 0,
                count >= 1,
        ;
        assert((n - 1) * 32768 <= (count - 1) * 32768) by (nonlinear_arith)
            requires
                n <= count,
        ;
        assert(n * 32768 == (n - 1) * 32768 + 32768) by (nonlinear_arith);
        let head = all.take(n);
        assert(head.drop_last() =~= all.take(n - 1));
        assert(head.last() == datagram_at(payload, n - 1));
        let end = if n * 32768 <= len {
            n * 32768
        } else {
            len
        };
        assert(payload.subrange(0, (n - 1) * 32768) + datagram_at(payload, n - 1)
            =~= payload.subrange(0, end));
    }
}

/// Number of bytes of `buffer` that stand before its first delimiter byte;
/// the length of `buffer` if it holds none.
pub open spec fn message_end(buffer: Seq<u8>) -> nat
    decreases buffer.len(),
{
    if buffer.len() == 0 {
        0
    } else if buffer[0] == DELIMITER {
        0
    } else {
        1 + message_end(buffer.drop_first())
    }
}

/// Whether `buffer` holds at least one complete message.
pub open spec fn has_message(buffer: Seq<u8>) -> bool {
    message_end(buffer) < buffer.len()
}

/// The complete messages held by `buffer`, oldest first. Each is the run of
/// bytes up to, and not including, the next delimiter.
pub open spec fn messages_of(buffer: Seq<u8>) -> Seq<Seq<u8>>
    decreases buffer.len(),
{
    let end = message_end(buffer) as int;
    if end < buffer.len() {
        seq![buffer.subrange(0, end)] + messages_of(buffer.subrange(end + 1, buffer.len() as int))
    } else {
        Seq::empty()
    }
}

/// What is left of `buffer` once every complete message, with its delimiter,
/// has been removed from the front.
pub open spec fn remainder_of(buffer: Seq<u8>) -> Seq<u8>
    decreases buffer.len(),
{
    let end = message_end(buffer) as int;
    if end < buffer.len() {
        remainder_of(buffer.subrange(end + 1, buffer.len() as int))
    } else {
        buffer
    }
}

/// `message_end` is a position in the buffer, no byte before it is a
/// delimiter, and the byte at it, if there is one, is a delimiter.
pub proof fn lemma_message_end(buffer: Seq<u8>)
    ensures
        message_end(buffer) <= buffer.len(),
        forall|i: int| 0 <= i < message_end(buffer) ==> buffer[i] != DELIMITER,
        message_end(buffer) < buffer.len() ==> buffer[message_end(buffer) as int] == DELIMITER,
    decreases buffer.len(),
{
    if buffer.len() != 0 && buffer[0] != DELIMITER {
        let rest = buffer.drop_first();
        lemma_message_end(rest);
        assert forall|i: int| 0 <= i < message_end(buffer) implies buffer[i] != DELIMITER by {
            if i > 0 {
                assert(buffer[i] == rest[i - 1]);
            }
        }
        if message_end(buffer) < buffer.len() {
            assert(buffer[message_end(buffer) as int] == rest[message_end(rest) as int]);
        }
    }
}

/// A position that holds a delimiter and has none before it is `message_end`.
pub proof fn lemma_message_end_is(buffer: Seq<u8>, at: int)
    requires
        0 <= at <= buffer.len(),
        forall|i: int| 0 <= i < at ==> buffer[i] != DELIMITER,
        at < buffer.len() ==> buffer[at] == DELIMITER,
    ensures
        message_end(buffer) == at,
{
    lemma_message_end(buffer);
    let end = message_end(buffer) as int;
    if end < at {
        assert(buffer[end] == DELIMITER);
    } else if at < end {
        assert(buffer[at] == DELIMITER);
    }
}

/// Receiving in two parts gives the same messages as receiving at once: the
/// messages of `first + second` are those of `first`, followed by those found
/// once `second` has been appended to what `first` left behind.
pub proof fn lemma_messages_append(first: Seq<u8>, second: Seq<u8>)
    ensures
        messages_of(first + second) == messages_of(first) + messages_of(
            remainder_of(first) + second,
        ),
        remainder_of(first + second) == remainder_of(remainder_of(first) + second),
    decreases first.len(),
{
    lemma_message_end(first);
    let end = message_end(first) as int;
    let whole = first + second;
    if end < first.len() {
        assert forall|i: int| 0 <= i < end implies whole[i] != DELIMITER by {
            assert(whole[i] == first[i]);
        }
        assert(whole[end] == first[end]);
        lemma_message_end_is(whole, end);
        let rest = first.subrange(end + 1, first.len() as int);
        lemma_messages_append(rest, second);
        assert(whole.subrange(end + 1, whole.len() as int) =~= rest + second);
        assert(whole.subrange(0, end) =~= first.subrange(0, end));
        assert(seq![first.subrange(0, end)] + (messages_of(rest) + messages_of(
            remainder_of(rest) + second,
        )) =~= (seq![first.subrange(0, end)] + messages_of(rest)) + messages_of(
            remainder_of(rest) + second,
        ));
    } else {
        assert(messages_of(first) + messages_of(first + second) =~= messages_of(first + second));
    }
}

/// What a receiver that starts with `buffer` hands out when it is given
/// `datagrams` one at a time, taking the complete messages after each.
pub open spec fn messages_received(buffer: Seq<u8>, datagrams: Seq<Seq<u8>>) -> Seq<Seq<u8>>
    decreases datagrams.len(),
{
    if datagrams.len() == 0 {
        Seq::empty()
    } else {
        messages_of(buffer + datagrams[0]) + messages_received(
            remainder_of(buffer + datagrams[0]),
            datagrams.drop_first(),
        )
    }
}

/// What that receiver still holds afterwards.
pub open spec fn buffer_after(buffer: Seq<u8>, datagrams: Seq<Seq<u8>>) -> Seq<u8>
    decreases datagrams.len(),
{
    if datagrams.len() == 0 {
        buffer
    } else {
        buffer_after(remainder_of(buffer + datagrams[0]), datagrams.drop_first())
    }
}

/// A buffer without a delimiter holds no message and is its own remainder.
pub proof fn lemma_no_delimiter(buffer: Seq<u8>)
    requires
        !buffer.contains(DELIMITER),
    ensures
        messages_of(buffer) == Seq::<Seq<u8>>::empty(),
        remainder_of(buffer) == buffer,
{
    lemma_message_end(buffer);
    if message_end(buffer) < buffer.len() {
        assert(buffer.contains(buffer[message_end(buffer) as int]));
    }
}

/// The bytes of `parts` end to end, with one more part put in front.
proof fn lemma_concat_front(first: Seq<u8>, parts: Seq<Seq<u8>>)
    ensures
        concat(seq![first] + parts) == first + concat(parts),
    decreases parts.len(),
{
    let all = seq![first] + parts;
    if parts.len() == 0 {
        assert(all.drop_last() =~= Seq::<Seq<u8>>::empty());
        assert(concat(all.drop_last()) =~= Seq::<u8>::empty());
        assert(concat(all) =~= first + concat(parts));
    } else {
        lemma_concat_front(first, parts.drop_last());
        assert(all.drop_last() =~= seq![first] + parts.drop_last());
        assert((first + concat(parts.drop_last())) + parts.last() =~= first + (concat(
            parts.drop_last(),
        ) + parts.last()));
    }
}

/// Datagram boundaries do not matter to the receiver: given datagrams one at
/// a time, it hands out the messages of all their bytes taken as one stream.
pub proof fn lemma_received_is_stream(buffer: Seq<u8>, datagrams: Seq<Seq<u8>>)
    requires
        remainder_of(buffer) == buffer,
    ensures
        messages_of(buffer) + messages_received(buffer, datagrams) == messages_of(
            buffer + concat(datagrams),
        ),
        buffer_after(buffer, datagrams) == remainder_of(buffer + concat(datagrams)),
    decreases datagrams.len(),
{
    if datagrams.len() == 0 {
        assert(concat(datagrams) =~= Seq::<u8>::empty());
        assert(buffer + concat(datagrams) =~= buffer);
        assert(messages_of(buffer) + messages_received(buffer, datagrams) =~= messages_of(buffer));
    } else {
        let first = datagrams[0];
        let rest = datagrams.drop_first();
        let next = remainder_of(buffer + first);
        lemma_remainder_idempotent(buffer + first);
        lemma_received_is_stream(next, rest);
        lemma_messages_append(buffer + first, concat(rest));
        lemma_messages_append(buffer, first);
        assert(datagrams =~= seq![first] + rest);
        lemma_concat_front(first, rest);
        assert((buffer + first) + concat(rest) =~= buffer + concat(datagrams));
        lemma_remainder_holds_no_message(buffer + first);
        assert(messages_of(next) + messages_received(next, rest) =~= messages_received(next, rest));
        assert(messages_of(buffer) + (messages_of(buffer + first) + messages_received(next, rest))
            =~= (messages_of(buffer) + messages_of(buffer + first)) + messages_received(
            next,
            rest,
        ));
        lemma_remainder_holds_no_message(buffer);
        assert(messages_of(buffer) =~= Seq::<Seq<u8>>::empty()) by {
            lemma_message_end(buffer);
            if message_end(buffer) < buffer.len() {
                lemma_remainder_shorter(buffer);
            }
        }
        assert(messages_of(buffer) + messages_of(buffer + first) =~= messages_of(buffer + first));
    }
}

/// What is left after taking every message holds no further message.
pub proof fn lemma_remainder_holds_no_message(buffer: Seq<u8>)
    ensures
        messages_of(remainder_of(buffer)) == Seq::<Seq<u8>>::empty(),
    decreases buffer.len(),
{
    lemma_message_end(buffer);
    let end = message_end(buffer) as int;
    if end < buffer.len() {
        lemma_remainder_holds_no_message(buffer.subrange(end + 1, buffer.len() as int));
    }
}

/// Taking the remainder twice is taking it once.
pub proof fn lemma_remainder_idempotent(buffer: Seq<u8>)
    ensures
        remainder_of(remainder_of(buffer)) == remainder_of(buffer),
    decreases buffer.len(),
{
    lemma_message_end(buffer);
    let end = message_end(buffer) as int;
    if end < buffer.len() {
        lemma_remainder_idempotent(buffer.subrange(end + 1, buffer.len() as int));
    }
}

/// A buffer that holds a message is longer than its remainder.
proof fn lemma_remainder_shorter(buffer: Seq<u8>)
    requires
        has_message(buffer),
    ensures
        remainder_of(buffer).len() < buffer.len(),
    decreases buffer.len(),
{
    lemma_message_end(buffer);
    let end = message_end(buffer) as int;
    let rest = buffer.subrange(end + 1, buffer.len() as int);
    lemma_message_end(rest);
    assert(remainder_of(buffer) == remainder_of(rest));
    if has_message(rest) {
        lemma_remainder_shorter(rest);
    } else {
        assert(remainder_of(rest) == rest);
    }
}

/// A message that holds no delimiter byte, followed by one delimiter, cut into
/// datagrams and given in order to a receiver with an empty buffer, comes out
/// as exactly that one message, and the receiver's buffer is empty again.
pub proof fn lemma_message_survives_transport(message: Seq<u8>)
    requires
        !message.contains(DELIMITER),
    ensures
        messages_received(Seq::empty(), datagrams_of(message + seq![DELIMITER])) == seq![message],
        buffer_after(Seq::empty(), datagrams_of(message + seq![DELIMITER])) == Seq::<u8>::empty(),
{
    let payload = message + seq![DELIMITER];
    let empty = Seq::<u8>::empty();
    lemma_datagrams_reassemble(payload);
    lemma_no_delimiter(empty);
    lemma_received_is_stream(empty, datagrams_of(payload));
    assert(empty + payload =~= payload);
    assert(messages_of(empty) + messages_received(empty, datagrams_of(payload))
        =~= messages_received(empty, datagrams_of(payload)));
    assert forall|i: int| 0 <= i < message.len() implies payload[i] != DELIMITER by {
        assert(message.contains(message[i]));
    }
    lemma_message_end_is(payload, message.len() as int);
    let rest = payload.subrange(message.len() as int + 1, payload.len() as int);
    assert(rest =~= empty);
    assert(payload.subrange(0, message.len() as int) =~= message);
    assert(messages_of(payload) =~= seq![message]);
    assert(remainder_of(payload) =~= empty);
}

/// Bytes received and not yet handed out as messages.
pub struct IncomingBuffer {
    bytes: Vec<u8>,
}

impl View for IncomingBuffer {
    type V = Seq<u8>;

    closed spec fn view(&self) -> Seq<u8> {
        self.bytes@
    }
}

impl IncomingBuffer {
    /// An empty buffer.
    pub fn new() -> (buffer: Self)
        ensures
            buffer@ == Seq::<u8>::empty(),
    {
        IncomingBuffer { bytes: Vec::new() }
    }

    /// Number of bytes held.
    pub fn len(&self) -> (n: usize)
        ensures
            n == self@.len(),
    {
        self.bytes.len()
    }

    /// Appends the bytes of one received datagram.
    pub fn extend(&mut self, datagram: &[u8])
        ensures
            final(self)@ == old(self)@ + datagram@,
    {
        self.bytes.extend_from_slice(datagram);
    }

    /// Removes the oldest complete message from the front of the buffer,
    /// together with its delimiter, and returns it without the delimiter.
    /// Returns `None`, and leaves the buffer as it is, when no delimiter has
    /// been received yet.
    pub fn next_message(&mut self) -> (message: Option<Vec<u8>>)
        ensures
            message is Some <==> has_message(old(self)@),
            message is None ==> final(self)@ == old(self)@,
            message matches Some(m) ==> {
                let end = message_end(old(self)@) as int;
                &&& m@ == old(self)@.subrange(0, end)
                &&& final(self)@ == old(self)@.subrange(end + 1, old(self)@.len() as int)
            },
    {
        let total: usize = self.bytes.len();
        let mut at: usize = 0;
        while at < total && self.bytes[at] != DELIMITER
            invariant
                total == self.bytes@.len(),
                at <= total,
                self.bytes@ == old(self).bytes@,
                forall|i: int| 0 <= i < at ==> self.bytes@[i] != DELIMITER,
            decreases total - at,
        {
            at = at + 1;
        }
        proof {
            lemma_message_end_is(self.bytes@, at as int);
        }
        if at == total {
            return None;
        }
        let mut message: Vec<u8> = self.bytes.split_off(at + 1);
        self.bytes.truncate(at);
        core::mem::swap(&mut self.bytes, &mut message);
        Some(message)
    }

    /// Removes every complete message from the buffer and returns them, oldest
    /// first. An incomplete message at the end stays for the next call.
    pub fn take_messages(&mut self) -> (messages: Vec<Vec<u8>>)
        ensures
            contents(messages@) == messages_of(old(self)@),
            final(self)@ == remainder_of(old(self)@),
    {
        let mut messages: Vec<Vec<u8>> = Vec::new();
        loop
            invariant
                contents(messages@) + messages_of(self@) == messages_of(old(self)@),
                remainder_of(self@) == remainder_of(old(self)@),
            decreases self@.len(),
        {
            let ghost before = self@;
            let ghost taken = contents(messages@);
            match self.next_message() {
                None => {
                    proof {
                        assert(messages_of(before) == Seq::<Seq<u8>>::empty());
                        assert(taken + Seq::<Seq<u8>>::empty() =~= taken);
                        lemma_message_end(before);
                    }
                    return messages;
                },
                Some(message) => {
                    messages.push(message);
                    proof {
                        lemma_message_end(before);
                        assert(contents(messages@) =~= taken + seq![message@]);
                        assert((taken + seq![message@]) + messages_of(self@) =~= taken + (
                        seq![message@] + messages_of(self@)));
                    }
                },
            }
        }
    }
}

} // verus!
