//! Packets of the exchange's transport protocol: which messages they carry and
//! which rows those become.
use vstd::prelude::*;

use crate::buf::Buf;
use crate::message;
use crate::row;
use crate::row::RowView;
use crate::wire;

verus! {

/// Where the transport header starts: after the Ethernet, IP and UDP headers.
pub const ETH_IP_UDP: usize = 42;

/// Where the transport header says which protocol its messages are of.
pub const IEXTP_PROTO_ID_OFF: usize = 2;

/// Where the transport header says how many messages follow.
pub const IEXTP_MSG_COUNT_OFF: usize = 14;

/// The length of the transport header.
pub const IEXTP_HEADER: usize = 40;

/// Where the messages start.
pub const MSG_OFFSET: usize = ETH_IP_UDP + IEXTP_HEADER;

/// The protocol of DEEP 1.0.
pub const DEEP_PROTOCOL: u16 = 0x8004;

/// The row of one message, as a sequence.
pub open spec fn row_or_none(r: Option<RowView>) -> Seq<RowView> {
    match r {
        Some(x) => seq![x],
        None => Seq::empty(),
    }
}

/// Where the message at `pos` ends. Its length stands before it and counts its
/// type and its payload.
pub open spec fn message_end(data: Seq<u8>, pos: int) -> int {
    pos + 2 + wire::u16_at(data, pos)
}

/// Whether there is a whole message at `pos`.
pub open spec fn has_message(data: Seq<u8>, pos: int) -> bool {
    &&& pos + 3 <= data.len()
    &&& wire::u16_at(data, pos) >= 1
    &&& message_end(data, pos) <= data.len()
}

/// The row that the message at `pos` becomes, if any.
pub open spec fn row_at(data: Seq<u8>, pos: int) -> Option<RowView> {
    message::message_row(data[pos + 2], data.subrange(pos + 3, message_end(data, pos)))
}

/// The rows of the messages from `pos` on, at most `n` of them, up to the first
/// that is not whole.
pub open spec fn message_rows(data: Seq<u8>, pos: int, n: nat) -> Seq<RowView>
    decreases n,
{
    if n == 0 || !has_message(data, pos) {
        Seq::empty()
    } else {
        row_or_none(row_at(data, pos)) + message_rows(
            data,
            message_end(data, pos),
            (n - 1) as nat,
        )
    }
}

/// Whether a packet is long enough to carry a message, and carries those of
/// DEEP 1.0.
pub open spec fn is_deep(data: Seq<u8>) -> bool {
    data.len() > MSG_OFFSET + 2 && wire::u16_at(data, ETH_IP_UDP + IEXTP_PROTO_ID_OFF)
        == DEEP_PROTOCOL
}

/// How many messages a packet says it carries.
pub open spec fn message_count(data: Seq<u8>) -> nat {
    wire::u16_at(data, ETH_IP_UDP + IEXTP_MSG_COUNT_OFF) as nat
}

/// The rows that a packet becomes.
pub open spec fn packet_rows(data: Seq<u8>) -> Seq<RowView> {
    if is_deep(data) {
        message_rows(data, MSG_OFFSET as int, message_count(data))
    } else {
        Seq::empty()
    }
}

/// Every row says of what type its message was.
pub proof fn lemma_message_row_named(mt: u8, p: Seq<u8>)
    ensures
        message::message_row(mt, p) matches Some(r) ==> r.msg_type.len() > 0,
{
    reveal_strlit("price_level_update_buy");
    reveal_strlit("price_level_update_sell");
    reveal_strlit("trade_report");
    reveal_strlit("trade_break");
    reveal_strlit("official_price");
    reveal_strlit("auction_information");
    reveal_strlit("security_directory");
    reveal_strlit("trading_status");
    reveal_strlit("operational_halt");
    reveal_strlit("short_sale_status");
    reveal_strlit("retail_liquidity");
    reveal_strlit("security_event");
    reveal_strlit("system_event");
}

/// Whether `got` is `rows` with as many of the rows `new` behind it as fit.
pub open spec fn filled(rows: Seq<RowView>, new: Seq<RowView>, got: Seq<RowView>) -> bool {
    exists|k: int|
        0 <= k < new.len() && got == rows + #[trigger] new.take(k) && row::fits(got) && !row::fits(
            got.push(new[k]),
        )
}

/// Where not all rows fit, those before the first that does not are kept, and no
/// other: they fit, and with the next one they would not.
pub proof fn law_filled(rows: Seq<RowView>, new: Seq<RowView>, got: Seq<RowView>)
    requires
        filled(rows, new, got),
    ensures
        rows.is_prefix_of(got),
        got.len() < rows.len() + new.len(),
        got == (rows + new).take(got.len() as int),
        row::fits(got),
        !row::fits((rows + new).take(got.len() + 1int)),
        !row::fits(rows + new),
{
    let k = choose|k: int|
        0 <= k < new.len() && got == rows + #[trigger] new.take(k) && row::fits(got) && !row::fits(
            got.push(new[k]),
        );
    let all = rows + new;
    assert(got =~= all.take(got.len() as int));
    assert(got.push(new[k]) =~= all.take(got.len() + 1int));
    if row::fits(all) {
        row::lemma_fits_prefix(all, got.len() + 1int);
    }
}

/// Adds the rows of a packet to the buffer. The result says whether they all
/// fit; where they do not, the rows up to the first that does not are added.
pub fn try_process_pkt(data: &[u8], buf: &mut Buf) -> (ok: bool)
    requires
        old(buf).wf(),
    ensures
        final(buf).wf(),
        ok == row::fits(old(buf)@ + packet_rows(data@)),
        ok ==> final(buf)@ == old(buf)@ + packet_rows(data@),
        !ok ==> filled(old(buf)@, packet_rows(data@), final(buf)@),
{
    let ghost before = buf@;
    let ghost new = packet_rows(data@);
    proof {
        buf.lemma_rows();
        assert(before + Seq::<RowView>::empty() =~= before);
        assert(new.take(0) =~= Seq::<RowView>::empty());
    }
    if data.len() <= MSG_OFFSET + 2 {
        return true;
    }
    if wire::ru16(data, ETH_IP_UDP + IEXTP_PROTO_ID_OFF) != DEEP_PROTOCOL {
        return true;
    }
    let count: u16 = wire::ru16(data, ETH_IP_UDP + IEXTP_MSG_COUNT_OFF);
    let mut left: u16 = count;
    let mut pos: usize = MSG_OFFSET;
    let ghost mut done: int = 0;
    proof {
        assert(new.skip(0) =~= new);
    }
    while left > 0
        invariant_except_break
            pos <= data@.len(),
            new.skip(done) == message_rows(data@, pos as int, left as nat),
        invariant
            buf.wf(),
            0 <= done <= new.len(),
            new == packet_rows(data@),
            before == old(buf)@,
            buf@ == before + new.take(done),
        ensures
            done == new.len(),
        decreases left,
    {
        if data.len() - pos < 3 {
            break;
        }
        let ml: usize = wire::ru16(data, pos) as usize;
        if ml < 1 {
            break;
        }
        let mt: u8 = wire::ru8(data, pos + 2);
        if ml > data.len() - pos - 2 {
            break;
        }
        let end: usize = pos + 2 + ml;
        let ghost rest = message_rows(data@, end as int, (left - 1) as nat);
        match message::decode_message(mt, vstd::slice::slice_subrange(data, pos + 3, end)) {
            Some(r) => {
                proof {
                    lemma_message_row_named(mt, data@.subrange(pos + 3, end as int));
                    assert(row_at(data@, pos as int) == Some(r@));
                    assert(new.skip(done) == seq![r@] + rest);
                    assert(new.skip(done)[0] == r@);
                    assert(new.take(done + 1) =~= new.take(done).push(r@));
                    assert(new.skip(done + 1) =~= rest) by {
                        assert(new.skip(done + 1) =~= new.skip(done).skip(1));
                    }
                    assert(before + new.take(done + 1) =~= buf@.push(r@));
                }
                if !buf.row_fits(&r) {
                    proof {
                        buf.lemma_rows();
                        assert((before + new).take(before.len() + done + 1) =~= buf@.push(r@));
                        if row::fits(before + new) {
                            row::lemma_fits_prefix(before + new, before.len() + done + 1);
                        }
                    }
                    return false;
                }
                buf.push_row(&r);
                proof {
                    done = done + 1;
                }
            },
            None => {
                proof {
                    assert(row_at(data@, pos as int) is None);
                    assert(new.skip(done) =~= rest);
                }
            },
        }
        pos = end;
        left = left - 1;
    }
    proof {
        buf.lemma_rows();
        assert(new.take(new.len() as int) =~= new);
    }
    true
}

/// Adds the rows of a packet, which must fit, to the buffer.
pub fn process_pkt(data: &[u8], buf: &mut Buf)
    requires
        old(buf).wf(),
        row::fits(old(buf)@ + packet_rows(data@)),
    ensures
        final(buf).wf(),
        final(buf)@ == old(buf)@ + packet_rows(data@),
{
    try_process_pkt(data, buf);
}

/// A packet becomes at most as many rows as it says it carries messages.
pub proof fn law_at_most_one_row_per_message(data: Seq<u8>)
    ensures
        packet_rows(data).len() <= message_count(data) <= 0xffff,
{
    lemma_row_count(data, MSG_OFFSET as int, message_count(data));
}

proof fn lemma_row_count(data: Seq<u8>, pos: int, n: nat)
    ensures
        message_rows(data, pos, n).len() <= n,
    decreases n,
{
    if n > 0 && has_message(data, pos) {
        lemma_row_count(data, message_end(data, pos), (n - 1) as nat);
    }
}

/// The rows of a packet are named after their messages and have short texts.
pub proof fn lemma_packet_rows_short(data: Seq<u8>)
    ensures
        row::named(packet_rows(data)),
        row::short(packet_rows(data)),
{
    if is_deep(data) {
        lemma_message_rows_short(data, MSG_OFFSET as int, message_count(data));
    }
}

proof fn lemma_message_rows_short(data: Seq<u8>, pos: int, n: nat)
    ensures
        row::named(message_rows(data, pos, n)),
        row::short(message_rows(data, pos, n)),
    decreases n,
{
    if n > 0 && has_message(data, pos) {
        let first = row_or_none(row_at(data, pos));
        let rest = message_rows(data, message_end(data, pos), (n - 1) as nat);
        let all = message_rows(data, pos, n);
        let mt = data[pos + 2];
        let p = data.subrange(pos + 3, message_end(data, pos));
        lemma_message_rows_short(data, message_end(data, pos), (n - 1) as nat);
        lemma_message_row_named(mt, p);
        assert(all == first + rest);
        assert forall|i: int| 0 <= i < all.len() implies (#[trigger] all[i]).msg_type.len() > 0 by {
            if i >= first.len() {
                assert(all[i] == rest[i - first.len()]);
            }
        }
        assert forall|i: int, c: row::Column| 0 <= i < all.len() implies ((
        #[trigger] all[i].text(c)) matches Some(t) ==> t.len() <= row::LONGEST_TEXT) by {
            if i >= first.len() {
                assert(all[i] == rest[i - first.len()]);
                assert(rest[i - first.len()].text(c) == all[i].text(c));
            } else {
                message::law_texts_are_short(mt, p, c);
            }
        }
    }
}

/// A packet that is cut short becomes the first of the rows that the whole packet
/// becomes.
pub proof fn law_truncated_packet(data: Seq<u8>, n: int)
    requires
        0 <= n <= data.len(),
    ensures
        packet_rows(data.take(n)).is_prefix_of(packet_rows(data)),
{
    let cut = data.take(n);
    if is_deep(cut) {
        assert(cut.subrange(44, 46) =~= data.subrange(44, 46));
        assert(cut.subrange(56, 58) =~= data.subrange(56, 58));
        lemma_truncated(data, n, MSG_OFFSET as int, message_count(data));
    }
}

proof fn lemma_truncated(data: Seq<u8>, n: int, pos: int, count: nat)
    requires
        0 <= n <= data.len(),
        0 <= pos,
    ensures
        message_rows(data.take(n), pos, count).is_prefix_of(message_rows(data, pos, count)),
    decreases count,
{
    let cut = data.take(n);
    if count > 0 && has_message(cut, pos) {
        assert(cut.subrange(pos, pos + 2) =~= data.subrange(pos, pos + 2));
        let end = message_end(data, pos);
        assert(cut.subrange(pos + 3, end) =~= data.subrange(pos + 3, end));
        lemma_truncated(data, n, end, (count - 1) as nat);
    }
}

/// A message: its type and its payload.
pub struct Message {
    pub mt: u8,
    pub payload: Seq<u8>,
}

/// The bytes of messages as they stand in a packet.
pub open spec fn encoded(messages: Seq<Message>) -> Seq<u8>
    decreases messages.len(),
{
    if messages.len() == 0 {
        Seq::empty()
    } else {
        let m = messages[0];
        wire::le_bytes(m.payload.len() + 1, 2).push(m.mt) + m.payload + encoded(
            messages.drop_first(),
        )
    }
}

/// The rows that messages become.
pub open spec fn rows_of(messages: Seq<Message>) -> Seq<RowView>
    decreases messages.len(),
{
    if messages.len() == 0 {
        Seq::empty()
    } else {
        row_or_none(message::message_row(messages[0].mt, messages[0].payload)) + rows_of(
            messages.drop_first(),
        )
    }
}

/// A packet of messages becomes the rows of all of them, in order, whatever
/// stands behind them.
pub proof fn law_packet_of_messages(header: Seq<u8>, messages: Seq<Message>, tail: Seq<u8>)
    requires
        header.len() == MSG_OFFSET,
        wire::u16_at(header, ETH_IP_UDP + IEXTP_PROTO_ID_OFF) == DEEP_PROTOCOL,
        wire::u16_at(header, ETH_IP_UDP + IEXTP_MSG_COUNT_OFF) == messages.len(),
        forall|i: int|
            0 <= i < messages.len() ==> (#[trigger] messages[i]).payload.len() + 1 <= 0xffff,
    ensures
        packet_rows(header + encoded(messages) + tail) == rows_of(messages),
{
    let data = header + encoded(messages) + tail;
    assert(data.subrange(44, 46) =~= header.subrange(44, 46));
    assert(data.subrange(56, 58) =~= header.subrange(56, 58));
    assert(data =~= header + (encoded(messages) + tail));
    if messages.len() > 0 {
        lemma_messages_read(header, messages, tail, messages.len());
        reveal_with_fuel(wire::le_bytes, 3);
    }
}

proof fn lemma_messages_read(before: Seq<u8>, messages: Seq<Message>, tail: Seq<u8>, n: nat)
    requires
        forall|i: int|
            0 <= i < messages.len() ==> (#[trigger] messages[i]).payload.len() + 1 <= 0xffff,
        n == messages.len() || n > messages.len() && begins_no_message(tail),
    ensures
        message_rows(before + (encoded(messages) + tail), before.len() as int, n) == rows_of(
            messages,
        ),
    decreases messages.len(),
{
    let data = before + (encoded(messages) + tail);
    let pos = before.len() as int;
    if messages.len() > 0 {
        let m = messages[0];
        let rest = messages.drop_first();
        let size = wire::le_bytes(m.payload.len() + 1, 2);
        reveal_with_fuel(wire::pow256, 3);
        wire::law_le_value_of_le_bytes(m.payload.len() + 1, 2);
        assert(data.subrange(pos, pos + 2) =~= size);
        let end = message_end(data, pos);
        assert(data.subrange(pos + 3, end) =~= m.payload);
        let next = before + (size.push(m.mt) + m.payload);
        assert(data =~= next + (encoded(rest) + tail));
        assert forall|i: int| 0 <= i < rest.len() implies (#[trigger] rest[i]).payload.len() + 1
            <= 0xffff by {
            assert(rest[i] == messages[i + 1]);
        }
        lemma_messages_read(next, rest, tail, (n - 1) as nat);
    } else if n > 0 {
        assert(data =~= before + tail);
        if tail.len() >= 3 {
            wire::law_weight_of_bytes(data, pos);
            assert(data[pos] == tail[0] && data[pos + 1] == tail[1]);
        }
    }
}

/// Whether no whole message stands at the start of `tail`: it ends before the length
/// and the type do, or gives the length as zero, or ends before the message does.
pub open spec fn begins_no_message(tail: Seq<u8>) -> bool {
    ||| tail.len() < 3
    ||| tail[0] == 0 && tail[1] == 0
    ||| tail.len() < 2 + tail[0] + 256 * tail[1]
}

/// What stands before the messages of a packet: the headers of the network, and
/// that of the transport protocol around the protocol of the messages and their
/// number.
pub struct Headers {
    pub network: Seq<u8>,
    pub version: Seq<u8>,
    pub protocol: u16,
    pub session: Seq<u8>,
    pub count: u16,
    pub stream: Seq<u8>,
}

impl Headers {
    /// Whether the parts are as long as they are in a packet.
    pub open spec fn valid(self) -> bool {
        &&& self.network.len() == 42
        &&& self.version.len() == 2
        &&& self.session.len() == 10
        &&& self.stream.len() == 24
    }

    /// The headers as they stand in a packet.
    pub open spec fn bytes(self) -> Seq<u8> {
        self.network + self.version + wire::le_bytes(self.protocol as nat, 2) + self.session
            + wire::le_bytes(self.count as nat, 2) + self.stream
    }
}

proof fn lemma_headers_read_back(h: Headers, rest: Seq<u8>)
    requires
        h.valid(),
    ensures
        h.bytes().len() == 82,
        wire::u16_at(h.bytes() + rest, 44) == h.protocol,
        wire::u16_at(h.bytes() + rest, 56) == h.count,
{
    let data = h.bytes() + rest;
    let protocol = wire::le_bytes(h.protocol as nat, 2);
    let count = wire::le_bytes(h.count as nat, 2);
    reveal_with_fuel(wire::pow256, 3);
    wire::law_le_value_of_le_bytes(h.protocol as nat, 2);
    wire::law_le_value_of_le_bytes(h.count as nat, 2);
    assert(data.subrange(44, 46) =~= protocol);
    assert(data.subrange(56, 58) =~= count);
}

/// A packet becomes the rows of the messages that were put into it, in order,
/// whatever else its headers say and whatever stands behind the messages. Where
/// its headers give another number, messages past that number are left out, and
/// reading stops where no whole message stands.
pub proof fn law_packet_read_back(h: Headers, messages: Seq<Message>, tail: Seq<u8>)
    requires
        h.valid(),
        h.protocol == 0x8004,
        forall|i: int|
            0 <= i < messages.len() ==> (#[trigger] messages[i]).payload.len() + 1 <= 0xffff,
        h.count <= messages.len() || begins_no_message(tail),
    ensures
        packet_rows(h.bytes() + encoded(messages) + tail) == rows_of(
            messages.take(
                if h.count <= messages.len() {
                    h.count as int
                } else {
                    messages.len() as int
                },
            ),
        ),
{
    let k = if h.count <= messages.len() {
        h.count as int
    } else {
        messages.len() as int
    };
    let first = messages.take(k);
    let behind = encoded(messages.skip(k)) + tail;
    let data = h.bytes() + encoded(messages) + tail;
    lemma_headers_read_back(h, encoded(messages) + tail);
    assert(data =~= h.bytes() + (encoded(messages) + tail));
    lemma_encoded_split(messages, k);
    assert(data =~= h.bytes() + (encoded(first) + behind));
    if k == messages.len() {
        assert(messages.skip(k) =~= Seq::<Message>::empty());
        assert(behind =~= tail);
    }
    assert forall|i: int| 0 <= i < first.len() implies (#[trigger] first[i]).payload.len() + 1
        <= 0xffff by {
        assert(first[i] == messages[i]);
    }
    lemma_messages_read(h.bytes(), first, behind, h.count as nat);
    if first.len() > 0 {
        reveal_with_fuel(wire::le_bytes, 3);
    }
}

/// The bytes of messages are those of the first of them and then of the others.
proof fn lemma_encoded_split(messages: Seq<Message>, k: int)
    requires
        0 <= k <= messages.len(),
    ensures
        encoded(messages) == encoded(messages.take(k)) + encoded(messages.skip(k)),
    decreases k,
{
    if k == 0 {
        assert(messages.take(0) =~= Seq::<Message>::empty());
        assert(messages.skip(0) =~= messages);
        assert(encoded(messages.take(k)) + encoded(messages.skip(k)) =~= encoded(messages));
    } else {
        let rest = messages.drop_first();
        lemma_encoded_split(rest, k - 1);
        assert(messages.take(k).drop_first() =~= rest.take(k - 1));
        assert(messages.skip(k) =~= rest.skip(k - 1));
        assert(encoded(messages) =~= encoded(messages.take(k)) + encoded(messages.skip(k)));
    }
}

/// A packet of another protocol becomes no row, nor does one without room for a
/// message.
pub proof fn law_other_packets_become_no_row(h: Headers, rest: Seq<u8>)
    requires
        h.valid(),
        h.protocol != 0x8004 || rest.len() <= 2,
    ensures
        packet_rows(h.bytes() + rest).len() == 0,
{
    lemma_headers_read_back(h, rest);
}

/// The rows of two runs of messages are those of the first and then of the second,
/// and one message has the row it becomes or none.
pub proof fn law_rows_of_messages(a: Seq<Message>, b: Seq<Message>, m: Message)
    ensures
        rows_of(a + b) == rows_of(a) + rows_of(b),
        message::message_row(m.mt, m.payload) matches Some(r) ==> rows_of(seq![m]) == seq![r],
        message::message_row(m.mt, m.payload) is None ==> rows_of(seq![m]).len() == 0,
    decreases a.len(),
{
    assert(seq![m].drop_first() =~= Seq::<Message>::empty());
    assert(rows_of(seq![m].drop_first()) =~= Seq::<RowView>::empty());
    let row = row_or_none(message::message_row(m.mt, m.payload));
    assert(rows_of(seq![m]) =~= row);
    if a.len() == 0 {
        assert(a + b =~= b);
        assert(rows_of(a) + rows_of(b) =~= rows_of(b));
    } else {
        law_rows_of_messages(a.drop_first(), b, m);
        assert((a + b).drop_first() =~= a.drop_first() + b);
        assert(rows_of(a + b) =~= rows_of(a) + rows_of(b));
    }
}

} // verus!
