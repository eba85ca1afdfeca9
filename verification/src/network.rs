//! The control channel without its sockets: the set of connections, the bytes
//! each has sent of a frame that is not finished yet, the scan that surfaces at
//! most one frame per tick, and the bytes of an error reply.

use vstd::prelude::*;
use vstd::string::*;
use vstd::utf8::*;

verus! {

/// The byte that ends a frame on the wire.
pub const FRAME_DELIMITER: u8 = 0;

/// `data` holds a frame delimiter.
pub open spec fn has_delimiter(data: Seq<u8>) -> bool {
    exists|i: int| 0 <= i < data.len() && data[i] == FRAME_DELIMITER
}

/// The delimiter at `index` is the first one in `data`.
pub open spec fn is_first_delimiter(data: Seq<u8>, index: int) -> bool {
    &&& 0 <= index < data.len()
    &&& data[index] == FRAME_DELIMITER
    &&& forall|j: int| 0 <= j < index ==> data[j] != FRAME_DELIMITER
}

/// Where the first delimiter of `data` stands, if it holds one.
pub open spec fn delimiter_index(data: Seq<u8>) -> int {
    choose|index: int| is_first_delimiter(data, index)
}

/// The frame that a read of `data` completes on a connection that had
/// `pending` before: what was pending, then the bytes in front of the first
/// delimiter. What follows that delimiter belongs to no frame.
pub open spec fn frame_of(pending: Seq<u8>, data: Seq<u8>) -> Option<Seq<u8>> {
    if has_delimiter(data) {
        Some(pending + data.subrange(0, delimiter_index(data)))
    } else {
        None
    }
}

/// What is pending on a connection after a read of `data`: nothing once a
/// delimiter came, else all that has come so far.
pub open spec fn pending_after(pending: Seq<u8>, data: Seq<u8>) -> Seq<u8> {
    if has_delimiter(data) {
        Seq::empty()
    } else {
        pending + data
    }
}

/// The text that a read of `data` surfaces: the completed frame, where it is
/// UTF-8. A completed frame that is not UTF-8 surfaces nothing.
pub open spec fn frame_text(pending: Seq<u8>, data: Seq<u8>) -> Option<Seq<char>> {
    match frame_of(pending, data) {
        Some(frame) => if valid_utf8(frame) {
            Some(decode_utf8(frame))
        } else {
            None
        },
        None => None,
    }
}

/// A sequence has at most one first delimiter.
pub proof fn lemma_first_delimiter_unique(data: Seq<u8>, index: int)
    requires
        is_first_delimiter(data, index),
    ensures
        has_delimiter(data),
        delimiter_index(data) == index,
{
    let chosen = delimiter_index(data);
    assert(is_first_delimiter(data, chosen));
    if chosen < index {
        assert(data[chosen] != FRAME_DELIMITER);
    }
    if index < chosen {
        assert(data[index] != FRAME_DELIMITER);
    }
}

/// A frame that arrives in two reads is put together again: after a first
/// read without a delimiter, a second read whose first delimiter follows
/// `rest` completes the frame `pending + first + rest` and leaves nothing
/// pending.
pub proof fn lemma_split_frame_reassembles(
    pending: Seq<u8>,
    first: Seq<u8>,
    rest: Seq<u8>,
    tail: Seq<u8>,
)
    requires
        !has_delimiter(first),
        !has_delimiter(rest),
    ensures
        frame_of(pending, first) is None,
        pending_after(pending, first) == pending + first,
        frame_of(pending_after(pending, first), rest + seq![FRAME_DELIMITER] + tail) == Some(
            pending + first + rest,
        ),
        pending_after(pending_after(pending, first), rest + seq![FRAME_DELIMITER] + tail)
            == Seq::<u8>::empty(),
{
    let second = rest + seq![FRAME_DELIMITER] + tail;
    let at = rest.len() as int;
    assert(second[at] == FRAME_DELIMITER);
    assert forall|j: int| 0 <= j < at implies second[j] != FRAME_DELIMITER by {
        assert(second[j] == rest[j]);
    }
    lemma_first_delimiter_unique(second, at);
    assert(second.subrange(0, at) =~= rest);
}

/// Finds the first delimiter of `data`.
fn find_delimiter(data: &[u8]) -> (found: Option<usize>)
    ensures
        found is Some <==> has_delimiter(data@),
        found is Some ==> found.unwrap() == delimiter_index(data@),
        found is Some ==> is_first_delimiter(data@, found.unwrap() as int),
{
    let mut i: usize = 0;
    while i < data.len()
        invariant
            i <= data.len(),
            forall|j: int| 0 <= j < i ==> data@[j] != FRAME_DELIMITER,
        decreases data.len() - i,
    {
        if data[i] == FRAME_DELIMITER {
            proof {
                lemma_first_delimiter_unique(data@, i as int);
            }
            return Some(i);
        }
        i += 1;
    }
    None
}

/// Appends the first `count` bytes of `data` to `buffer`.
fn append_prefix(buffer: &mut Vec<u8>, data: &[u8], count: usize)
    requires
        count <= data@.len(),
    ensures
        final(buffer)@ == old(buffer)@ + data@.subrange(0, count as int),
{
    let mut i: usize = 0;
    while i < count
        invariant
            i <= count <= data@.len(),
            buffer@ == old(buffer)@ + data@.subrange(0, i as int),
        decreases count - i,
    {
        buffer.push(data[i]);
        i += 1;
        assert(buffer@ =~= old(buffer)@ + data@.subrange(0, i as int));
    }
}

/// The text that `bytes` encode. Trusted: `String::from_utf8` returns the
/// string exactly when the bytes are well-formed UTF-8, and the string then
/// holds the characters they encode.
#[verifier::external_body]
fn text_of_utf8(bytes: Vec<u8>) -> (text: Option<String>)
    ensures
        text is Some <==> valid_utf8(bytes@),
        text is Some ==> text.unwrap()@ == decode_utf8(bytes@),
{
    String::from_utf8(bytes).ok()
}

/// One connection: the bytes that it has sent of a frame that is not
/// finished yet.
pub struct Client {
    message: Vec<u8>,
}

impl Client {
    /// The bytes received of the unfinished frame.
    pub closed spec fn pending(&self) -> Seq<u8> {
        self.message@
    }

    /// A connection that has sent nothing yet.
    pub fn new() -> (client: Client)
        ensures
            client.pending() == Seq::<u8>::empty(),
    {
        Client { message: Vec::new() }
    }

    /// How many bytes of an unfinished frame are held.
    pub fn pending_len(&self) -> (len: usize)
        ensures
            len == self.pending().len(),
    {
        self.message.len()
    }

    /// Takes in what one read gave. Without a delimiter the bytes are kept for
    /// later. With one, the frame ends in front of it, nothing stays pending,
    /// the bytes behind it are dropped, and the frame is handed out as text
    /// if it is UTF-8.
    pub fn receive(&mut self, data: &[u8]) -> (text: Option<String>)
        ensures
            final(self).pending() == pending_after(old(self).pending(), data@),
            match frame_text(old(self).pending(), data@) {
                Some(expected) => text is Some && text.unwrap()@ == expected,
                None => text is None,
            },
    {
        match find_delimiter(data) {
            Some(end) => {
                let mut frame: Vec<u8> = Vec::new();
                core::mem::swap(&mut frame, &mut self.message);
                append_prefix(&mut frame, data, end);
                text_of_utf8(frame)
            },
            None => {
                append_prefix(&mut self.message, data, data.len());
                assert(data@.subrange(0, data@.len() as int) =~= data@);
                None
            },
        }
    }
}

/// What one step of a tick's scan does, for the read `data` on the
/// connection under the cursor: what is pending on each connection
/// afterwards, where the scan stands, and the text that surfaces with the
/// place of its connection. Only the connection under the cursor changes. A
/// text that surfaces ends the scan; otherwise the scan moves on by one
/// connection, or ends behind the last. Without a scan under way nothing
/// happens.
pub open spec fn scan_step(pending: Seq<Seq<u8>>, cursor: Option<usize>, data: Seq<u8>) -> (
    Seq<Seq<u8>>,
    Option<usize>,
    Option<(Seq<char>, usize)>,
) {
    match cursor {
        None => (pending, None, None),
        Some(at) => {
            let after = pending.update(at as int, pending_after(pending[at as int], data));
            match frame_text(pending[at as int], data) {
                Some(text) => (after, None, Some((text, at))),
                None => if at + 1 < pending.len() {
                    (after, Some((at + 1) as usize), None)
                } else {
                    (after, None, None)
                },
            }
        },
    }
}

/// The text and the place that a scan step hands out, as characters.
pub open spec fn surfaced(message: Option<(String, usize)>) -> Option<(Seq<char>, usize)> {
    match message {
        Some((text, place)) => Some((text@, place)),
        None => None,
    }
}

/// With two connections, the first of which has not finished its frame: if
/// in one tick the first sends no delimiter and the second completes a frame
/// that is UTF-8, the second connection's text surfaces in that tick, and
/// what the first has sent so far is pending as before, with its new bytes
/// behind.
pub proof fn lemma_second_connection_is_served(
    first_pending: Seq<u8>,
    first_read: Seq<u8>,
    second_pending: Seq<u8>,
    second_read: Seq<u8>,
)
    requires
        !has_delimiter(first_read),
        frame_text(second_pending, second_read) is Some,
    ensures
        ({
            let start = seq![first_pending, second_pending];
            let one = scan_step(start, Some(0usize), first_read);
            let two = scan_step(one.0, one.1, second_read);
            &&& one.2 is None
            &&& one.1 == Some(1usize)
            &&& two.2 == Some((frame_text(second_pending, second_read)->0, 1usize))
            &&& two.1 is None
            &&& two.0 == seq![first_pending + first_read, Seq::<u8>::empty()]
        }),
{
    let start = seq![first_pending, second_pending];
    let one = scan_step(start, Some(0usize), first_read);
    let two = scan_step(one.0, one.1, second_read);
    assert(one.0 =~= seq![first_pending + first_read, second_pending]);
    assert(frame_of(second_pending, second_read) is Some);
    assert(two.0 =~= seq![first_pending + first_read, Seq::<u8>::empty()]);
}

/// No tick surfaces a second frame: once a text has surfaced, further steps
/// of the same scan change nothing and hand out nothing.
pub proof fn lemma_one_frame_per_tick(
    pending: Seq<Seq<u8>>,
    cursor: Option<usize>,
    data: Seq<u8>,
    more: Seq<u8>,
)
    requires
        scan_step(pending, cursor, data).2 is Some,
    ensures
        ({
            let one = scan_step(pending, cursor, data);
            scan_step(one.0, one.1, more) == (one.0, None::<usize>, None::<(Seq<char>, usize)>)
        }),
{
}

/// The connections of the control channel, in the order in which they are
/// scanned, and how far the scan of the current tick has come.
pub struct ControlServer {
    clients: Vec<Client>,
    cursor: Option<usize>,
}

impl ControlServer {
    /// What each connection holds of an unfinished frame, in scan order.
    pub closed spec fn pending(&self) -> Seq<Seq<u8>> {
        Seq::new(self.clients@.len(), |i: int| self.clients@[i].pending())
    }

    /// The connection to read next in this tick; `None` once the scan is over.
    pub closed spec fn cursor(&self) -> Option<usize> {
        self.cursor
    }

    /// The scan never points past the connections.
    pub open spec fn wf(&self) -> bool {
        self.cursor() is Some ==> self.cursor().unwrap() < self.pending().len()
    }

    /// A control channel without connections and with no scan under way.
    pub fn start_control_server() -> (server: ControlServer)
        ensures
            server.wf(),
            server.pending() == Seq::<Seq<u8>>::empty(),
            server.cursor() is None,
    {
        let server = ControlServer { clients: Vec::new(), cursor: None };
        assert(server.pending() =~= Seq::<Seq<u8>>::empty());
        server
    }

    /// How many connections there are.
    pub fn client_count(&self) -> (count: usize)
        ensures
            count == self.pending().len(),
    {
        self.clients.len()
    }

    /// Takes in a connection that was just accepted. It joins the end of the
    /// scan order, with nothing pending, if its read timeout could be set;
    /// otherwise it is not kept. Returns its place where it was kept.
    pub fn accept_client(&mut self, read_timeout_set: bool) -> (place: Option<usize>)
        requires
            old(self).wf(),
        ensures
            final(self).wf(),
            final(self).cursor() == old(self).cursor(),
            read_timeout_set ==> place == Some(old(self).pending().len() as usize)
                && final(self).pending() == old(self).pending().push(Seq::<u8>::empty()),
            !read_timeout_set ==> place is None && final(self).pending() == old(self).pending(),
    {
        if read_timeout_set {
            let place = self.clients.len();
            self.clients.push(Client::new());
            assert(self.pending() =~= old(self).pending().push(Seq::<u8>::empty()));
            Some(place)
        } else {
            None
        }
    }

    /// Begins the scan of a tick at the first connection.
    pub fn start_scan(&mut self)
        requires
            old(self).wf(),
        ensures
            final(self).wf(),
            final(self).pending() == old(self).pending(),
            final(self).cursor() == if old(self).pending().len() > 0 {
                Some(0usize)
            } else {
                None
            },
    {
        self.cursor = if self.clients.len() > 0 {
            Some(0)
        } else {
            None
        };
    }

    /// The connection whose read the scan waits for.
    pub fn next_client(&self) -> (next: Option<usize>)
        ensures
            next == self.cursor(),
    {
        self.cursor
    }

    /// Takes in what a read on the connection under the cursor gave, and moves
    /// the scan on, as `scan_step` says. Only that connection changes. If
    /// the read completes a frame that is UTF-8, its text comes back with
    /// the connection's place, and the scan of this tick is over: no tick
    /// surfaces a second frame. With no scan under way nothing happens.
    pub fn read_client_message(&mut self, data: &[u8]) -> (message: Option<(String, usize)>)
        requires
            old(self).wf(),
        ensures
            final(self).wf(),
            (final(self).pending(), final(self).cursor(), surfaced(message)) == scan_step(
                old(self).pending(),
                old(self).cursor(),
                data@,
            ),
    {
        match self.cursor {
            None => None,
            Some(at) => {
                let count: usize = self.clients.len();
                let text = self.clients[at].receive(data);
                assert(self.pending() =~= old(self).pending().update(
                    at as int,
                    pending_after(old(self).pending()[at as int], data@),
                ));
                match text {
                    Some(found) => {
                        self.cursor = None;
                        Some((found, at))
                    },
                    None => {
                        self.cursor = if at + 1 < count {
                            Some(at + 1)
                        } else {
                            None
                        };
                        None
                    },
                }
            },
        }
    }
}

/// The lower-case hexadecimal digit for a value below sixteen.
pub open spec fn hex_char(value: int) -> char
    recommends
        0 <= value < 16,
{
    if value < 10 {
        ('0' as int + value) as char
    } else {
        ('a' as int + value - 10) as char
    }
}

/// How `c` stands inside a JSON string literal: the quotation mark, the
/// reverse solidus and the control characters below U+0020 are escaped, with
/// a short escape where JSON has one and `\u00` and two hexadecimal digits
/// otherwise; every other character stands for itself.
pub open spec fn json_escape(c: char) -> Seq<char> {
    if c == '"' {
        seq!['\\', '"']
    } else if c == '\\' {
        seq!['\\', '\\']
    } else if c == '\u{8}' {
        seq!['\\', 'b']
    } else if c == '\t' {
        seq!['\\', 't']
    } else if c == '\n' {
        seq!['\\', 'n']
    } else if c == '\u{c}' {
        seq!['\\', 'f']
    } else if c == '\r' {
        seq!['\\', 'r']
    } else if (c as u32) < 0x20 {
        seq!['\\', 'u', '0', '0', hex_char(c as int / 16), hex_char(c as int % 16)]
    } else {
        seq![c]
    }
}

/// The characters of `text` as they stand inside a JSON string literal.
pub open spec fn json_escaped(text: Seq<char>) -> Seq<char>
    decreases text.len(),
{
    if text.len() == 0 {
        Seq::empty()
    } else {
        json_escaped(text.drop_last()) + json_escape(text.last())
    }
}

/// The JSON string literal that stands for `text`: its characters, escaped
/// where JSON asks for it, between quotation marks.
pub open spec fn json_string_literal(text: Seq<char>) -> Seq<char> {
    seq!['"'] + json_escaped(text) + seq!['"']
}

/// Writes `text` as a JSON string literal. Trusted: `serde_json::to_string`
/// on a string writes a quotation mark, then each character as
/// `json_escape` says, then a quotation mark; it writes into memory and has
/// nothing to fail on.
#[verifier::external_body]
fn json_string(text: &str) -> (literal: Option<String>)
    ensures
        literal is Some,
        literal.unwrap()@ == json_string_literal(text@),
{
    serde_json::to_string(text).ok()
}

/// The JSON object of an error reply: the status `fail` and the reason whose
/// literal is given.
pub open spec fn error_object(reason: Seq<char>) -> Seq<char> {
    "{\"status\":\"fail\",\"reason\":"@ + reason + "}"@
}

/// The bytes of an error reply on the wire: the JSON object with the status
/// `fail` and the reason whose literal is given, then the frame delimiter.
/// Without a literal the reply is an empty frame.
pub open spec fn error_reply(literal: Option<Seq<char>>) -> Seq<u8> {
    match literal {
        Some(reason) => encode_utf8(error_object(reason)).push(FRAME_DELIMITER),
        None => seq![FRAME_DELIMITER],
    }
}

/// `text` holds no character U+0000.
pub open spec fn free_of_nul(text: Seq<char>) -> bool {
    forall|i: int| 0 <= i < text.len() ==> text[i] != '\0'
}

/// Only the character U+0000 has a zero byte in its encoding.
proof fn lemma_scalar_without_zero_byte(c: char)
    requires
        c != '\0',
    ensures
        !has_delimiter(encode_scalar(c as u32)),
{
    let scalar = c as u32;
    assert(scalar != 0);
    assert(scalar <= 0x7F && scalar != 0 ==> (scalar & 0x7F) as u8 != 0) by (bit_vector);
    assert(forall|low: u8| #![auto] (0x80u8 | low) != 0) by (bit_vector);
    assert(forall|low: u8| #![auto] (0xC0u8 | low) != 0) by (bit_vector);
    assert(forall|low: u8| #![auto] (0xE0u8 | low) != 0) by (bit_vector);
    assert(forall|low: u8| #![auto] (0xF0u8 | low) != 0) by (bit_vector);
}

/// A text without the character U+0000 is encoded without a frame delimiter.
proof fn lemma_text_without_delimiter(text: Seq<char>)
    requires
        free_of_nul(text),
    ensures
        !has_delimiter(encode_utf8(text)),
    decreases text.len(),
{
    if text.len() > 0 {
        let first = encode_scalar(text[0] as u32);
        let rest = encode_utf8(text.drop_first());
        lemma_scalar_without_zero_byte(text[0]);
        assert forall|i: int| 0 <= i < text.drop_first().len() implies text.drop_first()[i]
            != '\0' by {
            assert(text.drop_first()[i] == text[i + 1]);
        }
        lemma_text_without_delimiter(text.drop_first());
        assert forall|i: int| 0 <= i < (first + rest).len() implies (first + rest)[i]
            != FRAME_DELIMITER by {
            if i < first.len() {
                assert((first + rest)[i] == first[i]);
            } else {
                assert((first + rest)[i] == rest[i - first.len()]);
            }
        }
    }
}

/// No character is written with a character U+0000 inside a JSON string literal.
proof fn lemma_escape_free_of_nul(c: char)
    ensures
        free_of_nul(json_escape(c)),
{
    let written = json_escape(c);
    if (c as u32) < 0x20 {
        let high = hex_char(c as int / 16);
        let low = hex_char(c as int % 16);
        assert(high as int == '0' as int + c as int / 16);
        assert(low as int == if c as int % 16 < 10 {
            '0' as int + c as int % 16
        } else {
            'a' as int + c as int % 16 - 10
        });
        assert(high != '\0' && low != '\0');
    }
    assert forall|i: int| 0 <= i < written.len() implies written[i] != '\0' by {}
}

/// What stands inside a JSON string literal holds no character U+0000.
proof fn lemma_escaped_free_of_nul(text: Seq<char>)
    ensures
        free_of_nul(json_escaped(text)),
    decreases text.len(),
{
    if text.len() > 0 {
        let before = json_escaped(text.drop_last());
        let last = json_escape(text.last());
        lemma_escaped_free_of_nul(text.drop_last());
        lemma_escape_free_of_nul(text.last());
        assert forall|i: int| 0 <= i < (before + last).len() implies (before + last)[i]
            != '\0' by {
            if i < before.len() {
                assert((before + last)[i] == before[i]);
            } else {
                assert((before + last)[i] == last[i - before.len()]);
            }
        }
    }
}

/// An error reply is one frame, whatever the reason: its only delimiter is
/// its last byte, so that a connection which receives it whole finds the
/// JSON object in it and keeps nothing pending.
pub proof fn lemma_error_reply_is_one_frame(reason: Seq<char>)
    ensures
        ({
            let object = error_object(json_string_literal(reason));
            let reply = error_reply(Some(json_string_literal(reason)));
            &&& is_first_delimiter(reply, reply.len() - 1)
            &&& frame_text(Seq::empty(), reply) == Some(object)
            &&& pending_after(Seq::empty(), reply) == Seq::<u8>::empty()
        }),
{
    let literal = json_string_literal(reason);
    let object = error_object(literal);
    let reply = error_reply(Some(literal));
    let bytes = encode_utf8(object);
    reveal_strlit("{\"status\":\"fail\",\"reason\":");
    reveal_strlit("}");
    lemma_escaped_free_of_nul(reason);
    assert forall|i: int| 0 <= i < object.len() implies object[i] != '\0' by {
        let head = "{\"status\":\"fail\",\"reason\":"@;
        if i < head.len() {
            assert(object[i] == head[i]);
        } else if i < head.len() + literal.len() {
            let k = i - head.len();
            assert(object[i] == literal[k]);
            if 0 < k < literal.len() - 1 {
                assert(literal[k] == json_escaped(reason)[k - 1]);
            }
        } else {
            assert(object[i] == '}');
        }
    }
    lemma_text_without_delimiter(object);
    assert forall|j: int| 0 <= j < bytes.len() implies reply[j] != FRAME_DELIMITER by {
        assert(reply[j] == bytes[j]);
    }
    lemma_first_delimiter_unique(reply, reply.len() - 1);
    assert(reply.subrange(0, reply.len() - 1) =~= bytes);
    assert(Seq::<u8>::empty() + bytes =~= bytes);
    encode_utf8_valid_utf8(object);
    encode_utf8_decode_utf8(object);
}

/// Builds the frame of an error reply around the JSON literal of its reason.
pub fn frame_error_reply(literal: Option<String>) -> (reply: Vec<u8>)
    ensures
        reply@ == error_reply(
            match literal {
                Some(reason) => Some(reason@),
                None => None,
            },
        ),
{
    let mut json = String::new();
    match literal {
        Some(reason) => {
            json.append("{\"status\":\"fail\",\"reason\":");
            json.append(reason.as_str());
            json.append("}");
            assert(json@ =~= "{\"status\":\"fail\",\"reason\":"@ + reason@ + "}"@);
        },
        None => {},
    }
    let mut reply = json.as_str().as_bytes_vec();
    reply.push(FRAME_DELIMITER);
    proof {
        if literal is None {
            assert(encode_utf8(Seq::<char>::empty()) =~= Seq::<u8>::empty());
            assert(reply@ =~= seq![FRAME_DELIMITER]);
        }
    }
    reply
}

/// The bytes to send to a connection whose message was refused for the
/// reason `message`: the JSON object with the status `fail` and the reason
/// `message`, then the frame delimiter, which is the only one in the reply.
pub fn send_error_message_to_client(message: String) -> (reply: Vec<u8>)
    ensures
        reply@ == error_reply(Some(json_string_literal(message@))),
        is_first_delimiter(reply@, reply@.len() - 1),
{
    proof {
        lemma_error_reply_is_one_frame(message@);
    }
    frame_error_reply(json_string(message.as_str()))
}

} // verus!
