//! What reading gives back of what was written, and the other way round.

use crate::bytes::{
    le_bytes, lemma_le_bytes_len, lemma_le_bytes_of_le_value, lemma_le_value_of_le_bytes,
    lemma_widths, size_width,
};
use crate::error::ErrorView;
use crate::message::{body, connection_code, decoded, frame, MessageView};
use crate::wire::{string_field, take_number, take_string};
use vstd::arithmetic::power::pow;
use vstd::prelude::*;
use vstd::utf8::{
    decode_utf8, decode_utf8_encode_utf8, encode_utf8, encode_utf8_decode_utf8,
    encode_utf8_valid_utf8,
};

verus! {

/// The length of the message's body is a `usize`, as that of every buffer in memory is.
pub open spec fn representable(m: MessageView) -> bool {
    body(m).len() <= usize::MAX
}

/// A number is read back from the front of a buffer, and what follows it is left.
proof fn lemma_take_number_of_le_bytes(n: nat, width: nat, rest: Seq<u8>)
    requires
        n < pow(256, width),
    ensures
        take_number(le_bytes(n, width) + rest, width) == (
            Ok::<nat, ErrorView>(n),
            rest,
        ),
{
    lemma_le_bytes_len(n, width);
    lemma_le_value_of_le_bytes(n, width);
    let buffer = le_bytes(n, width) + rest;
    assert(buffer.take(width as int) =~= le_bytes(n, width));
    assert(buffer.skip(width as int) =~= rest);
}

/// A string is read back from the front of a buffer, and what follows it is left.
proof fn lemma_take_string_of_string_field(text: Seq<char>, rest: Seq<u8>)
    requires
        encode_utf8(text).len() <= usize::MAX,
    ensures
        take_string(string_field(text) + rest) == (
            Ok::<Seq<char>, ErrorView>(text),
            rest,
        ),
{
    lemma_widths();
    encode_utf8_valid_utf8(text);
    encode_utf8_decode_utf8(text);
    let bytes = encode_utf8(text);
    let tail = bytes + rest;
    assert(string_field(text) + rest =~= le_bytes(bytes.len(), size_width()) + tail);
    lemma_take_number_of_le_bytes(bytes.len(), size_width(), tail);
    assert(tail.take(bytes.len() as int) =~= bytes);
    assert(tail.skip(bytes.len() as int) =~= rest);
}

/// A message is read back from its body, whatever bytes follow.
pub proof fn lemma_message_is_read_back(m: MessageView, rest: Seq<u8>)
    requires
        representable(m),
    ensures
        decoded(body(m) + rest) == Ok::<MessageView, ErrorView>(m),
{
    broadcast use lemma_le_bytes_len;

    lemma_widths();
    match m {
        MessageView::Create { name, connection } => {
            let code = le_bytes(connection_code(connection), 8) + rest;
            let fields = string_field(name) + code;
            assert(body(m) + rest =~= le_bytes(0, 8) + fields);
            lemma_take_number_of_le_bytes(0, 8, fields);
            lemma_take_string_of_string_field(name, code);
            lemma_take_number_of_le_bytes(connection_code(connection), 8, rest);
        },
        MessageView::CpuMem { name, cpu, mem } => {
            let after_cpu = le_bytes(mem as nat, 4) + rest;
            let after_name = le_bytes(cpu as nat, 4) + after_cpu;
            let fields = string_field(name) + after_name;
            assert(body(m) + rest =~= le_bytes(1, 8) + fields);
            lemma_take_number_of_le_bytes(1, 8, fields);
            lemma_take_string_of_string_field(name, after_name);
            lemma_take_number_of_le_bytes(cpu as nat, 4, after_cpu);
            lemma_take_number_of_le_bytes(mem as nat, 4, rest);
        },
    }
}

/// The bytes that a number was read from are those written for it.
proof fn lemma_number_was_written(buffer: Seq<u8>, width: nat)
    requires
        width <= buffer.len(),
    ensures
        take_number(buffer, width).0 is Ok,
        buffer == le_bytes(take_number(buffer, width).0->Ok_0, width) + take_number(buffer, width).1,
        take_number(buffer, width).0->Ok_0 < pow(256, width),
{
    lemma_le_bytes_of_le_value(buffer.take(width as int));
    assert(buffer =~= buffer.take(width as int) + buffer.skip(width as int));
}

/// The bytes that a string was read from are those written for it.
proof fn lemma_string_was_written(buffer: Seq<u8>)
    requires
        take_string(buffer).0 is Ok,
    ensures
        buffer == string_field(take_string(buffer).0->Ok_0) + take_string(buffer).1,
{
    lemma_number_was_written(buffer, size_width());
    let (len, rest) = take_number(buffer, size_width());
    let text = rest.take(len->Ok_0 as int);
    decode_utf8_encode_utf8(text);
    assert(rest =~= text + rest.skip(len->Ok_0 as int));
    assert(buffer =~= string_field(decode_utf8(text)) + rest.skip(len->Ok_0 as int));
}

/// The bytes that a message was read from begin with the body written for that message.
pub proof fn lemma_message_was_written(buffer: Seq<u8>)
    requires
        decoded(buffer) is Ok,
    ensures
        body(decoded(buffer)->Ok_0).is_prefix_of(buffer),
{
    broadcast use lemma_le_bytes_len;

    lemma_widths();
    let m = decoded(buffer)->Ok_0;
    lemma_number_was_written(buffer, 8);
    let (kind, fields) = take_number(buffer, 8);
    lemma_string_was_written(fields);
    let (name, after_name) = take_string(fields);
    if kind->Ok_0 == 0 {
        lemma_number_was_written(after_name, 8);
        let rest = take_number(after_name, 8).1;
        assert(buffer =~= body(m) + rest);
    } else {
        lemma_number_was_written(after_name, 4);
        let after_cpu = take_number(after_name, 4).1;
        lemma_number_was_written(after_cpu, 4);
        let rest = take_number(after_cpu, 4).1;
        assert(buffer =~= body(m) + rest);
    }
}

/// Two messages that are sent as the same bytes are the same message.
pub proof fn lemma_frames_tell_messages_apart(a: MessageView, b: MessageView)
    requires
        representable(a),
        representable(b),
        frame(a) == frame(b),
    ensures
        a == b,
{
    broadcast use lemma_le_bytes_len;

    assert(frame(a).skip(size_width() as int) =~= body(a));
    assert(frame(b).skip(size_width() as int) =~= body(b));
    assert(body(a) =~= body(a) + Seq::empty());
    lemma_message_is_read_back(a, Seq::empty());
    lemma_message_is_read_back(b, Seq::empty());
}

/// How long a body is: beside the name and its length it holds sixteen bytes, of which the
/// first eight are the message type.
pub proof fn lemma_body_len(m: MessageView)
    ensures
        body(m).len() == 16 + size_width() + encode_utf8(match m {
            MessageView::Create { name, .. } => name,
            MessageView::CpuMem { name, .. } => name,
        }).len(),
{
    broadcast use lemma_le_bytes_len;

}

} // verus!
