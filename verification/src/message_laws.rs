//! The form of messages on the wire, byte by byte, as it is written and as it is read.

use crate::bytes::{
    le_bytes, le_value, lemma_le_bytes_len, lemma_le_bytes_of_le_value,
    lemma_le_value_of_le_bytes, lemma_widths, size_width, usize_from_le_bytes,
};
use crate::error::{DeserializationError, ErrorView};
use crate::message::{ConnectionType, DeviceUpdateMessage};
use crate::text::{decimal, decimal_text};
use crate::wire::{take_number, take_string};
use vstd::arithmetic::power::pow;
use vstd::prelude::*;
use vstd::utf8::{
    encode_utf8, encode_utf8_decode_utf8, encode_utf8_valid_utf8, valid_utf8,
};

verus! {

/// What is said of a message is what its fields hold.
pub proof fn lemma_message_says_its_fields(message: DeviceUpdateMessage)
    ensures
        match message {
            DeviceUpdateMessage::Create { name, connection } => message@ is Create
                && message@->Create_name == name@ && message@->connection == connection,
            DeviceUpdateMessage::CpuMem { name, cpu, mem } => message@ is CpuMem
                && message@->CpuMem_name == name@ && message@->cpu == cpu && message@->mem == mem,
        },
{
}

/// The bytes of a number are its digits to the base 256, the lowest first.
pub proof fn lemma_bytes_are_digits(n: nat, width: nat)
    ensures
        le_bytes(n, width).len() == width,
        forall|i: int|
            0 <= i < width ==> (#[trigger] le_bytes(n, width)[i]) as int == (n as int / pow(
                256,
                i as nat,
            )) % 256,
    decreases width,
{
    reveal(pow);
    lemma_le_bytes_len(n, width);
    if width > 0 {
        let rest = (width - 1) as nat;
        lemma_bytes_are_digits(n / 256, rest);
        assert forall|i: int| 0 <= i < width implies (#[trigger] le_bytes(n, width)[i]) as int == (
        n as int / pow(256, i as nat)) % 256 by {
            if i > 0 {
                assert(le_bytes(n, width)[i] == le_bytes(n / 256, rest)[i - 1]);
                let p = pow(256, (i - 1) as nat);
                vstd::arithmetic::power::lemma_pow_positive(256, (i - 1) as nat);
                vstd::arithmetic::div_mod::lemma_div_denominator(n as int, 256, p);
                assert(pow(256, i as nat) == 256 * p);
            } else {
                assert(pow(256, 0) == 1);
            }
        }
    }
}

/// The number that bytes stand for is the one whose digits to the base 256 they are, the
/// lowest first.
pub proof fn lemma_number_has_the_bytes_as_digits(bytes: Seq<u8>)
    ensures
        le_value(bytes) < pow(256, bytes.len()),
        forall|i: int|
            0 <= i < bytes.len() ==> (#[trigger] bytes[i]) as int == (le_value(bytes) as int / pow(
                256,
                i as nat,
            )) % 256,
{
    lemma_le_bytes_of_le_value(bytes);
    lemma_bytes_are_digits(le_value(bytes), bytes.len());
    assert forall|i: int| 0 <= i < bytes.len() implies (#[trigger] bytes[i]) as int == (le_value(
        bytes,
    ) as int / pow(256, i as nat)) % 256 by {
        assert(le_bytes(le_value(bytes), bytes.len())[i] == bytes[i]);
    }
}

/// The number of which `bytes` are the digits is the one that they stand for.
pub(crate) proof fn lemma_number_of_digits(bytes: Seq<u8>, n: nat)
    requires
        n < pow(256, bytes.len()),
        forall|i: int|
            0 <= i < bytes.len() ==> (#[trigger] bytes[i]) as int == (n as int / pow(256, i as nat))
                % 256,
    ensures
        le_value(bytes) == n,
{
    lemma_bytes_are_digits(n, bytes.len());
    assert(bytes =~= le_bytes(n, bytes.len()));
    lemma_le_value_of_le_bytes(n, bytes.len());
}

/// A size is read from as many bytes as a `usize` has, as the number of which they are the
/// digits to the base 256, the lowest first.
pub proof fn lemma_size_is_read(bytes: Vec<u8>, n: usize)
    requires
        call_ensures(usize_from_le_bytes, (&bytes,), n),
        bytes@.len() == usize::BITS / 8,
    ensures
        forall|i: int|
            0 <= i < bytes@.len() ==> (#[trigger] bytes@[i]) as int == (n as int / pow(
                256,
                i as nat,
            )) % 256,
{
    lemma_number_has_the_bytes_as_digits(bytes@);
}

/// The eight bytes of a number below 256.
proof fn lemma_small_number(n: u8)
    ensures
        le_bytes(n as nat, 8) == seq![n, 0u8, 0u8, 0u8, 0u8, 0u8, 0u8, 0u8],
{
    reveal_with_fuel(le_bytes, 9);
    assert(le_bytes(n as nat, 8) =~= seq![n, 0u8, 0u8, 0u8, 0u8, 0u8, 0u8, 0u8]);
}

/// The four bytes of a usage figure.
proof fn lemma_usage_bytes(n: u32)
    ensures
        le_bytes(n as nat, 4) == seq![
            (n % 256) as u8,
            (n / 256 % 256) as u8,
            (n / 65536 % 256) as u8,
            (n / 16777216) as u8,
        ],
{
    reveal_with_fuel(le_bytes, 5);
    let m = n as nat;
    assert(m / 256 / 256 == m / 65536 && m / 256 / 256 / 256 == m / 16777216);
    assert(le_bytes(m, 4) =~= seq![
        (n % 256) as u8,
        (n / 256 % 256) as u8,
        (n / 65536 % 256) as u8,
        (n / 16777216) as u8,
    ]);
}

/// That a device is there is written as: how many bytes follow, the message type 0 in eight
/// bytes, how many bytes the name has, the name in UTF-8, and in eight bytes 0 for the
/// origin, 1 for a wire and 2 for none, whatever the name is. The two counts have as many
/// bytes as a `usize`.
pub proof fn lemma_announcement_is_written(
    name: String,
    connection: ConnectionType,
    message: DeviceUpdateMessage,
    bytes: Vec<u8>,
)
    requires
        message == (DeviceUpdateMessage::Create { name, connection }),
        call_ensures(<Vec<u8> as From<DeviceUpdateMessage>>::from, (message,), bytes),
    ensures
        ({
            let w = (usize::BITS / 8) as int;
            let text = encode_utf8(name@);
            let b = bytes@;
            &&& b.len() == w + 8 + w + text.len() + 8
            &&& forall|i: int|
                0 <= i < w ==> (#[trigger] b[i]) as int == ((b.len() - w) / pow(256, i as nat))
                    % 256
            &&& b.subrange(w, w + 8) == seq![0u8, 0u8, 0u8, 0u8, 0u8, 0u8, 0u8, 0u8]
            &&& forall|i: int|
                0 <= i < w ==> (#[trigger] b.skip(w + 8)[i]) as int == (text.len() as int / pow(
                    256,
                    i as nat,
                )) % 256
            &&& b.subrange(w + 8 + w, b.len() - 8) == text
            &&& b.skip(b.len() - 8) == match connection {
                ConnectionType::Origin => seq![0u8, 0u8, 0u8, 0u8, 0u8, 0u8, 0u8, 0u8],
                ConnectionType::Wired => seq![1u8, 0u8, 0u8, 0u8, 0u8, 0u8, 0u8, 0u8],
                ConnectionType::Wireless => seq![2u8, 0u8, 0u8, 0u8, 0u8, 0u8, 0u8, 0u8],
            }
        }),
{
    broadcast use lemma_le_bytes_len;

    let text = encode_utf8(name@);
    let b = bytes@;
    let k: u8 = match connection {
        ConnectionType::Origin => 0,
        ConnectionType::Wired => 1,
        ConnectionType::Wireless => 2,
    };
    let after = seq![k, 0u8, 0u8, 0u8, 0u8, 0u8, 0u8, 0u8];
    lemma_small_number(0);
    lemma_small_number(k);
    assert(b =~= le_bytes((8 + size_width() + text.len() + 8) as nat, size_width()) + le_bytes(0, 8)
        + le_bytes(text.len(), size_width()) + text + after);
    lemma_written(b, 0, text, after);
}

/// A device's usage is written as: how many bytes follow, the message type 1 in eight bytes,
/// how many bytes the name has, the name in UTF-8, the four bytes of the processor figure
/// and the four bytes of the memory figure, each the lowest first. The two counts have as
/// many bytes as a `usize`.
pub proof fn lemma_usage_is_written(
    name: String,
    cpu: u32,
    mem: u32,
    message: DeviceUpdateMessage,
    bytes: Vec<u8>,
)
    requires
        message == (DeviceUpdateMessage::CpuMem { name, cpu, mem }),
        call_ensures(<Vec<u8> as From<DeviceUpdateMessage>>::from, (message,), bytes),
    ensures
        ({
            let w = (usize::BITS / 8) as int;
            let text = encode_utf8(name@);
            let b = bytes@;
            &&& b.len() == w + 8 + w + text.len() + 8
            &&& forall|i: int|
                0 <= i < w ==> (#[trigger] b[i]) as int == ((b.len() - w) / pow(256, i as nat))
                    % 256
            &&& b.subrange(w, w + 8) == seq![1u8, 0u8, 0u8, 0u8, 0u8, 0u8, 0u8, 0u8]
            &&& forall|i: int|
                0 <= i < w ==> (#[trigger] b.skip(w + 8)[i]) as int == (text.len() as int / pow(
                    256,
                    i as nat,
                )) % 256
            &&& b.subrange(w + 8 + w, b.len() - 8) == text
            &&& b.skip(b.len() - 8) == seq![
                (cpu % 256) as u8,
                (cpu / 256 % 256) as u8,
                (cpu / 65536 % 256) as u8,
                (cpu / 16777216) as u8,
                (mem % 256) as u8,
                (mem / 256 % 256) as u8,
                (mem / 65536 % 256) as u8,
                (mem / 16777216) as u8,
            ]
        }),
{
    broadcast use lemma_le_bytes_len;

    let b = bytes@;
    let text = encode_utf8(name@);
    let after = seq![
        (cpu % 256) as u8,
        (cpu / 256 % 256) as u8,
        (cpu / 65536 % 256) as u8,
        (cpu / 16777216) as u8,
        (mem % 256) as u8,
        (mem / 256 % 256) as u8,
        (mem / 65536 % 256) as u8,
        (mem / 16777216) as u8,
    ];
    lemma_small_number(1);
    lemma_usage_bytes(cpu);
    lemma_usage_bytes(mem);
    assert(le_bytes(cpu as nat, 4) + le_bytes(mem as nat, 4) =~= after);
    assert(b =~= le_bytes((8 + size_width() + text.len() + 8) as nat, size_width()) + le_bytes(1, 8)
        + le_bytes(text.len(), size_width()) + text + after);
    lemma_written(b, 1, text, after);
}

/// Where the fields of a message stand.
proof fn lemma_written(b: Seq<u8>, kind: u8, text: Seq<u8>, after: Seq<u8>)
    requires
        after.len() == 8,
        b == le_bytes((8 + size_width() + text.len() + 8) as nat, size_width()) + le_bytes(
            kind as nat,
            8,
        ) + le_bytes(text.len(), size_width()) + text + after,
    ensures
        ({
            let w = size_width() as int;
            &&& b.len() == w + 8 + w + text.len() + 8
            &&& forall|i: int|
                0 <= i < w ==> (#[trigger] b[i]) as int == ((b.len() - w) / pow(256, i as nat))
                    % 256
            &&& b.subrange(w, w + 8) == seq![kind, 0u8, 0u8, 0u8, 0u8, 0u8, 0u8, 0u8]
            &&& forall|i: int|
                0 <= i < w ==> (#[trigger] b.skip(w + 8)[i]) as int == (text.len() as int / pow(
                    256,
                    i as nat,
                )) % 256
            &&& b.subrange(w + 8 + w, b.len() - 8) == text
            &&& b.skip(b.len() - 8) == after
        }),
{
    let w = size_width() as int;
    let n = (8 + size_width() + text.len() + 8) as nat;
    let front = le_bytes(n, size_width());
    let count = le_bytes(text.len(), size_width());
    lemma_bytes_are_digits(n, size_width());
    lemma_bytes_are_digits(text.len(), size_width());
    lemma_small_number(kind);
    assert forall|i: int| 0 <= i < w implies (#[trigger] b[i]) as int == ((b.len() - w) / pow(
        256,
        i as nat,
    )) % 256 by {
        assert(b[i] == front[i]);
    }
    assert forall|i: int| 0 <= i < w implies (#[trigger] b.skip(w + 8)[i]) as int == (
    text.len() as int / pow(256, i as nat)) % 256 by {
        assert(b.skip(w + 8)[i] == count[i]);
    }
    assert(b.subrange(w, w + 8) =~= seq![kind, 0u8, 0u8, 0u8, 0u8, 0u8, 0u8, 0u8]);
    assert(b.subrange(w + 8 + w, b.len() - 8) =~= text);
    assert(b.skip(b.len() - 8) =~= after);
}

/// The number 0 to 255 in front of a buffer, in eight bytes, is read as such.
proof fn lemma_small_number_is_taken(b: Seq<u8>, n: u8)
    requires
        b.len() >= 8,
        b.take(8) == seq![n, 0u8, 0u8, 0u8, 0u8, 0u8, 0u8, 0u8],
    ensures
        take_number(b, 8).0 == Ok::<nat, ErrorView>(n as nat),
        take_number(b, 8).1 == b.skip(8),
{
    lemma_small_number(n);
    lemma_widths();
    lemma_le_value_of_le_bytes(n as nat, 8);
}

/// A usage figure in front of a buffer is read as such.
proof fn lemma_usage_is_taken(b: Seq<u8>, n: u32)
    requires
        b.len() >= 4,
        b.take(4) == seq![
            (n % 256) as u8,
            (n / 256 % 256) as u8,
            (n / 65536 % 256) as u8,
            (n / 16777216) as u8,
        ],
    ensures
        take_number(b, 4).0 == Ok::<nat, ErrorView>(n as nat),
        take_number(b, 4).1 == b.skip(4),
{
    lemma_usage_bytes(n);
    lemma_widths();
    lemma_le_value_of_le_bytes(n as nat, 4);
}

/// A count in front of a buffer is read as such.
proof fn lemma_count_is_taken(b: Seq<u8>, n: usize)
    requires
        b.len() >= usize::BITS / 8,
        forall|i: int|
            0 <= i < usize::BITS / 8 ==> (#[trigger] b[i]) as int == (n as int / pow(256, i as nat))
                % 256,
    ensures
        take_number(b, size_width()).0 == Ok::<nat, ErrorView>(n as nat),
        take_number(b, size_width()).1 == b.skip(size_width() as int),
{
    lemma_widths();
    lemma_number_of_digits(b.take(size_width() as int), n as nat);
}

/// A name in front of a buffer is read as such.
proof fn lemma_name_is_taken(b: Seq<u8>, name: Seq<char>)
    requires
        encode_utf8(name).len() + usize::BITS / 8 <= b.len() <= usize::MAX,
        forall|i: int|
            0 <= i < usize::BITS / 8 ==> (#[trigger] b[i]) as int == (encode_utf8(
                name,
            ).len() as int / pow(256, i as nat)) % 256,
        b.subrange((usize::BITS / 8) as int, usize::BITS / 8 + encode_utf8(name).len())
            == encode_utf8(name),
    ensures
        take_string(b).0 == Ok::<Seq<char>, ErrorView>(name),
        take_string(b).1 == b.skip(usize::BITS / 8 + encode_utf8(name).len()),
{
    let text = encode_utf8(name);
    let w = size_width() as int;
    lemma_count_is_taken(b, text.len() as usize);
    encode_utf8_valid_utf8(name);
    encode_utf8_decode_utf8(name);
    assert(b.skip(w).take(text.len() as int) =~= text);
    assert(b.skip(w).skip(text.len() as int) =~= b.skip(w + text.len()));
}

/// The type and the name in front of a message are read as such.
proof fn lemma_type_and_name_are_taken(bytes: Vec<u8>, kind: u8, name: Seq<char>)
    requires
        bytes@.len() >= 8 + usize::BITS / 8 + encode_utf8(name).len(),
        bytes@.take(8) == seq![kind, 0u8, 0u8, 0u8, 0u8, 0u8, 0u8, 0u8],
        forall|i: int|
            0 <= i < usize::BITS / 8 ==> (#[trigger] bytes@.skip(8)[i]) as int == (encode_utf8(
                name,
            ).len() as int / pow(256, i as nat)) % 256,
        bytes@.subrange(
            8 + usize::BITS / 8,
            8 + usize::BITS / 8 + encode_utf8(name).len(),
        ) == encode_utf8(name),
    ensures
        take_number(bytes@, 8).0 == Ok::<nat, ErrorView>(kind as nat),
        take_number(bytes@, 8).1 == bytes@.skip(8),
        take_string(bytes@.skip(8)).0 == Ok::<Seq<char>, ErrorView>(name),
        take_string(bytes@.skip(8)).1 == bytes@.skip(8).skip(
            usize::BITS / 8 + encode_utf8(name).len(),
        ),
{
    let rest = bytes@.skip(8);
    assert(bytes.len() == bytes@.len());
    lemma_small_number_is_taken(bytes@, kind);
    assert(rest.subrange((usize::BITS / 8) as int, usize::BITS / 8 + encode_utf8(name).len())
        =~= encode_utf8(name));
    lemma_name_is_taken(rest, name);
}

/// Bytes are read as the announcement of a device where they are the message type 0 in eight
/// bytes, the count of the bytes of the name, the name in UTF-8, and in eight bytes 0 for the
/// origin, 1 for a wire or 2 for none. Bytes after these are of no account.
pub proof fn lemma_announcement_is_read(
    bytes: Vec<u8>,
    name: Seq<char>,
    connection: ConnectionType,
    r: Result<DeviceUpdateMessage, DeserializationError>,
)
    requires
        call_ensures(<DeviceUpdateMessage as TryFrom<Vec<u8>>>::try_from, (bytes,), r),
        bytes@.len() >= 8 + usize::BITS / 8 + encode_utf8(name).len() + 8,
        bytes@.take(8) == seq![0u8, 0u8, 0u8, 0u8, 0u8, 0u8, 0u8, 0u8],
        forall|i: int|
            0 <= i < usize::BITS / 8 ==> (#[trigger] bytes@.skip(8)[i]) as int == (encode_utf8(name).len() as int / pow(
                256,
                i as nat,
            )) % 256,
        bytes@.subrange(
            8 + usize::BITS / 8,
            8 + usize::BITS / 8 + encode_utf8(name).len(),
        ) == encode_utf8(name),
        bytes@.skip(8 + usize::BITS / 8 + encode_utf8(name).len()).take(8) == match connection {
            ConnectionType::Origin => seq![0u8, 0u8, 0u8, 0u8, 0u8, 0u8, 0u8, 0u8],
            ConnectionType::Wired => seq![1u8, 0u8, 0u8, 0u8, 0u8, 0u8, 0u8, 0u8],
            ConnectionType::Wireless => seq![2u8, 0u8, 0u8, 0u8, 0u8, 0u8, 0u8, 0u8],
        },
    ensures
        r matches Ok(DeviceUpdateMessage::Create { name: n, connection: c }) && n@ == name && c
            == connection,
{
    let b = bytes@;
    let rest = b.skip(8);
    lemma_type_and_name_are_taken(bytes, 0, name);
    let code = rest.skip(usize::BITS / 8 + encode_utf8(name).len());
    assert(code =~= b.skip(8 + usize::BITS / 8 + encode_utf8(name).len()));
    match connection {
        ConnectionType::Origin => lemma_small_number_is_taken(code, 0),
        ConnectionType::Wired => lemma_small_number_is_taken(code, 1),
        ConnectionType::Wireless => lemma_small_number_is_taken(code, 2),
    }
}

/// Bytes are read as the usage of a device where they are the message type 1 in eight bytes,
/// the count of the bytes of the name, the name in UTF-8, the four bytes of the processor
/// figure and the four bytes of the memory figure, each the lowest first. Bytes after these
/// are of no account.
pub proof fn lemma_usage_is_read(
    bytes: Vec<u8>,
    name: Seq<char>,
    cpu: u32,
    mem: u32,
    r: Result<DeviceUpdateMessage, DeserializationError>,
)
    requires
        call_ensures(<DeviceUpdateMessage as TryFrom<Vec<u8>>>::try_from, (bytes,), r),
        bytes@.len() >= 8 + usize::BITS / 8 + encode_utf8(name).len() + 8,
        bytes@.take(8) == seq![1u8, 0u8, 0u8, 0u8, 0u8, 0u8, 0u8, 0u8],
        forall|i: int|
            0 <= i < usize::BITS / 8 ==> (#[trigger] bytes@.skip(8)[i]) as int == (encode_utf8(name).len() as int / pow(
                256,
                i as nat,
            )) % 256,
        bytes@.subrange(
            8 + usize::BITS / 8,
            8 + usize::BITS / 8 + encode_utf8(name).len(),
        ) == encode_utf8(name),
        bytes@.skip(8 + usize::BITS / 8 + encode_utf8(name).len()).take(8) == seq![
            (cpu % 256) as u8,
            (cpu / 256 % 256) as u8,
            (cpu / 65536 % 256) as u8,
            (cpu / 16777216) as u8,
            (mem % 256) as u8,
            (mem / 256 % 256) as u8,
            (mem / 65536 % 256) as u8,
            (mem / 16777216) as u8,
        ],
    ensures
        r matches Ok(DeviceUpdateMessage::CpuMem { name: n, cpu: c, mem: m }) && n@ == name && c
            == cpu && m == mem,
{
    let b = bytes@;
    let rest = b.skip(8);
    lemma_type_and_name_are_taken(bytes, 1, name);
    let figures = rest.skip(usize::BITS / 8 + encode_utf8(name).len());
    assert(figures =~= b.skip(8 + usize::BITS / 8 + encode_utf8(name).len()));
    let eight = figures.take(8);
    assert(figures.take(4) =~= eight.take(4));
    assert(figures.skip(4).take(4) =~= eight.skip(4));
    assert(eight.take(4) =~= seq![
        (cpu % 256) as u8,
        (cpu / 256 % 256) as u8,
        (cpu / 65536 % 256) as u8,
        (cpu / 16777216) as u8,
    ]);
    assert(eight.skip(4) =~= seq![
        (mem % 256) as u8,
        (mem / 256 % 256) as u8,
        (mem / 65536 % 256) as u8,
        (mem / 16777216) as u8,
    ]);
    lemma_usage_is_taken(figures, cpu);
    lemma_usage_is_taken(figures.skip(4), mem);
}

/// Fewer than eight bytes are no message: the type is not there.
pub proof fn lemma_no_type(
    bytes: Vec<u8>,
    r: Result<DeviceUpdateMessage, DeserializationError>,
)
    requires
        call_ensures(<DeviceUpdateMessage as TryFrom<Vec<u8>>>::try_from, (bytes,), r),
        bytes@.len() < 8,
    ensures
        r matches Err(DeserializationError::UnexpectedByteCount(expected, found)) && expected == 8
            && found == bytes@.len(),
{
}

/// A message type other than 0 and 1 is reported in decimal.
pub proof fn lemma_unknown_type(
    bytes: Vec<u8>,
    kind: u64,
    digits: String,
    r: Result<DeviceUpdateMessage, DeserializationError>,
)
    requires
        call_ensures(<DeviceUpdateMessage as TryFrom<Vec<u8>>>::try_from, (bytes,), r),
        call_ensures(decimal_text, (kind,), digits),
        bytes@.len() >= 8,
        forall|i: int|
            0 <= i < 8 ==> (#[trigger] bytes@[i]) as int == (kind as int / pow(256, i as nat))
                % 256,
        kind > 1,
    ensures
        r matches Err(DeserializationError::InvalidValue(text)) && text@
            == "Unexpected message type: "@ + digits@,
{
    lemma_widths();
    lemma_number_of_digits(bytes@.take(8), kind as nat);
}

/// A message without a whole count in front of the name is none.
pub proof fn lemma_no_name_count(
    bytes: Vec<u8>,
    kind: u8,
    r: Result<DeviceUpdateMessage, DeserializationError>,
)
    requires
        call_ensures(<DeviceUpdateMessage as TryFrom<Vec<u8>>>::try_from, (bytes,), r),
        bytes@.len() >= 8,
        bytes@.take(8) == seq![kind, 0u8, 0u8, 0u8, 0u8, 0u8, 0u8, 0u8],
        kind <= 1,
        bytes@.len() < 8 + usize::BITS / 8,
    ensures
        r matches Err(DeserializationError::UnexpectedByteCount(expected, found)) && expected
            == usize::BITS / 8 && found == bytes@.len() - 8,
{
    lemma_small_number_is_taken(bytes@, kind);
}

/// A message with fewer bytes than the count in front of the name says is none.
pub proof fn lemma_name_cut_off(
    bytes: Vec<u8>,
    kind: u8,
    count: usize,
    r: Result<DeviceUpdateMessage, DeserializationError>,
)
    requires
        call_ensures(<DeviceUpdateMessage as TryFrom<Vec<u8>>>::try_from, (bytes,), r),
        bytes@.len() >= 8,
        bytes@.take(8) == seq![kind, 0u8, 0u8, 0u8, 0u8, 0u8, 0u8, 0u8],
        kind <= 1,
        forall|i: int|
            0 <= i < usize::BITS / 8 ==> (#[trigger] bytes@.skip(8)[i]) as int == (count as int / pow(
                256,
                i as nat,
            )) % 256,
        8 + usize::BITS / 8 <= bytes@.len() < 8 + usize::BITS / 8 + count,
    ensures
        r matches Err(DeserializationError::UnexpectedByteCount(expected, found)) && expected
            == count && found == bytes@.len() - 8 - usize::BITS / 8,
{
    lemma_small_number_is_taken(bytes@, kind);
    lemma_count_is_taken(bytes@.skip(8), count);
}

/// A message with a name that is no UTF-8 is none, and the bytes of the name are reported.
pub proof fn lemma_name_no_text(
    bytes: Vec<u8>,
    kind: u8,
    count: usize,
    r: Result<DeviceUpdateMessage, DeserializationError>,
)
    requires
        call_ensures(<DeviceUpdateMessage as TryFrom<Vec<u8>>>::try_from, (bytes,), r),
        bytes@.len() >= 8,
        bytes@.take(8) == seq![kind, 0u8, 0u8, 0u8, 0u8, 0u8, 0u8, 0u8],
        kind <= 1,
        forall|i: int|
            0 <= i < usize::BITS / 8 ==> (#[trigger] bytes@.skip(8)[i]) as int == (count as int / pow(
                256,
                i as nat,
            )) % 256,
        8 + usize::BITS / 8 + count <= bytes@.len(),
        !valid_utf8(bytes@.subrange(8 + usize::BITS / 8, 8 + usize::BITS / 8 + count)),
    ensures
        r matches Err(DeserializationError::InvalidString { bytes: name }) && name@
            == bytes@.subrange(8 + usize::BITS / 8, 8 + usize::BITS / 8 + count),
{
    let b = bytes@;
    lemma_small_number_is_taken(b, kind);
    lemma_count_is_taken(b.skip(8), count);
    assert(b.skip(8).skip(size_width() as int).take(count as int) =~= b.subrange(
        8 + usize::BITS / 8,
        8 + usize::BITS / 8 + count,
    ));
}

/// An announcement without eight bytes after the name is none.
pub proof fn lemma_connection_cut_off(
    bytes: Vec<u8>,
    name: Seq<char>,
    r: Result<DeviceUpdateMessage, DeserializationError>,
)
    requires
        call_ensures(<DeviceUpdateMessage as TryFrom<Vec<u8>>>::try_from, (bytes,), r),
        8 + usize::BITS / 8 + encode_utf8(name).len() <= bytes@.len() < 8 + usize::BITS / 8
            + encode_utf8(name).len() + 8,
        bytes@.take(8) == seq![0u8, 0u8, 0u8, 0u8, 0u8, 0u8, 0u8, 0u8],
        forall|i: int|
            0 <= i < usize::BITS / 8 ==> (#[trigger] bytes@.skip(8)[i]) as int == (encode_utf8(name).len() as int / pow(
                256,
                i as nat,
            )) % 256,
        bytes@.subrange(
            8 + usize::BITS / 8,
            8 + usize::BITS / 8 + encode_utf8(name).len(),
        ) == encode_utf8(name),
    ensures
        r matches Err(DeserializationError::UnexpectedByteCount(expected, found)) && expected == 8
            && found == bytes@.len() - 8 - usize::BITS / 8 - encode_utf8(name).len(),
{
    lemma_type_and_name_are_taken(bytes, 0, name);
}

/// A connection type other than 0, 1 and 2 is reported in decimal.
pub proof fn lemma_unknown_connection(
    bytes: Vec<u8>,
    name: Seq<char>,
    code: u64,
    digits: String,
    r: Result<DeviceUpdateMessage, DeserializationError>,
)
    requires
        call_ensures(<DeviceUpdateMessage as TryFrom<Vec<u8>>>::try_from, (bytes,), r),
        call_ensures(decimal_text, (code,), digits),
        bytes@.len() >= 8 + usize::BITS / 8 + encode_utf8(name).len() + 8,
        bytes@.take(8) == seq![0u8, 0u8, 0u8, 0u8, 0u8, 0u8, 0u8, 0u8],
        forall|i: int|
            0 <= i < usize::BITS / 8 ==> (#[trigger] bytes@.skip(8)[i]) as int == (encode_utf8(name).len() as int / pow(
                256,
                i as nat,
            )) % 256,
        bytes@.subrange(
            8 + usize::BITS / 8,
            8 + usize::BITS / 8 + encode_utf8(name).len(),
        ) == encode_utf8(name),
        forall|i: int|
            0 <= i < 8 ==> (#[trigger] bytes@.skip(
                8 + usize::BITS / 8 + encode_utf8(name).len(),
            )[i]) as int == (code as int / pow(256, i as nat)) % 256,
        code > 2,
    ensures
        r matches Err(DeserializationError::InvalidValue(text)) && text@
            == "Unexpected connection type: "@ + digits@,
{
    let b = bytes@;
    let rest = b.skip(8);
    lemma_type_and_name_are_taken(bytes, 0, name);
    let last = rest.skip(usize::BITS / 8 + encode_utf8(name).len());
    assert(last =~= b.skip(8 + usize::BITS / 8 + encode_utf8(name).len()));
    lemma_widths();
    lemma_number_of_digits(last.take(8), code as nat);
}

/// A usage message without four bytes for each of the two figures is none.
pub proof fn lemma_figures_cut_off(
    bytes: Vec<u8>,
    name: Seq<char>,
    r: Result<DeviceUpdateMessage, DeserializationError>,
)
    requires
        call_ensures(<DeviceUpdateMessage as TryFrom<Vec<u8>>>::try_from, (bytes,), r),
        8 + usize::BITS / 8 + encode_utf8(name).len() <= bytes@.len() < 8 + usize::BITS / 8
            + encode_utf8(name).len() + 8,
        bytes@.take(8) == seq![1u8, 0u8, 0u8, 0u8, 0u8, 0u8, 0u8, 0u8],
        forall|i: int|
            0 <= i < usize::BITS / 8 ==> (#[trigger] bytes@.skip(8)[i]) as int == (encode_utf8(name).len() as int / pow(
                256,
                i as nat,
            )) % 256,
        bytes@.subrange(
            8 + usize::BITS / 8,
            8 + usize::BITS / 8 + encode_utf8(name).len(),
        ) == encode_utf8(name),
    ensures
        ({
            let left = bytes@.len() - 8 - usize::BITS / 8 - encode_utf8(name).len();
            r matches Err(DeserializationError::UnexpectedByteCount(expected, found)) && expected
                == 4 && found == if left < 4 {
                left
            } else {
                left - 4
            }
        }),
{
    lemma_type_and_name_are_taken(bytes, 1, name);
}

/// A number is put in decimal: each character is a digit of it, the highest first, and no
/// number but zero begins with a zero.
pub proof fn lemma_decimal_text(n: u64, text: String)
    requires
        call_ensures(decimal_text, (n,), text),
    ensures
        text@.len() > 0,
        n < pow(10, text@.len()),
        n >= 10 ==> text@[0] != '0',
        n < 10 ==> text@.len() == 1,
        forall|i: int|
            0 <= i < text@.len() ==> (#[trigger] text@[text@.len() - 1 - i]) as int == '0' as int
                + (n as int / pow(10, i as nat)) % 10,
{
    lemma_decimal(n as nat);
}

proof fn lemma_decimal(n: nat)
    ensures
        decimal(n).len() > 0,
        n < pow(10, decimal(n).len()),
        n > 0 ==> decimal(n)[0] != '0',
        n < 10 ==> decimal(n).len() == 1,
        forall|i: int|
            0 <= i < decimal(n).len() ==> (#[trigger] decimal(n)[decimal(n).len() - 1 - i]) as int
                == '0' as int + (n as int / pow(10, i as nat)) % 10,
    decreases n,
{
    reveal(pow);
    let text = decimal(n);
    if n < 10 {
        assert(pow(10, 1) == 10) by {
            reveal_with_fuel(pow, 2);
        }
        assert(pow(10, 0) == 1);
    } else {
        let high = decimal(n / 10);
        lemma_decimal(n / 10);
        assert(pow(10, text.len()) == 10 * pow(10, high.len()));
        assert forall|i: int| 0 <= i < text.len() implies (#[trigger] text[text.len() - 1
            - i]) as int == '0' as int + (n as int / pow(10, i as nat)) % 10 by {
            if i > 0 {
                assert(text[text.len() - 1 - i] == high[high.len() - 1 - (i - 1)]);
                let p = pow(10, (i - 1) as nat);
                vstd::arithmetic::power::lemma_pow_positive(10, (i - 1) as nat);
                vstd::arithmetic::div_mod::lemma_div_denominator(n as int, 10, p);
                assert(pow(10, i as nat) == 10 * p);
            } else {
                assert(pow(10, 0) == 1);
            }
        }
        assert(text[0] == high[0]);
    }
}

} // verus!
