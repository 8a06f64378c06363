//! The outbound envelope and its wire form.
//!
//! An envelope is a numeric code and a text body. On the wire it is the
//! compact JSON object `{"code":<code>,"msg":<body>}`: the code as a decimal
//! number, the body as a JSON string.

use vstd::prelude::*;

verus! {

/// Code of the envelope that answers a successful authentication.
pub const CODE_AUTHENTICATED: u8 = 0;

/// Code of the envelope that carries a pushed event.
pub const CODE_PUSHED_EVENT: u8 = 2;

/// A payload for the peer: a code that tells what it is, and a body.
#[derive(Debug)]
pub struct Envelope {
    pub code: u8,
    pub msg: String,
}

/// The error type of `serde_json`. Opaque to the verifier.
#[verifier::external_type_specification]
#[verifier::external_body]
pub struct ExJsonError(serde_json::Error);

/// The JSON string that `serde_json` writes for a text: the quoted and
/// escaped text, as UTF-8 bytes.
pub uninterp spec fn json_string_literal(text: Seq<char>) -> Seq<u8>;

/// Calls `serde_json::to_vec` on a string slice. The result is a function of
/// the text alone. The call cannot fail: the serializer's only errors for a
/// string come from its writer, and the writer is a `Vec<u8>`, which accepts
/// every write.
#[verifier::external_body]
fn json_string(text: &str) -> (literal: Result<Vec<u8>, serde_json::Error>)
    ensures
        literal is Ok,
        literal->Ok_0@ == json_string_literal(text@),
{
    serde_json::to_vec(text)
}

/// The decimal digits of a number, in ASCII, without leading zeros.
pub open spec fn decimal_digits(n: nat) -> Seq<u8>
    decreases n,
{
    if n < 10 {
        seq![(0x30 + n) as u8]
    } else {
        decimal_digits(n / 10).push((0x30 + n % 10) as u8)
    }
}

/// The bytes of `{"code":`.
pub open spec fn code_field_opening() -> Seq<u8> {
    seq![0x7bu8, 0x22, 0x63, 0x6f, 0x64, 0x65, 0x22, 0x3a]
}

/// The bytes of `,"msg":`.
pub open spec fn msg_field_opening() -> Seq<u8> {
    seq![0x2cu8, 0x22, 0x6d, 0x73, 0x67, 0x22, 0x3a]
}

/// The wire form of an envelope whose body has already been written as a
/// JSON string.
pub open spec fn envelope_frame(code: u8, body_literal: Seq<u8>) -> Seq<u8> {
    code_field_opening() + decimal_digits(code as nat) + msg_field_opening() + body_literal
        + seq![0x7du8]
}

/// The wire form of an envelope.
pub open spec fn envelope_wire(code: u8, msg: Seq<char>) -> Seq<u8> {
    envelope_frame(code, json_string_literal(msg))
}

impl Envelope {
    /// The envelope that answers a successful authentication.
    pub fn authenticated(display_name: String) -> (envelope: Envelope)
        ensures
            envelope.code == CODE_AUTHENTICATED,
            envelope.msg@ == display_name@,
    {
        Envelope { code: CODE_AUTHENTICATED, msg: display_name }
    }

    /// The envelope that carries a pushed event.
    pub fn pushed_event(body: String) -> (envelope: Envelope)
        ensures
            envelope.code == CODE_PUSHED_EVENT,
            envelope.msg@ == body@,
    {
        Envelope { code: CODE_PUSHED_EVENT, msg: body }
    }

    /// The wire form of this envelope.
    pub open spec fn wire(&self) -> Seq<u8> {
        envelope_wire(self.code, self.msg@)
    }

    /// Writes the envelope in its wire form.
    pub fn encode(&self) -> (bytes: Vec<u8>)
        ensures
            bytes@ == self.wire(),
    {
        encode_envelope(self.code, self.msg.as_str())
    }
}

/// Appends the decimal digits of `n`.
fn push_decimal(out: &mut Vec<u8>, n: u8)
    ensures
        final(out)@ == old(out)@ + decimal_digits(n as nat),
{
    if n >= 100 {
        out.push(0x30 + n / 100);
        out.push(0x30 + (n / 10) % 10);
        out.push(0x30 + n % 10);
        proof {
            reveal_with_fuel(decimal_digits, 3);
        }
    } else if n >= 10 {
        out.push(0x30 + n / 10);
        out.push(0x30 + n % 10);
        proof {
            reveal_with_fuel(decimal_digits, 2);
        }
    } else {
        out.push(0x30 + n);
    }
}

/// Appends every byte of `bytes`.
fn push_all(out: &mut Vec<u8>, bytes: &Vec<u8>)
    ensures
        final(out)@ == old(out)@ + bytes@,
{
    let ghost before = out@;
    let mut i: usize = 0;
    while i < bytes.len()
        invariant
            i <= bytes.len(),
            out@ == before + bytes@.subrange(0, i as int),
        decreases bytes.len() - i,
    {
        out.push(bytes[i]);
        i = i + 1;
    }
}

/// Frames an envelope round a body that has already been written as a JSON
/// string.
pub fn frame_envelope(code: u8, body_literal: &Vec<u8>) -> (bytes: Vec<u8>)
    ensures
        bytes@ == envelope_frame(code, body_literal@),
{
    let mut bytes: Vec<u8> = Vec::new();
    // {"code":
    bytes.push(0x7b);
    bytes.push(0x22);
    bytes.push(0x63);
    bytes.push(0x6f);
    bytes.push(0x64);
    bytes.push(0x65);
    bytes.push(0x22);
    bytes.push(0x3a);
    push_decimal(&mut bytes, code);
    // ,"msg":
    bytes.push(0x2c);
    bytes.push(0x22);
    bytes.push(0x6d);
    bytes.push(0x73);
    bytes.push(0x67);
    bytes.push(0x22);
    bytes.push(0x3a);
    push_all(&mut bytes, body_literal);
    // }
    bytes.push(0x7d);
    bytes
}

/// Writes an envelope of the given code and body in its wire form.
pub fn encode_envelope(code: u8, msg: &str) -> (bytes: Vec<u8>)
    ensures
        bytes@ == envelope_wire(code, msg@),
{
    match json_string(msg) {
        Ok(body_literal) => frame_envelope(code, &body_literal),
        Err(_) => vstd::pervasive::unreached(),
    }
}

} // verus!
