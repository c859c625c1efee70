//! The request that delivers a message to the committee's chat.

use crate::text::{decimal_text, push_decimal};
use vstd::prelude::*;
use vstd::utf8::encode_utf8;

verus! {

/// The chat of the Stargate committee.
pub const STARGATE_COMMITTEE_TELEGRAM_CHAT_ID: i64 = -753837580;

/// The chat of the Stargate committee.
pub open spec fn committee_chat_id() -> int {
    STARGATE_COMMITTEE_TELEGRAM_CHAT_ID as int
}

/// Whether a byte stands for itself in an encoded message: the letters and
/// digits of ASCII and `-`, `.`, `_`, `~`.
pub open spec fn is_unreserved(byte: u8) -> bool {
    ||| 0x30 <= byte <= 0x39
    ||| 0x41 <= byte <= 0x5a
    ||| 0x61 <= byte <= 0x7a
    ||| byte == 0x2d
    ||| byte == 0x2e
    ||| byte == 0x5f
    ||| byte == 0x7e
}

/// The hexadecimal digit of a number below sixteen, in upper case.
pub open spec fn hex_char(nibble: u8) -> char {
    if nibble < 10 {
        (0x30 + nibble) as char
    } else {
        (0x37 + nibble) as char
    }
}

/// One byte of a message, percent-encoded.
pub open spec fn percent_encoded_byte(byte: u8) -> Seq<char> {
    if is_unreserved(byte) {
        seq![byte as char]
    } else {
        seq!['%', hex_char(byte / 16), hex_char(byte % 16)]
    }
}

/// The bytes of a message, percent-encoded one by one.
pub open spec fn percent_encoded(bytes: Seq<u8>) -> Seq<char>
    decreases bytes.len(),
{
    if bytes.len() == 0 {
        Seq::empty()
    } else {
        percent_encoded(bytes.drop_last()) + percent_encoded_byte(bytes.last())
    }
}

/// A whole number with its sign.
pub open spec fn signed_text(n: int) -> Seq<char> {
    if n < 0 {
        seq!['-'] + decimal_text((-n) as nat)
    } else {
        decimal_text(n as nat)
    }
}

/// The address that sends `message` to the chat `chat_id` in the name of the
/// bot that holds `token`.
pub open spec fn message_url(token: Seq<char>, chat_id: int, message: Seq<char>) -> Seq<char> {
    "https://api.telegram.org/bot"@ + token + "/sendMessage?chat_id="@ + signed_text(chat_id)
        + "&text="@ + percent_encoded(encode_utf8(message))
}

/// Encodes a message with `urlencoding::encode`. Trusted: it percent-encodes
/// every byte of the text's UTF-8 form except the letters and digits of ASCII
/// and `-`, `.`, `_`, `~`, which it keeps, and writes the two hexadecimal digits
/// of a byte in upper case.
#[verifier::external_body]
fn percent_encode(message: &str) -> (encoded: String)
    ensures
        encoded@ == percent_encoded(encode_utf8(message@)),
{
    urlencoding::encode(message).into_owned()
}

/// The address to fetch in order to send `message` to the chat `chat_id`.
pub fn message_request(message: &str, token: &str, chat_id: i64) -> (url: String)
    ensures
        url@ == message_url(token@, chat_id as int, message@),
{
    let mut url = String::from_str("https://api.telegram.org/bot");
    url.append(token);
    url.append("/sendMessage?chat_id=");
    if chat_id < 0 {
        url.append("-");
        proof {
            reveal_strlit("-");
        }
        push_decimal(&mut url, (-(chat_id as i128)) as u128);
    } else {
        push_decimal(&mut url, chat_id as u128);
    }
    url.append("&text=");
    url.append(percent_encode(message).as_str());
    assert(url@ =~= message_url(token@, chat_id as int, message@));
    url
}

/// The address to fetch in order to send `message` to the committee.
pub fn send_message_to_committee(message: &str, token: &str) -> (url: String)
    ensures
        url@ == message_url(token@, committee_chat_id(), message@),
{
    message_request(message, token, STARGATE_COMMITTEE_TELEGRAM_CHAT_ID)
}

} // verus!
