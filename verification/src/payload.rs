//! The wire format of one outbound transfer instruction: a JSON object
//! `{"receiver_id":"<receiver>","amount":<amount>}`, the argument payload the
//! token program's transfer entry point expects.

use vstd::prelude::*;

verus! {

/// The decimal digit character of `n % 10`.
pub open spec fn decimal_digit(n: u128) -> char {
    (((n % 10) + 48) as u8) as char
}

/// The decimal numeral of `n`, most significant digit first, no sign and no
/// leading zeroes.
pub open spec fn decimal(n: u128) -> Seq<char>
    decreases n,
{
    if n < 10 {
        seq![decimal_digit(n)]
    } else {
        decimal(n / 10).push(decimal_digit(n))
    }
}

/// A character that a JSON serializer emits verbatim inside a string: neither
/// a quote, nor a backslash, nor a control character.
pub open spec fn json_plain_char(c: char) -> bool {
    c != '"' && c != '\\' && c >= ' '
}

/// A string that needs no escaping inside a JSON string literal.
pub open spec fn json_plain(s: Seq<char>) -> bool {
    forall|i: int| 0 <= i < s.len() ==> json_plain_char(#[trigger] s[i])
}

/// The argument payload of one transfer call: a compact JSON object, the
/// receiver first and the amount second, as the serializer emits it.
pub open spec fn transfer_args_json(receiver: Seq<char>, amount: u128) -> Seq<char> {
    "{\"receiver_id\":\""@ + receiver + "\",\"amount\":"@ + decimal(amount) + "}"@
}

/// Relies on `serde_json` with its `preserve_order` feature: a
/// `Value::Object` displays compactly with its keys in insertion order, an
/// integer `Number` prints as its decimal numeral, and a string whose
/// characters need no escaping is emitted between quotes verbatim. Amounts
/// above `u64::MAX` are left out because `serde_json::Number` cannot
/// represent them.
#[verifier::external_body]
pub(crate) fn encode_transfer_args(receiver: &str, amount: u128) -> (r: String)
    requires
        json_plain(receiver@),
        amount <= u64::MAX as u128,
    ensures
        r@ == transfer_args_json(receiver@, amount),
{
    let mut fields = serde_json::Map::new();
    fields.insert(
        "receiver_id".to_string(),
        serde_json::Value::String(receiver.to_string()),
    );
    fields.insert(
        "amount".to_string(),
        serde_json::Value::Number(serde_json::Number::from(u64::try_from(amount).unwrap())),
    );
    serde_json::Value::Object(fields).to_string()
}

} // verus!
