//! Account addresses as text: `0x` and forty lower-case hexadecimal digits.

use crate::digits::{digit_char, digit_str};
use vstd::prelude::*;
use vstd::string::*;

verus! {

/// Two digits per byte, the high half first.
pub open spec fn lower_hex(bytes: Seq<u8>) -> Seq<char> {
    Seq::new(
        2 * bytes.len(),
        |i: int|
            if i % 2 == 0 {
                digit_char(bytes[i / 2] as int / 16)
            } else {
                digit_char(bytes[i / 2] as int % 16)
            },
    )
}

/// The address that a 32-byte topic carries in its rightmost 20 bytes.
pub open spec fn address_text(topic: Seq<u8>) -> Seq<char> {
    seq!['0', 'x'] + lower_hex(topic.subrange(12, 32))
}

/// Formats the address in the rightmost 20 bytes of a topic.
pub fn address_from_topic(topic: &[u8; 32]) -> (text: String)
    ensures
        text@ == address_text(topic@),
{
    let mut text = String::from_str("0x");
    proof {
        reveal_strlit("0x");
        assert(text@ =~= seq!['0', 'x'] + lower_hex(topic@.subrange(12, 12)));
    }
    let mut i: usize = 12;
    while i < 32
        invariant
            12 <= i <= 32,
            text@ == seq!['0', 'x'] + lower_hex(topic@.subrange(12, i as int)),
        decreases 32 - i,
    {
        let byte: u8 = topic[i];
        text.append(digit_str(byte / 16));
        text.append(digit_str(byte % 16));
        proof {
            let done = topic@.subrange(12, i as int);
            let more = topic@.subrange(12, i as int + 1);
            assert(more.len() == done.len() + 1);
            assert(lower_hex(more) =~= lower_hex(done) + seq![
                digit_char(byte as int / 16),
                digit_char(byte as int % 16),
            ]) by {
                let joined = lower_hex(done) + seq![
                    digit_char(byte as int / 16),
                    digit_char(byte as int % 16),
                ];
                assert forall|k: int| 0 <= k < 2 * more.len() implies lower_hex(more)[k]
                    == joined[k] by {
                    if k < 2 * done.len() {
                        assert(more[k / 2] == done[k / 2]);
                    } else {
                        assert(more[k / 2] == byte);
                    }
                }
            }
            assert(text@ =~= seq!['0', 'x'] + lower_hex(more));
        }
        i += 1;
    }
    text
}

} // verus!
