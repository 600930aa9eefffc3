//! Text encodings of key bytes: upper-case hex and padded base64.

use vstd::prelude::*;

verus! {

broadcast use vstd::seq_lib::group_seq_properties;

/// Hex digits, upper case.
pub const HEX_CHARS: [char; 16] = ['0', '1', '2', '3', '4', '5', '6', '7', '8', '9', 'A', 'B', 'C', 'D', 'E', 'F'];

/// The standard base64 alphabet.
pub const BASE64_CHARS: [char; 64] = ['A', 'B', 'C', 'D', 'E', 'F', 'G', 'H', 'I', 'J', 'K', 'L', 'M', 'N', 'O', 'P', 'Q', 'R', 'S', 'T', 'U', 'V', 'W', 'X', 'Y', 'Z', 'a', 'b', 'c', 'd', 'e', 'f', 'g', 'h', 'i', 'j', 'k', 'l', 'm', 'n', 'o', 'p', 'q', 'r', 's', 't', 'u', 'v', 'w', 'x', 'y', 'z', '0', '1', '2', '3', '4', '5', '6', '7', '8', '9', '+', '/'];

/// Appends one character to a string.
#[verifier::external_body]
pub(crate) fn push_char(s: &mut String, c: char)
    ensures
        final(s)@ == old(s)@.push(c),
{
    s.push(c);
}

/// Every character of `s` is one of `cs`.
pub open spec fn all_in(s: Seq<char>, cs: Seq<char>) -> bool {
    forall|k: int| 0 <= k < s.len() ==> #[trigger] cs.contains(s[k])
}

/// Some character of `s` is one of `cs`.
pub open spec fn some_in(s: Seq<char>, cs: Seq<char>) -> bool {
    exists|k: int| 0 <= k < s.len() && #[trigger] cs.contains(s[k])
}

/// Two hex digits per byte, high nibble first.
pub open spec fn spec_hex(bs: Seq<u8>) -> Seq<char>
    decreases bs.len(),
{
    if bs.len() == 0 {
        Seq::<char>::empty()
    } else {
        let b = bs.last() as int;
        spec_hex(bs.drop_last()) + seq![HEX_CHARS@[b / 16], HEX_CHARS@[b % 16]]
    }
}

/// Upper-case hex encoding of `bytes`.
pub fn hex_encode(bytes: &[u8]) -> (r: String)
    ensures
        r@ == spec_hex(bytes@),
{
    let mut hex = String::new();
    let n = bytes.len();
    let mut i: usize = 0;
    while i < n
        invariant
            i <= n,
            n == bytes@.len(),
            hex@ == spec_hex(bytes@.take(i as int)),
        decreases n - i,
    {
        let b = bytes[i];
        let hi = (b >> 4) as usize;
        let lo = (b & 0x0F) as usize;
        assert(b >> 4 == b / 16 && b & 0x0F == b % 16) by (bit_vector);
        push_char(&mut hex, HEX_CHARS[hi]);
        push_char(&mut hex, HEX_CHARS[lo]);
        assert(bytes@.take(i + 1).drop_last() =~= bytes@.take(i as int));
        i = i + 1;
    }
    assert(bytes@.take(n as int) =~= bytes@);
    hex
}

/// Law: the hex text of `n` bytes has `2 * n` characters, all hex digits.
pub proof fn lemma_hex_well_formed(bs: Seq<u8>)
    ensures
        spec_hex(bs).len() == 2 * bs.len(),
        all_in(spec_hex(bs), HEX_CHARS@),
    decreases bs.len(),
{
    if bs.len() > 0 {
        let b = bs.last() as int;
        let pre = spec_hex(bs.drop_last());
        lemma_hex_well_formed(bs.drop_last());
        let s = spec_hex(bs);
        assert(s == pre + seq![HEX_CHARS@[b / 16], HEX_CHARS@[b % 16]]);
        assert forall|k: int| 0 <= k < s.len() implies #[trigger] HEX_CHARS@.contains(s[k]) by {
            if k < pre.len() {
                assert(HEX_CHARS@.contains(pre[k]));
            } else if k == pre.len() {
                assert(HEX_CHARS@[b / 16] == s[k]);
            } else {
                assert(HEX_CHARS@[b % 16] == s[k]);
            }
        }
    }
}

/// The code point of the upper-case hex digit for `d` (0 to 15).
pub open spec fn hex_digit_code(d: int) -> int {
    if d < 10 { '0' as int + d } else { 'A' as int + d - 10 }
}

/// Law: the hex text of some bytes holds, for byte `k`, the upper-case hex
/// digit of its high nibble at position `2k` and of its low nibble at
/// `2k + 1`.
pub proof fn lemma_hex_digits(bs: Seq<u8>)
    ensures
        spec_hex(bs).len() == 2 * bs.len(),
        forall|k: int| 0 <= k < bs.len() ==> {
            &&& #[trigger] spec_hex(bs)[2 * k] as int == hex_digit_code(bs[k] as int / 16)
            &&& spec_hex(bs)[2 * k + 1] as int == hex_digit_code(bs[k] as int % 16)
        },
    decreases bs.len(),
{
    assert(forall|d: int| 0 <= d < 16 ==> #[trigger] HEX_CHARS@[d] as int == hex_digit_code(d));
    lemma_hex_well_formed(bs);
    if bs.len() > 0 {
        let pre = bs.drop_last();
        lemma_hex_digits(pre);
        let h = spec_hex(bs);
        let hp = spec_hex(pre);
        assert forall|k: int| 0 <= k < bs.len() implies {
            &&& #[trigger] h[2 * k] as int == hex_digit_code(bs[k] as int / 16)
            &&& h[2 * k + 1] as int == hex_digit_code(bs[k] as int % 16)
        } by {
            if k < pre.len() {
                assert(h[2 * k] == hp[2 * k]);
                assert(h[2 * k + 1] == hp[2 * k + 1]);
                assert(bs[k] == pre[k]);
            }
        }
    }
}

/// Standard base64 with `=` padding: each group of three bytes becomes
/// four characters; a final short group is padded to four.
pub open spec fn spec_base64(bs: Seq<u8>) -> Seq<char>
    decreases bs.len(),
{
    if bs.len() == 0 {
        Seq::<char>::empty()
    } else {
        let b0 = bs[0] as int;
        let b1: int = if bs.len() > 1 { bs[1] as int } else { 0 };
        let b2: int = if bs.len() > 2 { bs[2] as int } else { 0 };
        let c0 = BASE64_CHARS@[b0 / 4];
        let c1 = BASE64_CHARS@[(b0 % 4) * 16 + b1 / 16];
        let c2 = if bs.len() > 1 { BASE64_CHARS@[(b1 % 16) * 4 + b2 / 64] } else { '=' };
        let c3 = if bs.len() > 2 { BASE64_CHARS@[b2 % 64] } else { '=' };
        seq![c0, c1, c2, c3] + if bs.len() <= 3 {
            Seq::<char>::empty()
        } else {
            spec_base64(bs.skip(3))
        }
    }
}

/// Law: the base64 text of `n` bytes has `4 * ceil(n / 3)` characters,
/// each from the alphabet or the pad `=`.
pub proof fn lemma_base64_well_formed(bs: Seq<u8>)
    ensures
        spec_base64(bs).len() == 4 * ((bs.len() + 2) / 3),
        all_in(spec_base64(bs), BASE64_CHARS@.push('=')),
    decreases bs.len(),
{
    let alphabet = BASE64_CHARS@.push('=');
    if bs.len() > 0 {
        let b0 = bs[0] as int;
        let b1: int = if bs.len() > 1 { bs[1] as int } else { 0 };
        let b2: int = if bs.len() > 2 { bs[2] as int } else { 0 };
        let c0 = BASE64_CHARS@[b0 / 4];
        let c1 = BASE64_CHARS@[(b0 % 4) * 16 + b1 / 16];
        let c2 = if bs.len() > 1 { BASE64_CHARS@[(b1 % 16) * 4 + b2 / 64] } else { '=' };
        let c3 = if bs.len() > 2 { BASE64_CHARS@[b2 % 64] } else { '=' };
        let head = seq![c0, c1, c2, c3];
        let tail = if bs.len() <= 3 { Seq::<char>::empty() } else { spec_base64(bs.skip(3)) };
        if bs.len() > 3 {
            lemma_base64_well_formed(bs.skip(3));
        }
        let s = spec_base64(bs);
        assert(s == head + tail);
        assert forall|x: char| BASE64_CHARS@.contains(x) implies alphabet.contains(x) by {
            let k = choose|k: int| 0 <= k < BASE64_CHARS@.len() && BASE64_CHARS@[k] == x;
            assert(alphabet[k] == x);
        }
        assert(alphabet[64] == '=');
        assert forall|k: int| 0 <= k < s.len() implies #[trigger] alphabet.contains(s[k]) by {
            if k == 0 {
                assert(BASE64_CHARS@.contains(BASE64_CHARS@[b0 / 4]));
            } else if k == 1 {
                assert(BASE64_CHARS@.contains(BASE64_CHARS@[(b0 % 4) * 16 + b1 / 16]));
            } else if k == 2 {
                if bs.len() > 1 {
                    assert(BASE64_CHARS@.contains(BASE64_CHARS@[(b1 % 16) * 4 + b2 / 64]));
                }
            } else if k == 3 {
                if bs.len() > 2 {
                    assert(BASE64_CHARS@.contains(BASE64_CHARS@[b2 % 64]));
                }
            } else {
                assert(s[k] == tail[k - 4]);
                assert(alphabet.contains(tail[k - 4]));
            }
        }
    }
}

/// The value of a base64 alphabet character; -1 for any other character.
pub open spec fn sextet(c: char) -> int {
    if 'A' <= c <= 'Z' {
        c as int - 'A' as int
    } else if 'a' <= c <= 'z' {
        c as int - 'a' as int + 26
    } else if '0' <= c <= '9' {
        c as int - '0' as int + 52
    } else if c == '+' {
        62
    } else if c == '/' {
        63
    } else {
        -1
    }
}

/// Strict base64 decoding: groups of four alphabet characters, the last
/// group possibly ending in `=` or `==`, with the bits the padding leaves
/// unused set to zero. `None` for any other text.
pub open spec fn spec_base64_decode(s: Seq<char>) -> Option<Seq<u8>>
    decreases s.len(),
{
    if s.len() == 0 {
        Some(Seq::<u8>::empty())
    } else if s.len() < 4 {
        None
    } else {
        let a = sextet(s[0]);
        let b = sextet(s[1]);
        let c = sextet(s[2]);
        let d = sextet(s[3]);
        if a < 0 || b < 0 {
            None
        } else if s[2] == '=' && s[3] == '=' {
            if s.len() == 4 && b % 16 == 0 {
                Some(seq![(a * 4 + b / 16) as u8])
            } else {
                None
            }
        } else if c < 0 {
            None
        } else if s[3] == '=' {
            if s.len() == 4 && c % 4 == 0 {
                Some(seq![(a * 4 + b / 16) as u8, ((b % 16) * 16 + c / 4) as u8])
            } else {
                None
            }
        } else if d < 0 {
            None
        } else {
            match spec_base64_decode(s.skip(4)) {
                Some(rest) => Some(seq![(a * 4 + b / 16) as u8, ((b % 16) * 16 + c / 4) as u8, ((c % 4) * 64 + d) as u8] + rest),
                None => None,
            }
        }
    }
}

/// Each character of the alphabet has its position as value.
proof fn lemma_sextet_of_alphabet(k: int)
    requires
        0 <= k < 64,
    ensures
        sextet(BASE64_CHARS@[k]) == k,
{
    assert(forall|i: int| 0 <= i < 26 ==> #[trigger] BASE64_CHARS@[i] as int == 'A' as int + i);
    assert(forall|i: int| 26 <= i < 52 ==> #[trigger] BASE64_CHARS@[i] as int == 'a' as int + i - 26);
    assert(forall|i: int| 52 <= i < 62 ==> #[trigger] BASE64_CHARS@[i] as int == '0' as int + i - 52);
    assert(BASE64_CHARS@[62] == '+' && BASE64_CHARS@[63] == '/');
}

/// Law: decoding the base64 text of some bytes gives those bytes back, so
/// the text of `n` bytes carries exactly `n` bytes.
pub proof fn lemma_base64_round_trip(bs: Seq<u8>)
    ensures
        spec_base64_decode(spec_base64(bs)) == Some(bs),
    decreases bs.len(),
{
    let s = spec_base64(bs);
    if bs.len() > 0 {
        let b0 = bs[0] as int;
        let b1: int = if bs.len() > 1 { bs[1] as int } else { 0 };
        let b2: int = if bs.len() > 2 { bs[2] as int } else { 0 };
        let i0 = b0 / 4;
        let i1 = (b0 % 4) * 16 + b1 / 16;
        let i2 = (b1 % 16) * 4 + b2 / 64;
        let i3 = b2 % 64;
        lemma_sextet_of_alphabet(i0);
        lemma_sextet_of_alphabet(i1);
        lemma_sextet_of_alphabet(i2);
        lemma_sextet_of_alphabet(i3);
        assert(i0 * 4 + i1 / 16 == b0);
        assert((i1 % 16) * 16 + i2 / 4 == b1);
        assert((i2 % 4) * 64 + i3 == b2);
        assert(sextet('=') == -1);
        let tail = if bs.len() <= 3 { Seq::<char>::empty() } else { spec_base64(bs.skip(3)) };
        assert(s.skip(4) =~= tail);
        if bs.len() == 1 {
            assert(i1 % 16 == 0);
            assert(seq![b0 as u8] =~= bs);
        } else if bs.len() == 2 {
            assert(i2 % 4 == 0);
            assert(seq![b0 as u8, b1 as u8] =~= bs);
        } else if bs.len() == 3 {
            assert(seq![b0 as u8, b1 as u8, b2 as u8] + Seq::<u8>::empty() =~= bs);
        } else {
            lemma_base64_round_trip(bs.skip(3));
            assert(seq![b0 as u8, b1 as u8, b2 as u8] + bs.skip(3) =~= bs);
        }
    }
}

/// Base64 encoding of `bytes`, padded with `=`.
pub fn base64_encode(bytes: &[u8]) -> (r: String)
    ensures
        r@ == spec_base64(bytes@),
{
    let mut result = String::new();
    let n = bytes.len();
    let mut i: usize = 0;
    assert(bytes@.skip(0) =~= bytes@);
    while i < n
        invariant
            n == bytes@.len(),
            i <= n || n == 0,
            i < n ==> result@ + spec_base64(bytes@.skip(i as int)) == spec_base64(bytes@),
            i >= n ==> result@ == spec_base64(bytes@),
        decreases n - i,
    {
        let ghost rest = bytes@.skip(i as int);
        let b0 = bytes[i] as usize;
        let b1 = if n - i > 1 { bytes[i + 1] as usize } else { 0 };
        let b2 = if n - i > 2 { bytes[i + 2] as usize } else { 0 };
        assert(b0 >> 2 == b0 / 4 && ((b0 & 0x03) << 4) | (b1 >> 4) == (b0 % 4) * 16 + b1 / 16
            && ((b1 & 0x0F) << 2) | (b2 >> 6) == (b1 % 16) * 4 + b2 / 64 && b2 & 0x3F == b2 % 64)
            by (bit_vector)
            requires b0 < 256, b1 < 256, b2 < 256;
        let ghost before = result@;
        push_char(&mut result, BASE64_CHARS[b0 >> 2]);
        push_char(&mut result, BASE64_CHARS[((b0 & 0x03) << 4) | (b1 >> 4)]);
        if n - i > 1 {
            push_char(&mut result, BASE64_CHARS[((b1 & 0x0F) << 2) | (b2 >> 6)]);
        } else {
            push_char(&mut result, '=');
        }
        if n - i > 2 {
            push_char(&mut result, BASE64_CHARS[b2 & 0x3F]);
        } else {
            push_char(&mut result, '=');
        }
        proof {
            let group = result@.subrange(before.len() as int, result@.len() as int);
            assert(result@ =~= before + group);
            if rest.len() <= 3 {
                assert(spec_base64(rest) =~= group);
            } else {
                assert(rest.skip(3) =~= bytes@.skip(i + 3));
                assert(spec_base64(rest) =~= group + spec_base64(bytes@.skip(i + 3)));
            }
        }
        if n - i <= 3 {
            i = n;
        } else {
            i = i + 3;
        }
    }
    result
}

} // verus!
