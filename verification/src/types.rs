//! The hardware (MAC) address, the console identity derived from it, and the
//! sequential instruction emitter used by the shellcode assembler.

use vstd::prelude::*;
use vstd::string::StrSliceExecFns;

use crate::buffer::{be32, read_be32, splice, write_bytes_at};
use crate::crypto::{sha1_digest, sha1_of};
use crate::error::MacAddressError;

verus! {

/// True for the characters `0-9`, `a-f`, `A-F`.
pub open spec fn is_hex_digit(c: char) -> bool {
    ('0' <= c && c <= '9') || ('a' <= c && c <= 'f') || ('A' <= c && c <= 'F')
}

/// The numeric value of a hex digit.
pub open spec fn hex_val(c: char) -> int {
    if '0' <= c && c <= '9' {
        (c as u32) - 48
    } else if 'a' <= c && c <= 'f' {
        (c as u32) - 87
    } else {
        (c as u32) - 55
    }
}

/// `s` with every `-` separator removed.
pub open spec fn strip_separators(s: Seq<char>) -> Seq<char>
    decreases s.len(),
{
    if s.len() == 0 {
        Seq::empty()
    } else if s.last() == '-' {
        strip_separators(s.drop_last())
    } else {
        strip_separators(s.drop_last()).push(s.last())
    }
}

/// True when every character of `s` is a hex digit.
pub open spec fn all_hex(s: Seq<char>) -> bool {
    forall|i: int| 0 <= i < s.len() ==> is_hex_digit(#[trigger] s[i])
}

/// The six bytes encoded by twelve hex digits.
pub open spec fn spec_mac_bytes(digits: Seq<char>) -> Seq<u8> {
    Seq::new(6, |k: int| (16 * hex_val(digits[2 * k]) + hex_val(digits[2 * k + 1])) as u8)
}

/// A six-byte hardware address, parsed from twelve hex digits with optional
/// `-` separators.
#[derive(Clone, Copy, Debug)]
pub struct MacAddress {
    bytes: [u8; 6],
}

impl View for MacAddress {
    type V = Seq<u8>;

    closed spec fn view(&self) -> Seq<u8> {
        self.bytes@
    }
}

/// A hex digit's value lies below sixteen.
proof fn lemma_hex_val_bound(c: char)
    requires
        is_hex_digit(c),
    ensures
        0 <= hex_val(c) < 16,
{
}

/// The numeric value of one hex-digit character, or `None` when the
/// character is no hex digit.
fn char_hex_val(c: char) -> (r: Option<u8>)
    ensures
        match r {
            Some(v) => is_hex_digit(c) && v == hex_val(c),
            None => !is_hex_digit(c),
        },
{
    let u = c as u32;
    if 48 <= u && u <= 57 {
        Some((u - 48) as u8)
    } else if 97 <= u && u <= 102 {
        Some((u - 87) as u8)
    } else if 65 <= u && u <= 70 {
        Some((u - 55) as u8)
    } else {
        None
    }
}

impl MacAddress {
    /// Parses a hardware address: twelve hex digits, in either case, with
    /// any number of `-` separators. Exactly the strings whose non-separator
    /// characters are twelve hex digits are accepted; a non-hex character or
    /// an odd number of digits is a hex failure, any other digit count a
    /// length failure.
    pub fn parse_str(s: &str) -> (r: Result<MacAddress, MacAddressError>)
        ensures
            r matches Ok(m) ==> strip_separators(s@).len() == 12 && all_hex(strip_separators(s@))
                && m@ == spec_mac_bytes(strip_separators(s@)),
            (r matches Err(e) && e == MacAddressError::InvalidHex) <==> (!all_hex(
                strip_separators(s@),
            ) || strip_separators(s@).len() % 2 == 1),
            (r matches Err(e) && e == MacAddressError::InvalidMacAddress) <==> (all_hex(
                strip_separators(s@),
            ) && strip_separators(s@).len() % 2 == 0 && strip_separators(s@).len() != 12),
    {
        let n = s.unicode_len();
        let mut stripped: Vec<char> = Vec::new();
        let mut i: usize = 0;
        while i < n
            invariant
                n == s@.len(),
                0 <= i <= n,
                stripped@ == strip_separators(s@.take(i as int)),
            decreases n - i,
        {
            let c = s.get_char(i);
            proof {
                assert(s@.take(i + 1).drop_last() =~= s@.take(i as int));
                assert(s@.take(i + 1).last() == s@[i as int]);
            }
            if c != '-' {
                stripped.push(c);
            }
            i = i + 1;
        }
        proof {
            assert(s@.take(n as int) =~= s@);
        }
        let ghost digits = strip_separators(s@);
        assert(stripped@ == digits);

        let len = stripped.len();
        let mut vals: Vec<u8> = Vec::new();
        let mut k: usize = 0;
        while k < len
            invariant
                digits == strip_separators(s@),
                len == digits.len(),
                stripped@ == digits,
                0 <= k <= len,
                vals@.len() == k,
                forall|j: int| 0 <= j < k ==> #[trigger] is_hex_digit(digits[j]),
                forall|j: int| 0 <= j < k ==> vals@[j] == hex_val(#[trigger] digits[j]),
            decreases len - k,
        {
            match char_hex_val(stripped[k]) {
                Some(v) => {
                    vals.push(v);
                    assert(vals@[k as int] == hex_val(digits[k as int]));
                },
                None => {
                    assert(!is_hex_digit(digits[k as int]));
                    assert(!all_hex(digits));
                    return Err(MacAddressError::InvalidHex);
                },
            }
            k = k + 1;
        }
        assert(all_hex(digits));
        if len % 2 == 1 {
            assert(digits.len() % 2 == 1);
            return Err(MacAddressError::InvalidHex);
        }
        if len != 12 {
            return Err(MacAddressError::InvalidMacAddress);
        }
        proof {
            assert forall|j: int| 0 <= j < 12 implies 0 <= #[trigger] vals@[j] < 16 by {
                assert(is_hex_digit(digits[j]));
                assert(vals@[j] == hex_val(digits[j]));
                lemma_hex_val_bound(digits[j]);
            }
        }
        let bytes: [u8; 6] = [
            16 * vals[0] + vals[1],
            16 * vals[2] + vals[3],
            16 * vals[4] + vals[5],
            16 * vals[6] + vals[7],
            16 * vals[8] + vals[9],
            16 * vals[10] + vals[11],
        ];
        let m = MacAddress { bytes };
        assert(m@ =~= spec_mac_bytes(digits));
        Ok(m)
    }

    /// The six raw bytes of the address.
    pub fn octets(&self) -> (r: [u8; 6])
        ensures
            r@ == self@,
    {
        self.bytes
    }

    /// The canonical text form of the address: twelve upper-case hex
    /// digits, without separators.
    pub fn to_hex_string(&self) -> (r: String)
        ensures
            r@ == crate::strings::spec_hex_bytes_upper(self@),
    {
        crate::strings::hex_string_upper(self.bytes.as_slice())
    }
}

/// The console identity: the SHA-1 digest of the hardware address with a
/// fixed three-byte suffix, split into two big-endian words and a key tail.
pub struct WiiId {
    /// The 20 digest bytes.
    pub bytes: Vec<u8>,
    /// The first big-endian 32-bit word of the digest.
    pub upper: u32,
    /// The second big-endian 32-bit word of the digest.
    pub lower: u32,
}

impl View for WiiId {
    type V = Seq<u8>;

    open spec fn view(&self) -> Seq<u8> {
        self.bytes@
    }
}

impl WiiId {
    /// Wraps a digest: the `upper` and `lower` fields are its first and
    /// second big-endian 32-bit words.
    pub fn new(bytes: Vec<u8>) -> (r: WiiId)
        requires
            bytes@.len() >= 8,
        ensures
            r@ == bytes@,
            r.upper == read_be32(bytes@, 0),
            r.lower == read_be32(bytes@, 4),
    {
        let upper = crate::buffer::read_be_u32_at(bytes.as_slice(), 0);
        let lower = crate::buffer::read_be_u32_at(bytes.as_slice(), 4);
        WiiId { bytes, upper, lower }
    }

    /// Derives the identity of the console with the given hardware address:
    /// SHA-1 over the six address bytes followed by `75 79 79`.
    pub fn from_mac(mac: &MacAddress) -> (r: WiiId)
        ensures
            r@ == sha1_of(mac@ + seq![0x75u8, 0x79u8, 0x79u8]),
            r@.len() == 20,
            r.upper == read_be32(r@, 0),
            r.lower == read_be32(r@, 4),
    {
        let octets = mac.octets();
        let mut input: Vec<u8> = Vec::new();
        let mut i: usize = 0;
        while i < 6
            invariant
                octets@ == mac@,
                0 <= i <= 6,
                input@ == mac@.take(i as int),
            decreases 6 - i,
        {
            input.push(octets[i]);
            proof {
                assert(input@ =~= mac@.take(i + 1));
            }
            i = i + 1;
        }
        proof {
            assert(mac@.take(6) =~= mac@);
        }
        input.push(0x75);
        input.push(0x79);
        input.push(0x79);
        assert(input@ =~= mac@ + seq![0x75u8, 0x79u8, 0x79u8]);
        let digest = sha1_digest(input.as_slice());
        WiiId::new(digest)
    }

    /// The first and second big-endian 32-bit words of `bytes`, or `None`
    /// when fewer than eight bytes are given.
    pub fn split_upper_lower(bytes: &[u8]) -> (r: Option<(u32, u32)>)
        ensures
            match r {
                Some(p) => bytes@.len() >= 8 && p.0 == read_be32(bytes@, 0) && p.1 == read_be32(
                    bytes@,
                    4,
                ),
                None => bytes@.len() < 8,
            },
    {
        if bytes.len() < 8 {
            return None;
        }
        let upper = crate::buffer::read_be_u32_at(bytes, 0);
        let lower = crate::buffer::read_be_u32_at(bytes, 4);
        Some((upper, lower))
    }

    /// The tail of the digest past the two identifier words: the key of the
    /// message authentication code.
    pub fn hmac_key(&self) -> (r: &[u8])
        requires
            self@.len() >= 8,
        ensures
            r@ == self@.skip(8),
    {
        vstd::slice::slice_subrange(self.bytes.as_slice(), 8, self.bytes.len())
    }
}

/// A sequential writer that places 32-bit big-endian words at growing
/// offsets from a fixed base, optionally masking each word with a key.
pub struct PayloadWriter {
    /// Absolute offset the emission starts at.
    pub base: usize,
    /// Running offset from `base`; grows by four with each emitted word.
    pub offset: usize,
    /// Mask applied by the masked-emit operation.
    pub xor_key: u32,
}

impl PayloadWriter {
    /// A writer that starts emitting at `base`.
    pub fn new(base: usize, xor_key: u32) -> (r: PayloadWriter)
        ensures
            r.base == base,
            r.offset == 0,
            r.xor_key == xor_key,
    {
        PayloadWriter { base, offset: 0, xor_key }
    }

    /// Skips `n` bytes without writing them.
    pub fn increment_offset(&mut self, n: usize)
        requires
            old(self).offset + n <= usize::MAX,
        ensures
            final(self).offset == old(self).offset + n,
            final(self).base == old(self).base,
            final(self).xor_key == old(self).xor_key,
    {
        self.offset = self.offset + n;
    }

    /// Emits exactly four raw bytes and advances by four.
    pub fn write_raw(&mut self, buf: &mut Vec<u8>, val: &[u8])
        requires
            val@.len() == 4,
            old(self).base + old(self).offset + 4 <= old(buf)@.len(),
        ensures
            final(buf)@ == splice(old(buf)@, old(self).base + old(self).offset, val@),
            final(buf)@.len() == old(buf)@.len(),
            final(self).offset == old(self).offset + 4,
            final(self).base == old(self).base,
            final(self).xor_key == old(self).xor_key,
    {
        broadcast use crate::buffer::group_splice_axioms;

        let n = buf.len();
        let pos = self.base + self.offset;
        write_bytes_at(buf, pos, val);
        self.offset = self.offset + 4;
    }

    /// Emits `val` as a big-endian word and advances by four.
    pub fn l(&mut self, buf: &mut Vec<u8>, val: u32)
        requires
            old(self).base + old(self).offset + 4 <= old(buf)@.len(),
        ensures
            final(buf)@ == splice(old(buf)@, old(self).base + old(self).offset, be32(val)),
            final(buf)@.len() == old(buf)@.len(),
            final(self).offset == old(self).offset + 4,
            final(self).base == old(self).base,
            final(self).xor_key == old(self).xor_key,
    {
        let bytes = crate::buffer::be_u32_vec(val);
        self.write_raw(buf, bytes.as_slice());
    }

    /// Emits `val` masked with the key and advances by four.
    pub fn x(&mut self, buf: &mut Vec<u8>, val: u32)
        requires
            old(self).base + old(self).offset + 4 <= old(buf)@.len(),
        ensures
            final(buf)@ == splice(
                old(buf)@,
                old(self).base + old(self).offset,
                be32(val ^ old(self).xor_key),
            ),
            final(buf)@.len() == old(buf)@.len(),
            final(self).offset == old(self).offset + 4,
            final(self).base == old(self).base,
            final(self).xor_key == old(self).xor_key,
    {
        let masked = val ^ self.xor_key;
        self.l(buf, masked);
    }
}

} // verus!
