//! The fixed-size symbol field carried by market and trading events: up to
//! `SYMBOL_CAPACITY` bytes of the symbol's UTF-8 text and their number.
use vstd::prelude::*;
use vstd::utf8::{
    valid_utf8, encode_utf8_valid_utf8, is_char_boundary, valid_utf8_split,
    is_char_boundary_iff_not_is_continuation_byte, partial_valid_partial_invalid_utf8,
};
use vstd::slice::slice_subrange;
use vstd::string::StringSliceAdditionalSpecFns;

verus! {

/// The number of bytes an event keeps of its symbol.
pub const SYMBOL_CAPACITY: usize = 16;

/// The number of bytes of `bytes` an event keeps.
pub open spec fn kept_len(bytes: Seq<u8>) -> nat {
    if bytes.len() < SYMBOL_CAPACITY { bytes.len() } else { SYMBOL_CAPACITY as nat }
}

/// `std::str::from_utf8`: the bytes read as a string slice when they are
/// valid UTF-8. Trusted to accept exactly the byte sequences that vstd's
/// `valid_utf8` describes, and then to keep the bytes unchanged.
#[verifier::external_body]
fn str_from_utf8(bytes: &[u8]) -> (r: Option<&str>)
    ensures
        r is Some <==> valid_utf8(bytes@),
        r matches Some(s) ==> s.spec_bytes() == bytes@,
{
    std::str::from_utf8(bytes).ok()
}

/// The symbol field of an event for `symbol`: its first (at most
/// `SYMBOL_CAPACITY`) bytes, zero-padded, and how many they are. A symbol
/// cut in the middle of a character keeps the partial bytes.
pub fn encode_symbol(symbol: &str) -> (r: ([u8; 16], u8))
    ensures
        r.1 == kept_len(symbol.spec_bytes()),
        r.0@ == symbol.spec_bytes().take(r.1 as int) + Seq::new((SYMBOL_CAPACITY - r.1) as nat, |i: int| 0u8),
{
    let bytes = symbol.as_bytes();
    let len = if bytes.len() < SYMBOL_CAPACITY { bytes.len() } else { SYMBOL_CAPACITY };
    let mut buf = [0u8; 16];
    let mut i: usize = 0;
    while i < len
        invariant
            len <= SYMBOL_CAPACITY,
            len <= bytes@.len(),
            bytes@ == symbol.spec_bytes(),
            i <= len,
            forall|j: int| 0 <= j < i ==> #[trigger] buf@[j] == bytes@[j],
            forall|j: int| i <= j < SYMBOL_CAPACITY ==> #[trigger] buf@[j] == 0,
        decreases len - i,
    {
        buf[i] = bytes[i];
        i = i + 1;
    }
    let r = (buf, len as u8);
    assert(r.0@ =~= symbol.spec_bytes().take(len as int) + Seq::new((SYMBOL_CAPACITY - len) as nat, |i: int| 0u8));
    r
}

/// The symbol text of an event's symbol field: its first `sym_len` bytes
/// when they are valid UTF-8, the empty string otherwise.
pub fn decode_symbol(symbol: &[u8; 16], sym_len: u8) -> (r: &str)
    requires
        sym_len <= SYMBOL_CAPACITY,
    ensures
        r.spec_bytes() == (if valid_utf8(symbol@.take(sym_len as int)) {
            symbol@.take(sym_len as int)
        } else {
            Seq::empty()
        }),
{
    let len = sym_len as usize;
    let field = slice_subrange(symbol.as_slice(), 0, len);
    assert(field@ =~= symbol@.take(sym_len as int));
    match str_from_utf8(field) {
        Some(s) => s,
        None => {
            let e = "";
            proof {
                reveal_strlit("");
            }
            assert(e.spec_bytes() =~= Seq::<u8>::empty());
            e
        },
    }
}

/// A symbol of at most `SYMBOL_CAPACITY` bytes survives the trip through an
/// event's symbol field unchanged.
pub proof fn lemma_symbol_round_trip(symbol: &str, field: [u8; 16], sym_len: u8)
    requires
        symbol.spec_bytes().len() <= SYMBOL_CAPACITY,
        sym_len == kept_len(symbol.spec_bytes()),
        field@ == symbol.spec_bytes().take(sym_len as int) + Seq::new((SYMBOL_CAPACITY - sym_len) as nat, |i: int| 0u8),
    ensures
        field@.take(sym_len as int) == symbol.spec_bytes(),
        valid_utf8(field@.take(sym_len as int)),
{
    assert(field@.take(sym_len as int) =~= symbol.spec_bytes());
    encode_utf8_valid_utf8(symbol@);
}

/// The text an event gives back for a symbol with UTF-8 bytes `bytes`: the
/// whole symbol when it fits, its first `SYMBOL_CAPACITY` bytes when they end
/// on a character boundary, and the empty text otherwise.
pub open spec fn kept_text(bytes: Seq<u8>) -> Seq<u8> {
    if bytes.len() <= SYMBOL_CAPACITY {
        bytes
    } else if is_char_boundary(bytes, SYMBOL_CAPACITY as int) {
        bytes.take(SYMBOL_CAPACITY as int)
    } else {
        Seq::empty()
    }
}

/// Reading back the symbol field that `encode_symbol` wrote for any symbol,
/// as `decode_symbol` does, gives `kept_text` of the symbol: a long symbol is
/// cut to its first `SYMBOL_CAPACITY` bytes when that cut falls between two
/// characters, and reads back as the empty text when it splits a character.
pub proof fn lemma_symbol_field_reads_back(symbol: &str, field: [u8; 16], sym_len: u8)
    requires
        sym_len == kept_len(symbol.spec_bytes()),
        field@ == symbol.spec_bytes().take(sym_len as int) + Seq::new((SYMBOL_CAPACITY - sym_len) as nat, |i: int| 0u8),
    ensures
        (if valid_utf8(field@.take(sym_len as int)) {
            field@.take(sym_len as int)
        } else {
            Seq::empty()
        }) == kept_text(symbol.spec_bytes()),
{
    let b = symbol.spec_bytes();
    encode_utf8_valid_utf8(symbol@);
    assert(valid_utf8(b));
    assert(field@.take(sym_len as int) =~= b.take(sym_len as int));
    if b.len() <= SYMBOL_CAPACITY {
        assert(b.take(sym_len as int) =~= b);
    } else {
        let n: int = SYMBOL_CAPACITY as int;
        assert(sym_len == 16);
        assert(b.take(n) =~= b.subrange(0, n));
        if is_char_boundary(b, n) {
            valid_utf8_split(b, n);
        } else {
            is_char_boundary_iff_not_is_continuation_byte(b, n);
            let rest = b.subrange(n, b.len() as int);
            assert(rest[0] == b[n]);
            assert(!valid_utf8(rest));
            if valid_utf8(b.subrange(0, n)) {
                partial_valid_partial_invalid_utf8(b, n);
            }
        }
    }
}

} // verus!
