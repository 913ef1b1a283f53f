use vstd::prelude::*;

verus! {

/// The IEEE CRC-32 of a path's UTF-8 bytes.
pub uninterp spec fn crc32_ieee(path: Seq<char>) -> u32;

/// Relies on crc::crc32::checksum_ieee: the IEEE CRC-32 of the given bytes,
/// which depends on those bytes alone.
#[verifier::external_body]
fn checksum(path: &str) -> (r: u32)
    ensures
        r == crc32_ieee(path@),
{
    crc::crc32::checksum_ieee(path.as_bytes())
}

pub open spec fn hex_digits() -> Seq<char> {
    "0123456789abcdef"@
}

/// Hexadecimal digit `i` of `n`, counted from the least significant.
pub open spec fn nibble(n: u32, i: u32) -> u32 {
    (n >> ((4 * i) as u32)) & 15u32
}

/// `n` as eight lower-case hexadecimal digits, zero-padded.
pub open spec fn hex8(n: u32) -> Seq<char> {
    Seq::new(8, |k: int| hex_digits()[nibble(n, (7 - k) as u32) as int])
}

/// The scope token of a file: its path's checksum as eight hexadecimal digits.
pub open spec fn scope_of(path: Seq<char>) -> Seq<char> {
    hex8(crc32_ieee(path))
}

fn digit(d: u32) -> (r: &'static str)
    requires
        d < 16,
    ensures
        r@ == seq![hex_digits()[d as int]],
{
    let digits = "0123456789abcdef";
    proof {
        reveal_strlit("0123456789abcdef");
    }
    digits.substring_char(d as usize, d as usize + 1)
}

/// `n` as eight lower-case hexadecimal digits.
pub fn hex_string(n: u32) -> (r: String)
    ensures
        r@ == hex8(n),
{
    let mut out = String::new();
    let mut k: u32 = 0;
    while k < 8
        invariant
            k <= 8,
            out@ =~= hex8(n).subrange(0, k as int),
        decreases 8 - k,
    {
        let shift: u32 = 4 * (7 - k);
        let d = (n >> shift) & 15;
        assert(d < 16) by (bit_vector)
            requires
                d == (n >> shift) & 15,
        ;
        assert(d == nibble(n, (7 - k) as u32));
        out = out.concat(digit(d));
        k += 1;
    }
    out
}

/// The scope token of the file at `file_path`.
pub fn get_component_scope(file_path: &String) -> (r: String)
    ensures
        r@ == scope_of(file_path@),
{
    hex_string(checksum(file_path.as_str()))
}

proof fn lemma_digit_injective(i: int, j: int)
    requires
        0 <= i < 16,
        0 <= j < 16,
        hex_digits()[i] == hex_digits()[j],
    ensures
        i == j,
{
    reveal_strlit("0123456789abcdef");
}

/// Distinct numbers have distinct eight-digit hexadecimal forms.
pub proof fn lemma_hex8_injective(a: u32, b: u32)
    requires
        hex8(a) == hex8(b),
    ensures
        a == b,
{
    assert forall|i: u32| i < 8 implies nibble(a, i) == nibble(b, i) by {
        let k = 7 - i as int;
        assert((7 - k) as u32 == i);
        assert(hex8(a)[k] == hex_digits()[nibble(a, i) as int]);
        assert(hex8(b)[k] == hex_digits()[nibble(b, i) as int]);
        assert(nibble(a, i) < 16 && nibble(b, i) < 16) by {
            let sa = (4 * i) as u32;
            assert((a >> sa) & 15u32 < 16 && (b >> sa) & 15u32 < 16) by (bit_vector);
        }
        lemma_digit_injective(nibble(a, i) as int, nibble(b, i) as int);
    }
    let (a0, a1, a2, a3) = (nibble(a, 0), nibble(a, 1), nibble(a, 2), nibble(a, 3));
    let (a4, a5, a6, a7) = (nibble(a, 4), nibble(a, 5), nibble(a, 6), nibble(a, 7));
    assert(nibble(b, 0) == a0 && nibble(b, 1) == a1 && nibble(b, 2) == a2 && nibble(b, 3) == a3);
    assert(nibble(b, 4) == a4 && nibble(b, 5) == a5 && nibble(b, 6) == a6 && nibble(b, 7) == a7);
    assert(a == b) by (bit_vector)
        requires
            (a >> 0u32) & 15u32 == (b >> 0u32) & 15u32,
            (a >> 4u32) & 15u32 == (b >> 4u32) & 15u32,
            (a >> 8u32) & 15u32 == (b >> 8u32) & 15u32,
            (a >> 12u32) & 15u32 == (b >> 12u32) & 15u32,
            (a >> 16u32) & 15u32 == (b >> 16u32) & 15u32,
            (a >> 20u32) & 15u32 == (b >> 20u32) & 15u32,
            (a >> 24u32) & 15u32 == (b >> 24u32) & 15u32,
            (a >> 28u32) & 15u32 == (b >> 28u32) & 15u32,
    ;
}

/// The scope token is a function of the path alone and always eight
/// hexadecimal digits: equal paths get equal tokens, and paths whose
/// checksums differ get different tokens.
pub proof fn lemma_scope_stable(p: Seq<char>, q: Seq<char>)
    ensures
        scope_of(p).len() == 8,
        p == q ==> scope_of(p) == scope_of(q),
        crc32_ieee(p) != crc32_ieee(q) ==> scope_of(p) != scope_of(q),
{
    if scope_of(p) == scope_of(q) {
        lemma_hex8_injective(crc32_ieee(p), crc32_ieee(q));
    }
}

} // verus!
