use vstd::prelude::*;
use vstd::string::StringSliceAdditionalSpecFns;

verus! {

broadcast use vstd::array::group_array_axioms;

/// Concatenates two byte arrays into an array of the summed length.
pub fn concat<const A: usize, const B: usize, const C: usize>(a: [u8; A], b: [u8; B]) -> (out: [u8; C])
    requires
        A + B == C,
    ensures
        out@ == a@ + b@,
{
    let mut out = [0u8; C];
    let mut i: usize = 0;
    while i < A
        invariant
            A + B == C,
            i <= A,
            out@.len() == C,
            forall|j: int| 0 <= j < i ==> out@[j] == a@[j],
        decreases A - i,
    {
        out[i] = a[i];
        i = i + 1;
    }
    let mut k: usize = 0;
    while k < B
        invariant
            A + B == C,
            k <= B,
            out@.len() == C,
            forall|j: int| 0 <= j < A ==> out@[j] == a@[j],
            forall|j: int| 0 <= j < k ==> out@[A + j] == b@[j],
        decreases B - k,
    {
        out[A + k] = b[k];
        k = k + 1;
    }
    assert(out@ =~= a@ + b@);
    out
}

/// Fresh random bytes from the operating system's entropy source.
///
/// Calls `rand::fill`, which fills the array from the thread-local
/// generator seeded by the system random source. Nothing is claimed of the
/// bytes: they depend on chance.
#[verifier::external_body]
pub(crate) fn make_randomness<const A: usize>() -> [u8; A] {
    let mut randomness = [0u8; A];
    rand::fill(&mut randomness[..]);
    randomness
}

/// Copies `A` bytes of `src`, starting at `offset`, into an array.
pub fn extract_chunk<const A: usize>(src: &[u8], offset: usize) -> (res: [u8; A])
    requires
        offset <= src@.len(),
        A <= src@.len() - offset,
    ensures
        res@ == src@.subrange(offset as int, offset + A),
{
    let mut element = [0u8; A];
    let mut i: usize = 0;
    while i < A
        invariant
            offset + A <= src.len(),
            i <= A,
            element@.len() == A,
            forall|j: int| 0 <= j < i ==> element@[j] == src@[offset + j],
        decreases A - i,
    {
        element[i] = src[offset + i];
        i = i + 1;
    }
    assert(element@ =~= src@.subrange(offset as int, offset + A));
    element
}

/// Byte-wise equality of two slices.
pub fn bytes_equal(a: &[u8], b: &[u8]) -> (res: bool)
    ensures
        res == (a@ == b@),
{
    if a.len() != b.len() {
        return false;
    }
    let mut i: usize = 0;
    while i < a.len()
        invariant
            a@.len() == b@.len(),
            i <= a@.len(),
            forall|j: int| 0 <= j < i ==> a@[j] == b@[j],
        decreases a@.len() - i,
    {
        if a[i] != b[i] {
            return false;
        }
        i = i + 1;
    }
    assert(a@ =~= b@);
    true
}

/// Appends the bytes of `src` to `dst`.
pub fn append_bytes(dst: &mut Vec<u8>, src: &[u8])
    ensures
        final(dst)@ == old(dst)@ + src@,
{
    let mut i: usize = 0;
    while i < src.len()
        invariant
            i <= src@.len(),
            dst@ == old(dst)@ + src@.subrange(0, i as int),
        decreases src@.len() - i,
    {
        dst.push(src[i]);
        i = i + 1;
        assert(dst@ =~= old(dst)@ + src@.subrange(0, i as int));
    }
    assert(src@.subrange(0, src@.len() as int) =~= src@);
}

} // verus!

verus! {

/// The bytes of `src` from `start` up to `end`, as a vector.
pub fn copy_range(src: &[u8], start: usize, end: usize) -> (res: Vec<u8>)
    requires
        start <= end <= src@.len(),
    ensures
        res@ == src@.subrange(start as int, end as int),
{
    let mut res: Vec<u8> = Vec::new();
    let mut i: usize = start;
    while i < end
        invariant
            start <= i <= end <= src@.len(),
            res@ == src@.subrange(start as int, i as int),
        decreases end - i,
    {
        res.push(src[i]);
        i = i + 1;
        assert(res@ =~= src@.subrange(start as int, i as int));
    }
    res
}

} // verus!

verus! {

/// Big-endian bytes of a `u64`.
pub open spec fn spec_u64_be(x: u64) -> Seq<u8> {
    seq![
        (x >> 56u64) as u8, (x >> 48u64) as u8, (x >> 40u64) as u8, (x >> 32u64) as u8,
        (x >> 24u64) as u8, (x >> 16u64) as u8, (x >> 8u64) as u8, x as u8,
    ]
}

/// Little-endian bytes of a `u64`.
pub open spec fn spec_u64_le(x: u64) -> Seq<u8> {
    seq![
        x as u8, (x >> 8u64) as u8, (x >> 16u64) as u8, (x >> 24u64) as u8,
        (x >> 32u64) as u8, (x >> 40u64) as u8, (x >> 48u64) as u8, (x >> 56u64) as u8,
    ]
}

/// Big-endian bytes of a `u32`.
pub open spec fn spec_u32_be(x: u32) -> Seq<u8> {
    seq![(x >> 24u32) as u8, (x >> 16u32) as u8, (x >> 8u32) as u8, x as u8]
}

/// Big-endian bytes of a `u64`.
pub fn u64_to_be_bytes(x: u64) -> (res: [u8; 8])
    ensures
        res@ == spec_u64_be(x),
{
    let res = [
        (x >> 56u64) as u8, (x >> 48u64) as u8, (x >> 40u64) as u8, (x >> 32u64) as u8,
        (x >> 24u64) as u8, (x >> 16u64) as u8, (x >> 8u64) as u8, x as u8,
    ];
    assert(res@ =~= spec_u64_be(x));
    res
}

/// Little-endian bytes of a `u64`.
pub fn u64_to_le_bytes(x: u64) -> (res: [u8; 8])
    ensures
        res@ == spec_u64_le(x),
{
    let res = [
        x as u8, (x >> 8u64) as u8, (x >> 16u64) as u8, (x >> 24u64) as u8,
        (x >> 32u64) as u8, (x >> 40u64) as u8, (x >> 48u64) as u8, (x >> 56u64) as u8,
    ];
    assert(res@ =~= spec_u64_le(x));
    res
}

/// Big-endian bytes of a `u32`.
pub fn u32_to_be_bytes(x: u32) -> (res: [u8; 4])
    ensures
        res@ == spec_u32_be(x),
{
    let res = [(x >> 24u32) as u8, (x >> 16u32) as u8, (x >> 8u32) as u8, x as u8];
    assert(res@ =~= spec_u32_be(x));
    res
}

} // verus!

verus! {

/// `n` zero bytes.
pub open spec fn zero_bytes(n: nat) -> Seq<u8> {
    Seq::new(n, |_i: int| 0u8)
}

/// An array of 32 zero bytes.
pub fn zeros_32() -> (res: [u8; 32])
    ensures
        res@ == zero_bytes(32),
{
    let res = [0u8; 32];
    assert(res@ =~= zero_bytes(32));
    res
}

} // verus!

verus! {

/// The decimal digits of `n`, as ASCII bytes, most significant first.
pub open spec fn spec_decimal(n: nat) -> Seq<u8>
    decreases n,
{
    if n < 10 {
        seq![(48 + n) as u8]
    } else {
        spec_decimal(n / 10).push((48 + n % 10) as u8)
    }
}

/// A decimal number has at least one and at most twenty digits.
pub proof fn lemma_decimal_len(n: u64)
    ensures
        1 <= spec_decimal(n as nat).len() <= 20,
{
    reveal_with_fuel(pow10, 21);
    assert(pow10(20) == 100_000_000_000_000_000_000);
    lemma_decimal_len_le(n as nat, 20);
}

proof fn lemma_decimal_len_le(n: nat, d: nat)
    requires
        n < pow10(d),
        d >= 1,
    ensures
        1 <= spec_decimal(n).len() <= d,
    decreases n,
{
    if n >= 10 {
        assert(d >= 2) by {
            if d < 2 {
                assert(pow10(1) == 10) by {
                    assert(pow10(0) == 1);
                }
            }
        }
        assert(pow10(d) == 10 * pow10((d - 1) as nat));
        assert(n / 10 < pow10((d - 1) as nat));
        lemma_decimal_len_le(n / 10, (d - 1) as nat);
    }
}

/// Ten to the power `d`.
pub open spec fn pow10(d: nat) -> nat
    decreases d,
{
    if d == 0 {
        1
    } else {
        10 * pow10((d - 1) as nat)
    }
}

/// Appends the decimal digits of `x` to `out`.
pub fn push_decimal(x: u64, out: &mut Vec<u8>)
    ensures
        final(out)@ == old(out)@ + spec_decimal(x as nat),
    decreases x,
{
    if x >= 10 {
        push_decimal(x / 10, out);
    }
    let d: u8 = (x % 10) as u8;
    out.push(48 + d);
    proof {
        if x >= 10 {
            assert(spec_decimal(x as nat) == spec_decimal((x / 10) as nat).push((48 + x % 10) as u8));
        }
        assert(final(out)@ =~= old(out)@ + spec_decimal(x as nat));
    }
}

} // verus!

verus! {

/// Every byte is ASCII.
pub open spec fn is_ascii_bytes(b: Seq<u8>) -> bool {
    forall|i: int| 0 <= i < b.len() ==> #[trigger] b[i] < 128
}

/// ASCII bytes read as characters.
pub open spec fn ascii_chars(b: Seq<u8>) -> Seq<char> {
    b.map_values(|x: u8| x as char)
}

/// ASCII bytes are valid UTF-8 and decode to themselves as characters.
pub proof fn lemma_ascii_utf8(b: Seq<u8>)
    requires
        is_ascii_bytes(b),
    ensures
        vstd::utf8::valid_utf8(b),
        vstd::utf8::decode_utf8(b) == ascii_chars(b),
    decreases b.len(),
{
    if b.len() > 0 {
        let x = b[0];
        assert(x < 128);
        assert((x & 0x7F) == x) by (bit_vector)
            requires
                x < 128,
        ;
        let rest = b.subrange(1, b.len() as int);
        assert(vstd::utf8::pop_first_scalar(b) =~= rest);
        lemma_ascii_utf8(rest);
        assert(ascii_chars(b) =~= seq![x as char] + ascii_chars(rest));
    }
}

/// An ASCII literal's bytes are ASCII, one per character.
pub proof fn lemma_ascii_literal(s: &str)
    requires
        vstd::string::is_ascii(s),
    ensures
        is_ascii_bytes(s.spec_bytes()),
        ascii_chars(s.spec_bytes()) == s@,
{
    vstd::string::is_ascii_spec_bytes(s);
    assert forall|i: int| 0 <= i < s.spec_bytes().len() implies #[trigger] s.spec_bytes()[i] < 128 by {
        assert(vstd::string::is_ascii(s));
    }
    assert(ascii_chars(s.spec_bytes()) =~= s@);
}

/// Decimal digits are ASCII.
pub proof fn lemma_decimal_ascii(n: nat)
    ensures
        is_ascii_bytes(spec_decimal(n)),
    decreases n,
{
    if n >= 10 {
        lemma_decimal_ascii(n / 10);
    }
}

/// A string made of ASCII bytes.
pub fn ascii_string(bytes: Vec<u8>) -> (res: String)
    requires
        is_ascii_bytes(bytes@),
    ensures
        res@ == ascii_chars(bytes@),
{
    proof {
        lemma_ascii_utf8(bytes@);
    }
    match crate::util::encrypt_decrypt::string_from_utf8(bytes) {
        Some(s) => s,
        None => String::new(),
    }
}

} // verus!

verus! {

/// Decoding a concatenation of valid UTF-8 decodes each part.
pub proof fn lemma_decode_utf8_concat(b1: Seq<u8>, b2: Seq<u8>)
    requires
        vstd::utf8::valid_utf8(b1),
        vstd::utf8::valid_utf8(b2),
    ensures
        vstd::utf8::valid_utf8(b1 + b2),
        vstd::utf8::decode_utf8(b1 + b2) == vstd::utf8::decode_utf8(b1) + vstd::utf8::decode_utf8(b2),
    decreases b1.len(),
{
    vstd::utf8::valid_utf8_concat(b1, b2);
    if b1.len() == 0 {
        assert(b1 + b2 =~= b2);
        assert(vstd::utf8::decode_utf8(b1) =~= Seq::<char>::empty());
        assert(vstd::utf8::decode_utf8(b1) + vstd::utf8::decode_utf8(b2) =~= vstd::utf8::decode_utf8(b2));
    } else {
        let rest = vstd::utf8::pop_first_scalar(b1);
        assert(rest.len() < b1.len());
        lemma_decode_utf8_concat(rest, b2);
        assert(vstd::utf8::pop_first_scalar(b1 + b2) =~= rest + b2);
        assert(vstd::utf8::decode_first_scalar(b1 + b2) == vstd::utf8::decode_first_scalar(b1));
        assert(vstd::utf8::decode_utf8(b1 + b2) =~= vstd::utf8::decode_utf8(b1) + vstd::utf8::decode_utf8(b2));
    }
}

/// Appends the bytes of a string.
pub fn push_str(out: &mut Vec<u8>, s: &str)
    ensures
        final(out)@ == old(out)@ + s.spec_bytes(),
{
    append_bytes(out, s.as_bytes());
}

/// The string that valid UTF-8 bytes encode.
pub fn string_of_utf8(bytes: Vec<u8>) -> (res: String)
    requires
        vstd::utf8::valid_utf8(bytes@),
    ensures
        res@ == vstd::utf8::decode_utf8(bytes@),
{
    match crate::util::encrypt_decrypt::string_from_utf8(bytes) {
        Some(s) => s,
        None => String::new(),
    }
}

/// The bytes as Rust's `Debug` prints an array of them: decimal numbers,
/// comma separated, in square brackets.
pub open spec fn debug_byte_items(b: Seq<u8>) -> Seq<u8>
    decreases b.len(),
{
    if b.len() == 0 {
        Seq::empty()
    } else if b.len() == 1 {
        spec_decimal(b[0] as nat)
    } else {
        debug_byte_items(b.drop_last()) + ", ".spec_bytes() + spec_decimal(b.last() as nat)
    }
}

/// `[` + the items + `]`.
pub open spec fn debug_bytes(b: Seq<u8>) -> Seq<u8> {
    "[".spec_bytes() + debug_byte_items(b) + "]".spec_bytes()
}

/// Appends `Debug` output of a byte array.
pub fn push_debug_bytes(b: &[u8], out: &mut Vec<u8>)
    ensures
        final(out)@ == old(out)@ + debug_bytes(b@),
{
    push_str(out, "[");
    let ghost start = out@;
    let mut i: usize = 0;
    while i < b.len()
        invariant
            i <= b@.len(),
            out@ == start + debug_byte_items(b@.take(i as int)),
        decreases b@.len() - i,
    {
        proof {
            assert(b@.take(i + 1).drop_last() =~= b@.take(i as int));
            assert(b@.take(i + 1).last() == b@[i as int]);
        }
        if i > 0 {
            push_str(out, ", ");
        }
        push_decimal(b[i] as u64, out);
        i = i + 1;
        proof {
            assert(out@ =~= start + debug_byte_items(b@.take(i as int)));
        }
    }
    proof {
        assert(b@.take(b@.len() as int) =~= b@);
    }
    push_str(out, "]");
    assert(final(out)@ =~= old(out)@ + debug_bytes(b@));
}

/// Debug output of bytes is ASCII.
pub proof fn lemma_debug_bytes_ascii(b: Seq<u8>)
    ensures
        is_ascii_bytes(debug_bytes(b)),
    decreases b.len(),
{
    lemma_debug_items_ascii(b);
    reveal_strlit("[");
    reveal_strlit("]");
    lemma_ascii_literal("[");
    lemma_ascii_literal("]");
}

proof fn lemma_debug_items_ascii(b: Seq<u8>)
    ensures
        is_ascii_bytes(debug_byte_items(b)),
    decreases b.len(),
{
    if b.len() == 1 {
        lemma_decimal_ascii(b[0] as nat);
    } else if b.len() > 1 {
        lemma_debug_items_ascii(b.drop_last());
        lemma_decimal_ascii(b.last() as nat);
        reveal_strlit(", ");
        lemma_ascii_literal(", ");
    }
}

} // verus!

verus! {

/// Concatenating ASCII bytes gives ASCII bytes.
pub proof fn lemma_ascii_concat(a: Seq<u8>, b: Seq<u8>)
    requires
        is_ascii_bytes(a),
        is_ascii_bytes(b),
    ensures
        is_ascii_bytes(a + b),
{
    assert forall|i: int| 0 <= i < (a + b).len() implies #[trigger] (a + b)[i] < 128 by {
        if i < a.len() {
            assert((a + b)[i] == a[i]);
        } else {
            assert((a + b)[i] == b[i - a.len()]);
        }
    }
}

} // verus!
