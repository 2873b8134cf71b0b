//! Numbers as bytes, the low byte first.

use vstd::prelude::*;

verus! {

/// The low 16 bits of `n`, low byte first.
pub open spec fn le16(n: nat) -> Seq<u8> {
    seq![(n % 256) as u8, (n / 256 % 256) as u8]
}

/// The low 32 bits of `n`, low byte first.
pub open spec fn le32(n: nat) -> Seq<u8> {
    seq![
        (n % 256) as u8,
        (n / 256 % 256) as u8,
        (n / 65536 % 256) as u8,
        (n / 16777216 % 256) as u8,
    ]
}

/// The number that four bytes from `at` on are, low byte first.
pub open spec fn number_at(bytes: Seq<u8>, at: int) -> nat {
    (bytes[at] + 256 * bytes[at + 1] + 65536 * bytes[at + 2] + 16777216 * bytes[at + 3]) as nat
}

/// A number of 32 bits is read back as it was written.
pub proof fn law_le32_comes_back(n: nat)
    requires
        n < 0x1_0000_0000,
    ensures
        number_at(le32(n), 0) == n,
{
    let (a, b, c) = (n / 256, n / 65536, n / 16777216);
    assert(b == a / 256 && c == b / 256) by (nonlinear_arith)
        requires
            a == n / 256,
            b == n / 65536,
            c == n / 16777216,
    ;
    assert(c % 256 == c);
}

/// Appends the low 16 bits of `n`.
pub fn push_le16(out: &mut Vec<u8>, n: u16)
    ensures
        final(out)@ == old(out)@ + le16(n as nat),
{
    let ghost before = out@;
    out.push((n % 256) as u8);
    out.push((n / 256 % 256) as u8);
    assert(out@ =~= before + le16(n as nat));
}

/// Appends the low 32 bits of `n`.
pub fn push_le32(out: &mut Vec<u8>, n: u64)
    ensures
        final(out)@ == old(out)@ + le32(n as nat),
{
    let ghost before = out@;
    out.push((n % 256) as u8);
    out.push((n / 256 % 256) as u8);
    out.push((n / 65536 % 256) as u8);
    out.push((n / 16777216 % 256) as u8);
    assert(out@ =~= before + le32(n as nat));
}

/// Appends `more`.
pub fn push_all(out: &mut Vec<u8>, more: &[u8])
    ensures
        final(out)@ == old(out)@ + more@,
{
    let ghost before = out@;
    let mut i: usize = 0;
    assert(out@ =~= before + more@.take(0));
    while i < more.len()
        invariant
            i <= more@.len(),
            out@ == before + more@.take(i as int),
        decreases more@.len() - i,
    {
        out.push(more[i]);
        i += 1;
        assert(out@ =~= before + more@.take(i as int));
    }
    assert(more@.take(i as int) =~= more@);
}

/// The low byte comes first: each byte counts for 256 times the one before it.
pub proof fn law_the_low_byte_comes_first(n: nat)
    ensures
        le16(n).len() == 2,
        le32(n).len() == 4,
        n < 0x1_0000 ==> le16(n)[0] + 256 * le16(n)[1] == n,
        n < 0x1_0000_0000 ==> le32(n)[0] + 256 * (le32(n)[1] + 256 * (le32(n)[2] + 256 * le32(
            n,
        )[3])) == n,
        n < 256 ==> le16(n) == seq![n as u8, 0] && le32(n) == seq![n as u8, 0, 0, 0],
{
    if n < 0x1_0000_0000 {
        law_le32_comes_back(n);
    }
    assert(n < 256 ==> le16(n) =~= seq![n as u8, 0] && le32(n) =~= seq![n as u8, 0, 0, 0]);
}

/// A number is read from where it stands, the low byte first.
pub proof fn law_a_number_is_read_where_it_stands(bytes: Seq<u8>, at: int)
    requires
        0 <= at,
        at + 4 <= bytes.len(),
    ensures
        number_at(bytes, at) == bytes[at] + 256 * (bytes[at + 1] + 256 * (bytes[at + 2] + 256
            * bytes[at + 3])),
{
}

} // verus!
