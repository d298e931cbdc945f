//! UUIDs as text: the hyphenated lower-case form, and parsing.

use vstd::prelude::*;

use crate::text::append_char;

verus! {

/// Lower-case hexadecimal digit of a nibble.
pub open spec fn hex_char(d: nat) -> char {
    if d < 10 {
        (('0' as nat) + d) as char
    } else {
        (('a' as nat) + d - 10) as char
    }
}

/// The last `count` hexadecimal digits of `v`, most significant first.
pub open spec fn hex_digits(v: nat, count: nat) -> Seq<char>
    decreases count,
{
    if count == 0 {
        Seq::empty()
    } else {
        hex_digits(v / 16, (count - 1) as nat).push(hex_char(v % 16))
    }
}

/// The hyphenated form `xxxxxxxx-xxxx-xxxx-xxxx-xxxxxxxxxxxx` of a UUID.
pub open spec fn spec_uuid_text(u: u128) -> Seq<char> {
    let d = hex_digits(u as nat, 32);
    d.subrange(0, 8) + seq!['-'] + d.subrange(8, 12) + seq!['-'] + d.subrange(12, 16) + seq![
        '-',
    ] + d.subrange(16, 20) + seq!['-'] + d.subrange(20, 32)
}

/// The hyphenated text of a UUID is 36 characters long.
pub proof fn lemma_uuid_text_len(u: u128)
    ensures
        spec_uuid_text(u).len() == 36,
{
    lemma_hex_digits_len(u as nat, 32);
}

proof fn lemma_hex_digits_len(v: nat, count: nat)
    ensures
        hex_digits(v, count).len() == count,
    decreases count,
{
    if count > 0 {
        lemma_hex_digits_len(v / 16, (count - 1) as nat);
    }
}

fn hex_digit(d: u8) -> (c: char)
    requires
        d < 16,
    ensures
        c == hex_char(d as nat),
{
    if d < 10 {
        (('0' as u8) + d) as char
    } else {
        (('a' as u8) + d - 10) as char
    }
}

fn push_digits(s: &mut String, d: &Vec<char>, lo: usize, hi: usize)
    requires
        lo <= hi <= d@.len(),
    ensures
        final(s)@ == old(s)@ + d@.subrange(lo as int, hi as int),
{
    let ghost start = s@;
    let mut i = lo;
    while i < hi
        invariant
            lo <= i <= hi <= d@.len(),
            s@ == start + d@.subrange(lo as int, i as int),
        decreases hi - i,
    {
        append_char(s, d[i]);
        i = i + 1;
        proof {
            assert(s@ =~= start + d@.subrange(lo as int, i as int));
        }
    }
}

/// The hyphenated lower-case text of a UUID, as `Uuid`'s `Display` writes it.
pub fn uuid_text(u: u128) -> (s: String)
    ensures
        s@ == spec_uuid_text(u),
{
    let mut digits: Vec<char> = Vec::new();
    let mut v = u;
    let mut k: usize = 0;
    while k < 32
        invariant
            k <= 32,
            digits@.len() == k,
            hex_digits(u as nat, 32) == hex_digits(v as nat, (32 - k) as nat) + digits@,
        decreases 32 - k,
    {
        let c = hex_digit((v % 16) as u8);
        let ghost prev = digits@;
        proof {
            let rest = hex_digits(v as nat / 16, (32 - k - 1) as nat);
            assert(hex_digits(v as nat, (32 - k) as nat) == rest.push(c));
            assert(rest.push(c) + prev =~= rest + seq![c].add(prev));
        }
        digits.insert(0, c);
        proof {
            assert(seq![c].add(prev) =~= digits@);
        }
        v = v / 16;
        k = k + 1;
    }
    proof {
        assert(hex_digits(v as nat, 0) =~= Seq::<char>::empty());
        assert(hex_digits(u as nat, 32) =~= digits@);
    }
    let mut s = String::new();
    push_digits(&mut s, &digits, 0, 8);
    append_char(&mut s, '-');
    push_digits(&mut s, &digits, 8, 12);
    append_char(&mut s, '-');
    push_digits(&mut s, &digits, 12, 16);
    append_char(&mut s, '-');
    push_digits(&mut s, &digits, 16, 20);
    append_char(&mut s, '-');
    push_digits(&mut s, &digits, 20, 32);
    proof {
        let d = digits@;
        assert(s@ =~= spec_uuid_text(u));
    }
    s
}

/// The UUID that `uuid::Uuid::parse_str` reads from this text, if any.
pub uninterp spec fn spec_parse_uuid(s: Seq<char>) -> Option<u128>;

/// Calls `uuid::Uuid::parse_str` and gives the parsed UUID as its 128-bit
/// value (`as_u128`, the bytes read most significant first). Claimed: the
/// result is a function of the text, and the hyphenated lower-case form that
/// `Uuid`'s `Display` writes parses back to the same UUID, as the crate's
/// documentation promises for every format it generates. The other accepted
/// forms (simple, braced, URN, upper-case digits) are left to the name
/// `spec_parse_uuid`.
#[verifier::external_body]
pub(crate) fn parse_uuid(s: &str) -> (r: Option<u128>)
    ensures
        r == spec_parse_uuid(s@),
        forall|u: u128| s@ == #[trigger] spec_uuid_text(u) ==> r == Some(u),
{
    match uuid::Uuid::parse_str(s) {
        Ok(u) => Some(u.as_u128()),
        Err(_) => None,
    }
}

} // verus!
