//! Percent-encoding of query-string components, matching the set of bytes
//! that the AWS smithy query writer escapes, and assembly of the signed URL
//! from an unsigned URL plus signing query parameters.
use vstd::prelude::*;

verus! {

/// Bytes that are percent-escaped in a query component: ASCII controls,
/// space, DEL, every non-ASCII byte, and the punctuation listed in the
/// smithy base escape set.
pub open spec fn needs_query_escape(b: u8) -> bool {
    ||| b <= 0x20
    ||| b >= 0x7f
    ||| b == 0x21
    ||| b == 0x22
    ||| b == 0x23
    ||| b == 0x24
    ||| b == 0x25
    ||| b == 0x26
    ||| b == 0x27
    ||| b == 0x28
    ||| b == 0x29
    ||| b == 0x2a
    ||| b == 0x2b
    ||| b == 0x2c
    ||| b == 0x2f
    ||| b == 0x3a
    ||| b == 0x3b
    ||| b == 0x3c
    ||| b == 0x3d
    ||| b == 0x3e
    ||| b == 0x3f
    ||| b == 0x40
    ||| b == 0x5b
    ||| b == 0x5c
    ||| b == 0x5d
    ||| b == 0x5e
    ||| b == 0x60
    ||| b == 0x7b
    ||| b == 0x7c
    ||| b == 0x7d
}

/// The upper-case hexadecimal digit for `n`, `0 <= n < 16`.
pub open spec fn hex_digit(n: int) -> u8 {
    if n % 16 < 10 {
        (0x30 + n % 16) as u8
    } else {
        (0x41 + (n % 16 - 10)) as u8
    }
}

/// How one byte appears in an encoded query component.
pub open spec fn escape_byte(b: u8) -> Seq<u8> {
    if needs_query_escape(b) {
        seq![0x25u8, hex_digit(b as int / 16), hex_digit(b as int)]
    } else {
        seq![b]
    }
}

/// The percent-encoded form of a query component.
pub open spec fn query_escape(s: Seq<u8>) -> Seq<u8>
    decreases s.len(),
{
    if s.len() == 0 {
        Seq::empty()
    } else {
        escape_byte(s[0]) + query_escape(s.drop_first())
    }
}

/// `&key=value` pairs, each component percent-encoded, as appended after an
/// existing query string.
pub open spec fn query_params_suffix(params: Seq<(Seq<u8>, Seq<u8>)>) -> Seq<u8>
    decreases params.len(),
{
    if params.len() == 0 {
        Seq::empty()
    } else {
        seq![0x26u8] + query_escape(params[0].0) + seq![0x3du8] + query_escape(params[0].1)
            + query_params_suffix(params.drop_first())
    }
}

/// The views of a list of key/value byte-vector pairs.
pub open spec fn pair_views(params: Seq<(Vec<u8>, Vec<u8>)>) -> Seq<(Seq<u8>, Seq<u8>)> {
    params.map_values(|p: (Vec<u8>, Vec<u8>)| (p.0@, p.1@))
}

/// Percent-encoded output is ASCII.
pub proof fn lemma_query_escape_ascii(s: Seq<u8>)
    ensures
        crate::bytesutil::all_ascii(query_escape(s)),
    decreases s.len(),
{
    if s.len() > 0 {
        lemma_query_escape_ascii(s.drop_first());
        assert(crate::bytesutil::all_ascii(escape_byte(s[0])));
    }
}

/// The query suffix is ASCII.
pub proof fn lemma_query_params_suffix_ascii(params: Seq<(Seq<u8>, Seq<u8>)>)
    ensures
        crate::bytesutil::all_ascii(query_params_suffix(params)),
    decreases params.len(),
{
    if params.len() > 0 {
        lemma_query_escape_ascii(params[0].0);
        lemma_query_escape_ascii(params[0].1);
        lemma_query_params_suffix_ascii(params.drop_first());
    }
}

pub fn hex_digit_e(n: u8) -> (r: u8)
    requires
        n < 16,
    ensures
        r == hex_digit(n as int),
{
    if n < 10 {
        0x30 + n
    } else {
        0x41 + (n - 10)
    }
}

fn needs_query_escape_e(b: u8) -> (r: bool)
    ensures
        r == needs_query_escape(b),
{
    b <= 0x20 || b >= 0x7f || b == 0x21 || b == 0x22 || b == 0x23 || b == 0x24 || b == 0x25 || b
        == 0x26 || b == 0x27 || b == 0x28 || b == 0x29 || b == 0x2a || b == 0x2b || b == 0x2c || b
        == 0x2f || b == 0x3a || b == 0x3b || b == 0x3c || b == 0x3d || b == 0x3e || b == 0x3f || b
        == 0x40 || b == 0x5b || b == 0x5c || b == 0x5d || b == 0x5e || b == 0x60 || b == 0x7b || b
        == 0x7c || b == 0x7d
}

/// Appends the percent-encoded form of `s`.
pub fn append_query_escaped(dst: &mut Vec<u8>, s: &[u8])
    ensures
        final(dst)@ == old(dst)@ + query_escape(s@),
{
    let n = s.len();
    let mut i: usize = 0;
    assert(s@.skip(0) =~= s@);
    while i < n
        invariant
            n == s@.len(),
            i <= n,
            dst@ + query_escape(s@.skip(i as int)) == old(dst)@ + query_escape(s@),
        decreases n - i,
    {
        let b = s[i];
        if needs_query_escape_e(b) {
            dst.push(0x25);
            dst.push(hex_digit_e(b / 16));
            dst.push(hex_digit_e(b % 16));
        } else {
            dst.push(b);
        }
        proof {
            assert(s@.skip(i as int).drop_first() =~= s@.skip(i + 1));
            assert(s@.skip(i as int)[0] == s@[i as int]);
            assert(dst@ + query_escape(s@.skip(i + 1)) =~= old(dst)@ + query_escape(s@));
        }
        i = i + 1;
    }
    assert(s@.skip(n as int) =~= Seq::<u8>::empty());
    assert(final(dst)@ =~= old(dst)@ + query_escape(s@));
}

/// Appends `&key=value` for each signing parameter, components
/// percent-encoded, as the query writer does when the URL already carries a
/// query string.
pub fn append_query_params(dst: &mut Vec<u8>, params: &Vec<(Vec<u8>, Vec<u8>)>)
    ensures
        final(dst)@ == old(dst)@ + query_params_suffix(pair_views(params@)),
{
    let n = params.len();
    let mut i: usize = 0;
    assert(pair_views(params@).skip(0) =~= pair_views(params@));
    while i < n
        invariant
            n == params@.len(),
            i <= n,
            dst@ + query_params_suffix(pair_views(params@).skip(i as int)) == old(dst)@
                + query_params_suffix(pair_views(params@)),
        decreases n - i,
    {
        dst.push(0x26);
        append_query_escaped(dst, params[i].0.as_slice());
        dst.push(0x3d);
        append_query_escaped(dst, params[i].1.as_slice());
        proof {
            assert(pair_views(params@).skip(i as int).drop_first() =~= pair_views(params@).skip(
                i + 1,
            ));
            assert(pair_views(params@).skip(i as int)[0] == pair_views(params@)[i as int]);
            assert(dst@ + query_params_suffix(pair_views(params@).skip(i + 1)) =~= old(dst)@
                + query_params_suffix(pair_views(params@)));
        }
        i = i + 1;
    }
    assert(pair_views(params@).skip(n as int) =~= Seq::<(Seq<u8>, Seq<u8>)>::empty());
    assert(final(dst)@ =~= old(dst)@ + query_params_suffix(pair_views(params@)));
}

} // verus!
