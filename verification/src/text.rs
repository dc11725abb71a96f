//! Byte-level text building: concatenation specs, decimal rendering,
//! and JSON string escaping used by the view renderers.
use vstd::prelude::*;
use vstd::string::StringSliceAdditionalSpecFns;

verus! {

/// Concatenation of `f` applied to each element of `s`, in order.
pub open spec fn cat_map<A, B>(s: Seq<A>, f: spec_fn(A) -> Seq<B>) -> Seq<B>
    decreases s.len(),
{
    if s.len() == 0 {
        Seq::empty()
    } else {
        f(s[0]) + cat_map(s.drop_first(), f)
    }
}

pub proof fn lemma_cat_map_app<A, B>(a: Seq<A>, b: Seq<A>, f: spec_fn(A) -> Seq<B>)
    ensures
        cat_map(a + b, f) == cat_map(a, f) + cat_map(b, f),
    decreases a.len(),
{
    if a.len() == 0 {
        assert(a + b =~= b);
        assert(cat_map(a, f) + cat_map(b, f) =~= cat_map(b, f));
    } else {
        assert((a + b).drop_first() =~= a.drop_first() + b);
        lemma_cat_map_app(a.drop_first(), b, f);
        assert((a + b)[0] == a[0]);
        assert(f(a[0]) + (cat_map(a.drop_first(), f) + cat_map(b, f)) =~= (f(a[0])
            + cat_map(a.drop_first(), f)) + cat_map(b, f));
    }
}

pub proof fn lemma_cat_map_snoc<A, B>(s: Seq<A>, f: spec_fn(A) -> Seq<B>, i: int)
    requires
        0 <= i < s.len(),
    ensures
        cat_map(s.take(i + 1), f) == cat_map(s.take(i), f) + f(s[i]),
{
    let single = seq![s[i]];
    assert(s.take(i + 1) =~= s.take(i) + single);
    lemma_cat_map_app(s.take(i), single, f);
    assert(single.drop_first() =~= Seq::<A>::empty());
    assert(cat_map(single.drop_first(), f) =~= Seq::<B>::empty());
    assert(cat_map(single, f) == f(single[0]) + cat_map(single.drop_first(), f));
    assert(f(s[i]) + Seq::<B>::empty() =~= f(s[i]));
    assert(cat_map(single, f) =~= f(s[i]));
}

pub proof fn lemma_cat_map_push<A, B>(s: Seq<A>, f: spec_fn(A) -> Seq<B>, x: A)
    ensures
        cat_map(s.push(x), f) == cat_map(s, f) + f(x),
{
    let single = seq![x];
    assert(s.push(x) =~= s + single);
    lemma_cat_map_app(s, single, f);
    assert(single.drop_first() =~= Seq::<A>::empty());
    assert(cat_map(single.drop_first(), f) =~= Seq::<B>::empty());
    assert(cat_map(single, f) == f(single[0]) + cat_map(single.drop_first(), f));
    assert(f(x) + Seq::<B>::empty() =~= f(x));
    assert(cat_map(single, f) =~= f(x));
}

/// Appends the UTF-8 bytes of `piece` to `out`.
pub fn push_str_bytes(out: &mut Vec<u8>, piece: &str)
    ensures
        final(out)@ == old(out)@ + piece.spec_bytes(),
{
    let bs: &[u8] = piece.as_bytes();
    let mut i: usize = 0;
    while i < bs.len()
        invariant
            i <= bs.len(),
            bs@ == piece.spec_bytes(),
            out@ == old(out)@ + bs@.take(i as int),
        decreases bs.len() - i,
    {
        out.push(bs[i]);
        assert(bs@.take(i + 1 as int) =~= bs@.take(i as int).push(bs@[i as int]));
        i = i + 1;
    }
    assert(bs@.take(bs@.len() as int) =~= bs@);
}

/// The decimal digit characters of `n`, as ASCII bytes, most significant first.
pub open spec fn dec_bytes(n: nat) -> Seq<u8>
    decreases n,
{
    if n < 10 {
        seq![(0x30 + n) as u8]
    } else {
        dec_bytes(n / 10) + seq![(0x30 + n % 10) as u8]
    }
}

/// Appends the decimal rendering of `n` to `out`.
pub fn push_u32_dec(out: &mut Vec<u8>, n: u32)
    ensures
        final(out)@ == old(out)@ + dec_bytes(n as nat),
    decreases n,
{
    if n < 10 {
        out.push((0x30 + n) as u8);
        assert(old(out)@.push((0x30 + n as nat) as u8) =~= old(out)@ + dec_bytes(n as nat));
    } else {
        push_u32_dec(out, n / 10);
        out.push((0x30 + n % 10) as u8);
        assert(old(out)@ + dec_bytes((n / 10) as nat) + seq![(0x30 + n as nat % 10) as u8]
            =~= old(out)@ + dec_bytes(n as nat));
    }
}

/// Hexadecimal digit for a value below 16, as an ASCII byte.
pub open spec fn hex_digit(d: nat) -> u8 {
    if d < 10 {
        (0x30 + d) as u8
    } else {
        (0x57 + d) as u8
    }
}

/// The JSON escaping of one byte of string content. Quote and backslash are
/// escaped, control bytes become a `\u00XX` escape, and every other byte
/// (including UTF-8 continuation bytes) passes through unchanged.
pub open spec fn esc_byte(b: u8) -> Seq<u8> {
    if b == 0x22 {
        seq![0x5c, 0x22]
    } else if b == 0x5c {
        seq![0x5c, 0x5c]
    } else if b < 0x20 {
        seq![0x5c, 0x75, 0x30, 0x30, hex_digit((b / 16) as nat), hex_digit((b % 16) as nat)]
    } else {
        seq![b]
    }
}

/// The JSON escaping of a whole byte string.
pub open spec fn esc_bytes(s: Seq<u8>) -> Seq<u8> {
    cat_map(s, |b: u8| esc_byte(b))
}

/// A JSON string literal holding `s`: quotes around the escaped content.
pub open spec fn json_string(s: Seq<u8>) -> Seq<u8> {
    seq![0x22u8] + esc_bytes(s) + seq![0x22u8]
}

fn push_hex_digit(out: &mut Vec<u8>, d: u8)
    requires
        d < 16,
    ensures
        final(out)@ == old(out)@ + seq![hex_digit(d as nat)],
{
    if d < 10 {
        out.push(0x30 + d);
    } else {
        out.push(0x57 + d);
    }
    assert(old(out)@.push(hex_digit(d as nat)) =~= old(out)@ + seq![hex_digit(d as nat)]);
}

/// Appends the JSON string literal for the UTF-8 bytes of `piece`.
pub fn push_json_string(out: &mut Vec<u8>, piece: &str)
    ensures
        final(out)@ == old(out)@ + json_string(piece.spec_bytes()),
{
    let bs: &[u8] = piece.as_bytes();
    out.push(0x22);
    let mut i: usize = 0;
    while i < bs.len()
        invariant
            i <= bs.len(),
            bs@ == piece.spec_bytes(),
            out@ == old(out)@ + seq![0x22u8] + esc_bytes(bs@.take(i as int)),
        decreases bs.len() - i,
    {
        let b = bs[i];
        proof {
            lemma_cat_map_snoc(bs@, |x: u8| esc_byte(x), i as int);
        }
        if b == 0x22 {
            out.push(0x5c);
            out.push(0x22);
        } else if b == 0x5c {
            out.push(0x5c);
            out.push(0x5c);
        } else if b < 0x20 {
            out.push(0x5c);
            out.push(0x75);
            out.push(0x30);
            out.push(0x30);
            push_hex_digit(out, b / 16);
            push_hex_digit(out, b % 16);
        } else {
            out.push(b);
        }
        assert(out@ =~= old(out)@ + seq![0x22u8] + esc_bytes(bs@.take(i + 1 as int)));
        i = i + 1;
    }
    out.push(0x22);
    assert(bs@.take(bs@.len() as int) =~= bs@);
    assert(out@ =~= old(out)@ + json_string(piece.spec_bytes()));
}

} // verus!
