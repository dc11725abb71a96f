//! Translation of byte offsets into UTF-16 code-unit offsets for one source
//! text, built by a single linear scan and applied to ad hoc span lists.
use vstd::prelude::*;

verus! {

/// UTF-16 code units contributed by one UTF-8 byte: ASCII bytes and lead
/// bytes of two- and three-byte sequences contribute one unit, lead bytes of
/// four-byte sequences two (their code points need a surrogate pair), and
/// continuation bytes none.
pub open spec fn cu_width(b: u8) -> int {
    if b < 0x80 {
        1
    } else if b < 0xC0 {
        0
    } else if b < 0xF0 {
        1
    } else {
        2
    }
}

/// The UTF-16 offset corresponding to byte offset `i` of `s`.
pub open spec fn utf16_pos(s: Seq<u8>, i: int) -> int
    decreases i,
{
    if i <= 0 {
        0
    } else {
        utf16_pos(s, i - 1) + cu_width(s[i - 1])
    }
}

/// A translated offset never exceeds twice the byte offset.
pub proof fn lemma_utf16_pos_bounds(s: Seq<u8>, i: int)
    requires
        0 <= i,
    ensures
        0 <= utf16_pos(s, i) <= 2 * i,
    decreases i,
{
    if i > 0 {
        lemma_utf16_pos_bounds(s, i - 1);
    }
}

/// Over a range of ASCII bytes the translation advances one unit per byte.
pub proof fn lemma_ascii_range(s: Seq<u8>, k: int, i: int)
    requires
        0 <= k <= i,
        forall|j: int| k <= j < i ==> #[trigger] s[j] < 0x80,
    ensures
        utf16_pos(s, i) == utf16_pos(s, k) + (i - k),
    decreases i - k,
{
    if i > k {
        lemma_ascii_range(s, k, i - 1);
    }
}

/// For ASCII-only text the translated offset equals the byte offset.
pub proof fn lemma_translate_ascii_identity(s: Seq<u8>, i: int)
    requires
        0 <= i <= s.len(),
        forall|j: int| 0 <= j < s.len() ==> #[trigger] s[j] < 0x80,
    ensures
        utf16_pos(s, i) == i,
{
    lemma_ascii_range(s, 0, i);
}

/// With exactly one supplementary-plane character — a four-byte sequence at
/// `p..p+4` — and ASCII bytes everywhere else, every offset at or after the
/// end of that sequence translates to exactly two less than its byte value.
pub proof fn lemma_translate_supplementary(s: Seq<u8>, p: int, i: int)
    requires
        0 <= p,
        p + 4 <= s.len(),
        s[p] >= 0xF0,
        forall|j: int| p + 1 <= j < p + 4 ==> 0x80 <= #[trigger] s[j] < 0xC0,
        forall|j: int| 0 <= j < s.len() && !(p <= j < p + 4) ==> #[trigger] s[j] < 0x80,
        p + 4 <= i <= s.len(),
    ensures
        utf16_pos(s, i) == i - 2,
{
    lemma_ascii_range(s, 0, p);
    assert(utf16_pos(s, p + 1) == utf16_pos(s, p) + 2);
    assert(utf16_pos(s, p + 2) == utf16_pos(s, p + 1));
    assert(utf16_pos(s, p + 3) == utf16_pos(s, p + 2));
    assert(utf16_pos(s, p + 4) == utf16_pos(s, p + 3));
    lemma_ascii_range(s, p + 4, i);
}

/// The translation applied to an arbitrary offset: offsets beyond the end of
/// the text are clamped to the end before translating.
pub open spec fn spec_translate(src: Seq<u8>, o: int) -> int {
    if o <= src.len() {
        utf16_pos(src, o)
    } else {
        utf16_pos(src, src.len() as int)
    }
}

/// Monotonic byte-offset to code-unit-offset table for one source text,
/// holding the cumulative code-unit count at every byte offset.
pub struct Utf16Map {
    units: Vec<u64>,
    src: Ghost<Seq<u8>>,
}

impl Utf16Map {
    /// The source text this table was built from.
    pub closed spec fn source(&self) -> Seq<u8> {
        self.src@
    }

    /// The table holds `utf16_pos` of its source at every byte offset up to
    /// and including the source length.
    pub closed spec fn wf(&self) -> bool {
        &&& self.src@.len() <= 0x7FFF_FFFF
        &&& self.units@.len() == self.src@.len() + 1
        &&& forall|i: int|
            0 <= i < self.units@.len() ==> self.units@[i] == utf16_pos(self.src@, i)
    }

    /// Builds the table by one linear scan of the source bytes.
    pub fn build(src_bytes: &[u8]) -> (m: Utf16Map)
        requires
            src_bytes@.len() <= 0x7FFF_FFFF,
        ensures
            m.wf(),
            m.source() == src_bytes@,
    {
        let n = src_bytes.len();
        let mut units: Vec<u64> = Vec::new();
        units.push(0);
        let mut cur: u64 = 0;
        let mut i: usize = 0;
        while i < n
            invariant
                i <= n,
                n == src_bytes@.len(),
                n <= 0x7FFF_FFFF,
                units@.len() == i + 1,
                cur == utf16_pos(src_bytes@, i as int),
                cur <= 2 * i,
                forall|t: int| 0 <= t <= i ==> units@[t] == utf16_pos(src_bytes@, t),
            decreases n - i,
        {
            let b = src_bytes[i];
            let w: u64 = if b < 0x80 {
                1
            } else if b < 0xC0 {
                0
            } else if b < 0xF0 {
                1
            } else {
                2
            };
            cur = cur + w;
            units.push(cur);
            i = i + 1;
        }
        Utf16Map { units, src: Ghost(src_bytes@) }
    }

    /// Translates one byte offset to a code-unit offset.
    pub fn translate_offset(&self, o: u32) -> (r: u32)
        requires
            self.wf(),
        ensures
            r as int == spec_translate(self.source(), o as int),
    {
        let last: usize = self.units.len() - 1;
        let idx: usize = if (o as usize) < last {
            o as usize
        } else {
            last
        };
        proof {
            lemma_utf16_pos_bounds(self.src@, idx as int);
        }
        let v: u64 = self.units[idx];
        v as u32
    }

    /// Translates both ends of a span.
    pub fn translate_span(&self, start: u32, end: u32) -> (r: (u32, u32))
        requires
            self.wf(),
        ensures
            r.0 as int == spec_translate(self.source(), start as int),
            r.1 as int == spec_translate(self.source(), end as int),
    {
        (self.translate_offset(start), self.translate_offset(end))
    }
}

} // verus!
