//! Comment records: the raw lexical comments handed over by the parser, and
//! their mapping into output records with verbatim content text and spans
//! translated to UTF-16 code units.
use vstd::prelude::*;
use vstd::utf8::encode_utf8;

use crate::ext::lossy_of;
use crate::ext::lossy_string;
use crate::translate::Utf16Map;
use crate::translate::spec_translate;

verus! {

/// The kind of a comment.
#[derive(Clone, Copy, PartialEq, Eq, Structural, Debug)]
pub enum CommentType {
    Line,
    Block,
}

/// One output comment record: kind, verbatim content text, and full span in
/// UTF-16 code units.
pub struct Comment {
    pub kind: CommentType,
    pub value: String,
    pub start: u32,
    pub end: u32,
}

/// One raw lexical comment: kind, full span and content span, both in byte
/// offsets into the source text.
pub struct RawComment {
    pub line: bool,
    pub start: u32,
    pub end: u32,
    pub content_start: u32,
    pub content_end: u32,
}

/// Mathematical model of an output comment record.
pub ghost struct CommentV {
    pub line: bool,
    pub value: Seq<u8>,
    pub start: u32,
    pub end: u32,
}

impl View for Comment {
    type V = CommentV;

    open spec fn view(&self) -> CommentV {
        CommentV {
            line: self.kind == CommentType::Line,
            value: encode_utf8(self.value@),
            start: self.start,
            end: self.end,
        }
    }
}

/// The content bytes a raw span selects, clamped to the text.
pub open spec fn content_slice(sb: Seq<u8>, cs: int, ce: int) -> Seq<u8> {
    let s2 = if cs <= sb.len() {
        cs
    } else {
        sb.len() as int
    };
    let e0 = if ce <= sb.len() {
        ce
    } else {
        sb.len() as int
    };
    let e2 = if e0 < s2 {
        s2
    } else {
        e0
    };
    sb.subrange(s2, e2)
}

/// The model of the output record for one raw comment.
pub open spec fn comment_of(sb: Seq<u8>, rc: RawComment) -> CommentV {
    CommentV {
        line: rc.line,
        value: lossy_of(content_slice(sb, rc.content_start as int, rc.content_end as int)),
        start: spec_translate(sb, rc.start as int) as u32,
        end: spec_translate(sb, rc.end as int) as u32,
    }
}

/// Maps the raw comments to output records: the content text is the verbatim
/// content-span slice of the source, and the full span is translated to
/// UTF-16 code units, order preserved.
pub fn map_comments(sb: &[u8], raws: &Vec<RawComment>, m: &Utf16Map) -> (r: Vec<Comment>)
    requires
        m.wf(),
        m.source() == sb@,
    ensures
        r@.len() == raws@.len(),
        forall|i: int| 0 <= i < r@.len() ==> #[trigger] r@[i]@ == comment_of(sb@, raws@[i]),
{
    let mut out: Vec<Comment> = Vec::new();
    let mut i: usize = 0;
    while i < raws.len()
        invariant
            i <= raws.len(),
            m.wf(),
            m.source() == sb@,
            out@.len() == i,
            forall|t: int| 0 <= t < i ==> #[trigger] out@[t]@ == comment_of(sb@, raws@[t]),
        decreases raws.len() - i,
    {
        let rc = &raws[i];
        let len = sb.len();
        let cs: usize = if (rc.content_start as usize) <= len {
            rc.content_start as usize
        } else {
            len
        };
        let e0: usize = if (rc.content_end as usize) <= len {
            rc.content_end as usize
        } else {
            len
        };
        let ce: usize = if e0 < cs {
            cs
        } else {
            e0
        };
        let mut content: Vec<u8> = Vec::new();
        let mut k: usize = cs;
        proof {
            assert(content@ =~= sb@.subrange(cs as int, cs as int));
        }
        while k < ce
            invariant
                cs <= k <= ce <= sb@.len(),
                content@ == sb@.subrange(cs as int, k as int),
            decreases ce - k,
        {
            content.push(sb[k]);
            assert(content@ =~= sb@.subrange(cs as int, k + 1 as int));
            k = k + 1;
        }
        let value = lossy_string(&content);
        let (ts, te) = m.translate_span(rc.start, rc.end);
        out.push(
            Comment {
                kind: if rc.line {
                    CommentType::Line
                } else {
                    CommentType::Block
                },
                value,
                start: ts,
                end: te,
            },
        );
        proof {
            assert(content@ == content_slice(sb@, rc.content_start as int, rc.content_end as int));
            assert(out@[i as int]@ == comment_of(sb@, raws@[i as int]));
        }
        i = i + 1;
    }
    out
}

/// An independent copy of the collected comments, equal in model.
pub fn clone_comments(cs: &Vec<Comment>) -> (r: Vec<Comment>)
    ensures
        r@.len() == cs@.len(),
        forall|i: int| 0 <= i < cs@.len() ==> #[trigger] r@[i]@ == cs@[i]@,
{
    let mut out: Vec<Comment> = Vec::new();
    let mut i: usize = 0;
    while i < cs.len()
        invariant
            i <= cs.len(),
            out@.len() == i,
            forall|t: int| 0 <= t < i ==> #[trigger] out@[t]@ == cs@[t]@,
        decreases cs.len() - i,
    {
        out.push(
            Comment {
                kind: cs[i].kind,
                value: cs[i].value.clone(),
                start: cs[i].start,
                end: cs[i].end,
            },
        );
        i = i + 1;
    }
    out
}

} // verus!
