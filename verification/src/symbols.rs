//! Projection of the symbol table into a structured JSON document: for every
//! symbol its span, name, flags, owning scope, and resolved references.
use vstd::prelude::*;
use vstd::string::StringSliceAdditionalSpecFns;
use vstd::utf8::encode_utf8;

use crate::text::cat_map;
use crate::text::dec_bytes;
use crate::text::json_string;
use crate::text::lemma_cat_map_snoc;
use crate::text::push_json_string;
use crate::text::push_str_bytes;
use crate::text::push_u32_dec;

verus! {

/// One resolved reference record: its span and its flags rendered as text.
pub struct RefRec {
    pub start: u32,
    pub end: u32,
    pub flags_text: String,
}

/// One symbol of the symbol table, in creation order.
pub struct SymbolRec {
    pub start: u32,
    pub end: u32,
    pub name: String,
    pub flags_text: String,
    pub scope_id: u32,
    pub resolved_refs: Vec<u32>,
    pub references: Vec<RefRec>,
}

/// Mathematical model of a reference record.
pub ghost struct RefV {
    pub start: u32,
    pub end: u32,
    pub flags: Seq<u8>,
}

/// Mathematical model of a symbol record.
pub ghost struct SymV {
    pub start: u32,
    pub end: u32,
    pub name: Seq<u8>,
    pub flags: Seq<u8>,
    pub scope_id: u32,
    pub resolved_refs: Seq<u32>,
    pub references: Seq<RefV>,
}

impl View for RefRec {
    type V = RefV;

    open spec fn view(&self) -> RefV {
        RefV { start: self.start, end: self.end, flags: encode_utf8(self.flags_text@) }
    }
}

impl View for SymbolRec {
    type V = SymV;

    open spec fn view(&self) -> SymV {
        SymV {
            start: self.start,
            end: self.end,
            name: encode_utf8(self.name@),
            flags: encode_utf8(self.flags_text@),
            scope_id: self.scope_id,
            resolved_refs: self.resolved_refs@,
            references: self.references@.map_values(|r: RefRec| r@),
        }
    }
}

/// The models of a symbol list.
pub open spec fn sym_views_of(s: Seq<SymbolRec>) -> Seq<SymV> {
    s.map_values(|x: SymbolRec| x@)
}

pub broadcast proof fn lemma_sym_views_of_len(s: Seq<SymbolRec>)
    ensures
        (#[trigger] sym_views_of(s)).len() == s.len(),
{
}

pub broadcast proof fn lemma_sym_views_of_index(s: Seq<SymbolRec>, i: int)
    requires
        0 <= i < s.len(),
    ensures
        #[trigger] sym_views_of(s)[i] == s[i]@,
{
}

/// Comma-separated concatenation of the given pieces.
pub open spec fn joined(items: Seq<Seq<u8>>) -> Seq<u8> {
    if items.len() == 0 {
        Seq::empty()
    } else {
        items[0] + cat_map(items.drop_first(), |x: Seq<u8>| seq![0x2cu8] + x)
    }
}

/// A JSON object holding a span.
pub open spec fn span_json(start: u32, end: u32) -> Seq<u8> {
    ("{\"start\":").spec_bytes() + dec_bytes(start as nat) + (",\"end\":").spec_bytes()
        + dec_bytes(end as nat) + ("}").spec_bytes()
}

/// A JSON array of reference ids.
pub open spec fn ids_json(xs: Seq<u32>) -> Seq<u8> {
    ("[").spec_bytes() + joined(xs.map_values(|n: u32| dec_bytes(n as nat))) + ("]").spec_bytes()
}

/// A JSON object holding one reference record.
pub open spec fn ref_json(r: RefV) -> Seq<u8> {
    ("{\"span\":").spec_bytes() + span_json(r.start, r.end) + (",\"flags\":").spec_bytes()
        + json_string(r.flags) + ("}").spec_bytes()
}

/// The first fields of one symbol object: span, name, flags.
pub open spec fn sym_head_ident(s: SymV) -> Seq<u8> {
    ("{\"span\":").spec_bytes() + span_json(s.start, s.end) + (",\"name\":").spec_bytes()
        + json_string(s.name) + (",\"flags\":").spec_bytes() + json_string(s.flags)
}

/// The opening part of one symbol object, up to its reference list.
pub open spec fn sym_head(s: SymV) -> Seq<u8> {
    sym_head_ident(s) + (",\"scope_id\":").spec_bytes() + dec_bytes(s.scope_id as nat) + (
    ",\"resolved_references\":").spec_bytes() + ids_json(s.resolved_refs) + (
    ",\"references\":[").spec_bytes()
}

/// A JSON object holding one symbol record.
pub open spec fn sym_json(s: SymV) -> Seq<u8> {
    sym_head(s) + joined(s.references.map_values(|r: RefV| ref_json(r))) + ("]}").spec_bytes()
}

/// The whole symbol-table document: a JSON array of symbol objects.
pub open spec fn symbols_json_bytes(syms: Seq<SymV>) -> Seq<u8> {
    ("[").spec_bytes() + joined(syms.map_values(|s: SymV| sym_json(s))) + ("]").spec_bytes()
}

/// Appends a JSON array of the given ids.
#[verifier::rlimit(80)]
fn push_ids_json(out: &mut Vec<u8>, xs: &Vec<u32>)
    ensures
        final(out)@ == old(out)@ + ids_json(xs@),
{
    let ghost items = xs@.map_values(|n: u32| dec_bytes(n as nat));
    let ghost cf = |x: Seq<u8>| seq![0x2cu8] + x;
    push_str_bytes(out, "[");
    let mut i: usize = 0;
    while i < xs.len()
        invariant
            i <= xs.len(),
            items == xs@.map_values(|n: u32| dec_bytes(n as nat)),
            items.len() == xs@.len(),
            cf == (|x: Seq<u8>| seq![0x2cu8] + x),
            out@ == old(out)@ + ("[").spec_bytes() + (if i == 0 {
                Seq::<u8>::empty()
            } else {
                items[0] + cat_map(items.drop_first().take(i - 1), cf)
            }),
        decreases xs.len() - i,
    {
        proof {
            assert(items[i as int] == dec_bytes(xs@[i as int] as nat));
        }
        if i > 0 {
            out.push(0x2c);
            push_u32_dec(out, xs[i]);
            proof {
                lemma_cat_map_snoc(items.drop_first(), cf, i - 1 as int);
                assert(items.drop_first()[i - 1 as int] == items[i as int]);
                assert(cf(items[i as int]) =~= seq![0x2cu8] + dec_bytes(xs@[i as int] as nat));
                assert(out@ =~= old(out)@ + ("[").spec_bytes() + (items[0] + cat_map(
                    items.drop_first().take(i as int),
                    cf,
                )));
            }
        } else {
            push_u32_dec(out, xs[i]);
            proof {
                assert(items.drop_first().take(0) =~= Seq::<Seq<u8>>::empty());
                assert(cat_map(items.drop_first().take(0), cf) =~= Seq::<u8>::empty());
                assert(out@ =~= old(out)@ + ("[").spec_bytes() + (items[0] + cat_map(
                    items.drop_first().take(0),
                    cf,
                )));
            }
        }
        i = i + 1;
    }
    push_str_bytes(out, "]");
    proof {
        if xs@.len() == 0 {
            assert(joined(items) =~= Seq::<u8>::empty());
        } else {
            assert(items.drop_first().take(items.drop_first().len() as int) =~= items.drop_first());
        }
        assert(out@ =~= old(out)@ + ids_json(xs@));
    }
}

/// Appends one reference object.
#[verifier::rlimit(100)]
fn push_ref_json(out: &mut Vec<u8>, r: &RefRec)
    ensures
        final(out)@ == old(out)@ + ref_json(r@),
{
    push_str_bytes(out, "{\"span\":");
    push_str_bytes(out, "{\"start\":");
    push_u32_dec(out, r.start);
    push_str_bytes(out, ",\"end\":");
    push_u32_dec(out, r.end);
    push_str_bytes(out, "}");
    push_str_bytes(out, ",\"flags\":");
    push_json_string(out, r.flags_text.as_str());
    push_str_bytes(out, "}");
    assert(final(out)@ =~= old(out)@ + ref_json(r@));
}

/// Appends the first fields of one symbol object.
#[verifier::rlimit(100)]
fn push_sym_head_ident(out: &mut Vec<u8>, s: &SymbolRec)
    ensures
        final(out)@ == old(out)@ + sym_head_ident(s@),
{
    push_str_bytes(out, "{\"span\":");
    push_str_bytes(out, "{\"start\":");
    push_u32_dec(out, s.start);
    push_str_bytes(out, ",\"end\":");
    push_u32_dec(out, s.end);
    push_str_bytes(out, "}");
    push_str_bytes(out, ",\"name\":");
    push_json_string(out, s.name.as_str());
    push_str_bytes(out, ",\"flags\":");
    push_json_string(out, s.flags_text.as_str());
    assert(final(out)@ =~= old(out)@ + sym_head_ident(s@));
}

/// Appends the opening part of one symbol object.
#[verifier::rlimit(100)]
fn push_sym_head(out: &mut Vec<u8>, s: &SymbolRec)
    ensures
        final(out)@ == old(out)@ + sym_head(s@),
{
    push_sym_head_ident(out, s);
    push_str_bytes(out, ",\"scope_id\":");
    push_u32_dec(out, s.scope_id);
    push_str_bytes(out, ",\"resolved_references\":");
    push_ids_json(out, &s.resolved_refs);
    push_str_bytes(out, ",\"references\":[");
    assert(final(out)@ =~= old(out)@ + sym_head(s@));
}

/// Appends one symbol object.
#[verifier::rlimit(100)]
fn push_sym_json(out: &mut Vec<u8>, s: &SymbolRec)
    ensures
        final(out)@ == old(out)@ + sym_json(s@),
{
    let ghost rf = |r: RefV| ref_json(r);
    let ghost ritems = s@.references.map_values(rf);
    push_sym_head(out, s);
    let ghost mid = out@;
    let ghost cf = |x: Seq<u8>| seq![0x2cu8] + x;
    let mut i: usize = 0;
    while i < s.references.len()
        invariant
            i <= s.references.len(),
            ritems == s@.references.map_values(rf),
            rf == (|r: RefV| ref_json(r)),
            cf == (|x: Seq<u8>| seq![0x2cu8] + x),
            ritems.len() == s.references@.len(),
            out@ == mid + (if i == 0 {
                Seq::<u8>::empty()
            } else {
                ritems[0] + cat_map(ritems.drop_first().take(i - 1), cf)
            }),
        decreases s.references.len() - i,
    {
        proof {
            assert(s@.references[i as int] == s.references@[i as int]@);
            assert(ritems[i as int] == ref_json(s.references@[i as int]@));
        }
        if i > 0 {
            out.push(0x2c);
            push_ref_json(out, &s.references[i]);
            proof {
                lemma_cat_map_snoc(ritems.drop_first(), cf, i - 1 as int);
                assert(ritems.drop_first()[i - 1 as int] == ritems[i as int]);
                assert(cf(ritems[i as int]) =~= seq![0x2cu8] + ref_json(s.references@[i as int]@));
                assert(out@ =~= mid + (ritems[0] + cat_map(
                    ritems.drop_first().take(i as int),
                    cf,
                )));
            }
        } else {
            push_ref_json(out, &s.references[i]);
            proof {
                assert(cat_map(ritems.drop_first().take(0), cf) =~= Seq::<u8>::empty());
                assert(out@ =~= mid + (ritems[0] + cat_map(ritems.drop_first().take(0), cf)));
            }
        }
        i = i + 1;
    }
    push_str_bytes(out, "]}");
    proof {
        if ritems.len() == 0 {
            assert(joined(ritems) =~= Seq::<u8>::empty());
        } else {
            assert(ritems.drop_first().take(ritems.drop_first().len() as int)
                =~= ritems.drop_first());
        }
        assert(out@ =~= old(out)@ + sym_json(s@));
    }
}

/// Renders the whole symbol table as a JSON document.
#[verifier::rlimit(100)]
pub fn render_symbols_json(syms: &Vec<SymbolRec>) -> (out: Vec<u8>)
    ensures
        out@ == symbols_json_bytes(sym_views_of(syms@)),
{
    broadcast use lemma_sym_views_of_len, lemma_sym_views_of_index;

    let ghost sf = |s: SymV| sym_json(s);
    let ghost items = sym_views_of(syms@).map_values(sf);
    let ghost cf = |x: Seq<u8>| seq![0x2cu8] + x;
    let mut out: Vec<u8> = Vec::new();
    push_str_bytes(&mut out, "[");
    let ghost mid = out@;
    let mut i: usize = 0;
    while i < syms.len()
        invariant
            i <= syms.len(),
            sf == (|s: SymV| sym_json(s)),
            cf == (|x: Seq<u8>| seq![0x2cu8] + x),
            items == sym_views_of(syms@).map_values(sf),
            items.len() == syms@.len(),
            mid == ("[").spec_bytes(),
            out@ == mid + (if i == 0 {
                Seq::<u8>::empty()
            } else {
                items[0] + cat_map(items.drop_first().take(i - 1), cf)
            }),
        decreases syms.len() - i,
    {
        proof {
            assert(sym_views_of(syms@)[i as int] == syms@[i as int]@);
            assert(items[i as int] == sym_json(syms@[i as int]@));
        }
        if i > 0 {
            out.push(0x2c);
            push_sym_json(&mut out, &syms[i]);
            proof {
                lemma_cat_map_snoc(items.drop_first(), cf, i - 1 as int);
                assert(items.drop_first()[i - 1 as int] == items[i as int]);
                assert(cf(items[i as int]) =~= seq![0x2cu8] + sym_json(syms@[i as int]@));
                assert(out@ =~= mid + (items[0] + cat_map(
                    items.drop_first().take(i as int),
                    cf,
                )));
            }
        } else {
            push_sym_json(&mut out, &syms[i]);
            proof {
                assert(cat_map(items.drop_first().take(0), cf) =~= Seq::<u8>::empty());
                assert(out@ =~= mid + (items[0] + cat_map(items.drop_first().take(0), cf)));
            }
        }
        i = i + 1;
    }
    push_str_bytes(&mut out, "]");
    proof {
        if items.len() == 0 {
            assert(joined(items) =~= Seq::<u8>::empty());
        } else {
            assert(items.drop_first().take(items.drop_first().len() as int) =~= items.drop_first());
        }
        assert(out@ =~= ("[").spec_bytes() + joined(items) + ("]").spec_bytes());
    }
    out
}

} // verus!
