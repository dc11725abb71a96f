//! Diagnostics: the rich per-stage diagnostic record, the run-scoped sink
//! operations, and the flattening of rich records into flat span records.
use vstd::prelude::*;

use crate::text::cat_map;
use crate::text::lemma_cat_map_snoc;

verus! {

/// One labeled source span of a rich diagnostic: byte offset and length.
#[derive(Clone, Copy, PartialEq, Eq, Structural, Debug)]
pub struct Label {
    pub offset: u32,
    pub len: u32,
}

/// A rich diagnostic as a stage reports it: a severity and message rendered
/// as text, and zero or more labeled spans. `labels` is `None` when the
/// diagnostic carries no location at all.
pub struct Diag {
    pub severity: String,
    pub message: String,
    pub labels: Option<Vec<Label>>,
}

/// A flat diagnostic record pointing at one location.
pub struct OxcDiagnostic {
    pub start: u32,
    pub end: u32,
    pub severity: String,
    pub message: String,
}

/// Mathematical model of a rich diagnostic.
pub ghost struct DiagView {
    pub severity: Seq<char>,
    pub message: Seq<char>,
    pub labels: Option<Seq<Label>>,
}

/// Mathematical model of a flat diagnostic record.
pub ghost struct FlatView {
    pub start: u32,
    pub end: u32,
    pub severity: Seq<char>,
    pub message: Seq<char>,
}

impl View for Diag {
    type V = DiagView;

    open spec fn view(&self) -> DiagView {
        DiagView {
            severity: self.severity@,
            message: self.message@,
            labels: match self.labels {
                Option::None => Option::<Seq<Label>>::None,
                Option::Some(v) => Option::Some(v@),
            },
        }
    }
}

impl View for OxcDiagnostic {
    type V = FlatView;

    open spec fn view(&self) -> FlatView {
        FlatView {
            start: self.start,
            end: self.end,
            severity: self.severity@,
            message: self.message@,
        }
    }
}

/// Addition of two offsets, wrapping as a 32-bit value does.
pub open spec fn add32(a: u32, b: u32) -> u32 {
    if a + b > u32::MAX {
        (a + b - 0x1_0000_0000) as u32
    } else {
        (a + b) as u32
    }
}

/// The flat records one rich diagnostic contributes: one per label, or a
/// single record at [0, 0] when it has no labels at all (no label list, or
/// an empty one).
pub open spec fn flatten_one(d: DiagView) -> Seq<FlatView> {
    match d.labels {
        Option::None => seq![
            FlatView { start: 0, end: 0, severity: d.severity, message: d.message },
        ],
        Option::Some(ls) => if ls.len() == 0 {
            seq![FlatView { start: 0, end: 0, severity: d.severity, message: d.message }]
        } else {
            Seq::new(
            ls.len(),
            |i: int|
                FlatView {
                    start: ls[i].offset,
                    end: add32(ls[i].offset, ls[i].len),
                    severity: d.severity,
                    message: d.message,
                },
            )
        },
    }
}

/// The models of a list of rich diagnostics.
pub open spec fn views_of(s: Seq<Diag>) -> Seq<DiagView> {
    s.map_values(|d: Diag| d@)
}

/// The models of a list of flat records.
pub open spec fn flat_views_of(s: Seq<OxcDiagnostic>) -> Seq<FlatView> {
    s.map_values(|x: OxcDiagnostic| x@)
}

pub broadcast proof fn lemma_views_of_len(s: Seq<Diag>)
    ensures
        (#[trigger] views_of(s)).len() == s.len(),
{
}

pub broadcast proof fn lemma_views_of_index(s: Seq<Diag>, i: int)
    requires
        0 <= i < s.len(),
    ensures
        #[trigger] views_of(s)[i] == s[i]@,
{
}

pub broadcast proof fn lemma_flat_views_of_len(s: Seq<OxcDiagnostic>)
    ensures
        (#[trigger] flat_views_of(s)).len() == s.len(),
{
}

pub broadcast proof fn lemma_flat_views_of_index(s: Seq<OxcDiagnostic>, i: int)
    requires
        0 <= i < s.len(),
    ensures
        #[trigger] flat_views_of(s)[i] == s[i]@,
{
}

/// The flat projection of a whole diagnostics list, in arrival order.
pub open spec fn flatten_all(ds: Seq<DiagView>) -> Seq<FlatView> {
    cat_map(ds, |d: DiagView| flatten_one(d))
}

/// A diagnostic with no labels — no label list, or an empty one — flattens
/// to exactly one record at [0, 0]; one with labels flattens to exactly one
/// record per label, each record bearing the parent's severity and message
/// and the label's span.
pub proof fn lemma_flatten_one_counts(d: DiagView)
    ensures
        d.labels is None ==> flatten_one(d) == seq![
            FlatView { start: 0, end: 0, severity: d.severity, message: d.message },
        ],
        d.labels == Option::Some(Seq::<Label>::empty()) ==> flatten_one(d) == seq![
            FlatView { start: 0, end: 0, severity: d.severity, message: d.message },
        ],
        forall|ls: Seq<Label>|
            d.labels == Option::Some(ls) && ls.len() > 0 ==> flatten_one(d).len() == ls.len(),
        forall|ls: Seq<Label>, i: int|
            d.labels == Option::Some(ls) && 0 <= i < ls.len() ==> flatten_one(d)[i]
                == (FlatView {
                start: ls[i].offset,
                end: add32(ls[i].offset, ls[i].len),
                severity: d.severity,
                message: d.message,
            }),
{
}

/// Flattens the collected diagnostics into flat records, preserving order.
pub fn project_diagnostics(diags: &Vec<Diag>) -> (r: Vec<OxcDiagnostic>)
    ensures
        flat_views_of(r@) == flatten_all(views_of(diags@)),
{
    broadcast use lemma_views_of_len, lemma_views_of_index, lemma_flat_views_of_len, lemma_flat_views_of_index;

    let ghost dsv = views_of(diags@);
    let mut out: Vec<OxcDiagnostic> = Vec::new();
    let mut i: usize = 0;
    while i < diags.len()
        invariant
            i <= diags.len(),
            dsv == views_of(diags@),
            flat_views_of(out@) == flatten_all(dsv.take(i as int)),
        decreases diags.len() - i,
    {
        proof {
            lemma_cat_map_snoc(dsv, |d: DiagView| flatten_one(d), i as int);
            assert(dsv[i as int] == diags@[i as int]@);
        }
        match &diags[i].labels {
            Option::None => {
                out.push(
                    OxcDiagnostic {
                        start: 0,
                        end: 0,
                        severity: diags[i].severity.clone(),
                        message: diags[i].message.clone(),
                    },
                );
                assert(flat_views_of(out@) =~= flatten_all(dsv.take(i + 1 as int)));
                i = i + 1;
            },
            Option::Some(ls) => {
                if ls.len() == 0 {
                    out.push(
                        OxcDiagnostic {
                            start: 0,
                            end: 0,
                            severity: diags[i].severity.clone(),
                            message: diags[i].message.clone(),
                        },
                    );
                    assert(flat_views_of(out@) =~= flatten_all(dsv.take(i + 1 as int)));
                    i = i + 1;
                } else {
                    flatten_labeled(&mut out, diags, i, ls, Ghost(dsv));
                    assert(flat_views_of(out@) =~= flatten_all(dsv.take(i + 1 as int)));
                    i = i + 1;
                }
            },
        }
    }
    proof {
        assert(dsv.take(diags@.len() as int) =~= dsv);
    }
    out
}

/// Appends the per-label records of one labeled diagnostic.
fn flatten_labeled(
    out: &mut Vec<OxcDiagnostic>,
    diags: &Vec<Diag>,
    i: usize,
    ls: &Vec<Label>,
    Ghost(dsv): Ghost<Seq<DiagView>>,
)
    requires
        i < diags@.len(),
        dsv == views_of(diags@),
        diags@[i as int].labels == Option::Some(*ls),
        ls@.len() > 0,
        flat_views_of(old(out)@) == flatten_all(dsv.take(i as int)),
    ensures
        flat_views_of(final(out)@) == flatten_all(dsv.take(i as int)) + flatten_one(
            dsv[i as int],
        ),
{
    broadcast use lemma_views_of_len, lemma_views_of_index, lemma_flat_views_of_len, lemma_flat_views_of_index;

    proof {
        assert(dsv[i as int] == diags@[i as int]@);
        assert(diags@[i as int]@.labels == Option::Some(ls@));
    }
    let mut j: usize = 0;
                while j < ls.len()
                    invariant
                        j <= ls.len(),
                        dsv == views_of(diags@),
                        i < diags.len(),
                        diags@[i as int]@.labels == Option::Some(ls@),
                        dsv[i as int] == diags@[i as int]@,
                        flat_views_of(out@) == flatten_all(dsv.take(i as int)) + flatten_one(
                            dsv[i as int],
                        ).take(j as int),
                    decreases ls.len() - j,
                {
                    let l = ls[j];
                    let rec = OxcDiagnostic {
                        start: l.offset,
                        end: l.offset.wrapping_add(l.len),
                        severity: diags[i].severity.clone(),
                        message: diags[i].message.clone(),
                    };
                    let ghost pre = out@;
                    let ghost fo = flatten_one(dsv[i as int]);
                    proof {
                        assert(l == ls@[j as int]);
                        assert(rec@ == (FlatView {
                            start: ls@[j as int].offset,
                            end: add32(ls@[j as int].offset, ls@[j as int].len),
                            severity: dsv[i as int].severity,
                            message: dsv[i as int].message,
                        }));
                        assert(fo[j as int] == rec@);
                    }
                    out.push(rec);
                    proof {
                        let ghost base = flatten_all(dsv.take(i as int));
                        assert(out@ == pre.push(rec));
                        assert(flat_views_of(pre).len() == pre.len());
                        assert(pre.len() == base.len() + j);
                        assert forall|t: int| 0 <= t < out@.len() implies flat_views_of(out@)[t]
                            == (base + fo.take(j + 1 as int))[t] by {
                            assert(flat_views_of(out@)[t] == out@[t]@);
                            if t < pre.len() {
                                assert(flat_views_of(pre)[t] == pre[t]@);
                                if t >= base.len() {
                                    let u = t - base.len();
                                    assert(fo.take(j as int)[u] == fo[u]);
                                    assert(fo.take(j + 1 as int)[u] == fo[u]);
                                }
                            } else {
                                assert(out@[t] == rec);
                                assert(fo.take(j + 1 as int)[j as int] == fo[j as int]);
                            }
                        }
                        assert(flat_views_of(out@) =~= base + fo.take(j + 1 as int));
                    }
                    j = j + 1;
                }
    assert(flatten_one(dsv[i as int]).take(ls@.len() as int) =~= flatten_one(dsv[i as int]));
}

/// An independent copy of a diagnostic, equal in model.
pub fn clone_diag(d: &Diag) -> (r: Diag)
    ensures
        r@ == d@,
{
    Diag {
        severity: d.severity.clone(),
        message: d.message.clone(),
        labels: match &d.labels {
            Option::None => Option::None,
            Option::Some(v) => {
                let mut w: Vec<Label> = Vec::new();
                let mut k: usize = 0;
                while k < v.len()
                    invariant
                        k <= v.len(),
                        w@ == v@.take(k as int),
                    decreases v.len() - k,
                {
                    w.push(v[k]);
                    assert(w@ =~= v@.take(k + 1 as int));
                    k = k + 1;
                }
                assert(v@.take(v@.len() as int) =~= v@);
                Option::Some(w)
            },
        },
    }
}

/// Appends a batch of diagnostics to the sink, preserving arrival order.
pub fn save_diagnostics(sink: &mut Vec<Diag>, batch: &Vec<Diag>)
    ensures
        views_of(final(sink)@) == views_of(old(sink)@) + views_of(batch@),
{
    broadcast use lemma_views_of_len, lemma_views_of_index;

    let mut k: usize = 0;
    while k < batch.len()
        invariant
            k <= batch.len(),
            views_of(sink@) == views_of(old(sink)@) + views_of(batch@.take(k as int)),
        decreases batch.len() - k,
    {
        let d = clone_diag(&batch[k]);
        let ghost pre = sink@;
        sink.push(d);
        proof {
            assert(sink@ == pre.push(d));
            assert(views_of(pre).len() == pre.len());
            assert(views_of(batch@.take(k as int)).len() == k);
            assert(pre.len() == old(sink)@.len() + k);
            assert(d@ == batch@[k as int]@);
            assert forall|t: int| 0 <= t < sink@.len() implies views_of(sink@)[t] == (views_of(
                old(sink)@,
            ) + views_of(batch@.take(k + 1 as int)))[t] by {
                assert(views_of(sink@)[t] == sink@[t]@);
                if t < pre.len() {
                    assert(views_of(pre)[t] == pre[t]@);
                    if t < old(sink)@.len() {
                        assert(views_of(old(sink)@)[t] == old(sink)@[t]@);
                    } else {
                        let u = t - old(sink)@.len();
                        assert(views_of(batch@.take(k as int))[u] == batch@.take(k as int)[u]@);
                        assert(batch@.take(k as int)[u] == batch@[u]);
                        assert(views_of(batch@.take(k + 1 as int))[u] == batch@.take(
                            k + 1 as int,
                        )[u]@);
                        assert(batch@.take(k + 1 as int)[u] == batch@[u]);
                    }
                } else {
                    assert(sink@[t] == d);
                    assert(views_of(batch@.take(k + 1 as int))[k as int] == batch@.take(
                        k + 1 as int,
                    )[k as int]@);
                    assert(batch@.take(k + 1 as int)[k as int] == batch@[k as int]);
                }
            }
            assert(views_of(sink@) =~= views_of(old(sink)@) + views_of(
                batch@.take(k + 1 as int),
            ));
        }
        k = k + 1;
    }
    assert(batch@.take(batch@.len() as int) =~= batch@);
}

} // verus!
