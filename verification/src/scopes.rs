//! Rendering of the lexical scope tree as indented text, driven by parent
//! links in scope-creation (pre-)order, with an explicit stack.
use vstd::prelude::*;
use vstd::string::StringSliceAdditionalSpecFns;
use vstd::utf8::encode_utf8;

use crate::text::cat_map;
use crate::text::dec_bytes;
use crate::text::lemma_cat_map_push;
use crate::text::push_str_bytes;
use crate::text::push_u32_dec;

verus! {

/// One binding of a scope: name, resolved symbol id, and the symbol's flags
/// rendered as text.
pub struct Binding {
    pub name: String,
    pub symbol_id: u32,
    pub flags_text: String,
}

/// One scope of the scope tree, in creation order: its id, its flag set
/// rendered as text, its parent scope id, and its bindings.
pub struct ScopeRec {
    pub id: u32,
    pub flags_text: String,
    pub parent: Option<u32>,
    pub bindings: Vec<Binding>,
}

/// Mathematical model of a binding.
pub ghost struct BindingV {
    pub name: Seq<u8>,
    pub symbol_id: u32,
    pub flags: Seq<u8>,
}

/// Mathematical model of a scope record.
pub ghost struct ScopeRecV {
    pub id: u32,
    pub flags: Seq<u8>,
    pub parent: Option<u32>,
    pub bindings: Seq<BindingV>,
}

impl View for Binding {
    type V = BindingV;

    open spec fn view(&self) -> BindingV {
        BindingV {
            name: encode_utf8(self.name@),
            symbol_id: self.symbol_id,
            flags: encode_utf8(self.flags_text@),
        }
    }
}

impl View for ScopeRec {
    type V = ScopeRecV;

    open spec fn view(&self) -> ScopeRecV {
        ScopeRecV {
            id: self.id,
            flags: encode_utf8(self.flags_text@),
            parent: self.parent,
            bindings: self.bindings@.map_values(|b: Binding| b@),
        }
    }
}

/// The models of a scope list.
pub open spec fn scope_views_of(s: Seq<ScopeRec>) -> Seq<ScopeRecV> {
    s.map_values(|r: ScopeRec| r@)
}

pub broadcast proof fn lemma_scope_views_of_len(s: Seq<ScopeRec>)
    ensures
        (#[trigger] scope_views_of(s)).len() == s.len(),
{
}

pub broadcast proof fn lemma_scope_views_of_index(s: Seq<ScopeRec>, i: int)
    requires
        0 <= i < s.len(),
    ensures
        #[trigger] scope_views_of(s)[i] == s[i]@,
{
}

/// The kind of a rendered line: a scope-opening marker line, a binding line,
/// or a scope-closing marker line.
#[derive(PartialEq, Eq, Structural)]
pub enum LineKind {
    Open,
    Bind,
    Close,
}

/// One rendered line: its kind, its nesting depth, and its text without
/// indentation or the trailing newline.
pub ghost struct LineV {
    pub kind: LineKind,
    pub depth: int,
    pub text: Seq<u8>,
}

/// The text of a scope-opening marker line.
pub open spec fn open_text(r: ScopeRecV) -> Seq<u8> {
    ("Scope ").spec_bytes() + dec_bytes(r.id as nat) + (" (").spec_bytes() + r.flags + (
    ") {").spec_bytes()
}

/// The text of one binding line.
pub open spec fn bind_text(b: BindingV) -> Seq<u8> {
    b.name + (" (").spec_bytes() + dec_bytes(b.symbol_id as nat) + (" ").spec_bytes() + b.flags
        + (")").spec_bytes()
}

/// The closing marker lines emitted when leaving `n` scopes from nesting
/// depth `from`, deepest first.
pub open spec fn close_lines(from: int, n: int) -> Seq<LineV> {
    Seq::new(
        if n < 0 {
            0
        } else {
            n as nat
        },
        |t: int| LineV { kind: LineKind::Close, depth: from - 1 - t, text: ("}").spec_bytes() },
    )
}

/// The binding lines of one scope at depth `d`.
pub open spec fn bind_lines(r: ScopeRecV, d: int) -> Seq<LineV> {
    Seq::new(
        r.bindings.len(),
        |t: int| LineV { kind: LineKind::Bind, depth: d, text: bind_text(r.bindings[t]) },
    )
}

/// How many scopes must be left before entering a scope whose parent is
/// `parent`: the stack is popped until its top is the parent, or emptied
/// when the parent is absent.
pub open spec fn pop_count(stack: Seq<u32>, parent: Option<u32>) -> int
    decreases stack.len(),
{
    match parent {
        Option::None => stack.len() as int,
        Option::Some(p) => if stack.len() == 0 {
            0
        } else if stack.last() == p {
            0
        } else {
            1 + pop_count(stack.drop_last(), parent)
        },
    }
}

pub proof fn lemma_pop_count_bounds(stack: Seq<u32>, parent: Option<u32>)
    ensures
        0 <= pop_count(stack, parent) <= stack.len(),
    decreases stack.len(),
{
    match parent {
        Option::None => {},
        Option::Some(p) => {
            if stack.len() > 0 && stack.last() != p {
                lemma_pop_count_bounds(stack.drop_last(), parent);
            }
        },
    }
}

/// The lines and the remaining stack after rendering one scope on a state.
pub open spec fn scope_step(st: (Seq<LineV>, Seq<u32>), r: ScopeRecV) -> (Seq<LineV>, Seq<u32>) {
    let n = pop_count(st.1, r.parent);
    let stack2 = st.1.take(st.1.len() - n);
    let d = stack2.len() as int;
    (
        st.0 + close_lines(st.1.len() as int, n) + seq![
            LineV { kind: LineKind::Open, depth: d, text: open_text(r) },
        ] + bind_lines(r, d + 1),
        stack2.push(r.id),
    )
}

/// The state after rendering a list of scopes, starting from nothing.
pub open spec fn run_render(recs: Seq<ScopeRecV>) -> (Seq<LineV>, Seq<u32>)
    decreases recs.len(),
{
    if recs.len() == 0 {
        (Seq::empty(), Seq::empty())
    } else {
        scope_step(run_render(recs.drop_last()), recs.last())
    }
}

/// All lines of the rendered scope tree: every scope rendered, then the
/// still-open scopes closed.
pub open spec fn render_lines(recs: Seq<ScopeRecV>) -> Seq<LineV> {
    let st = run_render(recs);
    st.0 + close_lines(st.1.len() as int, st.1.len() as int)
}

/// How many lines of the given kind a line list holds.
pub open spec fn count_kind(ls: Seq<LineV>, k: LineKind) -> int
    decreases ls.len(),
{
    if ls.len() == 0 {
        0
    } else {
        count_kind(ls.drop_last(), k) + if ls.last().kind == k {
            1int
        } else {
            0int
        }
    }
}

pub proof fn lemma_count_kind_app(a: Seq<LineV>, b: Seq<LineV>, k: LineKind)
    ensures
        count_kind(a + b, k) == count_kind(a, k) + count_kind(b, k),
    decreases b.len(),
{
    if b.len() == 0 {
        assert(a + b =~= a);
    } else {
        assert((a + b).drop_last() =~= a + b.drop_last());
        assert((a + b).last() == b.last());
        lemma_count_kind_app(a, b.drop_last(), k);
    }
}

pub proof fn lemma_count_close_lines(from: int, n: int, k: LineKind)
    requires
        n >= 0,
    ensures
        count_kind(close_lines(from, n), k) == if k == LineKind::Close {
            n
        } else {
            0
        },
    decreases n,
{
    if n > 0 {
        assert(close_lines(from, n).drop_last() =~= close_lines(from, n - 1));
        lemma_count_close_lines(from, n - 1, k);
    }
}

pub proof fn lemma_count_bind_lines(r: ScopeRecV, d: int, k: LineKind, n: int)
    requires
        0 <= n <= r.bindings.len(),
    ensures
        count_kind(bind_lines(r, d).take(n), k) == if k == LineKind::Bind {
            n
        } else {
            0
        },
    decreases n,
{
    if n > 0 {
        assert(bind_lines(r, d).take(n).drop_last() =~= bind_lines(r, d).take(n - 1));
        lemma_count_bind_lines(r, d, k, n - 1);
    }
}

/// After rendering the scopes, the lines hold one opening marker per scope
/// rendered, and every scope not closed yet is on the stack.
pub proof fn lemma_run_render_counts(recs: Seq<ScopeRecV>)
    ensures
        count_kind(run_render(recs).0, LineKind::Open) == recs.len(),
        count_kind(run_render(recs).0, LineKind::Close) == recs.len() - run_render(recs).1.len(),
        run_render(recs).1.len() <= recs.len(),
    decreases recs.len(),
{
    if recs.len() > 0 {
        lemma_run_render_counts(recs.drop_last());
        let st0 = run_render(recs.drop_last());
        let r = recs.last();
        let n = pop_count(st0.1, r.parent);
        lemma_pop_count_bounds(st0.1, r.parent);
        let openl = seq![LineV { kind: LineKind::Open, depth: st0.1.len() - n, text: open_text(r) }];
        let binds = bind_lines(r, st0.1.len() - n + 1);
        assert(run_render(recs).0 == st0.0 + close_lines(st0.1.len() as int, n) + openl + binds);
        lemma_count_kind_app(st0.0, close_lines(st0.1.len() as int, n), LineKind::Open);
        lemma_count_kind_app(st0.0 + close_lines(st0.1.len() as int, n), openl, LineKind::Open);
        lemma_count_kind_app(
            st0.0 + close_lines(st0.1.len() as int, n) + openl,
            binds,
            LineKind::Open,
        );
        lemma_count_kind_app(st0.0, close_lines(st0.1.len() as int, n), LineKind::Close);
        lemma_count_kind_app(st0.0 + close_lines(st0.1.len() as int, n), openl, LineKind::Close);
        lemma_count_kind_app(
            st0.0 + close_lines(st0.1.len() as int, n) + openl,
            binds,
            LineKind::Close,
        );
        lemma_count_close_lines(st0.1.len() as int, n, LineKind::Open);
        lemma_count_close_lines(st0.1.len() as int, n, LineKind::Close);
        assert(binds.take(binds.len() as int) =~= binds);
        lemma_count_bind_lines(r, st0.1.len() - n + 1, LineKind::Open, binds.len() as int);
        lemma_count_bind_lines(r, st0.1.len() - n + 1, LineKind::Close, binds.len() as int);
        assert(openl.drop_last() =~= Seq::<LineV>::empty());
        assert(openl.len() == 1);
        assert(openl.last() == openl[0]);
        assert(openl[0].kind == LineKind::Open);
        assert(count_kind(openl.drop_last(), LineKind::Open) == 0);
        assert(count_kind(openl.drop_last(), LineKind::Close) == 0);
        assert(count_kind(openl, LineKind::Open) == 1);
        assert(count_kind(openl, LineKind::Close) == 0);
    }
}

/// Opening marker lines not yet matched by a closing marker line.
pub open spec fn unmatched(ls: Seq<LineV>) -> int {
    count_kind(ls, LineKind::Open) - count_kind(ls, LineKind::Close)
}

/// The nesting depth of each line equals the count of unmatched opening
/// markers before it; a closing marker line sits one level outside the
/// scope it closes.
pub open spec fn line_depth_ok(ls: Seq<LineV>, i: int) -> bool {
    if ls[i].kind == LineKind::Close {
        ls[i].depth == unmatched(ls.take(i)) - 1
    } else {
        ls[i].depth == unmatched(ls.take(i))
    }
}

proof fn lemma_take_concat(a: Seq<LineV>, b: Seq<LineV>, i: int)
    requires
        0 <= i <= a.len(),
    ensures
        (a + b).take(i) == a.take(i),
{
    assert((a + b).take(i) =~= a.take(i));
}

/// After rendering some scopes, every emitted line's depth matches the
/// unmatched openings before it, and no prefix closes more than it opened.
proof fn lemma_run_render_depths(recs: Seq<ScopeRecV>)
    ensures
        forall|i: int|
            0 <= i < run_render(recs).0.len() ==> #[trigger] line_depth_ok(run_render(recs).0, i),
        forall|i: int|
            0 <= i <= run_render(recs).0.len() ==> #[trigger] unmatched(
                run_render(recs).0.take(i),
            ) >= 0,
        unmatched(run_render(recs).0) == run_render(recs).1.len(),
    decreases recs.len(),
{
    lemma_run_render_counts(recs);
    if recs.len() == 0 {
        assert(run_render(recs).0.take(0) =~= Seq::<LineV>::empty());
    } else {
        lemma_run_render_depths(recs.drop_last());
        lemma_run_render_counts(recs.drop_last());
        let st0 = run_render(recs.drop_last());
        let r = recs.last();
        let a = st0.0;
        let ln = st0.1.len() as int;
        let n = pop_count(st0.1, r.parent);
        lemma_pop_count_bounds(st0.1, r.parent);
        let b = close_lines(ln, n);
        let c = seq![LineV { kind: LineKind::Open, depth: ln - n, text: open_text(r) }];
        let d = bind_lines(r, ln - n + 1);
        let ls = run_render(recs).0;
        assert(ls == a + b + c + d);
        assert(unmatched(a) == ln);
        assert(c.len() == 1);
        assert(c.last() == c[0]);
        assert(c.drop_last() =~= Seq::<LineV>::empty());
        assert(count_kind(c.drop_last(), LineKind::Open) == 0);
        assert(count_kind(c.drop_last(), LineKind::Close) == 0);
        assert(c[0].kind == LineKind::Open);
        assert(count_kind(c, LineKind::Open) == 1);
        assert(count_kind(c, LineKind::Close) == 0);
        assert forall|i: int| 0 <= i <= ls.len() implies #[trigger] unmatched(ls.take(i)) >= 0
            && (i < ls.len() ==> line_depth_ok(ls, i)) by {
            if i < a.len() {
                lemma_take_concat(a + b + c, d, i);
                lemma_take_concat(a + b, c, i);
                lemma_take_concat(a, b, i);
                assert(ls.take(i) == a.take(i));
                assert(line_depth_ok(a, i));
                assert(ls[i] == a[i]);
            } else if i <= a.len() + n {
                let t = i - a.len();
                lemma_take_concat(a + b + c, d, i);
                lemma_take_concat(a + b, c, i);
                assert(ls.take(i) =~= a + close_lines(ln, t));
                lemma_count_kind_app(a, close_lines(ln, t), LineKind::Open);
                lemma_count_kind_app(a, close_lines(ln, t), LineKind::Close);
                lemma_count_close_lines(ln, t, LineKind::Open);
                lemma_count_close_lines(ln, t, LineKind::Close);
                assert(unmatched(ls.take(i)) == ln - t);
                if i < ls.len() {
                    if t < n {
                        assert(ls[i] == b[t]);
                        assert(b[t].kind == LineKind::Close);
                        assert(b[t].depth == ln - 1 - t);
                    } else {
                        assert(ls[i] == c[0]);
                    }
                }
            } else if i == a.len() + n + 1 {
                lemma_take_concat(a + b + c, d, i);
                assert(ls.take(i) =~= (a + b) + c);
                lemma_count_kind_app(a, b, LineKind::Open);
                lemma_count_kind_app(a, b, LineKind::Close);
                lemma_count_close_lines(ln, n, LineKind::Open);
                lemma_count_close_lines(ln, n, LineKind::Close);
                lemma_count_kind_app(a + b, c, LineKind::Open);
                lemma_count_kind_app(a + b, c, LineKind::Close);
                assert(c.drop_last() =~= Seq::<LineV>::empty());
                assert(count_kind(c, LineKind::Open) == 1);
                assert(count_kind(c, LineKind::Close) == 0);
                assert(unmatched(ls.take(i)) == ln - n + 1);
                if i < ls.len() {
                    assert(ls[i] == d[0]);
                    assert(d[0].kind == LineKind::Bind);
                    assert(d[0].depth == ln - n + 1);
                }
            } else {
                let j = i - (a.len() + n + 1);
                assert(ls.take(i) =~= ((a + b) + c) + d.take(j));
                lemma_count_kind_app(a, b, LineKind::Open);
                lemma_count_kind_app(a, b, LineKind::Close);
                lemma_count_close_lines(ln, n, LineKind::Open);
                lemma_count_close_lines(ln, n, LineKind::Close);
                lemma_count_kind_app(a + b, c, LineKind::Open);
                lemma_count_kind_app(a + b, c, LineKind::Close);
                assert(c.drop_last() =~= Seq::<LineV>::empty());
                assert(count_kind(c, LineKind::Open) == 1);
                assert(count_kind(c, LineKind::Close) == 0);
                lemma_count_kind_app((a + b) + c, d.take(j), LineKind::Open);
                lemma_count_kind_app((a + b) + c, d.take(j), LineKind::Close);
                assert(d.take(j) =~= bind_lines(r, ln - n + 1).take(j));
                lemma_count_bind_lines(r, ln - n + 1, LineKind::Open, j);
                lemma_count_bind_lines(r, ln - n + 1, LineKind::Close, j);
                assert(unmatched(ls.take(i)) == ln - n + 1);
                if i < ls.len() {
                    assert(ls[i] == d[j]);
                    assert(d[j].kind == LineKind::Bind);
                    assert(d[j].depth == ln - n + 1);
                }
            }
        }
        assert(ls.take(ls.len() as int) =~= ls);
        assert(unmatched(ls) == ln - n + 1);
        assert(run_render(recs).1.len() == ln - n + 1);
    }
}

/// The whole rendered line list: every line's depth equals the unmatched
/// openings before it, and no prefix closes more than it opened.
pub proof fn lemma_scope_depths(recs: Seq<ScopeRecV>)
    ensures
        forall|i: int|
            0 <= i < render_lines(recs).len() ==> #[trigger] line_depth_ok(render_lines(recs), i),
        forall|i: int|
            0 <= i <= render_lines(recs).len() ==> #[trigger] unmatched(
                render_lines(recs).take(i),
            ) >= 0,
{
    lemma_run_render_depths(recs);
    lemma_run_render_counts(recs);
    let st = run_render(recs);
    let a = st.0;
    let s = st.1.len() as int;
    let b = close_lines(s, s);
    let ls = render_lines(recs);
    assert(ls == a + b);
    assert(unmatched(a) == s);
    assert forall|i: int| 0 <= i <= ls.len() implies #[trigger] unmatched(ls.take(i)) >= 0 && (
    i < ls.len() ==> line_depth_ok(ls, i)) by {
        if i < a.len() {
            lemma_take_concat(a, b, i);
            assert(ls.take(i) == a.take(i));
            assert(line_depth_ok(a, i));
            assert(ls[i] == a[i]);
        } else {
            let t = i - a.len();
            assert(ls.take(i) =~= a + close_lines(s, t));
            lemma_count_kind_app(a, close_lines(s, t), LineKind::Open);
            lemma_count_kind_app(a, close_lines(s, t), LineKind::Close);
            lemma_count_close_lines(s, t, LineKind::Open);
            lemma_count_close_lines(s, t, LineKind::Close);
            assert(unmatched(ls.take(i)) == s - t);
            if i < ls.len() {
                assert(ls[i] == b[t]);
                assert(b[t].kind == LineKind::Close);
                assert(b[t].depth == s - 1 - t);
            }
        }
    }
}

/// The rendered scope text holds exactly one opening marker line and exactly
/// one closing marker line per scope.
pub proof fn lemma_scope_balance(recs: Seq<ScopeRecV>)
    ensures
        count_kind(render_lines(recs), LineKind::Open) == recs.len(),
        count_kind(render_lines(recs), LineKind::Close) == recs.len(),
{
    lemma_run_render_counts(recs);
    let st = run_render(recs);
    lemma_count_kind_app(
        st.0,
        close_lines(st.1.len() as int, st.1.len() as int),
        LineKind::Open,
    );
    lemma_count_kind_app(
        st.0,
        close_lines(st.1.len() as int, st.1.len() as int),
        LineKind::Close,
    );
    lemma_count_close_lines(st.1.len() as int, st.1.len() as int, LineKind::Open);
    lemma_count_close_lines(st.1.len() as int, st.1.len() as int, LineKind::Close);
}

/// Two spaces of indentation per nesting level.
pub open spec fn indent(d: int) -> Seq<u8> {
    Seq::new(
        if d < 0 {
            0
        } else {
            (2 * d) as nat
        },
        |t: int| 0x20u8,
    )
}

/// The bytes of one line: indentation, text, newline.
pub open spec fn line_bytes(l: LineV) -> Seq<u8> {
    indent(l.depth) + l.text + seq![0x0au8]
}

/// The bytes of the whole rendered scope tree.
pub open spec fn scope_text_bytes(recs: Seq<ScopeRecV>) -> Seq<u8> {
    cat_map(render_lines(recs), |l: LineV| line_bytes(l))
}

/// Appends two spaces of indentation per nesting level.
fn push_indent(out: &mut Vec<u8>, d: usize)
    ensures
        final(out)@ == old(out)@ + indent(d as int),
{
    let mut t: usize = 0;
    proof {
        assert(old(out)@ + indent(0) =~= old(out)@);
    }
    while t < d
        invariant
            t <= d,
            out@ == old(out)@ + indent(t as int),
        decreases d - t,
    {
        out.push(0x20);
        out.push(0x20);
        assert(out@ =~= old(out)@ + indent(t + 1 as int));
        t = t + 1;
    }
}

/// Whether the top of the stack is the given parent.
fn is_parent_top(stack: &Vec<u32>, parent: &Option<u32>) -> (b: bool)
    requires
        stack@.len() > 0,
    ensures
        b == (match *parent {
            Option::None => false,
            Option::Some(p) => stack@.last() == p,
        }),
{
    match parent {
        Option::None => false,
        Option::Some(p) => stack[stack.len() - 1] == *p,
    }
}

/// Renders the scope tree: for each scope in creation order a header line,
/// one line per binding, and a closing marker when it is left; indentation
/// follows nesting depth throughout.
pub fn render_scope_text(recs: &Vec<ScopeRec>) -> (out: Vec<u8>)
    ensures
        out@ == scope_text_bytes(scope_views_of(recs@)),
{
    broadcast use lemma_scope_views_of_len, lemma_scope_views_of_index;

    let ghost rv = scope_views_of(recs@);
    let ghost lb = |l: LineV| line_bytes(l);
    let mut out: Vec<u8> = Vec::new();
    let mut stack: Vec<u32> = Vec::new();
    let ghost mut lines: Seq<LineV> = Seq::empty();
    let mut i: usize = 0;
    while i < recs.len()
        invariant
            i <= recs.len(),
            rv == scope_views_of(recs@),
            lb == (|l: LineV| line_bytes(l)),
            (lines, stack@) == run_render(rv.take(i as int)),
            out@ == cat_map(lines, lb),
        decreases recs.len() - i,
    {
        proof {
            assert(rv.take(i + 1 as int).drop_last() =~= rv.take(i as int));
            assert(rv.take(i + 1 as int).last() == rv[i as int]);
            assert(rv[i as int] == recs@[i as int]@);
        }
        let parent: Option<u32> = recs[i].parent;
        let sl: usize = stack.len();
        let ghost stack0 = stack@;
        proof {
            assert(stack0.len() == sl);
        }
        let ghost lines0 = lines;
        let ghost n = pop_count(stack0, recs@[i as int]@.parent);
        proof {
            lemma_pop_count_bounds(stack0, recs@[i as int]@.parent);
        }
        let mut t: usize = 0;
        proof {
            assert(lines0 + close_lines(stack0.len() as int, 0) =~= lines0);
            assert(stack0.take(stack0.len() as int) =~= stack0);
        }
        while stack.len() > 0 && !is_parent_top(&stack, &parent)
            invariant
                lb == (|l: LineV| line_bytes(l)),
                parent == recs@[i as int]@.parent,
                i < recs@.len(),
                t <= stack0.len(),
                stack0.len() <= usize::MAX,
                stack@ == stack0.take(stack0.len() - t),
                lines == lines0 + close_lines(stack0.len() as int, t as int),
                out@ == cat_map(lines, lb),
                n == t + pop_count(stack@, parent),
            decreases stack@.len(),
        {
            let depth = stack.len() - 1;
            push_indent(&mut out, depth);
            push_str_bytes(&mut out, "}");
            out.push(0x0a);
            stack.pop();
            proof {
                let l = LineV {
                    kind: LineKind::Close,
                    depth: depth as int,
                    text: ("}").spec_bytes(),
                };
                lemma_cat_map_push(lines, lb, l);
                assert(line_bytes(l) =~= indent(depth as int) + ("}").spec_bytes() + seq![0x0au8]);
                assert(out@ =~= cat_map(lines, lb) + line_bytes(l));
                lines = lines.push(l);
                assert(lines =~= lines0 + close_lines(stack0.len() as int, t + 1 as int));
                assert(stack@ =~= stack0.take(stack0.len() - (t + 1)));
            }
            t = t + 1;
        }
        proof {
            assert(pop_count(stack@, parent) == 0);
            assert(n == t);
        }
        let d = stack.len();
        push_indent(&mut out, d);
        push_str_bytes(&mut out, "Scope ");
        push_u32_dec(&mut out, recs[i].id);
        push_str_bytes(&mut out, " (");
        push_str_bytes(&mut out, recs[i].flags_text.as_str());
        push_str_bytes(&mut out, ") {");
        out.push(0x0a);
        stack.push(recs[i].id);
        let ghost openl = LineV {
            kind: LineKind::Open,
            depth: d as int,
            text: open_text(rv[i as int]),
        };
        proof {
            lemma_cat_map_push(lines, lb, openl);
            assert(open_text(rv[i as int]) =~= ("Scope ").spec_bytes() + dec_bytes(
                recs@[i as int].id as nat,
            ) + (" (").spec_bytes() + encode_utf8(recs@[i as int].flags_text@) + (
            ") {").spec_bytes());
            assert(line_bytes(openl) =~= indent(d as int) + open_text(rv[i as int]) + seq![
                0x0au8,
            ]);
            assert(out@ =~= cat_map(lines, lb) + line_bytes(openl));
            lines = lines.push(openl);
        }
        let ghost lines1 = lines;
        let d1: usize = stack.len();
        proof {
            assert(d1 == d + 1);
        }
        let nb = recs[i].bindings.len();
        let mut j: usize = 0;
        proof {
            assert(lines1 + bind_lines(rv[i as int], d + 1 as int).take(0) =~= lines1);
        }
        while j < nb
            invariant
                lb == (|l: LineV| line_bytes(l)),
                i < recs@.len(),
                rv == scope_views_of(recs@),
                rv[i as int] == recs@[i as int]@,
                nb == recs@[i as int].bindings@.len(),
                nb == rv[i as int].bindings.len(),
                j <= nb,
                d1 == d + 1,
                lines == lines1 + bind_lines(rv[i as int], d + 1 as int).take(j as int),
                out@ == cat_map(lines, lb),
            decreases nb - j,
        {
            let b = &recs[i].bindings[j];
            push_indent(&mut out, d1);
            push_str_bytes(&mut out, b.name.as_str());
            push_str_bytes(&mut out, " (");
            push_u32_dec(&mut out, b.symbol_id);
            push_str_bytes(&mut out, " ");
            push_str_bytes(&mut out, b.flags_text.as_str());
            push_str_bytes(&mut out, ")");
            out.push(0x0a);
            proof {
                assert(rv[i as int].bindings[j as int] == recs@[i as int].bindings@[j as int]@);
                let bl = LineV {
                    kind: LineKind::Bind,
                    depth: d + 1 as int,
                    text: bind_text(rv[i as int].bindings[j as int]),
                };
                lemma_cat_map_push(lines, lb, bl);
                assert(bind_text(rv[i as int].bindings[j as int]) =~= encode_utf8(
                    recs@[i as int].bindings@[j as int].name@,
                ) + (" (").spec_bytes() + dec_bytes(
                    recs@[i as int].bindings@[j as int].symbol_id as nat,
                ) + (" ").spec_bytes() + encode_utf8(
                    recs@[i as int].bindings@[j as int].flags_text@,
                ) + (")").spec_bytes());
                assert(line_bytes(bl) =~= indent(d + 1 as int) + bl.text + seq![0x0au8]);
                assert(out@ =~= cat_map(lines, lb) + line_bytes(bl));
                lines = lines.push(bl);
                assert(bind_lines(rv[i as int], d + 1 as int).take(j + 1 as int)
                    =~= bind_lines(rv[i as int], d + 1 as int).take(j as int).push(
                    bind_lines(rv[i as int], d + 1 as int)[j as int],
                ));
                assert(lines =~= lines1 + bind_lines(rv[i as int], d + 1 as int).take(
                    j + 1 as int,
                ));
            }
            j = j + 1;
        }
        proof {
            assert(bind_lines(rv[i as int], d + 1 as int).take(nb as int) =~= bind_lines(
                rv[i as int],
                d + 1 as int,
            ));
            let st0 = run_render(rv.take(i as int));
            let st1 = scope_step(st0, rv[i as int]);
            assert(lines =~= st1.0);
            assert(stack@ =~= st1.1);
            assert(run_render(rv.take(i + 1 as int)) == st1);
        }
        i = i + 1;
    }
    proof {
        assert(rv.take(rv.len() as int) =~= rv);
    }
    let slf: usize = stack.len();
    let ghost stackf = stack@;
    let ghost linesf = lines;
    proof {
        assert(stackf.len() == slf);
    }
    let mut t: usize = 0;
    proof {
        assert(linesf + close_lines(stackf.len() as int, 0) =~= linesf);
        assert(stackf.take(stackf.len() as int) =~= stackf);
    }
    while stack.len() > 0
        invariant
            lb == (|l: LineV| line_bytes(l)),
            t <= stackf.len(),
            stackf.len() <= usize::MAX,
            stack@ == stackf.take(stackf.len() - t),
            lines == linesf + close_lines(stackf.len() as int, t as int),
            out@ == cat_map(lines, lb),
        decreases stack@.len(),
    {
        let depth = stack.len() - 1;
        push_indent(&mut out, depth);
        push_str_bytes(&mut out, "}");
        out.push(0x0a);
        stack.pop();
        proof {
            let l = LineV { kind: LineKind::Close, depth: depth as int, text: ("}").spec_bytes() };
            lemma_cat_map_push(lines, lb, l);
            assert(line_bytes(l) =~= indent(depth as int) + ("}").spec_bytes() + seq![0x0au8]);
            assert(out@ =~= cat_map(lines, lb) + line_bytes(l));
            lines = lines.push(l);
            assert(lines =~= linesf + close_lines(stackf.len() as int, t + 1 as int));
            assert(stack@ =~= stackf.take(stackf.len() - (t + 1)));
        }
        t = t + 1;
    }
    proof {
        assert(lines =~= linesf + close_lines(stackf.len() as int, stackf.len() as int));
        assert(lines =~= render_lines(rv));
    }
    out
}

} // verus!
