//! The block scanner. It walks one block's statements in source order in two
//! phases. The leading phase consumes a conventional prefix: item and other
//! declarations are exempt there, and the phase ends as soon as it has
//! consumed a local binding or a bare expression (that statement is consumed
//! too and never revisited). The flagging phase then reports every remaining
//! item declaration at its own span — unless the item's span is
//! macro-generated, which stops the scan of the block entirely. A block whose
//! own span is macro-generated is skipped outright.

use vstd::prelude::*;

use crate::ast::{Block, Diagnostic, Lint, LintLevel, Span, Statement};

verus! {

/// The fixed message of every diagnostic this rule emits.
pub open spec fn spec_lint_message() -> Seq<char> {
    "adding items after statements is confusing, since items exist from the start of the scope"@
}

/// The registered name of the lint.
pub open spec fn spec_lint_name() -> Seq<char> {
    "ITEMS_AFTER_STATEMENTS"@
}

/// The registered one-line description of the lint.
pub open spec fn spec_lint_description() -> Seq<char> {
    "finds blocks where an item comes after a statement"@
}

/// A statement that ends the leading phase when consumed there: a local
/// binding or a bare expression. (Item and other declarations keep the
/// leading phase going.)
pub open spec fn ends_leading(s: Statement) -> bool {
    s is LocalBinding || s is Expression
}

/// A declaration statement: anything but a bare expression.
pub open spec fn is_declaration(s: Statement) -> bool {
    !(s is Expression)
}

/// An item declaration whose own span is macro-generated.
pub open spec fn is_macro_item(s: Statement) -> bool {
    match s {
        Statement::ItemDeclaration(sp) => sp.from_macro,
        _ => false,
    }
}

/// How many statements the leading phase consumes: the maximal prefix of
/// item/other declarations plus the statement that ended the phase, if the
/// sequence was not exhausted first.
pub open spec fn leading_len(stmts: Seq<Statement>) -> int
    decreases stmts.len(),
{
    if stmts.len() == 0 {
        0
    } else if ends_leading(stmts[0]) {
        1
    } else {
        1 + leading_len(stmts.skip(1))
    }
}

/// The spans the flagging phase reports when run over `stmts`, in order:
/// the span of each item declaration, up to but not including the first
/// item declaration whose span is macro-generated, which stops the scan.
pub open spec fn flagged_spans(stmts: Seq<Statement>) -> Seq<Span>
    decreases stmts.len(),
{
    if stmts.len() == 0 {
        Seq::empty()
    } else {
        match stmts[0] {
            Statement::ItemDeclaration(sp) => if sp.from_macro {
                Seq::empty()
            } else {
                seq![sp] + flagged_spans(stmts.skip(1))
            },
            _ => flagged_spans(stmts.skip(1)),
        }
    }
}

/// Every span the rule reports for a block, in emission order: nothing for
/// a macro-generated block, else the flagging phase run on what the leading
/// phase left.
pub open spec fn check_spans(b: Block) -> Seq<Span> {
    if b.span.from_macro {
        Seq::empty()
    } else {
        flagged_spans(b.stmts@.skip(leading_len(b.stmts@)))
    }
}

/// The spans of a sequence of diagnostics, in order.
pub open spec fn spans_of(ds: Seq<Diagnostic>) -> Seq<Span> {
    ds.map(|i: int, d: Diagnostic| d.span)
}

/// How many times `sp` occurs in `spans`.
pub open spec fn count_span(spans: Seq<Span>, sp: Span) -> nat
    decreases spans.len(),
{
    if spans.len() == 0 {
        0
    } else {
        (if spans[0] == sp {
            1nat
        } else {
            0nat
        }) + count_span(spans.skip(1), sp)
    }
}

/// The rule itself. Stateless: one value serves for any number of blocks.
pub struct ItemsAfterStatemets;

/// The leading phase: consume statements until a local binding or a bare
/// expression has been consumed, or the block is exhausted; return how many
/// were consumed.
fn leading_end(stmts: &Vec<Statement>) -> (i: usize)
    ensures
        i == leading_len(stmts@),
        i <= stmts@.len(),
{
    let n = stmts.len();
    let mut i: usize = 0;
    proof {
        assert(stmts@.skip(0) =~= stmts@);
    }
    while i < n
        invariant
            i <= n,
            n == stmts@.len(),
            leading_len(stmts@) == i + leading_len(stmts@.skip(i as int)),
        decreases n - i,
    {
        proof {
            assert(stmts@.skip(i as int)[0] == stmts@[i as int]);
        }
        match stmts[i] {
            Statement::LocalBinding | Statement::Expression => {
                return i + 1;
            },
            _ => {
                proof {
                    assert(stmts@.skip(i as int).skip(1) =~= stmts@.skip(i as int + 1));
                }
                i = i + 1;
            },
        }
    }
    proof {
        assert(stmts@.skip(n as int).len() == 0);
    }
    i
}

/// The fixed diagnostic message, as an owned string.
pub fn lint_message() -> (m: String)
    ensures
        m@ == spec_lint_message(),
{
    "adding items after statements is confusing, since items exist from the start of the scope".to_owned()
}

impl ItemsAfterStatemets {
    /// The lints this pass registers: exactly one, warning by default.
    pub fn get_lints(&self) -> (lints: Vec<Lint>)
        ensures
            lints@.len() == 1,
            lints@[0].name@ == spec_lint_name(),
            lints@[0].level == LintLevel::Warn,
            lints@[0].description@ == spec_lint_description(),
    {
        let mut lints: Vec<Lint> = Vec::new();
        let lint = Lint {
            name: "ITEMS_AFTER_STATEMENTS".to_owned(),
            level: LintLevel::Warn,
            description: "finds blocks where an item comes after a statement".to_owned(),
        };
        lints.push(lint);
        lints
    }

    /// Scan one block and return its diagnostics in emission order: one per
    /// reported span, each carrying the fixed message.
    pub fn check_block(&self, block: &Block) -> (diags: Vec<Diagnostic>)
        ensures
            spans_of(diags@) == check_spans(*block),
            forall|k: int| 0 <= k < diags@.len() ==> diags@[k].message@ == spec_lint_message(),
    {
        let mut diags: Vec<Diagnostic> = Vec::new();
        if block.span.from_macro {
            proof {
                assert(spans_of(diags@) =~= check_spans(*block));
            }
            return diags;
        }
        let start = leading_end(&block.stmts);
        let n = block.stmts.len();
        let mut j = start;
        while j < n
            invariant
                start <= j <= n,
                n == block.stmts@.len(),
                !block.span.from_macro,
                start == leading_len(block.stmts@),
                flagged_spans(block.stmts@.skip(start as int)) == spans_of(diags@) + flagged_spans(
                    block.stmts@.skip(j as int),
                ),
                forall|k: int| 0 <= k < diags@.len() ==> diags@[k].message@ == spec_lint_message(),
            decreases n - j,
        {
            proof {
                assert(block.stmts@.skip(j as int)[0] == block.stmts@[j as int]);
                assert(block.stmts@.skip(j as int).skip(1) =~= block.stmts@.skip(j as int + 1));
            }
            match block.stmts[j] {
                Statement::ItemDeclaration(sp) => {
                    if sp.from_macro {
                        proof {
                            assert(flagged_spans(block.stmts@.skip(j as int))
                                =~= Seq::<Span>::empty());
                            assert(spans_of(diags@) + flagged_spans(block.stmts@.skip(j as int))
                                =~= spans_of(diags@));
                        }
                        return diags;
                    }
                    let ghost prev = diags@;
                    let msg = lint_message();
                    diags.push(Diagnostic { span: sp, message: msg });
                    proof {
                        assert(spans_of(diags@) =~= spans_of(prev).push(sp));
                        assert(spans_of(prev) + flagged_spans(block.stmts@.skip(j as int))
                            =~= spans_of(diags@) + flagged_spans(block.stmts@.skip(j as int + 1)));
                    }
                },
                _ => {
                },
            }
            j = j + 1;
        }
        proof {
            assert(flagged_spans(block.stmts@.skip(n as int)).len() == 0);
            assert(spans_of(diags@) + flagged_spans(block.stmts@.skip(n as int))
                =~= spans_of(diags@));
        }
        diags
    }
}

/// What `leading_len` is, statement by statement: everything strictly before
/// the last consumed statement keeps the leading phase going; if any
/// statement could end the phase, the first such statement is the last one
/// consumed; if none could, the phase consumes the whole sequence.
proof fn lemma_leading_len_props(s: Seq<Statement>)
    ensures
        0 <= leading_len(s) <= s.len(),
        forall|k: int| 0 <= k < leading_len(s) - 1 ==> !ends_leading(s[k]),
        (exists|k: int| 0 <= k < s.len() && ends_leading(s[k])) ==> (0 < leading_len(s)
            && ends_leading(s[leading_len(s) - 1])),
        !(exists|k: int| 0 <= k < s.len() && ends_leading(s[k])) ==> leading_len(s) == s.len(),
    decreases s.len(),
{
    if s.len() == 0 {
    } else if ends_leading(s[0]) {
    } else {
        lemma_leading_len_props(s.skip(1));
        assert forall|k: int| 0 <= k < leading_len(s) - 1 implies !ends_leading(s[k]) by {
            if k > 0 {
                assert(s.skip(1)[k - 1] == s[k]);
            }
        }
        if exists|k: int| 0 <= k < s.len() && ends_leading(s[k]) {
            let k0 = choose|k: int| 0 <= k < s.len() && ends_leading(s[k]);
            assert(s.skip(1)[k0 - 1] == s[k0]);
            assert(s.skip(1)[leading_len(s.skip(1)) - 1] == s[leading_len(s) - 1]);
        } else {
            assert forall|k: int| 0 <= k < s.skip(1).len() implies !ends_leading(
                s.skip(1)[k],
            ) by {
                assert(s.skip(1)[k] == s[k + 1]);
            }
        }
    }
}

/// A sequence without item declarations yields no flagged spans.
proof fn lemma_no_items_not_flagged(s: Seq<Statement>)
    requires
        forall|k: int| 0 <= k < s.len() ==> !(s[k] is ItemDeclaration),
    ensures
        flagged_spans(s).len() == 0,
    decreases s.len(),
{
    if s.len() > 0 {
        assert forall|k: int| 0 <= k < s.skip(1).len() implies !(s.skip(1)[k]
            is ItemDeclaration) by {
            assert(s.skip(1)[k] == s[k + 1]);
        }
        lemma_no_items_not_flagged(s.skip(1));
    }
}

/// Prepending one span to a sequence adds one occurrence of it if it is the
/// counted span, none otherwise.
proof fn lemma_count_span_cons(x: Span, q: Seq<Span>, sp: Span)
    ensures
        count_span(seq![x] + q, sp) == (if x == sp {
            1nat
        } else {
            0nat
        }) + count_span(q, sp),
{
    assert((seq![x] + q)[0] == x);
    assert((seq![x] + q).skip(1) =~= q);
}

/// A sequence holding no item declaration with span `sp` never flags `sp`.
proof fn lemma_flagged_count_absent(s: Seq<Statement>, sp: Span)
    requires
        forall|k: int| 0 <= k < s.len() ==> s[k] != Statement::ItemDeclaration(sp),
    ensures
        count_span(flagged_spans(s), sp) == 0,
    decreases s.len(),
{
    if s.len() > 0 {
        assert forall|k: int| 0 <= k < s.skip(1).len() implies s.skip(1)[k]
            != Statement::ItemDeclaration(sp) by {
            assert(s.skip(1)[k] == s[k + 1]);
        }
        lemma_flagged_count_absent(s.skip(1), sp);
        match s[0] {
            Statement::ItemDeclaration(sp0) => {
                if !sp0.from_macro {
                    lemma_count_span_cons(sp0, flagged_spans(s.skip(1)), sp);
                }
            },
            _ => {
            },
        }
    }
}

/// If position `i` holds the only item declaration with span `sp`, the span
/// is not macro-generated, and no macro-generated item stands before `i`,
/// then the flagging phase reports `sp` exactly once.
proof fn lemma_flagged_count_unique(s: Seq<Statement>, i: int, sp: Span)
    requires
        0 <= i < s.len(),
        s[i] == Statement::ItemDeclaration(sp),
        !sp.from_macro,
        forall|k: int| 0 <= k < i ==> !is_macro_item(s[k]),
        forall|k: int| 0 <= k < s.len() && k != i ==> s[k] != Statement::ItemDeclaration(sp),
    ensures
        count_span(flagged_spans(s), sp) == 1,
    decreases s.len(),
{
    if i == 0 {
        assert forall|k: int| 0 <= k < s.skip(1).len() implies s.skip(1)[k]
            != Statement::ItemDeclaration(sp) by {
            assert(s.skip(1)[k] == s[k + 1]);
        }
        lemma_flagged_count_absent(s.skip(1), sp);
        lemma_count_span_cons(sp, flagged_spans(s.skip(1)), sp);
    } else {
        assert forall|k: int| 0 <= k < i - 1 implies !is_macro_item(s.skip(1)[k]) by {
            assert(s.skip(1)[k] == s[k + 1]);
        }
        assert forall|k: int| 0 <= k < s.skip(1).len() && k != i - 1 implies s.skip(1)[k]
            != Statement::ItemDeclaration(sp) by {
            assert(s.skip(1)[k] == s[k + 1]);
        }
        assert(s.skip(1)[i - 1] == s[i]);
        lemma_flagged_count_unique(s.skip(1), i - 1, sp);
        match s[0] {
            Statement::ItemDeclaration(sp0) => {
                assert(!is_macro_item(s[0]));
                lemma_count_span_cons(sp0, flagged_spans(s.skip(1)), sp);
            },
            _ => {
            },
        }
    }
}

/// The flagging phase never looks past the first macro-generated item
/// declaration: what it reports over `s` is exactly what it reports over
/// the statements strictly before that item.
proof fn lemma_flagged_stops_at_macro(s: Seq<Statement>, i: int)
    requires
        0 <= i < s.len(),
        is_macro_item(s[i]),
        forall|k: int| 0 <= k < i ==> !is_macro_item(s[k]),
    ensures
        flagged_spans(s) == flagged_spans(s.subrange(0, i)),
    decreases i,
{
    if i == 0 {
        assert(flagged_spans(s.subrange(0, 0)).len() == 0);
    } else {
        assert(!is_macro_item(s[0]));
        assert(s.skip(1)[i - 1] == s[i]);
        assert forall|k: int| 0 <= k < i - 1 implies !is_macro_item(s.skip(1)[k]) by {
            assert(s.skip(1)[k] == s[k + 1]);
        }
        lemma_flagged_stops_at_macro(s.skip(1), i - 1);
        assert(s.skip(1).subrange(0, i - 1) =~= s.subrange(0, i).skip(1));
        assert(s.subrange(0, i)[0] == s[0]);
    }
}

/// A block whose own span is macro-generated is skipped outright: no
/// diagnostics, whatever its statements hold.
pub proof fn lemma_macro_block_silent(b: Block)
    requires
        b.span.from_macro,
    ensures
        check_spans(b).len() == 0,
{
}

/// A block with no declaration statements at all yields no diagnostics.
pub proof fn lemma_no_declarations_silent(b: Block)
    requires
        forall|k: int| 0 <= k < b.stmts@.len() ==> !is_declaration(b.stmts@[k]),
    ensures
        check_spans(b).len() == 0,
{
    if !b.span.from_macro {
        let s = b.stmts@;
        lemma_leading_len_props(s);
        let rest = s.skip(leading_len(s));
        assert forall|k: int| 0 <= k < rest.len() implies !(rest[k] is ItemDeclaration) by {
            assert(rest[k] == s[k + leading_len(s)]);
        }
        lemma_no_items_not_flagged(rest);
    }
}

/// When every item declaration stands before the first local binding and
/// before the first bare expression, every item falls in the leading
/// prefix, which is exempt: no diagnostics.
pub proof fn lemma_items_in_leading_prefix_silent(b: Block)
    requires
        forall|i: int, j: int|
            0 <= i < b.stmts@.len() && 0 <= j < b.stmts@.len() && (#[trigger] b.stmts@[i])
                is ItemDeclaration && (#[trigger] b.stmts@[j]) is LocalBinding ==> i < j,
        forall|i: int, j: int|
            0 <= i < b.stmts@.len() && 0 <= j < b.stmts@.len() && (#[trigger] b.stmts@[i])
                is ItemDeclaration && (#[trigger] b.stmts@[j]) is Expression ==> i < j,
    ensures
        check_spans(b).len() == 0,
{
    if !b.span.from_macro {
        let s = b.stmts@;
        lemma_leading_len_props(s);
        let rest = s.skip(leading_len(s));
        assert forall|k: int| 0 <= k < rest.len() implies !(rest[k] is ItemDeclaration) by {
            assert(rest[k] == s[k + leading_len(s)]);
            if rest[k] is ItemDeclaration {
                assert(ends_leading(s[leading_len(s) - 1]));
            }
        }
        lemma_no_items_not_flagged(rest);
    }
}

/// An item declaration that stands after the first local binding, and whose
/// span is not macro-generated, is reported exactly once at its span —
/// provided scanning reaches it: no macro-generated item declaration stands
/// between the end of the leading prefix and it, and no other statement of
/// the block is an item declaration with the same span.
pub proof fn lemma_item_after_binding_flagged(b: Block, i: int, sp: Span)
    requires
        !b.span.from_macro,
        0 <= i < b.stmts@.len(),
        b.stmts@[i] == Statement::ItemDeclaration(sp),
        !sp.from_macro,
        exists|j: int| 0 <= j < i && (#[trigger] b.stmts@[j]) is LocalBinding,
        forall|k: int| leading_len(b.stmts@) <= k < i ==> !is_macro_item(b.stmts@[k]),
        forall|k: int|
            0 <= k < b.stmts@.len() && k != i ==> b.stmts@[k] != Statement::ItemDeclaration(sp),
    ensures
        count_span(check_spans(b), sp) == 1,
{
    let s = b.stmts@;
    lemma_leading_len_props(s);
    let j0 = choose|j: int| 0 <= j < i && (#[trigger] s[j]) is LocalBinding;
    assert(ends_leading(s[j0]));
    let ll = leading_len(s);
    assert(ll <= j0 + 1) by {
        if ll - 1 > j0 {
            assert(!ends_leading(s[j0]));
        }
    }
    let rest = s.skip(ll);
    assert(rest[i - ll] == s[i]);
    assert forall|k: int| 0 <= k < i - ll implies !is_macro_item(rest[k]) by {
        assert(rest[k] == s[k + ll]);
    }
    assert forall|k: int| 0 <= k < rest.len() && k != i - ll implies rest[k]
        != Statement::ItemDeclaration(sp) by {
        assert(rest[k] == s[k + ll]);
    }
    lemma_flagged_count_unique(rest, i - ll, sp);
}

/// Once the flagging phase meets a macro-generated item declaration, the
/// scan of the block stops: the reported spans are exactly those flagged
/// over the statements between the end of the leading prefix and that item,
/// and nothing at or after it contributes.
pub proof fn lemma_macro_item_stops_scan(b: Block, i: int)
    requires
        !b.span.from_macro,
        leading_len(b.stmts@) <= i < b.stmts@.len(),
        is_macro_item(b.stmts@[i]),
        forall|k: int| leading_len(b.stmts@) <= k < i ==> !is_macro_item(b.stmts@[k]),
    ensures
        check_spans(b) == flagged_spans(b.stmts@.subrange(leading_len(b.stmts@), i)),
{
    let s = b.stmts@;
    lemma_leading_len_props(s);
    let ll = leading_len(s);
    let rest = s.skip(ll);
    assert(rest[i - ll] == s[i]);
    assert forall|k: int| 0 <= k < i - ll implies !is_macro_item(rest[k]) by {
        assert(rest[k] == s[k + ll]);
    }
    lemma_flagged_stops_at_macro(rest, i - ll);
    assert(rest.subrange(0, i - ll) =~= s.subrange(ll, i));
}

/// A bare expression met during the leading phase — nothing before it could
/// end that phase — ends it at once: the expression itself is consumed and
/// never reported, and the flagging phase covers exactly the statements
/// after it.
pub proof fn lemma_expression_ends_leading(b: Block, i: int)
    requires
        !b.span.from_macro,
        0 <= i < b.stmts@.len(),
        b.stmts@[i] is Expression,
        forall|k: int| 0 <= k < i ==> !ends_leading(b.stmts@[k]),
    ensures
        leading_len(b.stmts@) == i + 1,
        check_spans(b) == flagged_spans(b.stmts@.skip(i + 1)),
{
    let s = b.stmts@;
    lemma_leading_len_props(s);
    let ll = leading_len(s);
    assert(ends_leading(s[i]));
    assert(ends_leading(s[ll - 1]));
    assert(ll - 1 == i) by {
        if ll - 1 < i {
            assert(!ends_leading(s[ll - 1]));
        }
        if ll - 1 > i {
            assert(!ends_leading(s[i]));
        }
    }
}

} // verus!
