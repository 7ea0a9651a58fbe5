use items_after_statements::ast::{Block, Diagnostic, LintLevel, Span, Statement};
use items_after_statements::items_after_statements::{lint_message, ItemsAfterStatemets};

fn sp(lo: u32, hi: u32) -> Span {
    Span { lo, hi, from_macro: false }
}

fn macro_sp(lo: u32, hi: u32) -> Span {
    Span { lo, hi, from_macro: true }
}

fn block(stmts: Vec<Statement>) -> Block {
    Block { span: sp(0, 100), stmts }
}

fn macro_block(stmts: Vec<Statement>) -> Block {
    Block { span: macro_sp(0, 100), stmts }
}

fn check(b: &Block) -> Vec<Diagnostic> {
    ItemsAfterStatemets.check_block(b)
}

fn expected_message() -> &'static str {
    "adding items after statements is confusing, since items exist from the start of the scope"
}

#[test]
fn items_then_binding_then_item() {
    let b = block(vec![
        Statement::ItemDeclaration(sp(1, 2)),
        Statement::ItemDeclaration(sp(3, 4)),
        Statement::LocalBinding,
        Statement::ItemDeclaration(sp(7, 8)),
    ]);
    let diags = check(&b);
    assert_eq!(diags.len(), 1);
    assert_eq!(diags[0].span, sp(7, 8));
    assert_eq!(diags[0].message, expected_message());
}

#[test]
fn items_only() {
    let b = block(vec![
        Statement::ItemDeclaration(sp(1, 2)),
        Statement::ItemDeclaration(sp(3, 4)),
    ]);
    let diags = check(&b);
    assert_eq!(diags.len(), 0);
}

#[test]
fn expression_then_item() {
    let b = block(vec![Statement::Expression, Statement::ItemDeclaration(sp(3, 4))]);
    let diags = check(&b);
    assert_eq!(diags.len(), 1);
    assert_eq!(diags[0].span, sp(3, 4));
    assert_eq!(diags[0].message, expected_message());
}

#[test]
fn macro_item_silences_rest() {
    let b = block(vec![
        Statement::LocalBinding,
        Statement::ItemDeclaration(macro_sp(3, 4)),
        Statement::ItemDeclaration(sp(5, 6)),
    ]);
    let diags = check(&b);
    assert_eq!(diags.len(), 0);
}

#[test]
fn macro_block_is_skipped() {
    let b = macro_block(vec![Statement::LocalBinding, Statement::ItemDeclaration(sp(3, 4))]);
    let diags = check(&b);
    assert_eq!(diags.len(), 0);
}

#[test]
fn expression_in_flagging_phase_is_noop() {
    let b = block(vec![
        Statement::LocalBinding,
        Statement::Expression,
        Statement::ItemDeclaration(sp(5, 6)),
    ]);
    let diags = check(&b);
    assert_eq!(diags.len(), 1);
    assert_eq!(diags[0].span, sp(5, 6));
    assert_eq!(diags[0].message, expected_message());
}

#[test]
fn empty_block() {
    let b = block(vec![]);
    let diags = check(&b);
    assert_eq!(diags.len(), 0);
}

#[test]
fn expressions_only() {
    let b = block(vec![Statement::Expression, Statement::Expression, Statement::Expression]);
    let diags = check(&b);
    assert_eq!(diags.len(), 0);
}

#[test]
fn macro_block_with_late_items() {
    let b = macro_block(vec![
        Statement::Expression,
        Statement::ItemDeclaration(sp(3, 4)),
        Statement::ItemDeclaration(sp(5, 6)),
    ]);
    let diags = check(&b);
    assert_eq!(diags.len(), 0);
}

#[test]
fn single_item_after_binding_flagged_once() {
    let b = block(vec![Statement::LocalBinding, Statement::ItemDeclaration(sp(3, 4))]);
    let diags = check(&b);
    assert_eq!(diags.len(), 1);
    assert_eq!(diags[0].span, sp(3, 4));
    assert_eq!(diags[0].message, expected_message());
}

#[test]
fn macro_item_stops_after_earlier_flag() {
    let b = block(vec![
        Statement::LocalBinding,
        Statement::ItemDeclaration(sp(3, 4)),
        Statement::ItemDeclaration(macro_sp(5, 6)),
        Statement::ItemDeclaration(sp(7, 8)),
    ]);
    let diags = check(&b);
    assert_eq!(diags.len(), 1);
    assert_eq!(diags[0].span, sp(3, 4));
}

#[test]
fn other_declaration_keeps_leading_phase() {
    let b = block(vec![
        Statement::Other,
        Statement::LocalBinding,
        Statement::ItemDeclaration(sp(5, 6)),
    ]);
    let diags = check(&b);
    assert_eq!(diags.len(), 1);
    assert_eq!(diags[0].span, sp(5, 6));
}

#[test]
fn other_declarations_exhaust_leading_phase() {
    let b = block(vec![Statement::Other, Statement::ItemDeclaration(sp(3, 4))]);
    let diags = check(&b);
    assert_eq!(diags.len(), 0);
}

#[test]
fn other_declaration_never_flagged() {
    let b = block(vec![
        Statement::LocalBinding,
        Statement::Other,
        Statement::ItemDeclaration(sp(5, 6)),
    ]);
    let diags = check(&b);
    assert_eq!(diags.len(), 1);
    assert_eq!(diags[0].span, sp(5, 6));
}

#[test]
fn several_items_flagged_in_order() {
    let b = block(vec![
        Statement::LocalBinding,
        Statement::ItemDeclaration(sp(3, 4)),
        Statement::Expression,
        Statement::ItemDeclaration(sp(7, 8)),
    ]);
    let diags = check(&b);
    assert_eq!(diags.len(), 2);
    assert_eq!(diags[0].span, sp(3, 4));
    assert_eq!(diags[1].span, sp(7, 8));
    assert_eq!(diags[0].message, expected_message());
    assert_eq!(diags[1].message, expected_message());
}

#[test]
fn macro_item_in_leading_phase_is_exempt_and_does_not_stop() {
    let b = block(vec![
        Statement::ItemDeclaration(macro_sp(1, 2)),
        Statement::LocalBinding,
        Statement::ItemDeclaration(sp(5, 6)),
    ]);
    let diags = check(&b);
    assert_eq!(diags.len(), 1);
    assert_eq!(diags[0].span, sp(5, 6));
}

#[test]
fn binding_only() {
    let b = block(vec![Statement::LocalBinding]);
    let diags = check(&b);
    assert_eq!(diags.len(), 0);
}

#[test]
fn registered_lints() {
    let lints = ItemsAfterStatemets.get_lints();
    assert_eq!(lints.len(), 1);
    assert_eq!(lints[0].name, "ITEMS_AFTER_STATEMENTS");
    assert_eq!(lints[0].level, LintLevel::Warn);
    assert_eq!(lints[0].description, "finds blocks where an item comes after a statement");
}

#[test]
fn message_text() {
    let m = lint_message();
    assert_eq!(m, expected_message());
}
