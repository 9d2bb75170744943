//! The stylesheet tree: an ordered sequence of rules, each owning a non-empty
//! selector list and a body, plus the cheaply cloneable shared handle over a
//! parsed tree.
//!
//! Rendering a tree against a scope identifier rewrites every selector as
//! `selector` describes, joins the selectors of a rule by `, `, passes
//! declarations through verbatim and recurses into at-rule bodies, keeping
//! the authored order. Rendering is a pure function of the tree and the
//! identifier.

use vstd::prelude::*;
use vstd::string::*;
use std::sync::Arc;
use crate::selector::Selector;
use crate::selector::spec_render_selector;
use crate::selector::push_char;

verus! {

/// Mathematical content of a [`Declaration`].
#[verifier::ext_equal]
pub struct DeclarationView {
    pub key: Seq<char>,
    pub value: Seq<char>,
}

/// Mathematical content of a [`Rule`].
#[verifier::ext_equal]
pub struct RuleView {
    pub selectors: Seq<Seq<char>>,
    pub declarations: Seq<DeclarationView>,
}

/// Mathematical content of an [`AtRule`].
#[verifier::ext_equal]
pub struct AtRuleView {
    pub condition: Seq<char>,
    pub rules: Seq<RuleView>,
}

/// Mathematical content of a [`SheetItem`].
#[verifier::ext_equal]
pub enum SheetItemView {
    Rule(RuleView),
    AtRule(AtRuleView),
}

/// Mathematical content of a [`Sheet`].
#[verifier::ext_equal]
pub struct SheetView {
    pub items: Seq<SheetItemView>,
}

/// One property/value pair, passed through verbatim by rendering.
#[derive(Debug)]
pub struct Declaration {
    pub key: String,
    pub value: String,
}

/// One style rule: a non-empty ordered selector list plus a flat list of
/// declarations.
#[derive(Debug)]
pub struct Rule {
    pub selectors: Vec<Selector>,
    pub declarations: Vec<Declaration>,
}

/// An at-rule such as a media query: a condition line plus a nested sequence
/// of rules rendered inside its block.
#[derive(Debug)]
pub struct AtRule {
    pub condition: String,
    pub rules: Vec<Rule>,
}

/// One top-level item of a stylesheet.
#[derive(Debug)]
pub enum SheetItem {
    Rule(Rule),
    AtRule(AtRule),
}

/// A stylesheet tree: an ordered sequence of top-level items. Order is
/// significant and nothing is deduplicated.
#[derive(Debug)]
pub struct Sheet {
    pub items: Vec<SheetItem>,
}

impl View for Declaration {
    type V = DeclarationView;

    open spec fn view(&self) -> DeclarationView {
        DeclarationView { key: self.key@, value: self.value@ }
    }
}

impl View for Rule {
    type V = RuleView;

    open spec fn view(&self) -> RuleView {
        RuleView {
            selectors: self.selectors@.map_values(|s: Selector| s@),
            declarations: self.declarations@.map_values(|d: Declaration| d@),
        }
    }
}

impl View for AtRule {
    type V = AtRuleView;

    open spec fn view(&self) -> AtRuleView {
        AtRuleView { condition: self.condition@, rules: self.rules@.map_values(|r: Rule| r@) }
    }
}

impl View for SheetItem {
    type V = SheetItemView;

    open spec fn view(&self) -> SheetItemView {
        match self {
            SheetItem::Rule(r) => SheetItemView::Rule(r@),
            SheetItem::AtRule(a) => SheetItemView::AtRule(a@),
        }
    }
}

impl View for Sheet {
    type V = SheetView;

    open spec fn view(&self) -> SheetView {
        SheetView { items: self.items@.map_values(|it: SheetItem| it@) }
    }
}

impl RuleView {
    /// The tree invariant on one rule: its selector list is never empty.
    pub open spec fn wf(&self) -> bool {
        self.selectors.len() > 0
    }
}

impl SheetItemView {
    /// The tree invariant on one item: every rule, also inside an at-rule,
    /// has a non-empty selector list.
    pub open spec fn wf(&self) -> bool {
        match self {
            SheetItemView::Rule(r) => r.wf(),
            SheetItemView::AtRule(a) => forall|i: int| 0 <= i < a.rules.len() ==> a.rules[i].wf(),
        }
    }
}

impl SheetView {
    /// The tree invariant: every rule of the sheet has a non-empty selector
    /// list.
    pub open spec fn wf(&self) -> bool {
        forall|i: int| 0 <= i < self.items.len() ==> self.items[i].wf()
    }
}

/// What rendering one declaration returns: `<key>: <value>;` on its own line.
pub open spec fn spec_render_decl(d: DeclarationView) -> Seq<char> {
    d.key + seq![':', ' '] + d.value + seq![';', '\n']
}

/// What rendering a declaration list returns: each declaration in order.
pub open spec fn spec_render_decls(ds: Seq<DeclarationView>) -> Seq<char>
    decreases ds.len(),
{
    if ds.len() == 0 {
        Seq::<char>::empty()
    } else {
        spec_render_decl(ds[0]) + spec_render_decls(ds.skip(1))
    }
}

/// The tail of a rendered selector list: `, ` before each further selector.
pub open spec fn spec_render_selector_rest(sels: Seq<Seq<char>>, id: Seq<char>) -> Seq<char>
    decreases sels.len(),
{
    if sels.len() == 0 {
        Seq::<char>::empty()
    } else {
        seq![',', ' '] + spec_render_selector(sels[0], id) + spec_render_selector_rest(
            sels.skip(1),
            id,
        )
    }
}

/// What rendering a selector list returns: each selector rewritten against
/// `id`, joined by `, `.
pub open spec fn spec_render_selector_list(sels: Seq<Seq<char>>, id: Seq<char>) -> Seq<char> {
    if sels.len() == 0 {
        Seq::<char>::empty()
    } else {
        spec_render_selector(sels[0], id) + spec_render_selector_rest(sels.skip(1), id)
    }
}

/// What rendering one rule returns: the rewritten selector list, a block open,
/// the declarations verbatim, a block close.
pub open spec fn spec_render_rule(r: RuleView, id: Seq<char>) -> Seq<char> {
    spec_render_selector_list(r.selectors, id) + seq![' ', '{', '\n'] + spec_render_decls(
        r.declarations,
    ) + seq!['}', '\n']
}

/// What rendering a rule sequence returns: each rule in order.
pub open spec fn spec_render_rules(rs: Seq<RuleView>, id: Seq<char>) -> Seq<char>
    decreases rs.len(),
{
    if rs.len() == 0 {
        Seq::<char>::empty()
    } else {
        spec_render_rule(rs[0], id) + spec_render_rules(rs.skip(1), id)
    }
}

/// What rendering one top-level item returns. An at-rule keeps its condition
/// verbatim and renders its nested rules inside the block.
pub open spec fn spec_render_item(it: SheetItemView, id: Seq<char>) -> Seq<char> {
    match it {
        SheetItemView::Rule(r) => spec_render_rule(r, id),
        SheetItemView::AtRule(a) => a.condition + seq![' ', '{', '\n'] + spec_render_rules(
            a.rules,
            id,
        ) + seq!['}', '\n'],
    }
}

/// What rendering an item sequence returns: each item in order.
pub open spec fn spec_render_items(items: Seq<SheetItemView>, id: Seq<char>) -> Seq<char>
    decreases items.len(),
{
    if items.len() == 0 {
        Seq::<char>::empty()
    } else {
        spec_render_item(items[0], id) + spec_render_items(items.skip(1), id)
    }
}

/// What rendering a whole sheet against the scope identifier `id` returns.
pub open spec fn spec_render_sheet(s: SheetView, id: Seq<char>) -> Seq<char> {
    spec_render_items(s.items, id)
}

fn render_declarations(ds: &Vec<Declaration>, out: &mut String)
    ensures
        final(out)@ == old(out)@ + spec_render_decls(ds@.map_values(|d: Declaration| d@)),
{
    let ghost dv = ds@.map_values(|d: Declaration| d@);
    let n = ds.len();
    let mut i: usize = 0;
    proof {
        assert(dv.skip(0) =~= dv);
    }
    while i < n
        invariant
            i <= n,
            n == ds@.len(),
            dv == ds@.map_values(|d: Declaration| d@),
            out@ + spec_render_decls(dv.skip(i as int)) == old(out)@ + spec_render_decls(dv),
        decreases n - i,
    {
        proof {
            assert(dv.skip(i as int)[0] == dv[i as int]);
            assert(dv[i as int] == ds@[i as int]@);
        }
        out.append(ds[i].key.as_str());
        push_char(out, ':');
        push_char(out, ' ');
        out.append(ds[i].value.as_str());
        push_char(out, ';');
        push_char(out, '\n');
        proof {
            assert(dv.skip(i as int).skip(1) =~= dv.skip(i + 1));
            assert(out@ + spec_render_decls(dv.skip(i + 1)) =~= old(out)@ + spec_render_decls(
                dv,
            ));
        }
        i = i + 1;
    }
    proof {
        assert(dv.skip(n as int) =~= Seq::<DeclarationView>::empty());
        assert(out@ =~= old(out)@ + spec_render_decls(dv));
    }
}

fn render_selector_list(sels: &Vec<Selector>, class_name: &str, out: &mut String)
    ensures
        final(out)@ == old(out)@ + spec_render_selector_list(
            sels@.map_values(|s: Selector| s@),
            class_name@,
        ),
{
    let ghost sv = sels@.map_values(|s: Selector| s@);
    let n = sels.len();
    if n == 0 {
        proof {
            assert(out@ =~= old(out)@ + spec_render_selector_list(sv, class_name@));
        }
        return ;
    }
    proof {
        assert(sv[0] == sels@[0]@);
    }
    let first = sels[0].to_style_str(class_name);
    out.append(first.as_str());
    let mut i: usize = 1;
    proof {
        assert(out@ + spec_render_selector_rest(sv.skip(1), class_name@) =~= old(out)@
            + spec_render_selector_list(sv, class_name@));
    }
    while i < n
        invariant
            1 <= i <= n,
            n == sels@.len(),
            sv == sels@.map_values(|s: Selector| s@),
            out@ + spec_render_selector_rest(sv.skip(i as int), class_name@) == old(out)@
                + spec_render_selector_list(sv, class_name@),
        decreases n - i,
    {
        proof {
            assert(sv.skip(i as int)[0] == sv[i as int]);
            assert(sv[i as int] == sels@[i as int]@);
        }
        push_char(out, ',');
        push_char(out, ' ');
        let piece = sels[i].to_style_str(class_name);
        out.append(piece.as_str());
        proof {
            assert(sv.skip(i as int).skip(1) =~= sv.skip(i + 1));
            assert(out@ + spec_render_selector_rest(sv.skip(i + 1), class_name@) =~= old(out)@
                + spec_render_selector_list(sv, class_name@));
        }
        i = i + 1;
    }
    proof {
        assert(sv.skip(n as int) =~= Seq::<Seq<char>>::empty());
        assert(out@ =~= old(out)@ + spec_render_selector_list(sv, class_name@));
    }
}

fn render_rule(r: &Rule, class_name: &str, out: &mut String)
    ensures
        final(out)@ == old(out)@ + spec_render_rule(r@, class_name@),
{
    render_selector_list(&r.selectors, class_name, out);
    push_char(out, ' ');
    push_char(out, '{');
    push_char(out, '\n');
    render_declarations(&r.declarations, out);
    push_char(out, '}');
    push_char(out, '\n');
    proof {
        assert(out@ =~= old(out)@ + spec_render_rule(r@, class_name@));
    }
}

fn render_rules(rs: &Vec<Rule>, class_name: &str, out: &mut String)
    ensures
        final(out)@ == old(out)@ + spec_render_rules(
            rs@.map_values(|r: Rule| r@),
            class_name@,
        ),
{
    let ghost rv = rs@.map_values(|r: Rule| r@);
    let n = rs.len();
    let mut i: usize = 0;
    proof {
        assert(rv.skip(0) =~= rv);
    }
    while i < n
        invariant
            i <= n,
            n == rs@.len(),
            rv == rs@.map_values(|r: Rule| r@),
            out@ + spec_render_rules(rv.skip(i as int), class_name@) == old(out)@
                + spec_render_rules(rv, class_name@),
        decreases n - i,
    {
        proof {
            assert(rv.skip(i as int)[0] == rv[i as int]);
            assert(rv[i as int] == rs@[i as int]@);
        }
        render_rule(&rs[i], class_name, out);
        proof {
            assert(rv.skip(i as int).skip(1) =~= rv.skip(i + 1));
            assert(out@ + spec_render_rules(rv.skip(i + 1), class_name@) =~= old(out)@
                + spec_render_rules(rv, class_name@));
        }
        i = i + 1;
    }
    proof {
        assert(rv.skip(n as int) =~= Seq::<RuleView>::empty());
        assert(out@ =~= old(out)@ + spec_render_rules(rv, class_name@));
    }
}

fn render_item(it: &SheetItem, class_name: &str, out: &mut String)
    ensures
        final(out)@ == old(out)@ + spec_render_item(it@, class_name@),
{
    match it {
        SheetItem::Rule(r) => {
            render_rule(r, class_name, out);
        },
        SheetItem::AtRule(a) => {
            out.append(a.condition.as_str());
            push_char(out, ' ');
            push_char(out, '{');
            push_char(out, '\n');
            render_rules(&a.rules, class_name, out);
            push_char(out, '}');
            push_char(out, '\n');
            proof {
                assert(out@ =~= old(out)@ + spec_render_item(it@, class_name@));
            }
        },
    }
}

impl Sheet {
    /// Renders every item of the sheet in authored order against the scope
    /// identifier `class_name`.
    pub fn to_style_str(&self, class_name: &str) -> (r: String)
        ensures
            r@ == spec_render_sheet(self@, class_name@),
    {
        let ghost iv = self.items@.map_values(|it: SheetItem| it@);
        let n = self.items.len();
        let mut out = String::new();
        let mut i: usize = 0;
        proof {
            assert(iv.skip(0) =~= iv);
            assert(out@ + spec_render_items(iv, class_name@) =~= spec_render_items(
                iv,
                class_name@,
            ));
        }
        while i < n
            invariant
                i <= n,
                n == self.items@.len(),
                iv == self.items@.map_values(|it: SheetItem| it@),
                out@ + spec_render_items(iv.skip(i as int), class_name@) == spec_render_items(
                    iv,
                    class_name@,
                ),
            decreases n - i,
        {
            proof {
                assert(iv.skip(i as int)[0] == iv[i as int]);
                assert(iv[i as int] == self.items@[i as int]@);
            }
            render_item(&self.items[i], class_name, &mut out);
            proof {
                assert(iv.skip(i as int).skip(1) =~= iv.skip(i + 1));
                assert(out@ + spec_render_items(iv.skip(i + 1), class_name@) =~= spec_render_items(
                    iv,
                    class_name@,
                ));
            }
            i = i + 1;
        }
        proof {
            assert(iv.skip(n as int) =~= Seq::<SheetItemView>::empty());
            assert(out@ =~= spec_render_sheet(self@, class_name@));
        }
        out
    }
}

/// A reference-counted, cheaply cloneable handle over one immutable stylesheet
/// tree. Many consumers can share one parsed tree without copying it; clones
/// observe the same tree and therefore the same render output.
#[derive(Debug)]
pub struct SheetRef {
    inner: Arc<Sheet>,
}

impl View for SheetRef {
    type V = SheetView;

    closed spec fn view(&self) -> SheetView {
        self.inner@
    }
}

/// Shares a tree.
///
/// Relies on alloc::sync::Arc::clone: the returned handle refers to the very
/// same shared allocation, so the tree seen through it is the original one.
#[verifier::external_body]
fn arc_clone_sheet(a: &Arc<Sheet>) -> (r: Arc<Sheet>)
    ensures
        r == *a,
{
    Arc::clone(a)
}

impl Clone for SheetRef {
    /// Cloning is a reference-count increment: the clone observes the same
    /// tree as the original.
    fn clone(&self) -> (r: Self)
        ensures
            r@ == self@,
    {
        SheetRef { inner: arc_clone_sheet(&self.inner) }
    }
}

impl SheetRef {
    /// Wraps a tree into a shared handle. The tree is immutable from here on.
    pub fn new(sheet: Sheet) -> (r: SheetRef)
        ensures
            r@ == sheet@,
    {
        SheetRef { inner: Arc::new(sheet) }
    }

    /// Renders the shared tree against the scope identifier `class_name`.
    pub fn to_style_str(&self, class_name: &str) -> (r: String)
        ensures
            r@ == spec_render_sheet(self@, class_name@),
    {
        let sheet: &Sheet = &*self.inner;
        sheet.to_style_str(class_name)
    }
}

impl From<Sheet> for SheetRef {
    fn from(sheet: Sheet) -> (r: SheetRef)
        ensures
            r@ == sheet@,
    {
        SheetRef::new(sheet)
    }
}

impl vstd::std_specs::convert::FromSpecImpl<Sheet> for SheetRef {
    open spec fn obeys_from_spec() -> bool {
        false
    }

    open spec fn from_spec(sheet: Sheet) -> SheetRef {
        vstd::pervasive::arbitrary()
    }
}

/// Handle-sharing law: two handles over the same tree, for instance a handle
/// and its clone, render to identical output text against the same
/// identifier.
pub proof fn lemma_shared_handles_render_identically(a: SheetRef, b: SheetRef, id: Seq<char>)
    requires
        a@ == b@,
    ensures
        spec_render_sheet(a@, id) == spec_render_sheet(b@, id),
{
}

/// Construction-determinism law: the rendered text is a function of the tree
/// content and the scope identifier alone. Two independently built trees with
/// equal content render identically apart from the identifier each is given.
pub proof fn lemma_render_determined_by_content(
    a: SheetView,
    b: SheetView,
    id_a: Seq<char>,
    id_b: Seq<char>,
)
    requires
        a == b,
        id_a == id_b,
    ensures
        spec_render_sheet(a, id_a) == spec_render_sheet(b, id_b),
{
}

} // verus!
