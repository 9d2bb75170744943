//! Construction of a stylesheet tree from raw text.
//!
//! The accepted grammar is deliberately small. Text with no `{` at all is a
//! bare declaration list, `key: value; ...`, and becomes a single rule whose
//! selector is the self-reference `&`, so it renders onto the scope root
//! itself; whitespace-only text becomes the empty sheet. Otherwise the text
//! is a sequence of rules, `selectors { declarations }`, where the selector
//! list is split on `,` and every entry must be non-empty after trimming,
//! every declaration needs a `:` between its non-empty key and non-empty
//! value, `;` after a declaration is optional before the block end, and
//! blocks do not nest. Malformed text is rejected with a [`ParseError`]; the
//! tree is never constructed partially.

use vstd::prelude::*;
use vstd::string::*;
use crate::ast::Declaration;
use crate::ast::DeclarationView;
use crate::ast::Rule;
use crate::ast::RuleView;
use crate::ast::Sheet;
use crate::ast::SheetItem;
use crate::ast::SheetItemView;
use crate::ast::SheetView;
use crate::selector::Selector;

verus! {

/// The whitespace characters the grammar skips and trims.
pub open spec fn is_ws(c: char) -> bool {
    c == ' ' || c == '\t' || c == '\n' || c == '\r'
}

/// The character class at which one scan stops.
#[derive(Clone, Copy, Debug, PartialEq, Eq)]
pub enum StopKind {
    /// Stops at the first character that is not whitespace.
    NonWs,
    /// Stops at `{`.
    OpenBrace,
    /// Stops at `{` or `}`.
    AnyBrace,
    /// Stops at `,`.
    Comma,
    /// Stops at `:` or `;`.
    KeyEnd,
    /// Stops at `;`.
    Semi,
}

/// Whether `c` stops a scan of the given kind.
pub open spec fn is_stop(kind: StopKind, c: char) -> bool {
    match kind {
        StopKind::NonWs => !is_ws(c),
        StopKind::OpenBrace => c == '{',
        StopKind::AnyBrace => c == '{' || c == '}',
        StopKind::Comma => c == ',',
        StopKind::KeyEnd => c == ':' || c == ';',
        StopKind::Semi => c == ';',
    }
}

/// The first position at or after `i` whose character stops the scan, or the
/// text end.
pub open spec fn scan(s: Seq<char>, i: int, kind: StopKind) -> int
    decreases s.len() - i,
{
    if i >= s.len() {
        s.len() as int
    } else if is_stop(kind, s[i]) {
        i
    } else {
        scan(s, i + 1, kind)
    }
}

/// The scan stays within the text, passes no stop character, and lands on
/// one unless it reaches the end.
pub proof fn lemma_scan(s: Seq<char>, i: int, kind: StopKind)
    requires
        0 <= i <= s.len(),
    ensures
        i <= scan(s, i, kind) <= s.len(),
        forall|j: int| i <= j < scan(s, i, kind) ==> !is_stop(kind, s[j]),
        scan(s, i, kind) < s.len() ==> is_stop(kind, s[scan(s, i, kind)]),
    decreases s.len() - i,
{
    if i < s.len() && !is_stop(kind, s[i]) {
        lemma_scan(s, i + 1, kind);
    }
}

/// The length of `s` without its trailing whitespace.
pub open spec fn rstrip(s: Seq<char>) -> int
    decreases s.len(),
{
    if s.len() == 0 {
        0
    } else if is_ws(s[s.len() - 1]) {
        rstrip(s.drop_last())
    } else {
        s.len() as int
    }
}

/// Everything at or past `rstrip` is whitespace and, unless the result is
/// empty, the character just before it is not.
pub proof fn lemma_rstrip(s: Seq<char>)
    ensures
        0 <= rstrip(s) <= s.len(),
        forall|j: int| rstrip(s) <= j < s.len() ==> is_ws(s[j]),
        rstrip(s) > 0 ==> !is_ws(s[rstrip(s) - 1]),
    decreases s.len(),
{
    if s.len() > 0 && is_ws(s[s.len() - 1]) {
        lemma_rstrip(s.drop_last());
        assert forall|j: int| rstrip(s) <= j < s.len() implies is_ws(s[j]) by {
            if j < s.len() - 1 {
                assert(is_ws(s.drop_last()[j]));
            }
        }
    }
}

/// `s` without leading and trailing whitespace.
pub open spec fn spec_trim(s: Seq<char>) -> Seq<char> {
    let a = scan(s, 0, StopKind::NonWs);
    if a == s.len() {
        Seq::<char>::empty()
    } else {
        s.subrange(a, rstrip(s))
    }
}

/// What parsing a declaration list from position `i` of `s` returns: the
/// declarations in order, or nothing when a key or value is empty or a key
/// is not followed by `:`.
pub open spec fn spec_parse_decls(s: Seq<char>, i: int) -> Option<Seq<DeclarationView>>
    decreases s.len() - i,
        when 0 <= i <= s.len()
        via spec_parse_decls_dec
{
    let j = scan(s, i, StopKind::NonWs);
    if j == s.len() {
        Some(Seq::<DeclarationView>::empty())
    } else {
        let k = scan(s, j, StopKind::KeyEnd);
        if k == s.len() || s[k] == ';' {
            None
        } else {
            let key = spec_trim(s.subrange(j, k));
            if key.len() == 0 {
                None
            } else {
                let m = scan(s, k + 1, StopKind::Semi);
                let value = spec_trim(s.subrange(k + 1, m));
                if value.len() == 0 {
                    None
                } else {
                    let next = if m == s.len() {
                        m
                    } else {
                        m + 1
                    };
                    match spec_parse_decls(s, next) {
                        Option::None => None,
                        Option::Some(rest) => Some(
                            seq![DeclarationView { key, value }] + rest,
                        ),
                    }
                }
            }
        }
    }
}

#[via_fn]
proof fn spec_parse_decls_dec(s: Seq<char>, i: int) {
    lemma_scan(s, i, StopKind::NonWs);
    let j = scan(s, i, StopKind::NonWs);
    if j < s.len() {
        lemma_scan(s, j, StopKind::KeyEnd);
        let k = scan(s, j, StopKind::KeyEnd);
        if k < s.len() {
            lemma_scan(s, k + 1, StopKind::Semi);
        }
    }
}

/// What parsing a selector list out of the region `s` from position `i`
/// returns: the trimmed selector texts split on `,`, or nothing when one of
/// them is empty.
pub open spec fn spec_parse_selectors(s: Seq<char>, i: int) -> Option<Seq<Seq<char>>>
    decreases s.len() - i,
        when 0 <= i <= s.len()
        via spec_parse_selectors_dec
{
    let k = scan(s, i, StopKind::Comma);
    let t = spec_trim(s.subrange(i, k));
    if t.len() == 0 {
        None
    } else if k == s.len() {
        Some(seq![t])
    } else {
        match spec_parse_selectors(s, k + 1) {
            Option::None => None,
            Option::Some(rest) => Some(seq![t] + rest),
        }
    }
}

#[via_fn]
proof fn spec_parse_selectors_dec(s: Seq<char>, i: int) {
    lemma_scan(s, i, StopKind::Comma);
}

/// What parsing a rule sequence from position `i` of `s` returns: each rule
/// is a selector list, a `{`, a declaration list and a `}`, with no nested
/// block; or nothing when the text does not have that shape.
pub open spec fn spec_parse_rules(s: Seq<char>, i: int) -> Option<Seq<RuleView>>
    decreases s.len() - i,
        when 0 <= i <= s.len()
        via spec_parse_rules_dec
{
    let j = scan(s, i, StopKind::NonWs);
    if j == s.len() {
        Some(Seq::<RuleView>::empty())
    } else {
        let b = scan(s, j, StopKind::OpenBrace);
        if b == s.len() {
            None
        } else {
            match spec_parse_selectors(s.subrange(j, b), 0) {
                Option::None => None,
                Option::Some(sels) => {
                    let c = scan(s, b + 1, StopKind::AnyBrace);
                    if c == s.len() || s[c] == '{' {
                        None
                    } else {
                        match spec_parse_decls(s.subrange(b + 1, c), 0) {
                            Option::None => None,
                            Option::Some(ds) => match spec_parse_rules(s, c + 1) {
                                Option::None => None,
                                Option::Some(rest) => Some(
                                    seq![RuleView { selectors: sels, declarations: ds }] + rest,
                                ),
                            },
                        }
                    }
                }
            }
        }
    }
}

#[via_fn]
proof fn spec_parse_rules_dec(s: Seq<char>, i: int) {
    lemma_scan(s, i, StopKind::NonWs);
    let j = scan(s, i, StopKind::NonWs);
    if j < s.len() {
        lemma_scan(s, j, StopKind::OpenBrace);
        let b = scan(s, j, StopKind::OpenBrace);
        if b < s.len() {
            lemma_scan(s, b + 1, StopKind::AnyBrace);
        }
    }
}

/// What parsing whole stylesheet text returns. Text without `{` is a bare
/// declaration list: empty gives the empty sheet, otherwise one rule with
/// the implicit selector `&`. Text with `{` is a rule sequence.
pub open spec fn spec_parse(s: Seq<char>) -> Option<SheetView> {
    if scan(s, 0, StopKind::OpenBrace) == s.len() {
        match spec_parse_decls(s, 0) {
            Option::None => None,
            Option::Some(ds) => if ds.len() == 0 {
                Some(SheetView { items: Seq::<SheetItemView>::empty() })
            } else {
                Some(
                    SheetView {
                        items: seq![
                            SheetItemView::Rule(
                                RuleView { selectors: seq![seq!['&']], declarations: ds },
                            ),
                        ],
                    },
                )
            },
        }
    } else {
        match spec_parse_rules(s, 0) {
            Option::None => None,
            Option::Some(rs) => Some(
                SheetView { items: rs.map_values(|r: RuleView| SheetItemView::Rule(r)) },
            ),
        }
    }
}

/// Every selector list the grammar accepts is non-empty.
pub proof fn lemma_parse_selectors_nonempty(s: Seq<char>, i: int)
    requires
        0 <= i <= s.len(),
    ensures
        spec_parse_selectors(s, i) matches Some(sels) ==> sels.len() > 0,
{
}

/// Every rule the grammar accepts satisfies the tree invariant: its selector
/// list is non-empty.
pub proof fn lemma_parse_rules_wf(s: Seq<char>, i: int)
    requires
        0 <= i <= s.len(),
    ensures
        spec_parse_rules(s, i) matches Some(rs) ==> forall|x: int|
            0 <= x < rs.len() ==> rs[x].wf(),
    decreases s.len() - i,
{
    lemma_scan(s, i, StopKind::NonWs);
    let j = scan(s, i, StopKind::NonWs);
    if j < s.len() {
        lemma_scan(s, j, StopKind::OpenBrace);
        let b = scan(s, j, StopKind::OpenBrace);
        if b < s.len() {
            let sels_opt = spec_parse_selectors(s.subrange(j, b), 0);
            if sels_opt is Some {
                let sels = sels_opt->Some_0;
                lemma_parse_selectors_nonempty(s.subrange(j, b), 0);
                lemma_scan(s, b + 1, StopKind::AnyBrace);
                let c = scan(s, b + 1, StopKind::AnyBrace);
                if !(c == s.len() || s[c] == '{') {
                    lemma_parse_rules_wf(s, c + 1);
                    let ds_opt = spec_parse_decls(s.subrange(b + 1, c), 0);
                    let rest_opt = spec_parse_rules(s, c + 1);
                    if ds_opt is Some && rest_opt is Some {
                        let rv = RuleView { selectors: sels, declarations: ds_opt->Some_0 };
                        let rest = rest_opt->Some_0;
                        assert forall|x: int| 0 <= x < (seq![rv] + rest).len() implies (seq![rv]
                            + rest)[x].wf() by {
                            if x > 0 {
                                assert((seq![rv] + rest)[x] == rest[x - 1]);
                            }
                        }
                    }
                }
            }
        }
    }
}

/// Every sheet the parser accepts satisfies the tree invariant.
pub proof fn lemma_parse_wf(s: Seq<char>)
    ensures
        spec_parse(s) matches Some(sv) ==> sv.wf(),
{
    if scan(s, 0, StopKind::OpenBrace) == s.len() {
        let ds_opt = spec_parse_decls(s, 0);
        if ds_opt is Some && ds_opt->Some_0.len() > 0 {
            let sv = spec_parse(s)->Some_0;
            assert(sv.items[0].wf());
        }
    } else {
        lemma_parse_rules_wf(s, 0);
        let rs_opt = spec_parse_rules(s, 0);
        if rs_opt is Some {
            let rs = rs_opt->Some_0;
            let sv = spec_parse(s)->Some_0;
            assert forall|x: int| 0 <= x < sv.items.len() implies sv.items[x].wf() by {
                assert(sv.items[x] == SheetItemView::Rule(rs[x]));
                assert(rs[x].wf());
            }
        }
    }
}

/// The failure report of [`Sheet::parse`]: the character offset, counted in
/// characters from the start of the text, at which the text stopped making
/// sense.
#[derive(Debug, Clone, Copy, PartialEq, Eq)]
pub struct ParseError {
    pub position: usize,
}

fn is_stop_exec(kind: StopKind, c: char) -> (b: bool)
    ensures
        b == is_stop(kind, c),
{
    match kind {
        StopKind::NonWs => !(c == ' ' || c == '\t' || c == '\n' || c == '\r'),
        StopKind::OpenBrace => c == '{',
        StopKind::AnyBrace => c == '{' || c == '}',
        StopKind::Comma => c == ',',
        StopKind::KeyEnd => c == ':' || c == ';',
        StopKind::Semi => c == ';',
    }
}

fn scan_exec(s: &str, i: usize, kind: StopKind) -> (j: usize)
    requires
        i <= s@.len(),
    ensures
        j as int == scan(s@, i as int, kind),
        i <= j <= s@.len(),
{
    proof {
        lemma_scan(s@, i as int, kind);
    }
    let n = s.unicode_len();
    let mut j = i;
    while j < n
        invariant
            i <= j <= n,
            n == s@.len(),
            scan(s@, i as int, kind) == scan(s@, j as int, kind),
        decreases n - j,
    {
        if is_stop_exec(kind, s.get_char(j)) {
            return j;
        }
        j = j + 1;
    }
    j
}

fn is_ws_exec(c: char) -> (b: bool)
    ensures
        b == is_ws(c),
{
    c == ' ' || c == '\t' || c == '\n' || c == '\r'
}

fn trim_exec(s: &str) -> (r: String)
    ensures
        r@ == spec_trim(s@),
{
    let n = s.unicode_len();
    let a = scan_exec(s, 0, StopKind::NonWs);
    proof {
        lemma_scan(s@, 0, StopKind::NonWs);
        lemma_rstrip(s@);
    }
    if a == n {
        let empty = String::new();
        proof {
            assert(empty@ =~= spec_trim(s@));
        }
        return empty;
    }
    let mut r = n;
    proof {
        assert(s@.subrange(0, n as int) =~= s@);
    }
    while r > a && is_ws_exec(s.get_char(r - 1))
        invariant
            a < r <= n,
            n == s@.len(),
            a == scan(s@, 0, StopKind::NonWs),
            a < s@.len(),
            rstrip(s@.subrange(0, r as int)) == rstrip(s@),
        decreases r,
    {
        proof {
            lemma_scan(s@, 0, StopKind::NonWs);
            assert(!is_ws(s@[a as int]));
            assert(is_ws(s@[r - 1]));
            assert(r - 1 != a);
            assert(s@.subrange(0, r as int).drop_last() =~= s@.subrange(0, r - 1));
        }
        r = r - 1;
    }
    proof {
        assert(!is_ws(s@[r - 1]));
        assert(rstrip(s@.subrange(0, r as int)) == r as int);
        assert(rstrip(s@) == r as int);
    }
    let piece = s.substring_char(a, r);
    let out = String::from_str(piece);
    proof {
        assert(out@ =~= spec_trim(s@));
    }
    out
}

fn parse_declarations(region: &str, i: usize, base: usize) -> (r: Result<
    Vec<Declaration>,
    ParseError,
>)
    requires
        i <= region@.len(),
        base + region@.len() <= usize::MAX,
    ensures
        match r {
            Result::Ok(ds) => spec_parse_decls(region@, i as int) == Some(
                ds@.map_values(|d: Declaration| d@),
            ),
            Result::Err(_) => spec_parse_decls(region@, i as int) is None,
        },
    decreases region@.len() - i,
{
    let n = region.unicode_len();
    let j = scan_exec(region, i, StopKind::NonWs);
    if j == n {
        let ds: Vec<Declaration> = Vec::new();
        proof {
            assert(ds@.map_values(|d: Declaration| d@) =~= Seq::<DeclarationView>::empty());
        }
        return Ok(ds);
    }
    let k = scan_exec(region, j, StopKind::KeyEnd);
    if k == n || region.get_char(k) == ';' {
        return Err(ParseError { position: base + k });
    }
    let key = trim_exec(region.substring_char(j, k));
    if key.as_str().is_empty() {
        return Err(ParseError { position: base + j });
    }
    let m = scan_exec(region, k + 1, StopKind::Semi);
    let value = trim_exec(region.substring_char(k + 1, m));
    if value.as_str().is_empty() {
        return Err(ParseError { position: base + k });
    }
    let next = if m == n {
        m
    } else {
        m + 1
    };
    match parse_declarations(region, next, base) {
        Err(e) => Err(e),
        Ok(mut rest) => {
            let ghost keyv = key@;
            let ghost valuev = value@;
            let ghost restv = rest@.map_values(|d: Declaration| d@);
            let d = Declaration { key, value };
            rest.insert(0, d);
            proof {
                assert(rest@.map_values(|d: Declaration| d@) =~= seq![
                    DeclarationView { key: keyv, value: valuev },
                ] + restv);
            }
            Ok(rest)
        },
    }
}

fn parse_selectors(region: &str, i: usize, base: usize) -> (r: Result<Vec<Selector>, ParseError>)
    requires
        i <= region@.len(),
        base + region@.len() <= usize::MAX,
    ensures
        match r {
            Result::Ok(sels) => spec_parse_selectors(region@, i as int) == Some(
                sels@.map_values(|x: Selector| x@),
            ),
            Result::Err(_) => spec_parse_selectors(region@, i as int) is None,
        },
    decreases region@.len() - i,
{
    let n = region.unicode_len();
    let k = scan_exec(region, i, StopKind::Comma);
    let t = trim_exec(region.substring_char(i, k));
    if t.as_str().is_empty() {
        return Err(ParseError { position: base + i });
    }
    let ghost tv = t@;
    if k == n {
        let mut sels: Vec<Selector> = Vec::new();
        sels.push(Selector { inner: t });
        proof {
            assert(sels@.map_values(|x: Selector| x@) =~= seq![tv]);
        }
        return Ok(sels);
    }
    match parse_selectors(region, k + 1, base) {
        Err(e) => Err(e),
        Ok(mut rest) => {
            let ghost restv = rest@.map_values(|x: Selector| x@);
            rest.insert(0, Selector { inner: t });
            proof {
                assert(rest@.map_values(|x: Selector| x@) =~= seq![tv] + restv);
            }
            Ok(rest)
        },
    }
}

fn parse_rule_items(s: &str, i: usize) -> (r: Result<Vec<SheetItem>, ParseError>)
    requires
        i <= s@.len(),
    ensures
        match r {
            Result::Ok(items) => {
                &&& spec_parse_rules(s@, i as int) matches Some(rs)
                &&& items@.map_values(|it: SheetItem| it@) == rs.map_values(
                    |rv: RuleView| SheetItemView::Rule(rv),
                )
            },
            Result::Err(_) => spec_parse_rules(s@, i as int) is None,
        },
    decreases s@.len() - i,
{
    let n = s.unicode_len();
    let j = scan_exec(s, i, StopKind::NonWs);
    if j == n {
        let items: Vec<SheetItem> = Vec::new();
        proof {
            assert(items@.map_values(|it: SheetItem| it@) =~= Seq::<SheetItemView>::empty());
            assert(Seq::<RuleView>::empty().map_values(|rv: RuleView| SheetItemView::Rule(rv))
                =~= Seq::<SheetItemView>::empty());
        }
        return Ok(items);
    }
    let b = scan_exec(s, j, StopKind::OpenBrace);
    if b == n {
        return Err(ParseError { position: j });
    }
    let sel_region = s.substring_char(j, b);
    let sels = match parse_selectors(sel_region, 0, j) {
        Err(e) => {
            return Err(e);
        },
        Ok(v) => v,
    };
    let c = scan_exec(s, b + 1, StopKind::AnyBrace);
    if c == n {
        return Err(ParseError { position: b });
    }
    if s.get_char(c) == '{' {
        return Err(ParseError { position: c });
    }
    let body_region = s.substring_char(b + 1, c);
    let ds = match parse_declarations(body_region, 0, b + 1) {
        Err(e) => {
            return Err(e);
        },
        Ok(v) => v,
    };
    match parse_rule_items(s, c + 1) {
        Err(e) => Err(e),
        Ok(mut rest) => {
            let ghost selsv = sels@.map_values(|x: Selector| x@);
            let ghost dsv = ds@.map_values(|d: Declaration| d@);
            let ghost restv = rest@.map_values(|it: SheetItem| it@);
            let ghost rest_rs = spec_parse_rules(s@, c + 1 as int)->Some_0;
            let rule = Rule { selectors: sels, declarations: ds };
            rest.insert(0, SheetItem::Rule(rule));
            proof {
                let rv = RuleView { selectors: selsv, declarations: dsv };
                assert(rest@.map_values(|it: SheetItem| it@) =~= seq![SheetItemView::Rule(rv)]
                    + restv);
                assert((seq![rv] + rest_rs).map_values(|x: RuleView| SheetItemView::Rule(x)) =~=
                    seq![SheetItemView::Rule(rv)] + rest_rs.map_values(
                    |x: RuleView| SheetItemView::Rule(x),
                ));
            }
            Ok(rest)
        },
    }
}

impl Sheet {
    /// Builds a stylesheet tree from raw text. Returns the tree exactly when
    /// the text is well-formed under the grammar described at the module
    /// level, and that tree satisfies the tree invariant; otherwise reports
    /// the offset at which parsing failed, and no partially built tree
    /// escapes.
    pub fn parse(text: &str) -> (r: Result<Sheet, ParseError>)
        ensures
            match r {
                Result::Ok(sheet) => spec_parse(text@) == Some(sheet@) && sheet@.wf(),
                Result::Err(_) => spec_parse(text@) is None,
            },
    {
        proof {
            lemma_parse_wf(text@);
        }
        let n = text.unicode_len();
        let brace = scan_exec(text, 0, StopKind::OpenBrace);
        if brace == n {
            match parse_declarations(text, 0, 0) {
                Err(e) => Err(e),
                Ok(ds) => {
                    if ds.is_empty() {
                        let sheet = Sheet { items: Vec::new() };
                        proof {
                            assert(ds@.map_values(|d: Declaration| d@) =~= Seq::<
                                DeclarationView,
                            >::empty());
                            assert(sheet@ =~= SheetView { items: Seq::<SheetItemView>::empty() });
                        }
                        Ok(sheet)
                    } else {
                        let ghost dsv = ds@.map_values(|d: Declaration| d@);
                        let mut sels: Vec<Selector> = Vec::new();
                        sels.push(Selector { inner: String::from_str("&") });
                        proof {
                            reveal_strlit("&");
                            assert(sels@.map_values(|x: Selector| x@) =~~= seq![seq!['&']]);
                        }
                        let rule = Rule { selectors: sels, declarations: ds };
                        let mut items: Vec<SheetItem> = Vec::new();
                        items.push(SheetItem::Rule(rule));
                        let sheet = Sheet { items };
                        proof {
                            assert(sheet@ =~= SheetView {
                                items: seq![
                                    SheetItemView::Rule(
                                        RuleView { selectors: seq![seq!['&']], declarations: dsv },
                                    ),
                                ],
                            });
                        }
                        Ok(sheet)
                    }
                },
            }
        } else {
            match parse_rule_items(text, 0) {
                Err(e) => Err(e),
                Ok(items) => {
                    let ghost rs = spec_parse_rules(text@, 0)->Some_0;
                    let sheet = Sheet { items };
                    proof {
                        assert(sheet@ =~= SheetView {
                            items: rs.map_values(|r: RuleView| SheetItemView::Rule(r)),
                        });
                    }
                    Ok(sheet)
                },
            }
        }
    }
}

} // verus!
