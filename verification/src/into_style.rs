//! The style source dispatcher: a tagged union over "raw text not yet
//! parsed" and "already-shared stylesheet handle", normalized on demand to a
//! shared handle and further to a terminal [`Style`] or [`GlobalStyle`].
//!
//! Resolving a handle never fails and never re-parses; resolving raw text
//! runs the parser on every call and fails exactly on text the grammar
//! rejects. The `to_*` methods demand resolvable input, as the reference
//! behaviour treats a malformed stylesheet as a precondition violation; the
//! `try_to_*` methods are their total counterparts and surface the
//! [`ParseError`] instead.

use vstd::prelude::*;
use vstd::string::*;
use crate::ast::Sheet;
use crate::ast::SheetRef;
use crate::ast::SheetView;
use crate::ast::spec_render_sheet;
use crate::parser::ParseError;
use crate::parser::spec_parse;
use crate::style::GlobalStyle;
use crate::style::Style;
use crate::style::generated_class_name;
use crate::style::wf_class_name;

verus! {

/// Mathematical content of an [`IntoStyle`]: the raw text, or the content of
/// the shared tree.
#[verifier::ext_equal]
pub enum IntoStyleView {
    Text(Seq<char>),
    Sheet(SheetView),
}

/// A style source: raw stylesheet text, or a shared handle over an already
/// parsed tree.
#[derive(Debug)]
pub enum IntoStyle {
    String(String),
    Sheet(SheetRef),
}

impl View for IntoStyle {
    type V = IntoStyleView;

    open spec fn view(&self) -> IntoStyleView {
        match self {
            IntoStyle::String(s) => IntoStyleView::Text(s@),
            IntoStyle::Sheet(m) => IntoStyleView::Sheet(m@),
        }
    }
}

/// The tree content a style source normalizes to: a handle resolves to its
/// own tree, raw text to what it parses to.
pub open spec fn spec_resolved(v: IntoStyleView) -> Option<SheetView> {
    match v {
        IntoStyleView::Text(t) => spec_parse(t),
        IntoStyleView::Sheet(sv) => Some(sv),
    }
}

/// True when resolving cannot fail: a handle is always resolvable, raw text
/// exactly when the grammar accepts it.
pub open spec fn resolvable(v: IntoStyleView) -> bool {
    spec_resolved(v) is Some
}

impl Clone for IntoStyle {
    /// Cloning keeps the content: text is copied, a handle is cheaply
    /// shared.
    fn clone(&self) -> (r: Self)
        ensures
            r@ == self@,
    {
        match self {
            IntoStyle::String(s) => IntoStyle::String(s.clone()),
            IntoStyle::Sheet(m) => IntoStyle::Sheet(m.clone()),
        }
    }
}

impl IntoStyle {
    /// Normalizes to a shared handle. A handle variant is cloned without
    /// re-parsing; raw text is parsed on every call.
    pub fn to_sheet(&self) -> (r: SheetRef)
        requires
            resolvable(self@),
        ensures
            Some(r@) == spec_resolved(self@),
    {
        match self {
            IntoStyle::Sheet(m) => m.clone(),
            IntoStyle::String(t) => match Sheet::parse(t.as_str()) {
                Result::Ok(sheet) => SheetRef::new(sheet),
                Result::Err(_) => vstd::pervasive::unreached(),
            },
        }
    }

    /// Normalizes to a shared handle, surfacing the parse failure of raw
    /// text instead of demanding resolvable input.
    pub fn try_to_sheet(&self) -> (r: Result<SheetRef, ParseError>)
        ensures
            match r {
                Result::Ok(sheet) => Some(sheet@) == spec_resolved(self@),
                Result::Err(_) => !resolvable(self@),
            },
    {
        match self {
            IntoStyle::Sheet(m) => Ok(m.clone()),
            IntoStyle::String(t) => match Sheet::parse(t.as_str()) {
                Result::Ok(sheet) => Ok(SheetRef::new(sheet)),
                Result::Err(e) => Err(e),
            },
        }
    }

    /// Resolves to a handle and builds a scoped [`Style`] against a freshly
    /// allocated scope identifier.
    pub fn to_style(&self) -> (s: Style)
        requires
            resolvable(self@),
        ensures
            wf_class_name(s@.class_name),
            exists|e: u64| s@.class_name == generated_class_name(e),
            ({
                &&& spec_resolved(self@) matches Some(sv)
                &&& s@.style_str == spec_render_sheet(sv, s@.class_name)
            }),
    {
        Style::new(self.to_sheet())
    }

    /// Resolves to a handle and builds a [`GlobalStyle`] against a freshly
    /// allocated scope identifier.
    pub fn to_global_style(&self) -> (s: GlobalStyle)
        requires
            resolvable(self@),
        ensures
            wf_class_name(s@.class_name),
            exists|e: u64| s@.class_name == generated_class_name(e),
            ({
                &&& spec_resolved(self@) matches Some(sv)
                &&& s@.style_str == spec_render_sheet(sv, s@.class_name)
            }),
    {
        GlobalStyle::new(self.to_sheet())
    }

    /// The total counterpart of `to_style`: fails with the [`ParseError`]
    /// exactly when the source is unresolvable raw text, and never exposes a
    /// partially built style.
    pub fn try_to_style(&self) -> (r: Result<Style, ParseError>)
        ensures
            match r {
                Result::Ok(s) => {
                    &&& resolvable(self@)
                    &&& wf_class_name(s@.class_name)
                    &&& exists|e: u64| s@.class_name == generated_class_name(e)
                    &&& spec_resolved(self@) matches Some(sv)
                    &&& s@.style_str == spec_render_sheet(sv, s@.class_name)
                },
                Result::Err(_) => !resolvable(self@),
            },
    {
        match self.try_to_sheet() {
            Result::Ok(sheet) => Ok(Style::new(sheet)),
            Result::Err(e) => Err(e),
        }
    }

    /// The total counterpart of `to_global_style`.
    pub fn try_to_global_style(&self) -> (r: Result<GlobalStyle, ParseError>)
        ensures
            match r {
                Result::Ok(s) => {
                    &&& resolvable(self@)
                    &&& wf_class_name(s@.class_name)
                    &&& exists|e: u64| s@.class_name == generated_class_name(e)
                    &&& spec_resolved(self@) matches Some(sv)
                    &&& s@.style_str == spec_render_sheet(sv, s@.class_name)
                },
                Result::Err(_) => !resolvable(self@),
            },
    {
        match self.try_to_sheet() {
            Result::Ok(sheet) => Ok(GlobalStyle::new(sheet)),
            Result::Err(e) => Err(e),
        }
    }
}

impl From<String> for IntoStyle {
    fn from(other: String) -> (r: IntoStyle)
        ensures
            r@ == IntoStyleView::Text(other@),
    {
        IntoStyle::String(other)
    }
}

impl vstd::std_specs::convert::FromSpecImpl<String> for IntoStyle {
    open spec fn obeys_from_spec() -> bool {
        false
    }

    open spec fn from_spec(other: String) -> IntoStyle {
        vstd::pervasive::arbitrary()
    }
}

impl<'a> From<&'a str> for IntoStyle {
    fn from(other: &'a str) -> (r: IntoStyle)
        ensures
            r@ == IntoStyleView::Text(other@),
    {
        IntoStyle::String(String::from_str(other))
    }
}

impl<'a> vstd::std_specs::convert::FromSpecImpl<&'a str> for IntoStyle {
    open spec fn obeys_from_spec() -> bool {
        false
    }

    open spec fn from_spec(other: &'a str) -> IntoStyle {
        vstd::pervasive::arbitrary()
    }
}

impl From<Sheet> for IntoStyle {
    fn from(other: Sheet) -> (r: IntoStyle)
        ensures
            r@ == IntoStyleView::Sheet(other@),
    {
        IntoStyle::Sheet(SheetRef::new(other))
    }
}

impl vstd::std_specs::convert::FromSpecImpl<Sheet> for IntoStyle {
    open spec fn obeys_from_spec() -> bool {
        false
    }

    open spec fn from_spec(other: Sheet) -> IntoStyle {
        vstd::pervasive::arbitrary()
    }
}

impl From<SheetRef> for IntoStyle {
    fn from(other: SheetRef) -> (r: IntoStyle)
        ensures
            r@ == IntoStyleView::Sheet(other@),
    {
        IntoStyle::Sheet(other)
    }
}

impl vstd::std_specs::convert::FromSpecImpl<SheetRef> for IntoStyle {
    open spec fn obeys_from_spec() -> bool {
        false
    }

    open spec fn from_spec(other: SheetRef) -> IntoStyle {
        vstd::pervasive::arbitrary()
    }
}

} // verus!
