//! Terminal style objects: a frozen pair of a generated scope identifier and
//! the stylesheet text rendered once against it.
//!
//! Construction draws one sample of process-local entropy, derives the scope
//! identifier `stylist-<token>` from it, renders the shared tree against that
//! identifier and stores both immutably. A [`Style`] is meant to be attached
//! to elements through its class name; a [`GlobalStyle`] is meant to be
//! injected at the document root, so its callers are not expected to attach
//! the identifier anywhere, but it is built by the same render, so `&` and
//! `:root` anchors are still rewritten against its own identifier.

use vstd::prelude::*;
use vstd::string::*;
use std::collections::hash_map::RandomState;
use std::hash::BuildHasher;
use std::hash::Hasher;
use crate::ast::SheetRef;
use crate::ast::spec_render_sheet;
use crate::selector::push_char;

verus! {

/// A character allowed in a generated scope identifier: an ASCII lower-case
/// letter, a decimal digit, or a hyphen.
pub open spec fn wf_class_char(c: char) -> bool {
    ||| 97 <= c as u32 && c as u32 <= 122
    ||| 48 <= c as u32 && c as u32 <= 57
    ||| c as u32 == 45
}

/// A non-empty string safe for use as a CSS class name. Such a string holds
/// neither `&` nor `:`, so substituting it into a selector cannot introduce
/// new anchor tokens.
pub open spec fn wf_class_name(id: Seq<char>) -> bool {
    id.len() > 0 && forall|i: int| 0 <= i < id.len() ==> wf_class_char(id[i])
}

/// The base-36 digit character for `d`: `0`-`9` then `a`-`z`.
pub open spec fn token_char(d: int) -> char {
    if d < 10 {
        ((48 + d) as u8) as char
    } else {
        ((87 + d) as u8) as char
    }
}

/// The `k` base-36 digits of `n`, least significant first.
pub open spec fn spec_token(n: int, k: nat) -> Seq<char>
    decreases k,
{
    if k == 0 {
        Seq::<char>::empty()
    } else {
        seq![token_char(n % 36)] + spec_token(n / 36, (k - 1) as nat)
    }
}

/// The scope identifier derived from one entropy sample: a fixed prefix plus
/// an eight-digit token.
pub open spec fn generated_class_name(e: u64) -> Seq<char> {
    "stylist-"@ + spec_token(e as int, 8)
}

/// Every token is eight identifier-safe characters.
pub proof fn lemma_token_chars_wf(n: int, k: nat)
    requires
        n >= 0,
    ensures
        spec_token(n, k).len() == k,
        forall|i: int| 0 <= i < k ==> wf_class_char(spec_token(n, k)[i]),
    decreases k,
{
    if k > 0 {
        lemma_token_chars_wf(n / 36, (k - 1) as nat);
        assert(0 <= n % 36 < 36);
        assert(wf_class_char(token_char(n % 36)));
        assert forall|i: int| 0 <= i < k implies wf_class_char(spec_token(n, k)[i]) by {
            if i > 0 {
                assert(spec_token(n, k)[i] == spec_token(n / 36, (k - 1) as nat)[i - 1]);
            }
        }
    }
}

/// Every generated scope identifier is a well-formed class name of sixteen
/// characters starting with the fixed prefix.
pub proof fn lemma_generated_class_name_wf(e: u64)
    ensures
        wf_class_name(generated_class_name(e)),
        generated_class_name(e).len() == 16,
{
    reveal_strlit("stylist-");
    lemma_token_chars_wf(e as int, 8);
    let id = generated_class_name(e);
    assert forall|i: int| 0 <= i < id.len() implies wf_class_char(id[i]) by {
        if i >= 8 {
            assert(id[i] == spec_token(e as int, 8)[i - 8]);
        } else {
            assert(wf_class_char("stylist-"@[i]));
        }
    }
}

/// One fresh sample of process-local entropy.
///
/// Relies on std::collections::hash_map::RandomState: each instance made by
/// RandomState::new carries freshly drawn keys, so the finished hash differs
/// between two instances with overwhelming probability. Nothing is promised
/// of the returned value.
#[verifier::external_body]
fn fresh_entropy() -> u64 {
    let state = RandomState::new();
    let hasher = state.build_hasher();
    hasher.finish()
}

/// The eight-digit token of one entropy sample, least significant digit
/// first.
fn encode_token(n0: u64) -> (r: String)
    ensures
        r@ == spec_token(n0 as int, 8),
{
    let mut out = String::new();
    let mut n = n0;
    let mut k: usize = 0;
    proof {
        assert(out@ + spec_token(n0 as int, 8) =~= spec_token(n0 as int, 8));
    }
    while k < 8
        invariant
            k <= 8,
            out@ + spec_token(n as int, (8 - k) as nat) == spec_token(n0 as int, 8),
        decreases 8 - k,
    {
        let d = n % 36;
        let b: u8 = if d < 10 {
            (48 + d) as u8
        } else {
            (87 + d) as u8
        };
        let c: char = b as char;
        proof {
            assert(c == token_char(n as int % 36));
        }
        push_char(&mut out, c);
        proof {
            assert(out@ + spec_token(n as int / 36, (8 - (k + 1)) as nat) =~= spec_token(
                n0 as int,
                8,
            ));
        }
        n = n / 36;
        k = k + 1;
    }
    proof {
        assert(spec_token(n as int, 0) =~= Seq::<char>::empty());
        assert(out@ =~= spec_token(n0 as int, 8));
    }
    out
}

/// Builds the frozen pair for one entropy sample: the scope identifier and
/// the tree rendered against it.
fn build_parts(sheet: &SheetRef, entropy: u64) -> (r: (String, String))
    ensures
        r.0@ == generated_class_name(entropy),
        r.1@ == spec_render_sheet(sheet@, r.0@),
{
    let mut class_name = String::from_str("stylist-");
    let token = encode_token(entropy);
    class_name.append(token.as_str());
    let style_str = sheet.to_style_str(class_name.as_str());
    (class_name, style_str)
}

/// Mathematical content of a [`Style`] or [`GlobalStyle`]: the scope
/// identifier and the rendered stylesheet text.
#[verifier::ext_equal]
pub struct StyleView {
    pub class_name: Seq<char>,
    pub style_str: Seq<char>,
}

/// A scoped style: a generated scope identifier plus the stylesheet text
/// rendered once against it. Immutable after construction.
#[derive(Debug)]
pub struct Style {
    class_name: String,
    style_str: String,
}

impl View for Style {
    type V = StyleView;

    closed spec fn view(&self) -> StyleView {
        StyleView { class_name: self.class_name@, style_str: self.style_str@ }
    }
}

impl Style {
    /// Builds a style from a shared tree: allocates a fresh scope identifier
    /// and renders the tree once against it. Rendering is total, so
    /// construction from an already-parsed tree cannot fail.
    pub fn new(sheet: SheetRef) -> (s: Style)
        ensures
            wf_class_name(s@.class_name),
            exists|e: u64| s@.class_name == generated_class_name(e),
            s@.style_str == spec_render_sheet(sheet@, s@.class_name),
    {
        let e = fresh_entropy();
        proof {
            lemma_generated_class_name_wf(e);
        }
        Style::with_entropy(sheet, e)
    }

    /// Builds the style that the given entropy sample determines: the whole
    /// result is a function of the tree content and the sample.
    pub fn with_entropy(sheet: SheetRef, entropy: u64) -> (s: Style)
        ensures
            s@.class_name == generated_class_name(entropy),
            wf_class_name(s@.class_name),
            s@.style_str == spec_render_sheet(sheet@, s@.class_name),
    {
        proof {
            lemma_generated_class_name_wf(entropy);
        }
        let parts = build_parts(&sheet, entropy);
        Style { class_name: parts.0, style_str: parts.1 }
    }

    /// The scope identifier, to be attached to elements as a class name.
    pub fn get_class_name(&self) -> (r: &str)
        ensures
            r@ == self@.class_name,
    {
        self.class_name.as_str()
    }

    /// The rendered, scoped stylesheet text.
    pub fn get_style_str(&self) -> (r: &str)
        ensures
            r@ == self@.style_str,
    {
        self.style_str.as_str()
    }
}

/// A style meant for injection at the document root. It is built by the same
/// render as [`Style`]; only the usage intent differs, so callers are not
/// expected to attach its identifier to any element.
#[derive(Debug)]
pub struct GlobalStyle {
    class_name: String,
    style_str: String,
}

impl View for GlobalStyle {
    type V = StyleView;

    closed spec fn view(&self) -> StyleView {
        StyleView { class_name: self.class_name@, style_str: self.style_str@ }
    }
}

impl GlobalStyle {
    /// Builds a global style from a shared tree; see [`Style::new`].
    pub fn new(sheet: SheetRef) -> (s: GlobalStyle)
        ensures
            wf_class_name(s@.class_name),
            exists|e: u64| s@.class_name == generated_class_name(e),
            s@.style_str == spec_render_sheet(sheet@, s@.class_name),
    {
        let e = fresh_entropy();
        proof {
            lemma_generated_class_name_wf(e);
        }
        GlobalStyle::with_entropy(sheet, e)
    }

    /// Builds the global style that the given entropy sample determines.
    pub fn with_entropy(sheet: SheetRef, entropy: u64) -> (s: GlobalStyle)
        ensures
            s@.class_name == generated_class_name(entropy),
            wf_class_name(s@.class_name),
            s@.style_str == spec_render_sheet(sheet@, s@.class_name),
    {
        proof {
            lemma_generated_class_name_wf(entropy);
        }
        let parts = build_parts(&sheet, entropy);
        GlobalStyle { class_name: parts.0, style_str: parts.1 }
    }

    /// The scope identifier the style was rendered against.
    pub fn get_class_name(&self) -> (r: &str)
        ensures
            r@ == self@.class_name,
    {
        self.class_name.as_str()
    }

    /// The rendered stylesheet text.
    pub fn get_style_str(&self) -> (r: &str)
        ensures
            r@ == self@.style_str,
    {
        self.style_str.as_str()
    }
}

} // verus!
