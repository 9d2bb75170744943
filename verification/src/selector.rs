//! A single CSS selector and the algorithm that rewrites it against a scope
//! identifier.
//!
//! The rewrite is evaluated in this precedence order:
//! 1. if the selector text holds the anchor token `&` or the pseudo-class
//!    token `:root`, every occurrence of either token is replaced by the
//!    class reference `.<identifier>` and nothing else changes;
//! 2. else, if the text starts with `:`, the class reference is prefixed with
//!    no separating space, compounding onto the scope root itself;
//! 3. otherwise the class reference plus one space is prefixed, scoping the
//!    selector to descendants of the scope root.
//!
//! The substitution is literal and not selector-aware: a token inside a quoted
//! attribute value is rewritten all the same.

use vstd::prelude::*;
use vstd::string::*;

verus! {

/// True when position `i` of `s` holds the self-reference token `&`.
pub open spec fn amp_at(s: Seq<char>, i: int) -> bool {
    0 <= i < s.len() && s[i] == '&'
}

/// True when the five characters of `s` starting at position `i` spell the
/// root token `:root`.
pub open spec fn root_at(s: Seq<char>, i: int) -> bool {
    &&& 0 <= i
    &&& i + 5 <= s.len()
    &&& s[i] == ':'
    &&& s[i + 1] == 'r'
    &&& s[i + 2] == 'o'
    &&& s[i + 3] == 'o'
    &&& s[i + 4] == 't'
}

/// True when `s` holds the token `&` anywhere.
pub open spec fn contains_amp(s: Seq<char>) -> bool {
    exists|i: int| amp_at(s, i)
}

/// True when `s` holds the token `:root` anywhere.
pub open spec fn contains_root_token(s: Seq<char>) -> bool {
    exists|i: int| root_at(s, i)
}

/// True when `s` holds either anchor token.
pub open spec fn has_anchor_token(s: Seq<char>) -> bool {
    contains_amp(s) || contains_root_token(s)
}

/// The class reference built from a scope identifier: `.<identifier>`.
pub open spec fn anchor_of(id: Seq<char>) -> Seq<char> {
    seq!['.'] + id
}

/// One left-to-right pass over `s` that replaces every occurrence of `&` and
/// every occurrence of `:root` by `anchor` and copies every other character
/// unchanged. At a position where a token starts, the whole token is consumed;
/// `&` is tried before `:root`, which never conflicts since the tokens start
/// with distinct characters.
pub open spec fn subst_anchors(s: Seq<char>, anchor: Seq<char>) -> Seq<char>
    decreases s.len(),
{
    if s.len() == 0 {
        Seq::<char>::empty()
    } else if s[0] == '&' {
        anchor + subst_anchors(s.skip(1), anchor)
    } else if root_at(s, 0) {
        anchor + subst_anchors(s.skip(5), anchor)
    } else {
        seq![s[0]] + subst_anchors(s.skip(1), anchor)
    }
}

/// What rewriting selector text `s` against scope identifier `id` returns.
pub open spec fn spec_render_selector(s: Seq<char>, id: Seq<char>) -> Seq<char> {
    if has_anchor_token(s) {
        subst_anchors(s, anchor_of(id))
    } else if s.len() > 0 && s[0] == ':' {
        anchor_of(id) + s
    } else {
        anchor_of(id) + seq![' '] + s
    }
}

/// A CSS selector: the literal text of one scoping unit, e.g.
/// `div[attr="val"].my-class`, `&.big`, `:hover` or `:root.big`.
#[derive(Debug, PartialEq, Eq, Hash)]
pub struct Selector {
    pub inner: String,
}

impl View for Selector {
    type V = Seq<char>;

    open spec fn view(&self) -> Seq<char> {
        self.inner@
    }
}

impl Clone for Selector {
    fn clone(&self) -> (r: Self)
        ensures
            r@ == self@,
    {
        Selector { inner: self.inner.clone() }
    }
}

impl<'a> From<&'a str> for Selector {
    fn from(s: &'a str) -> (r: Self)
        ensures
            r@ == s@,
    {
        Selector { inner: String::from_str(s) }
    }
}

impl<'a> vstd::std_specs::convert::FromSpecImpl<&'a str> for Selector {
    open spec fn obeys_from_spec() -> bool {
        false
    }

    open spec fn from_spec(s: &'a str) -> Selector {
        vstd::pervasive::arbitrary()
    }
}

impl From<String> for Selector {
    fn from(s: String) -> (r: Self)
        ensures
            r@ == s@,
    {
        Selector { inner: s }
    }
}

impl vstd::std_specs::convert::FromSpecImpl<String> for Selector {
    open spec fn obeys_from_spec() -> bool {
        false
    }

    open spec fn from_spec(s: String) -> Selector {
        vstd::pervasive::arbitrary()
    }
}

/// Scans `s` for an anchor token.
fn has_anchor_token_exec(s: &str) -> (b: bool)
    ensures
        b == has_anchor_token(s@),
{
    let n = s.unicode_len();
    let mut i: usize = 0;
    while i < n
        invariant
            i <= n,
            n == s@.len(),
            forall|j: int| 0 <= j < i ==> !amp_at(s@, j) && !root_at(s@, j),
        decreases n - i,
    {
        let c = s.get_char(i);
        if c == '&' {
            proof {
                assert(amp_at(s@, i as int));
            }
            return true;
        }
        if c == ':' && n - i >= 5 && s.get_char(i + 1) == 'r' && s.get_char(i + 2) == 'o'
            && s.get_char(i + 3) == 'o' && s.get_char(i + 4) == 't' {
            proof {
                assert(root_at(s@, i as int));
            }
            return true;
        }
        i = i + 1;
    }
    proof {
        assert forall|j: int| !amp_at(s@, j) && !root_at(s@, j) by {
            if 0 <= j < n {
                assert(!amp_at(s@, j) && !root_at(s@, j));
            }
        }
    }
    false
}

/// One pass over `s` replacing every `&` and every `:root` by `anchor`.
fn subst_anchors_exec(s: &str, anchor: &str) -> (r: String)
    ensures
        r@ == subst_anchors(s@, anchor@),
{
    let n = s.unicode_len();
    let mut out = String::new();
    let mut i: usize = 0;
    proof {
        assert(s@.skip(0) =~= s@);
        assert(out@ + subst_anchors(s@, anchor@) =~= subst_anchors(s@, anchor@));
    }
    while i < n
        invariant
            i <= n,
            n == s@.len(),
            out@ + subst_anchors(s@.skip(i as int), anchor@) == subst_anchors(s@, anchor@),
        decreases n - i,
    {
        let ghost rest = s@.skip(i as int);
        let c = s.get_char(i);
        proof {
            assert(rest[0] == s@[i as int]);
        }
        if c == '&' {
            out.append(anchor);
            proof {
                assert(rest.skip(1) =~= s@.skip(i + 1));
                assert(out@ + subst_anchors(s@.skip(i + 1), anchor@) =~= subst_anchors(
                    s@,
                    anchor@,
                ));
            }
            i = i + 1;
        } else if c == ':' && n - i >= 5 && s.get_char(i + 1) == 'r' && s.get_char(i + 2) == 'o'
            && s.get_char(i + 3) == 'o' && s.get_char(i + 4) == 't' {
            out.append(anchor);
            proof {
                assert(root_at(rest, 0));
                assert(rest.skip(5) =~= s@.skip(i + 5));
                assert(out@ + subst_anchors(s@.skip(i + 5), anchor@) =~= subst_anchors(
                    s@,
                    anchor@,
                ));
            }
            i = i + 5;
        } else {
            proof {
                assert(!root_at(rest, 0));
            }
            push_char(&mut out, c);
            proof {
                assert(rest.skip(1) =~= s@.skip(i + 1));
                assert(out@ + subst_anchors(s@.skip(i + 1), anchor@) =~= subst_anchors(
                    s@,
                    anchor@,
                ));
            }
            i = i + 1;
        }
    }
    proof {
        assert(s@.skip(n as int) =~= Seq::<char>::empty());
        assert(out@ =~= subst_anchors(s@, anchor@));
    }
    out
}

/// Appends one character.
///
/// Relies on alloc::string::String::push: it appends exactly the given
/// character to the end of the string.
#[verifier::external_body]
pub(crate) fn push_char(s: &mut String, c: char)
    ensures
        final(s)@ == old(s)@.push(c),
{
    s.push(c)
}

impl Selector {
    /// Rewrites this selector against the scope identifier `class_name`,
    /// following the precedence order described at the module level.
    pub fn to_style_str(&self, class_name: &str) -> (r: String)
        ensures
            r@ == spec_render_selector(self@, class_name@),
    {
        let mut anchor = String::from_str(".");
        proof {
            reveal_strlit(".");
            assert(anchor@ =~= seq!['.']);
        }
        anchor.append(class_name);
        proof {
            assert(anchor@ =~= anchor_of(class_name@));
        }
        if has_anchor_token_exec(self.inner.as_str()) {
            subst_anchors_exec(self.inner.as_str(), anchor.as_str())
        } else if !self.inner.as_str().is_empty() && self.inner.as_str().get_char(0) == ':' {
            anchor.append(self.inner.as_str());
            proof {
                assert(anchor@ =~= anchor_of(class_name@) + self@);
            }
            anchor
        } else {
            push_char(&mut anchor, ' ');
            anchor.append(self.inner.as_str());
            proof {
                assert(anchor@ =~= anchor_of(class_name@) + seq![' '] + self@);
            }
            anchor
        }
    }
}

/// Descendant-scoping law: a selector holding no anchor token and not starting
/// with `:` renders as the class reference, one space, then the selector text
/// unchanged.
pub proof fn lemma_render_descendant(s: Seq<char>, id: Seq<char>)
    requires
        !contains_amp(s),
        !contains_root_token(s),
        s.len() == 0 || s[0] != ':',
    ensures
        spec_render_selector(s, id) == anchor_of(id) + seq![' '] + s,
{
}

/// Leading-pseudo-class law: a selector starting with `:` and holding no
/// anchor token renders as the class reference prefixed with no separating
/// space. (A selector such as `:root.big` starts with `:` but holds the
/// `:root` token, so the substitution rule takes it instead.)
pub proof fn lemma_render_leading_pseudo(s: Seq<char>, id: Seq<char>)
    requires
        !contains_amp(s),
        !contains_root_token(s),
        s.len() > 0,
        s[0] == ':',
    ensures
        spec_render_selector(s, id) == anchor_of(id) + s,
{
}

/// Anchor-substitution law: a selector holding an anchor token renders as one
/// substitution pass, which replaces every occurrence of `&` and of `:root`
/// by the class reference and changes no other character.
pub proof fn lemma_render_anchor_substitution(s: Seq<char>, id: Seq<char>)
    requires
        contains_amp(s) || contains_root_token(s),
    ensures
        spec_render_selector(s, id) == subst_anchors(s, anchor_of(id)),
{
}

/// Rule-precedence law: a selector that starts with `:` but also holds an
/// embedded `&` is handled by the anchor-substitution rule, not by the
/// leading-pseudo-class rule.
pub proof fn lemma_render_precedence(s: Seq<char>, id: Seq<char>)
    requires
        s.len() > 0,
        s[0] == ':',
        contains_amp(s),
    ensures
        spec_render_selector(s, id) == subst_anchors(s, anchor_of(id)),
{
}

/// The substitution pass changes nothing in text that holds no anchor token.
pub proof fn lemma_subst_preserves_plain(s: Seq<char>, anchor: Seq<char>)
    requires
        !contains_amp(s),
        !contains_root_token(s),
    ensures
        subst_anchors(s, anchor) == s,
    decreases s.len(),
{
    if s.len() == 0 {
        assert(subst_anchors(s, anchor) =~= s);
    } else {
        if s[0] == '&' {
            assert(amp_at(s, 0));
            assert(false);
        }
        if root_at(s, 0) {
            assert(false);
        }
        assert(!contains_amp(s.skip(1))) by {
            if contains_amp(s.skip(1)) {
                let j = choose|j: int| amp_at(s.skip(1), j);
                assert(amp_at(s, j + 1));
            }
        }
        assert(!contains_root_token(s.skip(1))) by {
            if contains_root_token(s.skip(1)) {
                let j = choose|j: int| root_at(s.skip(1), j);
                assert(root_at(s, j + 1));
            }
        }
        lemma_subst_preserves_plain(s.skip(1), anchor);
        assert(seq![s[0]] + s.skip(1) =~= s);
    }
}

/// A token at the head of the text is consumed whole: the substitution pass
/// replaces a leading `&` by the anchor and goes on after it.
pub proof fn lemma_subst_amp_head(s: Seq<char>, anchor: Seq<char>)
    requires
        s.len() > 0,
        s[0] == '&',
    ensures
        subst_anchors(s, anchor) == anchor + subst_anchors(s.skip(1), anchor),
{
}

/// The substitution pass replaces a leading `:root` by the anchor and goes on
/// after the whole token.
pub proof fn lemma_subst_root_head(s: Seq<char>, anchor: Seq<char>)
    requires
        root_at(s, 0),
    ensures
        subst_anchors(s, anchor) == anchor + subst_anchors(s.skip(5), anchor),
{
}

/// A character that starts no token is copied unchanged and the substitution
/// pass goes on after it. Together with the two head lemmas and the empty
/// case this pins the whole pass down.
pub proof fn lemma_subst_plain_head(s: Seq<char>, anchor: Seq<char>)
    requires
        s.len() > 0,
        s[0] != '&',
        !root_at(s, 0),
    ensures
        subst_anchors(s, anchor) == seq![s[0]] + subst_anchors(s.skip(1), anchor),
{
}

} // verus!
