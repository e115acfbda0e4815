//! Profiles: templates from which sessions are created, and the slugs used as
//! their identifiers.
use vstd::prelude::*;

use crate::text::{
    char_is_alphanumeric, char_is_whitespace, chars_of, is_alphanumeric, is_ascii_text,
    is_white_space, lowercase, owned, string_of, to_lowercase,
};

verus! {

/// A pane within a tab: its working directory (the tab's when absent) and an
/// optional startup command.
#[derive(Debug, Clone, PartialEq, Eq)]
pub struct PaneProfile {
    pub cwd: Option<String>,
    pub command: Option<String>,
}

/// A tab (tmux window) of a profile.
#[derive(Debug, Clone, PartialEq, Eq)]
pub struct TabProfile {
    pub name: String,
    pub cwd: String,
    pub command: Option<String>,
    pub layout: Option<String>,
    pub panes: Vec<PaneProfile>,
}

/// A saved session template.
#[derive(Debug, Clone, PartialEq, Eq)]
pub struct Profile {
    pub id: String,
    pub name: String,
    pub color: String,
    pub tabs: Vec<TabProfile>,
}

/// Views of optional strings.
pub open spec fn opt_string_view(o: Option<String>) -> Option<Seq<char>> {
    match o {
        Some(s) => Some(s@),
        None => None,
    }
}

/// The value of a [`PaneProfile`].
pub struct PaneView {
    pub cwd: Option<Seq<char>>,
    pub command: Option<Seq<char>>,
}

/// The value of a [`TabProfile`].
pub struct TabView {
    pub name: Seq<char>,
    pub cwd: Seq<char>,
    pub command: Option<Seq<char>>,
    pub layout: Option<Seq<char>>,
    pub panes: Seq<PaneView>,
}

/// The value of a [`Profile`].
pub struct ProfileView {
    pub id: Seq<char>,
    pub name: Seq<char>,
    pub color: Seq<char>,
    pub tabs: Seq<TabView>,
}

impl View for PaneProfile {
    type V = PaneView;

    open spec fn view(&self) -> PaneView {
        PaneView { cwd: opt_string_view(self.cwd), command: opt_string_view(self.command) }
    }
}

impl View for TabProfile {
    type V = TabView;

    open spec fn view(&self) -> TabView {
        TabView {
            name: self.name@,
            cwd: self.cwd@,
            command: opt_string_view(self.command),
            layout: opt_string_view(self.layout),
            panes: self.panes@.map_values(|p: PaneProfile| p@),
        }
    }
}

impl View for Profile {
    type V = ProfileView;

    open spec fn view(&self) -> ProfileView {
        ProfileView {
            id: self.id@,
            name: self.name@,
            color: self.color@,
            tabs: self.tabs@.map_values(|t: TabProfile| t@),
        }
    }
}

/// A copy of an optional string.
pub fn copy_opt(o: &Option<String>) -> (r: Option<String>)
    ensures
        opt_string_view(r) == opt_string_view(*o),
{
    match o {
        Some(s) => Some(owned(s.as_str())),
        None => None,
    }
}

impl PaneProfile {
    /// A copy of this pane.
    pub fn duplicate(&self) -> (r: Self)
        ensures
            r@ == self@,
    {
        PaneProfile { cwd: copy_opt(&self.cwd), command: copy_opt(&self.command) }
    }
}

impl TabProfile {
    /// A copy of this tab.
    pub fn duplicate(&self) -> (r: Self)
        ensures
            r@ == self@,
    {
        let ghost pv = self.panes@.map_values(|p: PaneProfile| p@);
        let mut panes: Vec<PaneProfile> = Vec::new();
        let mut i: usize = 0;
        while i < self.panes.len()
            invariant
                i <= self.panes@.len(),
                pv == self.panes@.map_values(|p: PaneProfile| p@),
                panes@.map_values(|p: PaneProfile| p@) == pv.take(i as int),
            decreases self.panes@.len() - i,
        {
            let p = self.panes[i].duplicate();
            let ghost before = panes@.map_values(|p: PaneProfile| p@);
            let ghost x = p@;
            panes.push(p);
            assert(panes@.map_values(|p: PaneProfile| p@) =~= before.push(x));
            assert(pv.take(i as int).push(pv[i as int]) =~= pv.take(i + 1));
            i = i + 1;
        }
        assert(pv.take(self.panes@.len() as int) =~= pv);
        let r = TabProfile {
            name: owned(self.name.as_str()),
            cwd: owned(self.cwd.as_str()),
            command: copy_opt(&self.command),
            layout: copy_opt(&self.layout),
            panes,
        };
        assert(r@.panes =~= self@.panes);
        r
    }
}

impl Profile {
    /// A copy of this profile.
    pub fn duplicate(&self) -> (r: Self)
        ensures
            r@ == self@,
    {
        let ghost tv = self.tabs@.map_values(|t: TabProfile| t@);
        let mut tabs: Vec<TabProfile> = Vec::new();
        let mut i: usize = 0;
        while i < self.tabs.len()
            invariant
                i <= self.tabs@.len(),
                tv == self.tabs@.map_values(|t: TabProfile| t@),
                tabs@.map_values(|t: TabProfile| t@) == tv.take(i as int),
            decreases self.tabs@.len() - i,
        {
            let t = self.tabs[i].duplicate();
            let ghost before = tabs@.map_values(|t: TabProfile| t@);
            let ghost x = t@;
            tabs.push(t);
            assert(tabs@.map_values(|t: TabProfile| t@) =~= before.push(x));
            assert(tv.take(i as int).push(tv[i as int]) =~= tv.take(i + 1));
            i = i + 1;
        }
        assert(tv.take(self.tabs@.len() as int) =~= tv);
        let r = Profile {
            id: owned(self.id.as_str()),
            name: owned(self.name.as_str()),
            color: owned(self.color.as_str()),
            tabs,
        };
        assert(r@.tabs =~= self@.tabs);
        r
    }
}

// ---------------------------------------------------------------------------
// Slugs
// ---------------------------------------------------------------------------

/// Whitespace and underscores become hyphens.
pub open spec fn slug_char(c: char) -> char {
    if is_white_space(c) || c == '_' {
        '-'
    } else {
        c
    }
}

/// The characters of `s` mapped by [`slug_char`], keeping only alphanumerics and hyphens.
pub open spec fn slug_chars(s: Seq<char>) -> Seq<char>
    decreases s.len(),
{
    if s.len() == 0 {
        seq![]
    } else {
        let c = slug_char(s.last());
        slug_chars(s.drop_last()) + if is_alphanumeric(c) || c == '-' {
            seq![c]
        } else {
            seq![]
        }
    }
}

/// Runs of hyphens collapsed to one; a hyphen right after `prev_hyphen` (or at
/// the start, which counts as one) is dropped.
pub open spec fn collapse_hyphens(s: Seq<char>, prev_hyphen: bool) -> Seq<char>
    decreases s.len(),
{
    if s.len() == 0 {
        seq![]
    } else if s[0] == '-' {
        (if prev_hyphen {
            seq![]
        } else {
            seq!['-']
        }) + collapse_hyphens(s.drop_first(), true)
    } else {
        seq![s[0]] + collapse_hyphens(s.drop_first(), false)
    }
}

/// One trailing hyphen removed.
pub open spec fn trim_trailing_hyphen(s: Seq<char>) -> Seq<char> {
    if s.len() > 0 && s.last() == '-' {
        s.drop_last()
    } else {
        s
    }
}

/// The slug of an already lowercased name: whitespace and underscores turned to
/// hyphens, other non-alphanumerics dropped, hyphen runs collapsed, and no
/// leading or trailing hyphen.
pub open spec fn slug_from_lower(lower: Seq<char>) -> Seq<char> {
    trim_trailing_hyphen(collapse_hyphens(slug_chars(lower), true))
}

/// The slug of a display name: [`slug_from_lower`] of its lowercase.
pub open spec fn slug_of(name: Seq<char>) -> Seq<char> {
    slug_from_lower(lowercase(name))
}

/// Convert a display name into a URL-safe slug for use as a profile ID.
///
/// Lowercase, spaces/underscores become hyphens, non-alphanumeric chars stripped,
/// consecutive hyphens collapsed, leading/trailing hyphens trimmed.
pub fn slugify(name: &str) -> (r: String)
    ensures
        r@ == slug_of(name@),
{
    let lower_s = to_lowercase(name);
    slug_of_lower(lower_s.as_str())
}

/// The slug of a name that is already lowercase (see [`slug_from_lower`]).
pub fn slug_of_lower(lower_s: &str) -> (r: String)
    ensures
        r@ == slug_from_lower(lower_s@),
{
    let lower = chars_of(lower_s);
    let ghost l = lower@;
    let mut s: Vec<char> = Vec::new();
    let mut i: usize = 0;
    while i < lower.len()
        invariant
            i <= lower@.len(),
            l == lower@,
            s@ == slug_chars(l.take(i as int)),
        decreases lower@.len() - i,
    {
        assert(l.take(i + 1).drop_last() =~= l.take(i as int));
        let ch = lower[i];
        let c = if char_is_whitespace(ch) || ch == '_' {
            '-'
        } else {
            ch
        };
        if char_is_alphanumeric(c) || c == '-' {
            s.push(c);
        }
        assert(s@ =~= slug_chars(l.take(i + 1)));
        i = i + 1;
    }
    assert(l.take(lower@.len() as int) =~= l);
    let ghost t = s@;
    let mut result: Vec<char> = Vec::new();
    let mut prev_hyphen = true;
    let mut j: usize = 0;
    assert(t.skip(0) =~= t);
    while j < s.len()
        invariant
            j <= s@.len(),
            t == s@,
            collapse_hyphens(t, true) == result@ + collapse_hyphens(t.skip(j as int), prev_hyphen),
        decreases s@.len() - j,
    {
        assert(t.skip(j as int).drop_first() =~= t.skip(j + 1));
        let c = s[j];
        if c == '-' {
            if !prev_hyphen {
                result.push('-');
            }
            prev_hyphen = true;
        } else {
            result.push(c);
            prev_hyphen = false;
        }
        j = j + 1;
    }
    assert(t.skip(s@.len() as int) =~= Seq::<char>::empty());
    assert(result@ =~= collapse_hyphens(t, true));
    if result.len() > 0 && result[result.len() - 1] == '-' {
        result.pop();
    }
    assert(result@ =~= slug_from_lower(lower_s@));
    string_of(result.as_slice())
}

// ---------------------------------------------------------------------------
// The shape of a slug
// ---------------------------------------------------------------------------

/// Every character is alphanumeric or a hyphen, and no two hyphens are adjacent.
pub open spec fn hyphen_clean(s: Seq<char>) -> bool {
    &&& forall|i: int| 0 <= i < s.len() ==> s[i] == '-' || is_alphanumeric(#[trigger] s[i])
    &&& forall|i: int| 0 <= i < s.len() - 1 ==> !(#[trigger] s[i] == '-' && s[i + 1] == '-')
}

proof fn lemma_slug_chars_clean(s: Seq<char>)
    ensures
        forall|i: int|
            0 <= i < slug_chars(s).len() ==> slug_chars(s)[i] == '-' || is_alphanumeric(
                #[trigger] slug_chars(s)[i],
            ),
    decreases s.len(),
{
    if s.len() > 0 {
        lemma_slug_chars_clean(s.drop_last());
        let prev = slug_chars(s.drop_last());
        assert forall|i: int|
            0 <= i < slug_chars(s).len() implies slug_chars(s)[i] == '-' || is_alphanumeric(
                #[trigger] slug_chars(s)[i],
            ) by {
            if i < prev.len() {
                assert(slug_chars(s)[i] == prev[i]);
            }
        }
    }
}

proof fn lemma_collapse_clean(s: Seq<char>, prev: bool)
    requires
        forall|i: int| 0 <= i < s.len() ==> s[i] == '-' || is_alphanumeric(#[trigger] s[i]),
    ensures
        hyphen_clean(collapse_hyphens(s, prev)),
        prev ==> (collapse_hyphens(s, prev).len() == 0 || collapse_hyphens(s, prev)[0] != '-'),
    decreases s.len(),
{
    if s.len() > 0 {
        let t = s.drop_first();
        assert forall|i: int| 0 <= i < t.len() implies t[i] == '-' || is_alphanumeric(
            #[trigger] t[i],
        ) by {
            assert(t[i] == s[i + 1]);
        }
        lemma_collapse_clean(t, true);
        lemma_collapse_clean(t, false);
        let r = collapse_hyphens(s, prev);
        if s[0] == '-' {
            let rest = collapse_hyphens(t, true);
            if !prev {
                assert(r =~= seq!['-'] + rest);
                assert forall|i: int| 0 <= i < r.len() - 1 implies !(#[trigger] r[i] == '-' && r[i
                    + 1] == '-') by {
                    if i > 0 {
                        assert(r[i] == rest[i - 1]);
                        assert(r[i + 1] == rest[i]);
                    } else {
                        assert(r[1] == rest[0]);
                    }
                }
                assert forall|i: int| 0 <= i < r.len() implies r[i] == '-' || is_alphanumeric(
                    #[trigger] r[i],
                ) by {
                    if i > 0 {
                        assert(r[i] == rest[i - 1]);
                    }
                }
            } else {
                assert(r =~= rest);
            }
        } else {
            let rest = collapse_hyphens(t, false);
            assert(r =~= seq![s[0]] + rest);
            assert forall|i: int| 0 <= i < r.len() - 1 implies !(#[trigger] r[i] == '-' && r[i
                + 1] == '-') by {
                if i > 0 {
                    assert(r[i] == rest[i - 1]);
                    assert(r[i + 1] == rest[i]);
                }
            }
            assert forall|i: int| 0 <= i < r.len() implies r[i] == '-' || is_alphanumeric(
                #[trigger] r[i],
            ) by {
                if i > 0 {
                    assert(r[i] == rest[i - 1]);
                }
            }
        }
    }
}

/// A slug holds only alphanumerics and single hyphens, and neither starts nor
/// ends with a hyphen.
pub proof fn lemma_slug_shape(name: Seq<char>)
    ensures
        hyphen_clean(slug_of(name)),
        slug_of(name).len() > 0 ==> slug_of(name)[0] != '-' && slug_of(name).last() != '-',
{
    let k = slug_chars(lowercase(name));
    lemma_slug_chars_clean(lowercase(name));
    lemma_collapse_clean(k, true);
    let c = collapse_hyphens(k, true);
    let r = slug_of(name);
    if c.len() > 0 && c.last() == '-' {
        assert(r =~= c.drop_last());
        if r.len() > 0 {
            assert(r.last() == c[c.len() - 2]);
            assert(!(c[c.len() - 2] == '-' && c[c.len() - 1] == '-'));
        }
        assert forall|i: int| 0 <= i < r.len() - 1 implies !(#[trigger] r[i] == '-' && r[i + 1]
            == '-') by {
            assert(r[i] == c[i] && r[i + 1] == c[i + 1]);
        }
        assert forall|i: int| 0 <= i < r.len() implies r[i] == '-' || is_alphanumeric(
            #[trigger] r[i],
        ) by {
            assert(r[i] == c[i]);
        }
    } else {
        assert(r =~= c);
    }
}


/// A character of an ASCII slug: a digit, a small letter or a hyphen.
pub open spec fn is_ascii_slug_char(c: char) -> bool {
    '0' <= c <= '9' || 'a' <= c <= 'z' || c == '-'
}

proof fn lemma_slug_chars_ascii(x: Seq<char>)
    requires
        forall|j: int| 0 <= j < x.len() ==> #[trigger] x[j] <= '\u{7f}' && !('A' <= x[j] <= 'Z'),
    ensures
        forall|i: int| 0 <= i < slug_chars(x).len() ==> is_ascii_slug_char(#[trigger] slug_chars(x)[i]),
    decreases x.len(),
{
    if x.len() > 0 {
        let y = x.drop_last();
        assert forall|j: int| 0 <= j < y.len() implies #[trigger] y[j] <= '\u{7f}' && !('A' <= y[j] <= 'Z') by {
            assert(y[j] == x[j]);
        }
        lemma_slug_chars_ascii(y);
        let prev = slug_chars(y);
        let c = slug_char(x.last());
        assert(x.last() == x[x.len() - 1]);
        assert forall|i: int| 0 <= i < slug_chars(x).len() implies is_ascii_slug_char(
            #[trigger] slug_chars(x)[i],
        ) by {
            if i < prev.len() {
                assert(slug_chars(x)[i] == prev[i]);
            } else {
                assert(slug_chars(x)[i] == c);
            }
        }
    }
}

proof fn lemma_collapse_ascii(t: Seq<char>, prev: bool)
    requires
        forall|i: int| 0 <= i < t.len() ==> is_ascii_slug_char(#[trigger] t[i]),
    ensures
        forall|i: int|
            0 <= i < collapse_hyphens(t, prev).len() ==> is_ascii_slug_char(
                #[trigger] collapse_hyphens(t, prev)[i],
            ),
    decreases t.len(),
{
    if t.len() > 0 {
        let u = t.drop_first();
        assert forall|i: int| 0 <= i < u.len() implies is_ascii_slug_char(#[trigger] u[i]) by {
            assert(u[i] == t[i + 1]);
        }
        let p2 = t[0] == '-';
        lemma_collapse_ascii(u, p2);
        let rest = collapse_hyphens(u, p2);
        let r = collapse_hyphens(t, prev);
        let head: Seq<char> = if t[0] == '-' {
            if prev {
                seq![]
            } else {
                seq!['-']
            }
        } else {
            seq![t[0]]
        };
        assert(r =~= head + rest);
        assert forall|i: int| 0 <= i < r.len() implies is_ascii_slug_char(#[trigger] r[i]) by {
            if i >= head.len() {
                assert(r[i] == rest[i - head.len()]);
            }
        }
    }
}

proof fn lemma_slug_chars_fixed(s: Seq<char>)
    requires
        forall|i: int| 0 <= i < s.len() ==> is_ascii_slug_char(#[trigger] s[i]),
    ensures
        slug_chars(s) == s,
    decreases s.len(),
{
    if s.len() > 0 {
        let y = s.drop_last();
        assert forall|i: int| 0 <= i < y.len() implies is_ascii_slug_char(#[trigger] y[i]) by {
            assert(y[i] == s[i]);
        }
        lemma_slug_chars_fixed(y);
        assert(is_ascii_slug_char(s[s.len() - 1]));
        assert(s =~= y + seq![s.last()]);
    }
}

proof fn lemma_collapse_fixed(s: Seq<char>, prev: bool)
    requires
        forall|i: int| 0 <= i < s.len() - 1 ==> !(#[trigger] s[i] == '-' && s[i + 1] == '-'),
        prev ==> (s.len() == 0 || s[0] != '-'),
    ensures
        collapse_hyphens(s, prev) == s,
    decreases s.len(),
{
    if s.len() > 0 {
        let u = s.drop_first();
        assert forall|i: int| 0 <= i < u.len() - 1 implies !(#[trigger] u[i] == '-' && u[i + 1]
            == '-') by {
            assert(u[i] == s[i + 1] && u[i + 1] == s[i + 2]);
        }
        if s[0] == '-' {
            if s.len() > 1 {
                assert(!(s[0] == '-' && s[1] == '-'));
                assert(u[0] == s[1]);
            }
            lemma_collapse_fixed(u, true);
        } else {
            lemma_collapse_fixed(u, false);
        }
        assert(s =~= seq![s[0]] + u);
    }
}

/// Slugs are in normal form: for a name of ASCII characters, the slug of its
/// slug is the slug itself.
pub proof fn lemma_slugify_idempotent(name: Seq<char>)
    requires
        is_ascii_text(name),
    ensures
        slug_of(slug_of(name)) == slug_of(name),
{
    let l = lowercase(name);
    assert forall|j: int| 0 <= j < l.len() implies #[trigger] l[j] <= '\u{7f}' && !('A' <= l[j]
        <= 'Z') by {
        assert(name[j] <= '\u{7f}');
    }
    lemma_slug_chars_ascii(l);
    let k = slug_chars(l);
    lemma_collapse_ascii(k, true);
    let c = collapse_hyphens(k, true);
    let s = slug_of(name);
    assert forall|i: int| 0 <= i < s.len() implies is_ascii_slug_char(#[trigger] s[i]) by {
        assert(s[i] == c[i]);
    }
    lemma_slug_shape(name);
    assert(is_ascii_text(s));
    assert(lowercase(s) =~= s);
    lemma_slug_chars_fixed(s);
    lemma_collapse_fixed(s, true);
}

} // verus!
