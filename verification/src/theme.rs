//! Themes as injected key-to-color lookup tables. A theme maps semantic
//! keys (`bg`, `text`, `water`, per-class road keys, ...) to `#RRGGBB`
//! strings; a missing key falls back to a documented default.
use vstd::prelude::*;
use vstd::multiset::Multiset;
use vstd::seq_lib::group_to_multiset_ensures;
use vstd::string::{StrSliceExecFns, StringExecFns};
use crate::models::{ThemeInfo, ThemeListResponse};
use crate::numeric::str_eq;

verus! {

broadcast use group_to_multiset_ensures;

/// A theme: a color lookup table from semantic keys to hex color strings.
#[derive(Debug)]
pub struct Theme {
    pub entries: Vec<(String, String)>,
}

/// The value of the first entry with the given key, if any.
pub open spec fn theme_lookup(s: Seq<(String, String)>, key: Seq<char>) -> Option<Seq<char>>
    decreases s.len(),
{
    if s.len() == 0 {
        None
    } else if s[0].0@ == key {
        Some(s[0].1@)
    } else {
        theme_lookup(s.drop_first(), key)
    }
}

/// What a color lookup with a fallback returns.
pub open spec fn theme_color_spec(t: Theme, key: Seq<char>, default: Seq<char>) -> Seq<char> {
    match theme_lookup(t.entries@, key) {
        Some(v) => v,
        None => default,
    }
}

impl Theme {
    /// A theme holding the given key/color pairs.
    pub fn new(entries: Vec<(String, String)>) -> (r: Self)
        ensures
            r.entries@ == entries@,
    {
        Theme { entries }
    }

    /// An empty lookup table: every key falls back to its default.
    pub fn empty() -> (r: Self)
        ensures
            r.entries@.len() == 0,
    {
        Theme { entries: Vec::new() }
    }

    /// The value under `key`, if the theme has one.
    pub fn lookup(&self, key: &str) -> (r: Option<&String>)
        ensures
            match theme_lookup(self.entries@, key@) {
                Some(v) => r matches Some(x) && x@ == v,
                None => r is None,
            },
    {
        let mut i: usize = 0;
        proof {
            assert(self.entries@.skip(0) =~= self.entries@);
        }
        while i < self.entries.len()
            invariant
                i <= self.entries@.len(),
                theme_lookup(self.entries@.skip(i as int), key@) == theme_lookup(
                    self.entries@,
                    key@,
                ),
            decreases self.entries@.len() - i,
        {
            proof {
                assert(self.entries@.skip(i as int)[0] == self.entries@[i as int]);
                assert(self.entries@.skip(i as int).drop_first() =~= self.entries@.skip(
                    i as int + 1,
                ));
            }
            if str_eq(self.entries[i].0.as_str(), key) {
                return Some(&self.entries[i].1);
            }
            i = i + 1;
        }
        proof {
            assert(self.entries@.skip(i as int) =~= Seq::<(String, String)>::empty());
        }
        None
    }
}

/// Get a color from a theme, with a fallback default.
pub fn get_theme_color(theme: &Theme, key: &str, default: &str) -> (r: String)
    ensures
        r@ == theme_color_spec(*theme, key@, default@),
{
    match theme.lookup(key) {
        Some(v) => String::from_str(v.as_str()),
        None => String::from_str(default),
    }
}

/// The value under a key as an owned optional string.
fn lookup_owned(theme: &Theme, key: &str) -> (r: Option<String>)
    ensures
        match theme_lookup(theme.entries@, key@) {
            Some(v) => r matches Some(d) && d@ == v,
            None => r is None,
        },
{
    match theme.lookup(key) {
        Some(v) => Some(String::from_str(v.as_str())),
        None => None,
    }
}

/// The theme summary the service lists: each semantic color with its
/// documented default, the optional description, and the road colors the
/// theme carries explicitly.
pub fn theme_info(name: &str, theme: &Theme) -> (r: ThemeInfo)
    ensures
        info_matches(r, name@, *theme),
{
    ThemeInfo {
        id: String::from_str(name),
        name: String::from_str(name),
        description: lookup_owned(theme, "description"),
        bg: get_theme_color(theme, "bg", "#FFFFFF"),
        text: get_theme_color(theme, "text", "#000000"),
        gradient_color: get_theme_color(theme, "gradient_color", "#FFFFFF"),
        water: get_theme_color(theme, "water", "#C0C0C0"),
        parks: get_theme_color(theme, "parks", "#F0F0F0"),
        road_motorway: lookup_owned(theme, "road_motorway"),
        road_primary: lookup_owned(theme, "road_primary"),
        road_default: lookup_owned(theme, "road_default"),
    }
}


/// Lexicographic order on character sequences, by code point; the order
/// theme names are listed in.
pub open spec fn lex_le(a: Seq<char>, b: Seq<char>) -> bool
    decreases a.len(),
{
    if a.len() == 0 {
        true
    } else if b.len() == 0 {
        false
    } else if a[0] != b[0] {
        a[0] < b[0]
    } else {
        lex_le(a.drop_first(), b.drop_first())
    }
}

/// The lexicographic order is reflexive.
pub proof fn lemma_lex_le_refl(a: Seq<char>)
    ensures
        lex_le(a, a),
    decreases a.len(),
{
    if a.len() > 0 {
        lemma_lex_le_refl(a.drop_first());
    }
}

/// The lexicographic order is total.
pub proof fn lemma_lex_le_total(a: Seq<char>, b: Seq<char>)
    ensures
        lex_le(a, b) || lex_le(b, a),
    decreases a.len(),
{
    if a.len() > 0 && b.len() > 0 && a[0] == b[0] {
        lemma_lex_le_total(a.drop_first(), b.drop_first());
    }
}

/// Whether the characters of `a` come at or before those of `b`.
pub fn str_le(a: &str, b: &str) -> (r: bool)
    ensures
        r == lex_le(a@, b@),
{
    let n = a.unicode_len();
    let m = b.unicode_len();
    let mut i: usize = 0;
    proof {
        assert(a@.skip(0) =~= a@);
        assert(b@.skip(0) =~= b@);
    }
    while i < n && i < m
        invariant
            n == a@.len(),
            m == b@.len(),
            i <= n && i <= m,
            lex_le(a@, b@) == lex_le(a@.skip(i as int), b@.skip(i as int)),
        decreases n - i,
    {
        let ca = a.get_char(i);
        let cb = b.get_char(i);
        proof {
            assert(a@.skip(i as int)[0] == a@[i as int]);
            assert(b@.skip(i as int)[0] == b@[i as int]);
            assert(a@.skip(i as int).drop_first() =~= a@.skip(i as int + 1));
            assert(b@.skip(i as int).drop_first() =~= b@.skip(i as int + 1));
        }
        if ca != cb {
            return ca < cb;
        }
        i = i + 1;
    }
    proof {
        if i >= n {
            assert(a@.skip(i as int) =~= Seq::<char>::empty());
        } else {
            assert(b@.skip(i as int) =~= Seq::<char>::empty());
            assert(a@.skip(i as int).len() > 0);
        }
    }
    n <= m
}

/// Whether the listed summaries are in name order.
pub open spec fn infos_sorted(s: Seq<ThemeInfo>) -> bool {
    forall|i: int, j: int|
        0 <= i < j < s.len() ==> lex_le((#[trigger] s[i]).name@, (#[trigger] s[j]).name@)
}

/// Whether an optional field carries exactly the theme's value under a key.
pub open spec fn opt_field_matches(field: Option<String>, theme: Theme, key: Seq<char>) -> bool {
    match theme_lookup(theme.entries@, key) {
        Some(v) => field matches Some(d) && d@ == v,
        None => field is None,
    }
}

/// Whether a summary matches `theme_info` of a named theme.
pub open spec fn info_matches(info: ThemeInfo, name: Seq<char>, theme: Theme) -> bool {
    &&& info.id@ == name
    &&& info.name@ == name
    &&& opt_field_matches(info.description, theme, "description"@)
    &&& opt_field_matches(info.road_motorway, theme, "road_motorway"@)
    &&& opt_field_matches(info.road_primary, theme, "road_primary"@)
    &&& opt_field_matches(info.road_default, theme, "road_default"@)
    &&& info.bg@ == theme_color_spec(theme, "bg"@, "#FFFFFF"@)
    &&& info.text@ == theme_color_spec(theme, "text"@, "#000000"@)
    &&& info.gradient_color@ == theme_color_spec(theme, "gradient_color"@, "#FFFFFF"@)
    &&& info.water@ == theme_color_spec(theme, "water"@, "#C0C0C0"@)
    &&& info.parks@ == theme_color_spec(theme, "parks"@, "#F0F0F0"@)
}

/// List the loaded themes: one summary per theme, sorted by name for a
/// consistent ordering. The result is a permutation, in name order, of the
/// summaries of the given themes.
pub fn theme_list(themes: &Vec<(String, Theme)>) -> (r: ThemeListResponse)
    ensures
        r.count == themes@.len(),
        r.themes@.len() == themes@.len(),
        infos_sorted(r.themes@),
        exists|mid: Seq<ThemeInfo>|
            #![trigger mid.to_multiset()]
            mid.len() == themes@.len() && (forall|i: int|
                0 <= i < themes@.len() ==> info_matches(
                    #[trigger] mid[i],
                    themes@[i].0@,
                    themes@[i].1,
                )) && r.themes@.to_multiset() == mid.to_multiset(),
{
    let mut infos: Vec<ThemeInfo> = Vec::new();
    let mut i: usize = 0;
    while i < themes.len()
        invariant
            i <= themes@.len(),
            infos@.len() == i,
            forall|k: int|
                0 <= k < i ==> info_matches(#[trigger] infos@[k], themes@[k].0@, themes@[k].1),
        decreases themes@.len() - i,
    {
        infos.push(theme_info(themes[i].0.as_str(), &themes[i].1));
        i = i + 1;
    }
    let ghost mid = infos@;
    let sorted = sort_infos(infos);
    let count = sorted.len();
    ThemeListResponse { themes: sorted, count }
}

/// Sort theme summaries by name, keeping exactly the same summaries.
fn sort_infos(input: Vec<ThemeInfo>) -> (r: Vec<ThemeInfo>)
    ensures
        infos_sorted(r@),
        r@.to_multiset() == input@.to_multiset(),
        r@.len() == input@.len(),
{
    let ghost orig = input@;
    let mut work = input;
    let mut out: Vec<ThemeInfo> = Vec::new();
    proof {
        assert(orig.to_multiset().len() == orig.len());
    }
    while work.len() > 0
        invariant
            out@.to_multiset().add(work@.to_multiset()) =~= orig.to_multiset(),
            out@.len() + work@.len() == orig.len(),
            infos_sorted(out@),
            forall|i: int, j: int|
                0 <= i < out@.len() && 0 <= j < work@.len() ==> lex_le(
                    (#[trigger] out@[i]).name@,
                    (#[trigger] work@[j]).name@,
                ),
        decreases work@.len(),
    {
        let mut m: usize = 0;
        let mut k: usize = 1;
        proof {
            lemma_lex_le_refl(work@[0].name@);
        }
        while k < work.len()
            invariant
                work@.len() >= 1,
                m < k <= work@.len(),
                forall|j: int|
                    0 <= j < k ==> lex_le(work@[m as int].name@, (#[trigger] work@[j]).name@),
            decreases work@.len() - k,
        {
            let smaller = str_le(work[k].name.as_str(), work[m].name.as_str());
            proof {
                lemma_lex_le_total(work@[k as int].name@, work@[m as int].name@);
            }
            if smaller {
                let ghost old_m = m as int;
                m = k;
                proof {
                    assert forall|j: int| 0 <= j < k + 1 implies lex_le(
                        work@[m as int].name@,
                        (#[trigger] work@[j]).name@,
                    ) by {
                        if j < k {
                            lemma_lex_le_trans(
                                work@[k as int].name@,
                                work@[old_m].name@,
                                work@[j].name@,
                            );
                        } else {
                            lemma_lex_le_refl(work@[k as int].name@);
                        }
                    }
                }
            }
            k = k + 1;
        }
        let ghost pre = work@;
        let x = work.remove(m);
        proof {
            assert(pre.remove(m as int).to_multiset() =~= pre.to_multiset().remove(pre[m as int]));
            assert(out@.push(x).to_multiset() =~= out@.to_multiset().insert(x));
            assert(out@.to_multiset().insert(x).add(pre.to_multiset().remove(x)) =~= out@
                .to_multiset().add(pre.to_multiset())) by {
                assert(pre.to_multiset().contains(x)) by {
                    assert(pre.to_multiset().count(x) > 0);
                }
            }
            assert(forall|j: int|
                0 <= j < work@.len() ==> lex_le(x.name@, (#[trigger] work@[j]).name@)) by {
                assert(forall|j: int| 0 <= j < m ==> work@[j] == pre[j]);
                assert(forall|j: int| m <= j < work@.len() ==> #[trigger] work@[j] == pre[j + 1]);
            }
        }
        out.push(x);
    }
    proof {
        assert(work@.to_multiset() =~= Multiset::<ThemeInfo>::empty());
        assert(out@.to_multiset() =~= orig.to_multiset());
        assert(out@.to_multiset().len() == orig.to_multiset().len());
    }
    out
}

/// The lexicographic order is transitive.
pub proof fn lemma_lex_le_trans(a: Seq<char>, b: Seq<char>, c: Seq<char>)
    requires
        lex_le(a, b),
        lex_le(b, c),
    ensures
        lex_le(a, c),
    decreases a.len(),
{
    if a.len() > 0 && b.len() > 0 && c.len() > 0 && a[0] == b[0] && b[0] == c[0] {
        lemma_lex_le_trans(a.drop_first(), b.drop_first(), c.drop_first());
    }
}

} // verus!
