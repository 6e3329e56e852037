//! The theme registry: the built-in categories, how user themes override or
//! extend the built-in ones, lookup by name, and the frame delay of an
//! animated theme.
//!
//! A theme's look (`K`, its colour or animation) is carried along untouched;
//! the registry reads only names and categories.

use vstd::prelude::*;

use crate::text::str_eq;
use crate::ui::{help_pieces, pair_views, renders, theme_list_help};

verus! {

// ── Frame delays ────────────────────────────────────────────────────────────

/// Delay between two frames of an animated theme, in milliseconds.
#[derive(Debug, Clone, Copy, PartialEq, Eq)]
pub enum Delay {
    /// Always the same delay.
    Fixed(u64),
    /// A delay drawn uniformly from `lo..=hi` for every frame.
    Random(u64, u64),
}

/// A delay that can be drawn: a random range is not empty.
pub open spec fn delay_valid(d: Delay) -> bool {
    match d {
        Delay::Fixed(_) => true,
        Delay::Random(lo, hi) => lo <= hi,
    }
}

/// A random integer from `lo..=hi`, by `rand::random_range(lo..=hi)` on the
/// thread-local generator. The contract claims only that the result lies in
/// the range (the crate panics on an empty range, which `requires` rules
/// out); which value comes is chance.
#[verifier::external_body]
fn random_between(lo: u64, hi: u64) -> (r: u64)
    requires
        lo <= hi,
    ensures
        lo <= r <= hi,
{
    rand::random_range(lo..=hi)
}

/// The delay before the next frame: the fixed delay, or a fresh draw from
/// the range.
pub fn get_delay(delay: &Delay) -> (ms: u64)
    requires
        delay_valid(*delay),
    ensures
        match *delay {
            Delay::Fixed(m) => ms == m,
            Delay::Random(lo, hi) => lo <= ms <= hi,
        },
{
    match delay {
        Delay::Fixed(ms) => *ms,
        Delay::Random(lo, hi) => random_between(*lo, *hi),
    }
}

// ── Categories ──────────────────────────────────────────────────────────────

/// The categories of the built-in themes, in display order.
pub open spec fn builtin_category_names() -> Seq<Seq<char>> {
    seq!["static"@, "nature"@, "vibes"@, "functional"@, "seasonal"@]
}

/// The categories of the built-in themes, in display order.
pub fn builtin_categories() -> (v: Vec<&'static str>)
    ensures
        v@.map_values(|s: &str| s@) == builtin_category_names(),
{
    let v = vec!["static", "nature", "vibes", "functional", "seasonal"];
    assert(v@.map_values(|s: &str| s@) =~= builtin_category_names());
    v
}

/// The filter tabs of the theme page: everything, each built-in category,
/// then everything that is not built in.
pub fn categories() -> (v: Vec<&'static str>)
    ensures
        v@.map_values(|s: &str| s@) == seq!["all"@] + builtin_category_names() + seq!["custom"@],
{
    let v = vec!["all", "static", "nature", "vibes", "functional", "seasonal", "custom"];
    assert(v@.map_values(|s: &str| s@) =~= seq!["all"@] + builtin_category_names() + seq![
        "custom"@,
    ]);
    v
}

// ── Built-in registry ───────────────────────────────────────────────────────

/// The built-in themes by name and category, in registry order.
pub open spec fn builtin_theme_index() -> Seq<(Seq<char>, Seq<char>)> {
    seq![
        ("movie"@, "static"@),
        ("chill"@, "static"@),
        ("party"@, "static"@),
        ("sunset"@, "static"@),
        ("forest"@, "static"@),
        ("candlelight"@, "nature"@),
        ("fireplace"@, "nature"@),
        ("campfire"@, "nature"@),
        ("lava"@, "nature"@),
        ("ocean"@, "nature"@),
        ("aurora"@, "nature"@),
        ("northern-lights"@, "nature"@),
        ("rain"@, "nature"@),
        ("breathing"@, "vibes"@),
        ("romantic"@, "vibes"@),
        ("cozy"@, "vibes"@),
        ("cyberpunk"@, "vibes"@),
        ("vaporwave"@, "vibes"@),
        ("nightclub"@, "vibes"@),
        ("storm"@, "functional"@),
        ("lightning"@, "functional"@),
        ("thunderstorm"@, "functional"@),
        ("starfield"@, "functional"@),
        ("pulse"@, "functional"@),
        ("rainbow"@, "functional"@),
        ("gradient-wave"@, "functional"@),
        ("sunrise"@, "functional"@),
        ("christmas"@, "seasonal"@),
        ("halloween"@, "seasonal"@),
        ("snowfall"@, "seasonal"@),
    ]
}

/// The names and categories of the built-in themes, in registry order.
pub fn builtin_theme_entries() -> (v: Vec<(&'static str, &'static str)>)
    ensures
        pair_views(v@) == builtin_theme_index(),
{
    let v = vec![
        ("movie", "static"),
        ("chill", "static"),
        ("party", "static"),
        ("sunset", "static"),
        ("forest", "static"),
        ("candlelight", "nature"),
        ("fireplace", "nature"),
        ("campfire", "nature"),
        ("lava", "nature"),
        ("ocean", "nature"),
        ("aurora", "nature"),
        ("northern-lights", "nature"),
        ("rain", "nature"),
        ("breathing", "vibes"),
        ("romantic", "vibes"),
        ("cozy", "vibes"),
        ("cyberpunk", "vibes"),
        ("vaporwave", "vibes"),
        ("nightclub", "vibes"),
        ("storm", "functional"),
        ("lightning", "functional"),
        ("thunderstorm", "functional"),
        ("starfield", "functional"),
        ("pulse", "functional"),
        ("rainbow", "functional"),
        ("gradient-wave", "functional"),
        ("sunrise", "functional"),
        ("christmas", "seasonal"),
        ("halloween", "seasonal"),
        ("snowfall", "seasonal"),
    ];
    assert(pair_views(v@) =~= builtin_theme_index());
    v
}

// ── Registry ────────────────────────────────────────────────────────────────

/// A named theme in a category; `kind` is its colour or animation.
pub struct ThemeDef<K> {
    pub name: String,
    pub category: String,
    pub kind: K,
}

/// The built-in themes, given the kind of each in registry order.
pub fn builtin_themes<K>(kinds: Vec<K>) -> (ts: Vec<ThemeDef<K>>)
    requires
        kinds@.len() == builtin_theme_index().len(),
    ensures
        name_category_pairs(ts@) == builtin_theme_index(),
        distinct_names(ts@),
        ts@.len() == kinds@.len(),
        forall|i: int| 0 <= i < ts@.len() ==> #[trigger] ts@[i].kind == kinds@[i],
{
    let entries = builtin_theme_entries();
    let ghost ks = kinds@;
    let mut rest = kinds;
    let mut ts: Vec<ThemeDef<K>> = Vec::new();
    let mut i: usize = 0;
    while rest.len() > 0
        invariant
            i + rest@.len() == ks.len(),
            ks.len() == builtin_theme_index().len(),
            entries@.len() == ks.len(),
            pair_views(entries@) == builtin_theme_index(),
            rest@ == ks.subrange(i as int, ks.len() as int),
            ts@.len() == i,
            name_category_pairs(ts@) == builtin_theme_index().subrange(0, i as int),
            forall|j: int| 0 <= j < i ==> #[trigger] ts@[j].kind == ks[j],
        decreases rest@.len(),
    {
        let k = rest.remove(0);
        let (n, c) = entries[i];
        let ghost before = ts@;
        ts.push(ThemeDef { name: String::from_str(n), category: String::from_str(c), kind: k });
        assert(pair_views(entries@)[i as int] == (n@, c@));
        assert(name_category_pairs(ts@) =~= builtin_theme_index().subrange(0, i as int + 1)) by {
            assert(name_category_pairs(before) =~= builtin_theme_index().subrange(0, i as int));
        }
        i = i + 1;
        assert(rest@ =~= ks.subrange(i as int, ks.len() as int));
    }
    assert(builtin_theme_index().subrange(0, i as int) =~= builtin_theme_index());
    proof {
        lemma_builtin_registry();
        let idx = builtin_theme_index();
        assert forall|a: int, b: int| 0 <= a < b < ts@.len() implies #[trigger] ts@[a].name@
            != #[trigger] ts@[b].name@ by {
            assert(name_category_pairs(ts@)[a].0 == ts@[a].name@);
            assert(name_category_pairs(ts@)[b].0 == ts@[b].name@);
            assert(idx[a].0 != idx[b].0);
        }
    }
    ts
}

/// Index of the first theme called `n`, if any.
pub open spec fn first_named<K>(ts: Seq<ThemeDef<K>>, n: Seq<char>) -> Option<int>
    decreases ts.len(),
{
    if ts.len() == 0 {
        None
    } else {
        match first_named(ts.drop_last(), n) {
            Some(i) => Some(i),
            None => if ts.last().name@ == n {
                Some(ts.len() - 1)
            } else {
                None
            },
        }
    }
}

/// The list after one user theme is read: it replaces the first theme of
/// the same name, or is appended when there is none.
pub open spec fn with_user_theme<K>(ts: Seq<ThemeDef<K>>, u: ThemeDef<K>) -> Seq<ThemeDef<K>> {
    match first_named(ts, u.name@) {
        Some(i) => ts.update(i, u),
        None => ts.push(u),
    }
}

/// The built-in themes with the user themes read over them in order.
pub open spec fn merged_themes<K>(builtins: Seq<ThemeDef<K>>, users: Seq<ThemeDef<K>>) -> Seq<
    ThemeDef<K>,
>
    decreases users.len(),
{
    if users.len() == 0 {
        builtins
    } else {
        with_user_theme(merged_themes(builtins, users.drop_last()), users.last())
    }
}

/// `first_named` is the first index whose theme has the name.
pub proof fn lemma_first_named<K>(ts: Seq<ThemeDef<K>>, n: Seq<char>)
    ensures
        match first_named(ts, n) {
            Some(i) => 0 <= i < ts.len() && ts[i].name@ == n && forall|j: int|
                0 <= j < i ==> #[trigger] ts[j].name@ != n,
            None => forall|j: int| 0 <= j < ts.len() ==> #[trigger] ts[j].name@ != n,
        },
    decreases ts.len(),
{
    if ts.len() > 0 {
        let init = ts.drop_last();
        lemma_first_named(init, n);
        match first_named(init, n) {
            Some(i) => {
                assert(ts[i] == init[i]);
                assert forall|j: int| 0 <= j < i implies #[trigger] ts[j].name@ != n by {
                    assert(ts[j] == init[j]);
                }
            },
            None => {
                assert forall|j: int| 0 <= j < ts.len() - 1 implies #[trigger] ts[j].name@ != n by {
                    assert(ts[j] == init[j]);
                }
            },
        }
    }
}

/// The first index whose theme has the name `n`, characterised.
proof fn lemma_first_named_at<K>(ts: Seq<ThemeDef<K>>, n: Seq<char>, i: int)
    requires
        0 <= i < ts.len(),
        ts[i].name@ == n,
        forall|j: int| 0 <= j < i ==> #[trigger] ts[j].name@ != n,
    ensures
        first_named(ts, n) == Some(i),
{
    lemma_first_named(ts, n);
    match first_named(ts, n) {
        Some(k) => {
            if k < i {
                assert(ts[k].name@ != n);
            }
        },
        None => {
            assert(ts[i].name@ != n);
        },
    }
}

proof fn lemma_first_named_none<K>(ts: Seq<ThemeDef<K>>, n: Seq<char>)
    requires
        forall|j: int| 0 <= j < ts.len() ==> #[trigger] ts[j].name@ != n,
    ensures
        first_named(ts, n) is None,
{
    lemma_first_named(ts, n);
}

/// Looks up a theme by name: the first one so called.
pub fn get_theme<'a, K>(themes: &'a [ThemeDef<K>], name: &str) -> (t: Option<&'a ThemeDef<K>>)
    ensures
        match first_named(themes@, name@) {
            Some(i) => t == Some(&themes@[i]),
            None => t is None,
        },
{
    let mut i: usize = 0;
    while i < themes.len()
        invariant
            i <= themes@.len(),
            forall|j: int| 0 <= j < i ==> #[trigger] themes@[j].name@ != name@,
        decreases themes@.len() - i,
    {
        if str_eq(themes[i].name.as_str(), name) {
            proof {
                lemma_first_named_at(themes@, name@, i as int);
            }
            return Some(&themes[i]);
        }
        i = i + 1;
    }
    proof {
        lemma_first_named_none(themes@, name@);
    }
    None
}

fn position_named<K>(themes: &Vec<ThemeDef<K>>, name: &str) -> (p: Option<usize>)
    ensures
        match first_named(themes@, name@) {
            Some(i) => p == Some(i as usize),
            None => p is None,
        },
        p matches Some(q) ==> q < themes@.len() && first_named(themes@, name@) == Some(q as int),
{
    let mut i: usize = 0;
    while i < themes.len()
        invariant
            i <= themes@.len(),
            forall|j: int| 0 <= j < i ==> #[trigger] themes@[j].name@ != name@,
        decreases themes@.len() - i,
    {
        if str_eq(themes[i].name.as_str(), name) {
            proof {
                lemma_first_named_at(themes@, name@, i as int);
            }
            return Some(i);
        }
        i = i + 1;
    }
    proof {
        lemma_first_named_none(themes@, name@);
    }
    None
}

/// All themes: the built-in ones, with each user theme replacing the first
/// theme of its name, or appended when no theme has its name. User themes
/// are taken in the order given.
pub fn load_all_themes<K>(builtins: Vec<ThemeDef<K>>, users: Vec<ThemeDef<K>>) -> (all: Vec<
    ThemeDef<K>,
>)
    ensures
        all@ == merged_themes(builtins@, users@),
{
    let ghost us = users@;
    let total = users.len();
    let mut themes = builtins;
    let mut rest = users;
    let mut k: usize = 0;
    assert(us.subrange(0, 0) =~= Seq::<ThemeDef<K>>::empty());
    while rest.len() > 0
        invariant
            k + rest@.len() == us.len(),
            us.len() == total,
            rest@ == us.subrange(k as int, us.len() as int),
            themes@ == merged_themes(builtins@, us.subrange(0, k as int)),
        decreases rest@.len(),
    {
        let u = rest.remove(0);
        assert(us.subrange(0, k as int + 1).drop_last() =~= us.subrange(0, k as int));
        assert(us.subrange(0, k as int + 1).last() == u);
        let ghost prev = themes@;
        let ghost uu = u;
        let key = u.name.as_str();
        assert(key@ == uu.name@);
        let found = position_named(&themes, key);
        match found {
            Some(pos) => {
                assert(first_named(prev, uu.name@) == Some(pos as int));
                themes.set(pos, u);
                assert(themes@ == prev.update(pos as int, uu));
            },
            None => {
                assert(first_named(prev, uu.name@) is None);
                themes.push(u);
                assert(themes@ == prev.push(uu));
            },
        }
        assert(themes@ == with_user_theme(prev, uu));
        assert(merged_themes(builtins@, us.subrange(0, k as int + 1)) == with_user_theme(
            merged_themes(builtins@, us.subrange(0, k as int)),
            uu,
        ));
        k = k + 1;
        assert(rest@ =~= us.subrange(k as int, us.len() as int));
    }
    assert(us.subrange(0, us.len() as int) =~= us);
    themes
}

/// The (name, category) pairs of a theme list, as text.
pub open spec fn name_category_pairs<K>(themes: Seq<ThemeDef<K>>) -> Seq<(Seq<char>, Seq<char>)> {
    themes.map_values(|t: ThemeDef<K>| (t.name@, t.category@))
}

/// The theme list of the help text for these themes.
pub fn theme_list_display<K>(themes: &[ThemeDef<K>]) -> (s: String)
    ensures
        renders(s@, help_pieces(name_category_pairs(themes@))),
{
    let mut pairs: Vec<(&str, &str)> = Vec::new();
    let mut i: usize = 0;
    while i < themes.len()
        invariant
            i <= themes@.len(),
            pair_views(pairs@) == name_category_pairs(themes@.subrange(0, i as int)),
        decreases themes@.len() - i,
    {
        let t = &themes[i];
        let ghost before = pair_views(pairs@);
        pairs.push((t.name.as_str(), t.category.as_str()));
        assert(pair_views(pairs@) =~= before.push((t.name@, t.category@)));
        i = i + 1;
        assert(name_category_pairs(themes@.subrange(0, i as int)) =~= name_category_pairs(
            themes@.subrange(0, i as int - 1),
        ).push((t.name@, t.category@)));
    }
    assert(themes@.subrange(0, themes@.len() as int) =~= themes@);
    theme_list_help(pairs.as_slice())
}

// ── Laws ────────────────────────────────────────────────────────────────────

/// Length, first and last character of a non-empty name, as one number.
spec fn name_key(n: Seq<char>) -> int {
    n.len() * 1000000 + (n[0] as int) * 1000 + (n.last() as int)
}

/// The built-in registry holds thirty themes, no two with the same name,
/// each in one of the five built-in categories.
pub proof fn lemma_builtin_registry()
    ensures
        builtin_theme_index().len() == 30,
        forall|i: int, j: int|
            0 <= i < j < 30 ==> #[trigger] builtin_theme_index()[i].0 != #[trigger] builtin_theme_index()[j].0,
        forall|i: int|
            0 <= i < 30 ==> builtin_category_names().contains(#[trigger] builtin_theme_index()[i].1),
{
    reveal_strlit("movie");
    reveal_strlit("chill");
    reveal_strlit("party");
    reveal_strlit("sunset");
    reveal_strlit("forest");
    reveal_strlit("candlelight");
    reveal_strlit("fireplace");
    reveal_strlit("campfire");
    reveal_strlit("lava");
    reveal_strlit("ocean");
    reveal_strlit("aurora");
    reveal_strlit("northern-lights");
    reveal_strlit("rain");
    reveal_strlit("breathing");
    reveal_strlit("romantic");
    reveal_strlit("cozy");
    reveal_strlit("cyberpunk");
    reveal_strlit("vaporwave");
    reveal_strlit("nightclub");
    reveal_strlit("storm");
    reveal_strlit("lightning");
    reveal_strlit("thunderstorm");
    reveal_strlit("starfield");
    reveal_strlit("pulse");
    reveal_strlit("rainbow");
    reveal_strlit("gradient-wave");
    reveal_strlit("sunrise");
    reveal_strlit("christmas");
    reveal_strlit("halloween");
    reveal_strlit("snowfall");
    reveal_strlit("static");
    reveal_strlit("nature");
    reveal_strlit("vibes");
    reveal_strlit("functional");
    reveal_strlit("seasonal");
    let idx = builtin_theme_index();
    assert forall|i: int| 0 <= i < 30 implies builtin_category_names().contains(#[trigger] idx[i].1) by {
        let cats = builtin_category_names();
        assert(cats[0] == "static"@ && cats[1] == "nature"@ && cats[2] == "vibes"@);
        assert(cats[3] == "functional"@ && cats[4] == "seasonal"@);
    }
    let keys: Seq<int> = seq![5109101int, 5099108int, 5112121int, 6115116int, 6102116int, 11099116int, 9102101int, 8099101int, 4108097int, 5111110int, 6097097int, 15110115int, 4114110int, 9098103int, 8114099int, 4099121int, 9099107int, 9118101int, 9110098int, 5115109int, 9108103int, 12116109int, 9115100int, 5112101int, 7114119int, 13103101int, 7115101int, 9099115int, 9104110int, 8115108int];
    assert forall|i: int| 0 <= i < 30 implies #[trigger] name_key(idx[i].0) == keys[i] by {}
    assert forall|i: int, j: int| 0 <= i < j < 30 implies #[trigger] idx[i].0 != #[trigger] idx[j].0 by {
        assert(name_key(idx[i].0) == keys[i]);
        assert(name_key(idx[j].0) == keys[j]);
        assert(keys[i] != keys[j]);
    }
}

/// No two themes of the list share a name.
pub open spec fn distinct_names<K>(ts: Seq<ThemeDef<K>>) -> bool {
    forall|i: int, j: int| 0 <= i < j < ts.len() ==> #[trigger] ts[i].name@ != #[trigger] ts[j].name@
}

proof fn lemma_step_distinct<K>(ts: Seq<ThemeDef<K>>, u: ThemeDef<K>)
    requires
        distinct_names(ts),
    ensures
        distinct_names(with_user_theme(ts, u)),
{
    lemma_first_named(ts, u.name@);
    let r = with_user_theme(ts, u);
    assert forall|i: int, j: int| 0 <= i < j < r.len() implies #[trigger] r[i].name@
        != #[trigger] r[j].name@ by {
        match first_named(ts, u.name@) {
            Some(k) => {
                if i == k {
                    assert(ts[j].name@ != ts[k].name@);
                } else if j == k {
                    assert(ts[i].name@ != ts[k].name@);
                } else {
                    assert(r[i] == ts[i] && r[j] == ts[j]);
                }
            },
            None => {
                if j == ts.len() {
                    assert(r[i] == ts[i]);
                } else {
                    assert(r[i] == ts[i] && r[j] == ts[j]);
                }
            },
        }
    }
}

/// Reading user themes over built-in themes with distinct names leaves
/// the names distinct: a user theme never doubles a name.
pub proof fn lemma_merge_keeps_names_distinct<K>(builtins: Seq<ThemeDef<K>>, users: Seq<ThemeDef<K>>)
    requires
        distinct_names(builtins),
    ensures
        distinct_names(merged_themes(builtins, users)),
    decreases users.len(),
{
    if users.len() > 0 {
        lemma_merge_keeps_names_distinct(builtins, users.drop_last());
        lemma_step_distinct(merged_themes(builtins, users.drop_last()), users.last());
    }
}

proof fn lemma_step_keeps_other<K>(ts: Seq<ThemeDef<K>>, u: ThemeDef<K>, n: Seq<char>)
    requires
        u.name@ != n,
    ensures
        first_named(with_user_theme(ts, u), n) == first_named(ts, n),
        match first_named(ts, n) {
            Some(i) => with_user_theme(ts, u)[i] == ts[i],
            None => true,
        },
{
    lemma_first_named(ts, u.name@);
    lemma_first_named(ts, n);
    let r = with_user_theme(ts, u);
    match first_named(ts, n) {
        Some(i) => {
            assert(r[i] == ts[i]);
            assert forall|j: int| 0 <= j < i implies #[trigger] r[j].name@ != n by {
                assert(ts[j].name@ != n);
                match first_named(ts, u.name@) {
                    Some(k) => {
                        assert(r == ts.update(k, u));
                        if j != k {
                            assert(r[j] == ts[j]);
                        } else {
                            assert(r[j] == u);
                        }
                    },
                    None => {
                        assert(r == ts.push(u));
                        assert(r[j] == ts[j]);
                    },
                }
            }
            lemma_first_named_at(r, n, i);
        },
        None => {
            assert forall|j: int| 0 <= j < r.len() implies #[trigger] r[j].name@ != n by {
                match first_named(ts, u.name@) {
                    Some(k) => {
                        assert(r == ts.update(k, u));
                        if j != k {
                            assert(r[j] == ts[j]);
                            assert(ts[j].name@ != n);
                        } else {
                            assert(r[j] == u);
                        }
                    },
                    None => {
                        assert(r == ts.push(u));
                        if j < ts.len() {
                            assert(r[j] == ts[j]);
                            assert(ts[j].name@ != n);
                        } else {
                            assert(r[j] == u);
                        }
                    },
                }
            }
            lemma_first_named_none(r, n);
        },
    }
}

proof fn lemma_step_finds_new<K>(ts: Seq<ThemeDef<K>>, u: ThemeDef<K>)
    ensures
        first_named(with_user_theme(ts, u), u.name@) matches Some(i) && with_user_theme(ts, u)[i]
            == u,
{
    lemma_first_named(ts, u.name@);
    let r = with_user_theme(ts, u);
    match first_named(ts, u.name@) {
        Some(k) => {
            assert forall|j: int| 0 <= j < k implies #[trigger] r[j].name@ != u.name@ by {
                assert(r[j] == ts[j]);
            }
            lemma_first_named_at(r, u.name@, k);
        },
        None => {
            assert forall|j: int| 0 <= j < ts.len() implies #[trigger] r[j].name@ != u.name@ by {
                assert(r[j] == ts[j]);
            }
            lemma_first_named_at(r, u.name@, ts.len() as int);
        },
    }
}

/// A user theme takes priority over a built-in theme of the same name: the
/// theme found under a user theme's name is that user theme, provided no
/// later user theme has the same name.
pub proof fn lemma_user_theme_wins<K>(builtins: Seq<ThemeDef<K>>, users: Seq<ThemeDef<K>>, j: int)
    requires
        0 <= j < users.len(),
        forall|l: int| j < l < users.len() ==> #[trigger] users[l].name@ != users[j].name@,
    ensures
        first_named(merged_themes(builtins, users), users[j].name@) matches Some(i)
            && merged_themes(builtins, users)[i] == users[j],
    decreases users.len(),
{
    let init = users.drop_last();
    let m = merged_themes(builtins, init);
    if j == users.len() - 1 {
        lemma_step_finds_new(m, users.last());
    } else {
        assert forall|l: int| j < l < init.len() implies #[trigger] init[l].name@
            != init[j].name@ by {
            assert(init[l] == users[l]);
        }
        lemma_user_theme_wins(builtins, init, j);
        assert(init[j] == users[j]);
        lemma_step_keeps_other(m, users.last(), users[j].name@);
    }
}

/// A built-in theme that no user theme is named after is still found under
/// its name, unchanged.
pub proof fn lemma_builtin_kept<K>(builtins: Seq<ThemeDef<K>>, users: Seq<ThemeDef<K>>, n: Seq<char>)
    requires
        forall|l: int| 0 <= l < users.len() ==> #[trigger] users[l].name@ != n,
    ensures
        first_named(merged_themes(builtins, users), n) == first_named(builtins, n),
        match first_named(builtins, n) {
            Some(i) => merged_themes(builtins, users)[i] == builtins[i],
            None => true,
        },
    decreases users.len(),
{
    if users.len() > 0 {
        let init = users.drop_last();
        assert forall|l: int| 0 <= l < init.len() implies #[trigger] init[l].name@ != n by {
            assert(init[l] == users[l]);
        }
        lemma_builtin_kept(builtins, init, n);
        lemma_step_keeps_other(merged_themes(builtins, init), users.last(), n);
    }
}

} // verus!
