//! Ambient mode: the strip follows a colour of the desktop's wallpaper
//! scheme (a JSON file with a `colours` table of hex codes). The caller
//! watches the file and reads it; this module decides which colour key is
//! followed, whether a change of the watched directory concerns the scheme,
//! which colour the file gives, and whether the strip must be updated.

use vstd::prelude::*;

use crate::colors::{hex_color, hex_to_rgb};
use crate::dreamview::Rgb;
use crate::text::{push_str, str_eq};

verus! {

/// The scheme colours that can be followed, in the order they are offered.
pub open spec fn ambient_color_names() -> Seq<Seq<char>> {
    seq![
        "primary"@,
        "secondary"@,
        "tertiary"@,
        "primaryContainer"@,
        "tertiaryContainer"@,
        "surfaceTint"@,
    ]
}

/// The scheme colours that can be followed.
pub fn ambient_colors() -> (v: Vec<&'static str>)
    ensures
        v@.map_values(|s: &str| s@) == ambient_color_names(),
{
    let v = vec![
        "primary",
        "secondary",
        "tertiary",
        "primaryContainer",
        "tertiaryContainer",
        "surfaceTint",
    ];
    assert(v@.map_values(|s: &str| s@) =~= ambient_color_names());
    v
}

/// The names joined by ", ".
pub open spec fn comma_joined(names: Seq<Seq<char>>) -> Seq<char>
    decreases names.len(),
{
    if names.len() == 0 {
        Seq::empty()
    } else if names.len() == 1 {
        names[0]
    } else {
        comma_joined(names.drop_last()) + ", "@ + names.last()
    }
}

/// Why a colour name was refused: the error and the hint shown under it.
pub struct ColorNameError {
    pub message: String,
    pub hint: String,
}

/// Checks that `color` is one of the scheme colours that can be followed;
/// otherwise gives the error `Invalid color '<color>'` with the hint listing
/// the names.
pub fn check_ambient_color(color: &str) -> (res: Result<(), ColorNameError>)
    ensures
        ambient_color_names().contains(color@) <==> res is Ok,
        res matches Err(e) ==> e.message@ == "Invalid color '"@ + color@ + "'"@ && e.hint@
            == "Available: "@ + comma_joined(ambient_color_names()),
{
    let names = ambient_colors();
    let ghost nv = names@.map_values(|s: &str| s@);
    let mut i: usize = 0;
    while i < names.len()
        invariant
            i <= names@.len(),
            nv == names@.map_values(|s: &str| s@),
            nv == ambient_color_names(),
            forall|k: int| 0 <= k < i ==> nv[k] != color@,
        decreases names@.len() - i,
    {
        if str_eq(names[i], color) {
            assert(nv[i as int] == color@);
            return Ok(());
        }
        i = i + 1;
    }
    let mut message = String::new();
    push_str(&mut message, "Invalid color '");
    push_str(&mut message, color);
    push_str(&mut message, "'");
    let mut hint = String::new();
    push_str(&mut hint, "Available: ");
    let mut j: usize = 0;
    while j < names.len()
        invariant
            j <= names@.len(),
            nv == names@.map_values(|s: &str| s@),
            hint@ == "Available: "@ + comma_joined(nv.subrange(0, j as int)),
        decreases names@.len() - j,
    {
        if j > 0 {
            push_str(&mut hint, ", ");
        }
        push_str(&mut hint, names[j]);
        assert(nv.subrange(0, j as int + 1).drop_last() =~= nv.subrange(0, j as int));
        j = j + 1;
        assert(hint@ =~= "Available: "@ + comma_joined(nv.subrange(0, j as int)));
    }
    assert(nv.subrange(0, names@.len() as int) =~= nv);
    assert(message@ =~= "Invalid color '"@ + color@ + "'"@);
    Err(ColorNameError { message, hint })
}

/// The scheme key followed: the colour, or its dim variant.
pub fn color_key(color: &str, dim: bool) -> (key: String)
    ensures
        key@ == (if dim { color@ + "Dim"@ } else { color@ }),
{
    let mut key = String::new();
    push_str(&mut key, color);
    if dim {
        push_str(&mut key, "Dim");
    }
    assert(key@ =~= (if dim { color@ + "Dim"@ } else { color@ }));
    key
}

/// `t` occurs in `s`.
pub open spec fn has_substring(s: Seq<char>, t: Seq<char>) -> bool {
    exists|i: int| 0 <= i && i + t.len() <= s.len() && #[trigger] s.subrange(i, i + t.len()) == t
}

/// Whether `t` occurs in `s`.
pub fn contains_text(s: &str, t: &str) -> (b: bool)
    ensures
        b == has_substring(s@, t@),
{
    let n = s.unicode_len();
    let m = t.unicode_len();
    if m > n {
        proof {
            assert forall|i: int| 0 <= i && i + t@.len() <= s@.len() implies #[trigger] s@.subrange(
                i,
                i + t@.len(),
            ) != t@ by {}
        }
        return false;
    }
    let mut i: usize = 0;
    while i <= n - m
        invariant
            n == s@.len(),
            m == t@.len(),
            m <= n,
            i <= n - m + 1,
            forall|k: int| 0 <= k < i ==> #[trigger] s@.subrange(k, k + m) != t@,
        decreases n - m + 1 - i,
    {
        let mut j: usize = 0;
        while j < m && s.get_char(i + j) == t.get_char(j)
            invariant
                n == s@.len(),
                m == t@.len(),
                i + m <= n,
                j <= m,
                forall|q: int| 0 <= q < j ==> s@[i + q] == t@[q],
            decreases m - j,
        {
            j = j + 1;
        }
        if j == m {
            assert(s@.subrange(i as int, i + m) =~= t@);
            return true;
        }
        assert(s@.subrange(i as int, i + m)[j as int] != t@[j as int]);
        i = i + 1;
    }
    proof {
        assert forall|k: int| 0 <= k && k + t@.len() <= s@.len() implies #[trigger] s@.subrange(
            k,
            k + t@.len(),
        ) != t@ by {
            assert(k < i);
        }
    }
    false
}

/// A changed entry whose name holds `scheme.json`.
pub open spec fn is_scheme_entry(name: Option<String>) -> bool {
    match name {
        Some(n) => has_substring(n@, "scheme.json"@),
        None => false,
    }
}

/// Whether a batch of changes in the watched directory concerns the scheme:
/// some changed entry's name holds `scheme.json`.
pub fn scheme_changed(names: &[Option<String>]) -> (changed: bool)
    ensures
        changed == exists|i: int| 0 <= i < names@.len() && is_scheme_entry(#[trigger] names@[i]),
{
    let mut i: usize = 0;
    while i < names.len()
        invariant
            i <= names@.len(),
            forall|k: int| 0 <= k < i ==> !is_scheme_entry(#[trigger] names@[k]),
        decreases names@.len() - i,
    {
        match &names[i] {
            Some(n) => {
                if contains_text(n.as_str(), "scheme.json") {
                    assert(is_scheme_entry(names@[i as int]));
                    return true;
                }
            },
            None => {},
        }
        i = i + 1;
    }
    false
}

/// The string stored under `colours.<key>` in the JSON document `text`,
/// when `text` is JSON and that entry is a string: what `serde_json` reads.
pub uninterp spec fn scheme_entry(text: Seq<char>, key: Seq<char>) -> Option<Seq<char>>;

/// Looks up `colours.<key>` with `serde_json`: parses `text` as a
/// `serde_json::Value`, then `get("colours")`, `get(key)` and `as_str`. The
/// contract claims only that the result is a function of the text and the
/// key, named `scheme_entry`.
#[verifier::external_body]
fn scheme_lookup(text: &str, key: &str) -> (entry: Option<String>)
    ensures
        match scheme_entry(text@, key@) {
            Some(e) => entry matches Some(s) && s@ == e,
            None => entry is None,
        },
{
    let scheme: serde_json::Value = serde_json::from_str(text).ok()?;
    Some(scheme.get("colours")?.get(key)?.as_str()?.to_string())
}

/// The colour the scheme file gives for `key`: its entry read as a hex
/// colour, if there is one.
pub open spec fn scheme_color(text: Seq<char>, key: Seq<char>) -> Option<Rgb> {
    match scheme_entry(text, key) {
        Some(h) => hex_color(h),
        None => None,
    }
}

/// Reads the colour for `color_key` from the text of the scheme file.
pub fn read_scheme_color(text: &str, color_key: &str) -> (c: Option<Rgb>)
    ensures
        c == scheme_color(text@, color_key@),
{
    match scheme_lookup(text, color_key) {
        Some(hex) => hex_to_rgb(hex.as_str()),
        None => None,
    }
}

/// What to send after the scheme was read again: the new colour when there
/// is one and it differs from the last colour sent.
pub open spec fn color_update(last: Option<Rgb>, read: Option<Rgb>) -> Option<Rgb> {
    match read {
        Some(c) => if last == Some(c) {
            None
        } else {
            Some(c)
        },
        None => None,
    }
}

/// The last colour sent after an update.
pub open spec fn last_after(last: Option<Rgb>, read: Option<Rgb>) -> Option<Rgb> {
    match color_update(last, read) {
        Some(c) => Some(c),
        None => last,
    }
}

/// Decides what to send after the scheme was read again.
pub fn color_to_send(last: Option<Rgb>, read: Option<Rgb>) -> (send: Option<Rgb>)
    ensures
        send == color_update(last, read),
{
    match read {
        Some(c) => {
            let same = match last {
                Some(l) => l.0 == c.0 && l.1 == c.1 && l.2 == c.2,
                None => false,
            };
            if same {
                None
            } else {
                Some(c)
            }
        },
        None => None,
    }
}

/// The strip follows the scheme without repeating itself: after an update
/// the last colour sent is the colour read (if any), and reading the same
/// colour again sends nothing.
pub proof fn lemma_no_repeated_send(last: Option<Rgb>, read: Option<Rgb>)
    ensures
        read is Some ==> last_after(last, read) == read,
        color_update(last_after(last, read), read) is None,
{
}

} // verus!
