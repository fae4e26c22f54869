//! Theme resolution: which directory a theme name denotes, and which
//! entry pages it declares.
//!
//! The driver asks the file system what exists; every decision in between
//! is taken here, on plain values. The theme's own declaration file is a
//! small YAML map of strings, parsed by an outside parser behind one
//! trusted wrapper; what is read out of the map is verified.

use vstd::prelude::*;
use crate::text::copy_text;
use vstd::string::StringExecFns;
use crate::theme_utils::joined;

verus! {

broadcast use vstd::string::group_string_axioms;

/// The string map a theme declaration file holds, as the YAML parser
/// reads it: the entries sorted by key, or nothing where the text is not
/// a YAML map of strings.
pub uninterp spec fn yaml_string_map(s: Seq<char>) -> Option<Seq<(Seq<char>, Seq<char>)>>;

/// Relies on serde_yaml_ng::from_str::<BTreeMap<String, String>>: the
/// parse is a function of the text alone, and its entries are handed
/// over unchanged, in the map's (sorted) order.
#[verifier::external_body]
fn parse_yaml_map(content: &str) -> (r: Option<Vec<(String, String)>>)
    ensures
        r.deep_view() == yaml_string_map(content@),
{
    match serde_yaml_ng::from_str::<std::collections::BTreeMap<String, String>>(content) {
        Ok(m) => Some(m.into_iter().collect()),
        Err(_) => None,
    }
}

/// The first value under a key.
pub open spec fn map_value(m: Seq<(Seq<char>, Seq<char>)>, key: Seq<char>) -> Option<Seq<char>>
    decreases m.len(),
{
    if m.len() == 0 {
        None
    } else if m[0].0 == key {
        Some(m[0].1)
    } else {
        map_value(m.skip(1), key)
    }
}

/// The lookup result, decided from `i` on when no earlier key matches.
proof fn lemma_map_value_skip(m: Seq<(Seq<char>, Seq<char>)>, key: Seq<char>, i: int)
    requires
        0 <= i <= m.len(),
        forall|k: int| 0 <= k < i ==> (#[trigger] m[k]).0 != key,
    ensures
        map_value(m, key) == map_value(m.skip(i), key),
    decreases i,
{
    if i == 0 {
        assert(m.skip(0) =~= m);
    } else {
        assert(m[0].0 != key);
        lemma_map_value_skip(m.skip(1), key, i - 1);
        assert(m.skip(1).skip(i - 1) =~= m.skip(i));
    }
}

/// Looks a key up in the parsed map.
#[verifier::loop_isolation(false)]
fn map_lookup<'a>(m: &'a Vec<(String, String)>, key: &str) -> (r: Option<&'a String>)
    ensures
        (match r {
            Some(v) => map_value(m.deep_view(), key@) == Some(v@),
            None => map_value(m.deep_view(), key@) is None,
        }),
{
    let n = m.len();
    proof {
        assert(m.deep_view().len() == m@.len());
    }
    let mut i: usize = 0;
    while i < n
        invariant
            i <= n,
            n == m@.len(),
            m.deep_view().len() == n,
            forall|k: int| 0 <= k < i ==> (#[trigger] m.deep_view()[k]).0 != key@,
        decreases n - i,
    {
        proof {
            assert(m.deep_view()[i as int] == (m@[i as int].0@, m@[i as int].1@));
        }
        let eq = {
            let s: String = key.to_owned();
            m[i].0 == s
        };
        if eq {
            proof {
                lemma_map_value_skip(m.deep_view(), key@, i as int);
                assert(m.deep_view().skip(i as int)[0] == m.deep_view()[i as int]);
            }
            return Some(&m[i].1);
        }
        i += 1;
    }
    proof {
        lemma_map_value_skip(m.deep_view(), key@, n as int);
        assert(m.deep_view().skip(n as int).len() == 0);
    }
    None
}

/// What a theme's declaration text names as its entry pages: the
/// `primary_html` entry (or the conventional `index.html`), and the
/// `secondary_html` entry if there is one. Text that is not a string map
/// gives the conventional page and no secondary page.
pub fn parse_theme_config(content: &str) -> (r: (String, Option<String>))
    ensures
        (match yaml_string_map(content@) {
            Some(m) => {
                &&& (match map_value(m, "primary_html"@) {
                    Some(p) => r.0@ == p,
                    None => r.0@ == "index.html"@,
                })
                &&& (match map_value(m, "secondary_html"@) {
                    Some(s) => r.1 matches Some(v) && v@ == s,
                    None => r.1 is None,
                })
            },
            None => r.0@ == "index.html"@ && r.1 is None,
        }),
{
    let parsed = parse_yaml_map(content);
    let m = match &parsed {
        Some(m) => m,
        None => {
            return (String::from_str("index.html"), None);
        },
    };
    proof {
        assert(parsed.deep_view() == Some(m.deep_view()));
        assert(yaml_string_map(content@) == Some(m.deep_view()));
    }
    let primary: String = match map_lookup(m, "primary_html") {
        Some(p) => p.clone(),
        None => String::from_str("index.html"),
    };
    let secondary: Option<String> = match map_lookup(m, "secondary_html") {
        Some(s) => Some(s.clone()),
        None => None,
    };
    (primary, secondary)
}

/// Whether the path is absolute.
pub open spec fn absolute(s: Seq<char>) -> bool {
    s.len() > 0 && s[0] == '/'
}

/// Whether the path is one bare name: no separator except a trailing run.
pub open spec fn single_component(s: Seq<char>) -> bool {
    &&& s.len() > 0
    &&& s[0] != '/'
    &&& forall|i: int, j: int| 0 <= i <= j < s.len() && s[i] == '/' ==> s[j] == '/'
}

/// Whether `s` ends with `suffix`.
pub open spec fn ends_with(s: Seq<char>, suffix: Seq<char>) -> bool {
    suffix.len() <= s.len() && s.subrange(s.len() - suffix.len(), s.len() as int) == suffix
}

/// The path up to and including the last separator: the enclosing
/// directory of the file the path names.
pub open spec fn dirname_slash(s: Seq<char>) -> Seq<char>
    decreases s.len(),
{
    if s.len() == 0 {
        Seq::empty()
    } else if s.last() == '/' {
        s
    } else {
        dirname_slash(s.drop_last())
    }
}

/// The path up to, and not including, the last separator; nothing where
/// no separator occurs.
pub open spec fn parent_dir(s: Seq<char>) -> Option<Seq<char>>
    decreases s.len(),
{
    if s.len() == 0 {
        None
    } else if s.last() == '/' {
        Some(s.drop_last())
    } else {
        parent_dir(s.drop_last())
    }
}

/// Whether the path begins with a separator.
fn absolute_check(p: &Vec<char>) -> (r: bool)
    ensures
        r == absolute(p@),
{
    p.len() > 0 && p[0] == '/'
}

/// Whether the path is one bare name.
#[verifier::loop_isolation(false)]
fn single_component_check(p: &Vec<char>) -> (r: bool)
    ensures
        r == single_component(p@),
{
    if p.len() == 0 || p[0] == '/' {
        return false;
    }
    let mut i: usize = 0;
    // no separator seen yet up to i
    while i < p.len() && p[i] != '/'
        invariant
            i <= p@.len(),
            forall|k: int| 0 <= k < i ==> p@[k] != '/',
        decreases p@.len() - i,
    {
        i += 1;
    }
    let mut j: usize = i;
    while j < p.len() && p[j] == '/'
        invariant
            i <= j <= p@.len(),
            forall|k: int| i <= k < j ==> p@[k] == '/',
            forall|k: int| 0 <= k < i ==> p@[k] != '/',
        decreases p@.len() - j,
    {
        j += 1;
    }
    if j == p.len() {
        proof {
            assert forall|a: int, b: int|
                0 <= a <= b < p@.len() && p@[a] == '/' implies p@[b] == '/' by {}
        }
        true
    } else {
        proof {
            assert(p@[i as int] == '/' && p@[j as int] != '/' && i <= j);
        }
        false
    }
}

/// Whether the text ends with the given suffix.
#[verifier::loop_isolation(false)]
fn ends_with_check(p: &Vec<char>, suffix: &str) -> (r: bool)
    ensures
        r == ends_with(p@, suffix@),
{
    let slen = vstd::string::StrSliceExecFns::unicode_len(suffix);
    if p.len() < slen {
        return false;
    }
    let start = p.len() - slen;
    let mut k: usize = 0;
    while k < slen
        invariant
            k <= slen,
            slen == suffix@.len(),
            start == p@.len() - slen,
            forall|j: int| 0 <= j < k ==> p@[start + j] == suffix@[j],
        decreases slen - k,
    {
        if p[start + k] != vstd::string::StrSliceExecFns::get_char(suffix, k) {
            proof {
                if ends_with(p@, suffix@) {
                    assert(p@.subrange(p@.len() - suffix@.len(), p@.len() as int)[k as int]
                        == p@[start + k]);
                }
            }
            return false;
        }
        k += 1;
    }
    proof {
        assert(p@.subrange(p@.len() - suffix@.len(), p@.len() as int) =~= suffix@);
    }
    true
}

/// The enclosing directory, separator kept.
#[verifier::loop_isolation(false)]
fn dirname_slash_of(p: &Vec<char>) -> (r: Vec<char>)
    ensures
        r@ == dirname_slash(p@),
{
    proof {
        assert(p@.subrange(0, p@.len() as int) =~= p@);
    }
    let mut n: usize = p.len();
    while n > 0 && p[n - 1] != '/'
        invariant
            n <= p@.len(),
            dirname_slash(p@) == dirname_slash(p@.subrange(0, n as int)),
        decreases n,
    {
        proof {
            assert(p@.subrange(0, n as int).drop_last() =~= p@.subrange(0, n - 1 as int));
            assert(p@.subrange(0, n as int).last() == p@[n - 1]);
        }
        n -= 1;
    }
    proof {
        if n > 0 {
            assert(p@.subrange(0, n as int).last() == p@[n - 1]);
        }
        assert(dirname_slash(p@.subrange(0, n as int)) == p@.subrange(0, n as int));
    }
    let mut out: Vec<char> = Vec::new();
    let mut i: usize = 0;
    while i < n
        invariant
            i <= n <= p@.len(),
            out@ == p@.subrange(0, i as int),
        decreases n - i,
    {
        out.push(p[i]);
        proof {
            assert(p@.subrange(0, i + 1 as int) =~= p@.subrange(0, i as int).push(p@[i as int]));
        }
        i += 1;
    }
    proof {
        assert(out@ =~= dirname_slash(p@));
    }
    out
}

/// The parent directory of a path with a separator, for the shared data
/// directory the daemon names: the part before the last separator.
#[verifier::loop_isolation(false)]
pub fn parent_dir_of(p: &Vec<char>) -> (r: Option<Vec<char>>)
    ensures
        (match r {
            Some(d) => parent_dir(p@) == Some(d@),
            None => parent_dir(p@) is None,
        }),
{
    proof {
        assert(p@.subrange(0, p@.len() as int) =~= p@);
    }
    let mut n: usize = p.len();
    while n > 0 && p[n - 1] != '/'
        invariant
            n <= p@.len(),
            parent_dir(p@) == parent_dir(p@.subrange(0, n as int)),
        decreases n,
    {
        proof {
            assert(p@.subrange(0, n as int).drop_last() =~= p@.subrange(0, n - 1 as int));
            assert(p@.subrange(0, n as int).last() == p@[n - 1]);
        }
        n -= 1;
    }
    if n == 0 {
        proof {
            assert(p@.subrange(0, 0) =~= Seq::<char>::empty());
        }
        return None;
    }
    proof {
        assert(p@.subrange(0, n as int).last() == p@[n - 1]);
        assert(parent_dir(p@) == Some(p@.subrange(0, n as int).drop_last()));
        assert(p@.subrange(0, n as int).drop_last() =~= p@.subrange(0, n - 1 as int));
    }
    let mut out: Vec<char> = Vec::new();
    let mut i: usize = 0;
    while i < n - 1
        invariant
            n >= 1,
            i <= n - 1,
            n <= p@.len(),
            out@ == p@.subrange(0, i as int),
        decreases n - i,
    {
        out.push(p[i]);
        proof {
            assert(p@.subrange(0, i + 1 as int) =~= p@.subrange(0, i as int).push(p@[i as int]));
        }
        i += 1;
    }
    Some(out)
}

/// Joins a directory and a name with a separator.
pub fn join_path(dir: &Vec<char>, name: &str) -> (r: Vec<char>)
    ensures
        r@ == joined(dir@, name@),
{
    let mut out = copy_text(dir);
    if !(out.len() > 0 && out[out.len() - 1] == '/') {
        out.push('/');
        proof {
            assert(out@ =~= dir@ + seq!['/']);
        }
    }
    let chars = crate::text::text(name);
    let mut i: usize = 0;
    let ghost base = out@;
    while i < chars.len()
        invariant
            i <= chars@.len(),
            chars@ == name@,
            out@ == base + chars@.subrange(0, i as int),
        decreases chars@.len() - i,
    {
        out.push(chars[i]);
        proof {
            assert(chars@.subrange(0, i + 1 as int) =~= chars@.subrange(0, i as int).push(
                chars@[i as int],
            ));
            assert(out@ =~= base + chars@.subrange(0, i + 1 as int));
        }
        i += 1;
    }
    proof {
        assert(chars@.subrange(0, chars@.len() as int) =~= chars@);
        assert(out@ =~= joined(dir@, name@));
    }
    out
}

/// Joins a directory and a name given as characters.
pub fn join_path_chars(dir: &Vec<char>, name: &Vec<char>) -> (r: Vec<char>)
    ensures
        r@ == joined(dir@, name@),
{
    let mut out = copy_text(dir);
    if !(out.len() > 0 && out[out.len() - 1] == '/') {
        out.push('/');
        proof {
            assert(out@ =~= dir@ + seq!['/']);
        }
    }
    let mut i: usize = 0;
    let ghost base = out@;
    while i < name.len()
        invariant
            i <= name@.len(),
            out@ == base + name@.subrange(0, i as int),
        decreases name@.len() - i,
    {
        out.push(name[i]);
        proof {
            assert(name@.subrange(0, i + 1 as int) =~= name@.subrange(0, i as int).push(
                name@[i as int],
            ));
            assert(out@ =~= base + name@.subrange(0, i + 1 as int));
        }
        i += 1;
    }
    proof {
        assert(name@.subrange(0, name@.len() as int) =~= name@);
        assert(out@ =~= joined(dir@, name@));
    }
    out
}

/// Where a theme name points before the file system is asked: an
/// absolute name stands as it is; a bare name lives under the themes
/// directory; anything else is taken relative to the working directory,
/// or falls back to the default theme where none is known.
pub fn theme_absolute_path(theme: &Vec<char>, themes_dir: &Vec<char>, cwd: Option<&Vec<char>>) -> (r:
    Vec<char>)
    ensures
        absolute(theme@) ==> r@ == theme@,
        !absolute(theme@) && single_component(theme@) ==> r@ == joined(themes_dir@, theme@),
        !absolute(theme@) && !single_component(theme@) ==> (match cwd {
            Some(c) => r@ == joined(c@, theme@),
            None => r@ == joined(themes_dir@, "default"@),
        }),
{
    if absolute_check(theme) {
        copy_text(theme)
    } else if single_component_check(theme) {
        join_path_chars(themes_dir, theme)
    } else {
        match cwd {
            Some(c) => join_path_chars(c, theme),
            None => join_path(themes_dir, "default"),
        }
    }
}

/// The directory a theme's pages live in, before existence is checked:
/// the enclosing directory where the name points at an HTML file, the
/// path itself otherwise.
pub fn theme_dir_of(abs_path: &Vec<char>, abs_is_file: bool, theme: &Vec<char>) -> (r: Vec<char>)
    ensures
        abs_is_file && ends_with(theme@, ".html"@) ==> r@ == dirname_slash(abs_path@),
        !(abs_is_file && ends_with(theme@, ".html"@)) ==> r@ == abs_path@,
{
    if abs_is_file && ends_with_check(theme, ".html") {
        dirname_slash_of(abs_path)
    } else {
        copy_text(abs_path)
    }
}

/// The theme directory once existence is known: the chosen directory if
/// it exists, else the installed default theme.
pub fn choose_theme_dir(final_dir: Vec<char>, final_is_dir: bool, themes_dir: &Vec<char>) -> (r:
    Vec<char>)
    ensures
        final_is_dir ==> r@ == final_dir@,
        !final_is_dir ==> r@ == joined(themes_dir@, "default"@),
{
    if final_is_dir {
        final_dir
    } else {
        join_path(themes_dir, "default")
    }
}

/// The primary page: the theme name itself where it points at an HTML
/// file; else the declared candidate where that is an HTML file; else
/// the installed default theme's conventional page.
pub fn primary_html_path(
    abs_path: &Vec<char>,
    abs_is_file: bool,
    theme: &Vec<char>,
    candidate: &Vec<char>,
    candidate_is_file: bool,
    primary_name: &Vec<char>,
    default_index: &Vec<char>,
) -> (r: Vec<char>)
    ensures
        abs_is_file && ends_with(theme@, ".html"@) ==> r@ == abs_path@,
        !(abs_is_file && ends_with(theme@, ".html"@)) && candidate_is_file && ends_with(
            primary_name@,
            ".html"@,
        ) ==> r@ == candidate@,
        !(abs_is_file && ends_with(theme@, ".html"@)) && !(candidate_is_file && ends_with(
            primary_name@,
            ".html"@,
        )) ==> r@ == default_index@,
{
    if abs_is_file && ends_with_check(theme, ".html") {
        copy_text(abs_path)
    } else if candidate_is_file && ends_with_check(primary_name, ".html") {
        copy_text(candidate)
    } else {
        copy_text(default_index)
    }
}

/// The secondary page: the declared candidate where it exists as a
/// file, the primary page otherwise.
pub fn secondary_html_path(primary: &Vec<char>, candidate: Option<(Vec<char>, bool)>) -> (r: Vec<
    char,
>)
    ensures
        (match candidate {
            Some((p, is_file)) => {
                if is_file {
                    r@ == p@
                } else {
                    r@ == primary@
                }
            },
            None => r@ == primary@,
        }),
{
    match candidate {
        Some((p, is_file)) => {
            if is_file {
                p
            } else {
                copy_text(primary)
            }
        },
        None => copy_text(primary),
    }
}

} // verus!
