//! The filesystem-utility handler: the method table of the `theme_utils`
//! namespace, with the directory allow-list.
//!
//! The one method, `dirlist`, lists a directory for the theme — but only
//! inside a small set of permitted directories. The handler validates the
//! request, the driver resolves the path on disk and reads the entries,
//! and the verified logic decides: a path whose canonical form is not a
//! descendant of an allowed directory yields the empty list, the same
//! answer an empty directory gives, so the caller cannot probe what
//! exists outside the allow-list.

use vstd::prelude::*;
use crate::envelope::HandlerResult;
use crate::json::{Json, JsonV, jviews};
use crate::lightdm::{ResultV, hr_view};
use crate::text::{copy_text, is_lit};

verus! {

/// Whitespace, as trimming sees it.
pub open spec fn is_space(c: char) -> bool {
    c == ' ' || c == '\t' || c == '\n' || c == '\r'
}

/// Whether the text is empty once trimmed.
pub open spec fn blank(s: Seq<char>) -> bool {
    forall|i: int| 0 <= i < s.len() ==> is_space(s[i])
}

/// A directory name without its trailing slashes.
pub open spec fn strip_slashes(d: Seq<char>) -> Seq<char>
    decreases d.len(),
{
    if d.len() > 0 && d.last() == '/' {
        strip_slashes(d.drop_last())
    } else {
        d
    }
}

/// Whether the path `p` is the directory `d` or a descendant of it,
/// component-wise: `d` (without trailing slashes) is a prefix of `p`,
/// and the prefix ends exactly at a component boundary.
pub open spec fn is_path_prefix(d: Seq<char>, p: Seq<char>) -> bool {
    let ds = strip_slashes(d);
    &&& ds.len() <= p.len()
    &&& p.subrange(0, ds.len() as int) == ds
    &&& (p.len() == ds.len() || p[ds.len() as int] == '/')
}

/// Whether some allowed directory contains the path.
pub open spec fn allowed_path(dirs: Seq<Vec<char>>, p: Seq<char>) -> bool {
    exists|i: int| 0 <= i < dirs.len() && is_path_prefix(dirs[i]@, p)
}

/// What the handler asks the driver to do next.
pub enum ThemeUtilsStep {
    /// The reply is ready.
    Done(HandlerResult),
    /// Resolve this path on disk, then continue with `dirlist_resolved`.
    /// The flag asks for image files only.
    Resolve(Vec<char>, bool),
}

/// What `dirlist_resolved` decides.
pub enum DirStep {
    /// The reply is ready: the empty list.
    Refused(HandlerResult),
    /// List this canonical directory, then build the reply with
    /// `dirlist_entries`.
    List(Vec<char>),
}

/// One directory entry, as the driver read it.
pub struct DirEntry {
    pub name: Vec<char>,
    pub is_file: bool,
}

/// The lower-case form of a character, for the image-name check.
pub open spec fn lower(c: char) -> char {
    if 'A' <= c && c <= 'Z' {
        ((c as u32) + 32) as char
    } else {
        c
    }
}

pub open spec fn lower_seq(s: Seq<char>) -> Seq<char> {
    Seq::new(s.len(), |i: int| lower(s[i]))
}

/// Whether `lit` stands at position `i` of `t`.
pub open spec fn sub_at(t: Seq<char>, i: int, lit: Seq<char>) -> bool {
    0 <= i && i + lit.len() <= t.len() && t.subrange(i, i + lit.len()) == lit
}

/// Whether the name looks like an image file: somewhere after its first
/// character, lowered, one of the image extensions stands.
pub open spec fn image_name(s: Seq<char>) -> bool {
    exists|i: int|
        1 <= i && (sub_at(lower_seq(s), i, ".jpg"@) || sub_at(lower_seq(s), i, ".jpeg"@) || sub_at(
            lower_seq(s),
            i,
            ".png"@,
        ) || sub_at(lower_seq(s), i, ".gif"@) || sub_at(lower_seq(s), i, ".bmp"@) || sub_at(
            lower_seq(s),
            i,
            ".webp"@,
        ))
}

/// Whether an entry is kept: the bookkeeping names never, and with the
/// image filter only image files.
pub open spec fn entry_kept(e: DirEntry, only_images: bool) -> bool {
    &&& e.name@ != "."@
    &&& e.name@ != ".."@
    &&& (only_images ==> (e.is_file && image_name(e.name@)))
}

/// The full path of an entry under the resolved directory.
pub open spec fn joined(resolved: Seq<char>, name: Seq<char>) -> Seq<char> {
    if resolved.len() > 0 && resolved.last() == '/' {
        resolved + name
    } else {
        resolved + seq!['/'] + name
    }
}

/// The kept entries' full paths, in directory order.
pub open spec fn listed(resolved: Seq<char>, es: Seq<DirEntry>, only_images: bool) -> Seq<JsonV>
    decreases es.len(),
{
    if es.len() == 0 {
        Seq::empty()
    } else if entry_kept(es[0], only_images) {
        seq![JsonV::Str(joined(resolved, es[0].name@))] + listed(resolved, es.skip(1), only_images)
    } else {
        listed(resolved, es.skip(1), only_images)
    }
}

proof fn lemma_listed_push(resolved: Seq<char>, es: Seq<DirEntry>, only_images: bool, e: DirEntry)
    ensures
        listed(resolved, es.push(e), only_images) == if entry_kept(e, only_images) {
            listed(resolved, es, only_images).push(JsonV::Str(joined(resolved, e.name@)))
        } else {
            listed(resolved, es, only_images)
        },
    decreases es.len(),
{
    if es.len() == 0 {
        assert(es.push(e)[0] == e);
        assert(es.push(e).skip(1) =~= Seq::<DirEntry>::empty());
        assert(listed(resolved, es.push(e).skip(1), only_images) == Seq::<JsonV>::empty());
        if entry_kept(e, only_images) {
            assert(seq![JsonV::Str(joined(resolved, e.name@))] + Seq::<JsonV>::empty()
                =~= Seq::<JsonV>::empty().push(JsonV::Str(joined(resolved, e.name@))));
        }
    } else {
        assert(es.push(e)[0] == es[0]);
        assert(es.push(e).skip(1) =~= es.skip(1).push(e));
        lemma_listed_push(resolved, es.skip(1), only_images, e);
        if entry_kept(es[0], only_images) && entry_kept(e, only_images) {
            assert(seq![JsonV::Str(joined(resolved, es[0].name@))] + listed(
                resolved,
                es.skip(1),
                only_images,
            ).push(JsonV::Str(joined(resolved, e.name@))) =~= (seq![
                JsonV::Str(joined(resolved, es[0].name@)),
            ] + listed(resolved, es.skip(1), only_images)).push(
                JsonV::Str(joined(resolved, e.name@)),
            ));
        }
    }
}

/// What the handler decides from the raw arguments, before anything
/// touches the disk.
pub open spec fn dirlist_precheck(args: Seq<JsonV>) -> Option<(Seq<char>, bool)> {
    if args.len() < 2 {
        None
    } else {
        match args[0] {
            JsonV::Str(p) => {
                if blank(p) || p == "/"@ || (p.len() >= 2 && p[0] == '.' && p[1] == '/') {
                    None
                } else {
                    Some((p, args[1] == JsonV::Bool(true)))
                }
            },
            _ => None,
        }
    }
}

/// The filesystem-utility handler: the allow-list.
pub struct ThemeUtils {
    pub allowed_dirs: Vec<Vec<char>>,
}

impl ThemeUtils {
    pub fn new(allowed_dirs: Vec<Vec<char>>) -> (r: ThemeUtils)
        ensures
            r.allowed_dirs == allowed_dirs,
    {
        ThemeUtils { allowed_dirs }
    }

    /// Answers one call or asks the driver to resolve a path: only
    /// `dirlist` with at least one argument reaches the disk at all; a
    /// short argument list answers null, a blank, root or relative path
    /// answers the empty list at once.
    #[verifier::loop_isolation(false)]
pub fn handle(&self, method: &Vec<char>, args: Vec<Json>) -> (r: ThemeUtilsStep)
        ensures
            (method@ != "dirlist"@ || args@.len() == 0) ==> (r matches ThemeUtilsStep::Done(h)
                && hr_view(h) == ResultV::Undefined),
            method@ == "dirlist"@ && args@.len() == 1 ==> (r matches ThemeUtilsStep::Done(h)
                && hr_view(h) == ResultV::Value(JsonV::Null)),
            method@ == "dirlist"@ && args@.len() >= 2 ==> (match dirlist_precheck(jviews(args@)) {
                Some((p, oi)) => r matches ThemeUtilsStep::Resolve(path, only) && path@ == p
                    && only == oi,
                None => r matches ThemeUtilsStep::Done(h) && hr_view(h) == ResultV::Value(
                    JsonV::Arr(Seq::<JsonV>::empty()),
                ),
            }),
    {
        proof {
            crate::json::lemma_jviews_len(args@);
        }
        if !(is_lit(method, "dirlist") && args.len() >= 1) {
            return ThemeUtilsStep::Done(HandlerResult::Undefined);
        }
        proof {
            crate::json::lemma_jviews_index(args@, 0);
        }
        if args.len() < 2 {
            return ThemeUtilsStep::Done(HandlerResult::Value(Json::Null));
        }
        proof {
            crate::json::lemma_jviews_index(args@, 1);
        }
        let p: &Vec<char> = match &args[0] {
            Json::Str(p) => p,
            _ => {
                return ThemeUtilsStep::Done(HandlerResult::Value(Json::Arr(Vec::new())));
            },
        };
        if is_blank(p) {
            return ThemeUtilsStep::Done(HandlerResult::Value(Json::Arr(Vec::new())));
        }
        if is_lit(p, "/") || (p.len() >= 2 && p[0] == '.' && p[1] == '/') {
            proof {
                reveal_strlit("/");
                assert("/"@.len() == 1);
                assert("/"@[0] == '/');
            }
            return ThemeUtilsStep::Done(HandlerResult::Value(Json::Arr(Vec::new())));
        }
        let only_images = match &args[1] {
            Json::Bool(b) => *b,
            _ => false,
        };
        ThemeUtilsStep::Resolve(copy_text(p), only_images)
    }

    /// Decides whether a resolved path may be listed: it must exist (the
    /// driver resolved it), be a directory, and lie under some allowed
    /// directory; anything else is answered by the empty list, the same
    /// answer an allowed but empty directory gives.
    #[verifier::loop_isolation(false)]
pub fn dirlist_resolved(&self, canonical: Option<Vec<char>>, is_dir: bool) -> (r: DirStep)
        ensures
            (match canonical {
                Some(c) => {
                    if is_dir && allowed_path(self.allowed_dirs@, c@) {
                        r matches DirStep::List(path) && path@ == c@
                    } else {
                        r matches DirStep::Refused(h) && hr_view(h) == ResultV::Value(
                            JsonV::Arr(Seq::<JsonV>::empty()),
                        )
                    }
                },
                None => r matches DirStep::Refused(h) && hr_view(h) == ResultV::Value(
                    JsonV::Arr(Seq::<JsonV>::empty()),
                ),
            }),
    {
        let c = match canonical {
            Some(c) => c,
            None => {
                return DirStep::Refused(HandlerResult::Value(Json::Arr(Vec::new())));
            },
        };
        if !is_dir {
            return DirStep::Refused(HandlerResult::Value(Json::Arr(Vec::new())));
        }
        let n = self.allowed_dirs.len();
        let mut i: usize = 0;
        while i < n
            invariant
                i <= n,
                n == self.allowed_dirs@.len(),
                forall|k: int| 0 <= k < i ==> !is_path_prefix(self.allowed_dirs@[k]@, c@),
            decreases n - i,
        {
            if path_prefix_check(&self.allowed_dirs[i], &c) {
                proof {
                    assert(allowed_path(self.allowed_dirs@, c@));
                }
                return DirStep::List(c);
            }
            i += 1;
        }
        proof {
            assert(!allowed_path(self.allowed_dirs@, c@));
        }
        DirStep::Refused(HandlerResult::Value(Json::Arr(Vec::new())))
    }
}

/// The directories a session permits listing, in order: the themes
/// directory, the branding image directory, the session's shared data
/// directory where the daemon named one, the active theme's canonical
/// directory where it resolved, and the temporary directory. An empty
/// shared-data name is left out: an empty allowed directory would contain
/// every path.
pub fn standard_allow_list(
    themes_dir: &Vec<char>,
    branding_dir: &Vec<char>,
    shared_data_dir: &Vec<char>,
    theme_dir: Option<Vec<char>>,
    tmp_dir: Vec<char>,
) -> (r: Vec<Vec<char>>)
    ensures
        crate::envelope::part_views(r@) == seq![themes_dir@, branding_dir@] + (if shared_data_dir@.len()
            > 0 {
            seq![shared_data_dir@]
        } else {
            Seq::<Seq<char>>::empty()
        }) + (match theme_dir {
            Some(d) => seq![d@],
            None => Seq::<Seq<char>>::empty(),
        }) + seq![tmp_dir@],
{
    let mut r: Vec<Vec<char>> = Vec::new();
    r.push(copy_text(themes_dir));
    r.push(copy_text(branding_dir));
    if shared_data_dir.len() > 0 {
        r.push(copy_text(shared_data_dir));
    }
    match theme_dir {
        Some(d) => r.push(d),
        None => (),
    }
    r.push(tmp_dir);
    proof {
        assert(crate::envelope::part_views(r@) =~= seq![themes_dir@, branding_dir@] + (
        if shared_data_dir@.len() > 0 {
            seq![shared_data_dir@]
        } else {
            Seq::<Seq<char>>::empty()
        }) + (match theme_dir {
            Some(d) => seq![d@],
            None => Seq::<Seq<char>>::empty(),
        }) + seq![tmp_dir@]);
    }
    r
}

/// The reply for a listed directory: the kept entries' full paths, in
/// the order the driver read them.
#[verifier::loop_isolation(false)]
pub fn dirlist_entries(resolved: &Vec<char>, entries: &Vec<DirEntry>, only_images: bool) -> (r:
    HandlerResult)
    ensures
        hr_view(r) == ResultV::Value(JsonV::Arr(listed(resolved@, entries@, only_images))),
{
    let mut items: Vec<Json> = Vec::new();
    let mut i: usize = 0;
    proof {
        assert(entries@.subrange(0, 0) =~= Seq::<DirEntry>::empty());
    }
    while i < entries.len()
        invariant
            i <= entries@.len(),
            jviews(items@) == listed(resolved@, entries@.subrange(0, i as int), only_images),
        decreases entries@.len() - i,
    {
        let ghost prefix = entries@.subrange(0, i as int);
        let e = &entries[i];
        if entry_kept_check(e, only_images) {
            let mut full: Vec<char> = copy_text(resolved);
            if !(full.len() > 0 && full[full.len() - 1] == '/') {
                full.push('/');
                proof {
                    assert(full@ =~= resolved@ + seq!['/']);
                }
            }
            let mut j: usize = 0;
            let ghost base = full@;
            while j < e.name.len()
                invariant
                    j <= e.name@.len(),
                    full@ == base + e.name@.subrange(0, j as int),
                decreases e.name@.len() - j,
            {
                full.push(e.name[j]);
                proof {
                    assert(e.name@.subrange(0, j + 1 as int) =~= e.name@.subrange(0, j as int).push(
                        e.name@[j as int],
                    ));
                    assert(full@ =~= base + e.name@.subrange(0, j + 1 as int));
                }
                j += 1;
            }
            proof {
                assert(e.name@.subrange(0, e.name@.len() as int) =~= e.name@);
                assert(base + e.name@ =~= joined(resolved@, e.name@));
            }
            let lj = Json::Str(full);
            let ghost itemsv = items@;
            items.push(lj);
            proof {
                crate::json::lemma_jviews_push(itemsv, lj);
            }
        }
        proof {
            lemma_listed_push(resolved@, prefix, only_images, entries@[i as int]);
            assert(entries@.subrange(0, i + 1 as int) =~= prefix.push(entries@[i as int]));
        }
        i += 1;
    }
    proof {
        assert(entries@.subrange(0, entries@.len() as int) =~= entries@);
    }
    HandlerResult::Value(Json::Arr(items))
}

/// A non-empty answer comes only from a path that resolved, names a
/// directory, and lies under some allowed directory: everything else is
/// the empty list, indistinguishable from an empty directory.
pub proof fn lemma_allowlist_containment(
    dirs: Seq<Vec<char>>,
    canonical: Option<Vec<char>>,
    is_dir: bool,
    r: DirStep,
)
    requires
        (match canonical {
            Some(c) => {
                if is_dir && allowed_path(dirs, c@) {
                    r matches DirStep::List(path) && path@ == c@
                } else {
                    r matches DirStep::Refused(h) && hr_view(h) == ResultV::Value(
                        JsonV::Arr(Seq::<JsonV>::empty()),
                    )
                }
            },
            None => r matches DirStep::Refused(h) && hr_view(h) == ResultV::Value(
                JsonV::Arr(Seq::<JsonV>::empty()),
            ),
        }),
    ensures
        (r matches DirStep::List(_)) ==> (canonical matches Some(c) && is_dir && allowed_path(
            dirs,
            c@,
        )),
        (r matches DirStep::Refused(h) ==> hr_view(h) == ResultV::Value(
            JsonV::Arr(Seq::<JsonV>::empty()),
        )),
{
}

/// Whether the text is all whitespace.
#[verifier::loop_isolation(false)]
fn is_blank(p: &Vec<char>) -> (r: bool)
    ensures
        r == blank(p@),
{
    let mut i: usize = 0;
    while i < p.len()
        invariant
            i <= p@.len(),
            forall|k: int| 0 <= k < i ==> is_space(p@[k]),
        decreases p@.len() - i,
    {
        let c = p[i];
        if !(c == ' ' || c == '\t' || c == '\n' || c == '\r') {
            return false;
        }
        i += 1;
    }
    true
}

/// Whether `d` path-contains `p`.
#[verifier::loop_isolation(false)]
fn path_prefix_check(d: &Vec<char>, p: &Vec<char>) -> (r: bool)
    ensures
        r == is_path_prefix(d@, p@),
{
    // strip the trailing slashes of the allowed directory
    proof {
        assert(d@.subrange(0, d@.len() as int) =~= d@);
    }
    let mut dn: usize = d.len();
    while dn > 0 && d[dn - 1] == '/'
        invariant
            dn <= d@.len(),
            strip_slashes(d@) == strip_slashes(d@.subrange(0, dn as int)),
        decreases dn,
    {
        proof {
            assert(d@.subrange(0, dn as int).drop_last() =~= d@.subrange(0, dn - 1 as int));
            assert(d@.subrange(0, dn as int).last() == d@[dn - 1]);
        }
        dn -= 1;
    }
    proof {
        assert(strip_slashes(d@.subrange(0, dn as int)) == d@.subrange(0, dn as int)) by {
            if dn > 0 {
                assert(d@.subrange(0, dn as int).last() == d@[dn - 1]);
            }
        }
    }
    if dn > p.len() {
        return false;
    }
    let mut i: usize = 0;
    while i < dn
        invariant
            i <= dn <= p@.len(),
            dn <= d@.len(),
            strip_slashes(d@) == d@.subrange(0, dn as int),
            forall|k: int| 0 <= k < i ==> p@[k] == d@[k],
        decreases dn - i,
    {
        if p[i] != d[i] {
            proof {
                assert(p@.subrange(0, dn as int)[i as int] != d@.subrange(0, dn as int)[i as int]);
            }
            return false;
        }
        i += 1;
    }
    proof {
        assert(p@.subrange(0, dn as int) =~= d@.subrange(0, dn as int));
    }
    if p.len() == dn {
        true
    } else {
        let boundary = p[dn] == '/';
        boundary
    }
}

/// Whether an entry passes the filter.
fn entry_kept_check(e: &DirEntry, only_images: bool) -> (r: bool)
    ensures
        r == entry_kept(*e, only_images),
{
    proof {
        reveal_strlit(".");
        reveal_strlit("..");
        assert("."@.len() == 1);
        assert(".."@.len() == 2);
    }
    if is_lit(&e.name, ".") || is_lit(&e.name, "..") {
        return false;
    }
    if !only_images {
        return true;
    }
    if !e.is_file {
        return false;
    }
    image_name_check(&e.name)
}

/// Lowers one character.
fn lower_char(c: char) -> (r: char)
    ensures
        r == lower(c),
{
    let v = c as u32;
    if 65 <= v && v <= 90 {
        proof {
            assert('A' <= c && c <= 'Z');
        }
        (v + 32) as u8 as char
    } else {
        proof {
            assert(!('A' <= c && c <= 'Z'));
        }
        c
    }
}

/// Whether `lit` stands at position `i` of `v`.
#[verifier::loop_isolation(false)]
fn sub_at_check(v: &Vec<char>, i: usize, lit: &str) -> (r: bool)
    requires
        i <= v@.len(),
    ensures
        r == sub_at(v@, i as int, lit@),
{
    let llen = vstd::string::StrSliceExecFns::unicode_len(lit);
    if v.len() - i < llen {
        return false;
    }
    let mut k: usize = 0;
    while k < llen
        invariant
            k <= llen,
            llen == lit@.len(),
            i + llen <= v@.len(),
            forall|j: int| 0 <= j < k ==> v@[i + j] == lit@[j],
        decreases llen - k,
    {
        if v[i + k] != vstd::string::StrSliceExecFns::get_char(lit, k) {
            proof {
                assert(v@[i + k] != lit@[k as int]);
                if sub_at(v@, i as int, lit@) {
                    assert(v@.subrange(i as int, i + lit@.len())[k as int] == v@[i + k]);
                }
            }
            return false;
        }
        k += 1;
    }
    proof {
        assert(v@.subrange(i as int, i + lit@.len()) =~= lit@);
    }
    true
}

/// Whether the name, lowered, holds an image extension after its first
/// character.
#[verifier::loop_isolation(false)]
fn image_name_check(name: &Vec<char>) -> (r: bool)
    ensures
        r == image_name(name@),
{
    let mut low: Vec<char> = Vec::new();
    let mut i: usize = 0;
    while i < name.len()
        invariant
            i <= name@.len(),
            low@.len() == i,
            forall|k: int| 0 <= k < i ==> low@[k] == lower(name@[k]),
        decreases name@.len() - i,
    {
        low.push(lower_char(name[i]));
        i += 1;
    }
    proof {
        assert(low@ =~= lower_seq(name@));
    }
    let mut pos: usize = 1;
    while pos < low.len()
        invariant
            1 <= pos,
            low@ == lower_seq(name@),
            forall|k: int|
                1 <= k < pos ==> !(sub_at(low@, k, ".jpg"@) || sub_at(low@, k, ".jpeg"@) || sub_at(
                    low@,
                    k,
                    ".png"@,
                ) || sub_at(low@, k, ".gif"@) || sub_at(low@, k, ".bmp"@) || sub_at(
                    low@,
                    k,
                    ".webp"@,
                )),
        decreases low@.len() - pos,
    {
        if sub_at_check(&low, pos, ".jpg") || sub_at_check(&low, pos, ".jpeg") || sub_at_check(
            &low,
            pos,
            ".png",
        ) || sub_at_check(&low, pos, ".gif") || sub_at_check(&low, pos, ".bmp") || sub_at_check(
            &low,
            pos,
            ".webp",
        ) {
            return true;
        }
        pos += 1;
    }
    proof {
        assert forall|k: int|
            1 <= k && (sub_at(low@, k, ".jpg"@) || sub_at(low@, k, ".jpeg"@) || sub_at(
                low@,
                k,
                ".png"@,
            ) || sub_at(low@, k, ".gif"@) || sub_at(low@, k, ".bmp"@) || sub_at(
                low@,
                k,
                ".webp"@,
            )) implies false by {
            reveal_strlit(".jpg");
            reveal_strlit(".jpeg");
            reveal_strlit(".png");
            reveal_strlit(".gif");
            reveal_strlit(".bmp");
            reveal_strlit(".webp");
        }
    }
    false
}

} // verus!
