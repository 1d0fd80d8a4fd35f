//! `.mflash` packages: which files count as raw JSON decks, which names inside a package are
//! safe, and how media outside the package is given a unique place inside it on save.

use vstd::prelude::*;
use vstd::set_lib::{lemma_int_range, lemma_len_subset, lemma_map_size, set_int_range};
use crate::models::{Card, Example, MFlashDeck, MediaInfo};
use crate::models::{CardModel, DeckModel, ExampleInfoModel, ExampleModel, MediaInfoModel, OcclusionModel};
use crate::text::{
    chars_of, contains_chars, contains_seq, decimal, decimal_chars, ends_with_seq,
    lemma_decimal_injective, push_all, push_str_chars, starts_with_chars, starts_with_seq,
    str_ends_with, str_eq, string_from,
};

verus! {

/// Whether a character is kept as it is in a file name stored in a package.
pub open spec fn is_safe_name_char(c: char) -> bool {
    ||| ('a' <= c && c <= 'z')
    ||| ('A' <= c && c <= 'Z')
    ||| ('0' <= c && c <= '9')
    ||| c == '.'
    ||| c == '-'
    ||| c == '_'
}

/// `name` with every character other than ASCII letters, digits, `.`, `-` and `_`
/// replaced by `_`.
pub open spec fn sanitized(name: Seq<char>) -> Seq<char> {
    Seq::new(name.len(), |i: int| if is_safe_name_char(name[i]) { name[i] } else { '_' })
}

/// Makes a name safe for a file or directory inside a package: ASCII letters, digits, `.`,
/// `-` and `_` stay, every other character becomes `_`.
pub fn sanitize_file_name(name: &str) -> (r: String)
    ensures
        r@ == sanitized(name@),
{
    let chars = chars_of(name);
    let mut out: Vec<char> = Vec::new();
    let mut i: usize = 0;
    while i < chars.len()
        invariant
            i <= chars.len(),
            chars@ == name@,
            out@ == sanitized(name@).subrange(0, i as int),
        decreases chars.len() - i,
    {
        let c = chars[i];
        let keep = ('a' <= c && c <= 'z') || ('A' <= c && c <= 'Z') || ('0' <= c && c <= '9')
            || c == '.' || c == '-' || c == '_';
        if keep {
            out.push(c);
        } else {
            out.push('_');
        }
        i = i + 1;
        assert(out@ =~= sanitized(name@).subrange(0, i as int));
    }
    assert(out@ =~= sanitized(name@));
    string_from(&out)
}

/// Making a name safe leaves only safe characters, and a safe name stays as it is: making a
/// name safe twice is making it safe once.
pub proof fn lemma_sanitize_idempotent(name: Seq<char>)
    ensures
        forall|i: int| 0 <= i < sanitized(name).len() ==> is_safe_name_char(#[trigger] sanitized(name)[i]),
        sanitized(sanitized(name)) == sanitized(name),
{
    assert(sanitized(sanitized(name)) =~= sanitized(name));
}

/// `path` with every backslash turned into a slash.
pub open spec fn with_forward_slashes(path: Seq<char>) -> Seq<char> {
    Seq::new(path.len(), |i: int| if path[i] == '\\' { '/' } else { path[i] })
}

/// Whether an entry name inside a package could escape the package when unpacked: an
/// absolute path, a path with a parent step, or a path with a drive letter (backslashes
/// read as slashes).
pub open spec fn unsafe_package_path(path: Seq<char>) -> bool {
    let n = with_forward_slashes(path);
    ||| starts_with_seq(n, seq!['/'])
    ||| contains_seq(n, seq!['.', '.', '/'])
    ||| n == seq!['.', '.']
    ||| starts_with_seq(n, seq!['.', '.', '/'])
    ||| (n.len() > 1 && n[1] == ':')
}

fn forward_slashes(path: &str) -> (r: Vec<char>)
    ensures
        r@ == with_forward_slashes(path@),
{
    let chars = chars_of(path);
    let mut out: Vec<char> = Vec::new();
    let mut i: usize = 0;
    while i < chars.len()
        invariant
            i <= chars.len(),
            chars@ == path@,
            out@ == with_forward_slashes(path@).subrange(0, i as int),
        decreases chars.len() - i,
    {
        if chars[i] == '\\' {
            out.push('/');
        } else {
            out.push(chars[i]);
        }
        i = i + 1;
        assert(out@ =~= with_forward_slashes(path@).subrange(0, i as int));
    }
    assert(out@ =~= with_forward_slashes(path@));
    out
}

/// Whether an entry name inside a package could escape the package when unpacked.
pub fn is_unsafe_package_path(path: &str) -> (r: bool)
    ensures
        r == unsafe_package_path(path@),
{
    let n = forward_slashes(path);
    let mut slash: Vec<char> = Vec::new();
    slash.push('/');
    let mut parent: Vec<char> = Vec::new();
    parent.push('.');
    parent.push('.');
    parent.push('/');
    assert(slash@ =~= seq!['/']);
    assert(parent@ =~= seq!['.', '.', '/']);
    if starts_with_chars(&n, &slash) {
        return true;
    }
    let is_parent = n.len() == 2 && n[0] == '.' && n[1] == '.';
    proof {
        if n@.len() == 2 && n@[0] == '.' && n@[1] == '.' {
            assert(n@ =~= seq!['.', '.']);
        }
    }
    if contains_chars(&n, &parent) || is_parent || starts_with_chars(&n, &parent) {
        return true;
    }
    n.len() > 1 && n[1] == ':'
}

/// Whether a deck path names a raw JSON deck rather than a package.
pub open spec fn raw_json_path(path: Seq<char>) -> bool {
    ends_with_seq(path, ".mflash.json"@) || ends_with_seq(path, ".json"@)
}

/// Whether a deck path names a raw JSON deck (`.mflash.json` or `.json`) rather than a
/// package.
pub fn is_raw_json_path(path: &str) -> (r: bool)
    ensures
        r == raw_json_path(path@),
{
    str_ends_with(path, ".mflash.json") || str_ends_with(path, ".json")
}

/// `dir/name`.
pub open spec fn package_path(dir: Seq<char>, name: Seq<char>) -> Seq<char> {
    dir + seq!['/'] + name
}

/// `.ext`, or nothing for an empty extension.
pub open spec fn dotted(ext: Seq<char>) -> Seq<char> {
    if ext.len() == 0 {
        seq![]
    } else {
        seq!['.'] + ext
    }
}

/// `dir/stem_k.ext`: the `k`-th alternative name when `dir/name` is taken.
pub open spec fn numbered_path(dir: Seq<char>, stem: Seq<char>, ext: Seq<char>, k: nat) -> Seq<
    char,
> {
    dir + seq!['/'] + stem + seq!['_'] + decimal(k) + dotted(ext)
}

/// The paths held by a list of strings.
pub open spec fn paths_of(v: Seq<String>) -> Seq<Seq<char>> {
    v.map_values(|s: String| s@)
}

/// `p` is the place that a file named `name` (with stem `stem` and extension `ext`) gets in
/// `dir` when the paths in `used` are taken: `dir/name` when it is free, else
/// `dir/stem_k.ext` for the least `k >= 1` that is free.
pub open spec fn is_deduplicated_path(
    used: Seq<Seq<char>>,
    dir: Seq<char>,
    name: Seq<char>,
    stem: Seq<char>,
    ext: Seq<char>,
    p: Seq<char>,
) -> bool {
    if !used.contains(package_path(dir, name)) {
        p == package_path(dir, name)
    } else {
        exists|k: nat|
            #![trigger numbered_path(dir, stem, ext, k)]
            k >= 1 && p == numbered_path(dir, stem, ext, k) && !used.contains(p) && forall|j: nat|
                1 <= j < k ==> used.contains(#[trigger] numbered_path(dir, stem, ext, j))
    }
}

/// Different numbers give different alternative names.
proof fn lemma_numbered_path_injective(
    dir: Seq<char>,
    stem: Seq<char>,
    ext: Seq<char>,
    a: nat,
    b: nat,
)
    requires
        numbered_path(dir, stem, ext, a) == numbered_path(dir, stem, ext, b),
    ensures
        a == b,
{
    let prefix = dir + seq!['/'] + stem + seq!['_'];
    let pa = numbered_path(dir, stem, ext, a);
    let pb = numbered_path(dir, stem, ext, b);
    assert(pa == prefix + decimal(a) + dotted(ext));
    assert(pb == prefix + decimal(b) + dotted(ext));
    assert(decimal(a).len() == decimal(b).len());
    let lo = prefix.len() as int;
    let hi = lo + decimal(a).len();
    assert(pa.subrange(lo, hi) =~= decimal(a));
    assert(pb.subrange(lo, hi) =~= decimal(b));
    lemma_decimal_injective(a, b);
}

/// When the first `n` alternative names are all taken, there are at least `n` taken paths.
proof fn lemma_taken_names_bound(
    used: Seq<Seq<char>>,
    dir: Seq<char>,
    stem: Seq<char>,
    ext: Seq<char>,
    n: nat,
)
    requires
        forall|j: nat| 1 <= j <= n ==> used.contains(#[trigger] numbered_path(dir, stem, ext, j)),
    ensures
        n <= used.len(),
{
    let ks = set_int_range(1, n as int + 1);
    lemma_int_range(1, n as int + 1);
    let f = |k: int| numbered_path(dir, stem, ext, k as nat);
    let names = ks.map(f);
    assert forall|x: int, y: int| ks.contains(x) && ks.contains(y) && #[trigger] f(x) == #[trigger] f(
        y,
    ) implies x == y by {
        lemma_numbered_path_injective(dir, stem, ext, x as nat, y as nat);
    }
    lemma_map_size(ks, names, f);
    assert forall|p: Seq<char>| names.contains(p) implies used.to_set().contains(p) by {
        let k = choose|k: int| ks.contains(k) && f(k) == p;
        assert(used.contains(numbered_path(dir, stem, ext, k as nat)));
    }
    used.lemma_cardinality_of_set();
    lemma_len_subset(names, used.to_set());
}

/// Whether one of the strings in `used` is `path`.
fn contains_path(used: &Vec<String>, path: &Vec<char>) -> (r: bool)
    ensures
        r == paths_of(used@).contains(path@),
{
    let mut i: usize = 0;
    while i < used.len()
        invariant
            i <= used.len(),
            forall|j: int| 0 <= j < i ==> used@[j]@ != path@,
        decreases used.len() - i,
    {
        let u = chars_of(used[i].as_str());
        if u.len() == path.len() && starts_with_chars(&u, path) {
            proof {
                assert(u@.subrange(0, path@.len() as int) =~= u@);
                assert(paths_of(used@)[i as int] == path@);
            }
            return true;
        }
        proof {
            if u@ == path@ {
                assert(u@.subrange(0, path@.len() as int) =~= u@);
            }
        }
        i = i + 1;
    }
    proof {
        if paths_of(used@).contains(path@) {
            let j = choose|j: int| 0 <= j < paths_of(used@).len() && paths_of(used@)[j] == path@;
            assert(used@[j]@ == path@);
        }
    }
    false
}

fn build_package_path(dir: &str, name: &str) -> (r: Vec<char>)
    ensures
        r@ == package_path(dir@, name@),
{
    let mut r = chars_of(dir);
    r.push('/');
    push_str_chars(&mut r, name);
    r
}

fn build_numbered_path(dir: &str, stem: &str, ext: &str, k: usize) -> (r: Vec<char>)
    ensures
        r@ == numbered_path(dir@, stem@, ext@, k as nat),
{
    let mut r = chars_of(dir);
    r.push('/');
    push_str_chars(&mut r, stem);
    r.push('_');
    let digits = decimal_chars(k);
    push_all(&mut r, &digits);
    let e = chars_of(ext);
    if e.len() > 0 {
        r.push('.');
        push_all(&mut r, &e);
        assert(r@ =~= numbered_path(dir@, stem@, ext@, k as nat));
    } else {
        assert(r@ =~= numbered_path(dir@, stem@, ext@, k as nat));
    }
    r
}

/// The place inside a package for a file named `name`, with stem `stem` and extension `ext`,
/// under `dir`, given the paths already taken: `dir/name` when free, else `dir/stem_k.ext`
/// for the least `k >= 1` that is free.
pub fn deduplicated_path(used: &Vec<String>, dir: &str, name: &str, stem: &str, ext: &str) -> (r:
    String)
    requires
        used.len() < usize::MAX,
    ensures
        is_deduplicated_path(paths_of(used@), dir@, name@, stem@, ext@, r@),
{
    let base = build_package_path(dir, name);
    if !contains_path(used, &base) {
        return string_from(&base);
    }
    let ghost taken = paths_of(used@);
    let mut counter: usize = 1;
    loop
        invariant
            1 <= counter <= used.len() + 1,
            used.len() < usize::MAX,
            taken == paths_of(used@),
            taken.contains(package_path(dir@, name@)),
            forall|j: nat|
                1 <= j < counter ==> taken.contains(#[trigger] numbered_path(dir@, stem@, ext@, j)),
        decreases used.len() + 1 - counter,
    {
        let candidate = build_numbered_path(dir, stem, ext, counter);
        if !contains_path(used, &candidate) {
            proof {
                assert(numbered_path(dir@, stem@, ext@, counter as nat) == candidate@);
            }
            return string_from(&candidate);
        }
        proof {
            assert forall|j: nat| 1 <= j <= counter implies taken.contains(
                #[trigger] numbered_path(dir@, stem@, ext@, j),
            ) by {
                if j == counter {
                    assert(numbered_path(dir@, stem@, ext@, j) == candidate@);
                }
            }
            lemma_taken_names_bound(taken, dir@, stem@, ext@, counter as nat);
        }
        counter = counter + 1;
    }
}

/// What `Path::is_absolute` answers for a path given as a string.
pub uninterp spec fn std_path_is_absolute(path: Seq<char>) -> bool;

/// What `Path::file_name` gives for a path given as a string: its last component, if any.
pub uninterp spec fn std_path_file_name(path: Seq<char>) -> Option<Seq<char>>;

/// What `Path::file_stem` gives for a path given as a string.
pub uninterp spec fn std_path_file_stem(path: Seq<char>) -> Option<Seq<char>>;

/// What `Path::extension` gives for a path given as a string.
pub uninterp spec fn std_path_extension(path: Seq<char>) -> Option<Seq<char>>;

/// What `Path::parent` gives for a path given as a string: the path without its last
/// component, if it has one.
pub uninterp spec fn std_path_parent(path: Seq<char>) -> Option<Seq<char>>;

/// What `Path::join` gives for the path `base` followed by `part`.
pub uninterp spec fn std_path_join(base: Seq<char>, part: Seq<char>) -> Seq<char>;

/// `Path::is_absolute` on the path `path`.
#[verifier::external_body]
fn path_is_absolute(path: &str) -> (r: bool)
    ensures
        r == std_path_is_absolute(path@),
{
    std::path::Path::new(path).is_absolute()
}

/// `Path::exists` on the path `path`: whether something is on disk there. That depends on
/// the disk, so nothing is claimed of the answer.
#[verifier::external_body]
fn path_exists(path: &str) -> bool {
    std::path::Path::new(path).exists()
}

/// `Path::file_name` on the path `path`, as a string. The path came from a string, so the
/// name converts without loss.
#[verifier::external_body]
pub(crate) fn path_file_name(path: &str) -> (r: Option<String>)
    ensures
        r.deep_view() == std_path_file_name(path@),
{
    match std::path::Path::new(path).file_name() {
        Some(name) => Some(name.to_string_lossy().to_string()),
        None => None,
    }
}

/// `Path::parent` on the path `path`, as a string. The path came from a string, so the
/// parent converts without loss.
#[verifier::external_body]
pub(crate) fn path_parent(path: &str) -> (r: Option<String>)
    ensures
        r.deep_view() == std_path_parent(path@),
{
    match std::path::Path::new(path).parent() {
        Some(parent) => Some(parent.to_string_lossy().to_string()),
        None => None,
    }
}

/// `Path::join` of `part` onto `base`, as a string.
#[verifier::external_body]
pub(crate) fn path_join(base: &str, part: &str) -> (r: String)
    ensures
        r@ == std_path_join(base@, part@),
{
    std::path::Path::new(base).join(part).to_string_lossy().to_string()
}

/// `Path::file_stem` on the path `path`, as a string.
#[verifier::external_body]
fn path_file_stem(path: &str) -> (r: Option<String>)
    ensures
        r.deep_view() == std_path_file_stem(path@),
{
    match std::path::Path::new(path).file_stem() {
        Some(stem) => Some(stem.to_string_lossy().to_string()),
        None => None,
    }
}

/// `Path::extension` on the path `path`, as a string.
#[verifier::external_body]
pub(crate) fn path_extension(path: &str) -> (r: Option<String>)
    ensures
        r.deep_view() == std_path_extension(path@),
{
    match std::path::Path::new(path).extension() {
        Some(ext) => Some(ext.to_string_lossy().to_string()),
        None => None,
    }
}

/// The stem of a file name, empty when it has none.
pub open spec fn stem_of(name: Seq<char>) -> Seq<char> {
    match std_path_file_stem(name) {
        Some(s) => s,
        None => seq![],
    }
}

/// The extension of a file name, empty when it has none.
pub open spec fn extension_of(name: Seq<char>) -> Seq<char> {
    match std_path_extension(name) {
        Some(e) => e,
        None => seq![],
    }
}

fn or_empty(s: Option<String>) -> (r: String)
    ensures
        r@ == match s.deep_view() {
            Some(v) => v,
            None => seq![],
        },
{
    match s {
        Some(v) => v,
        None => String::new(),
    }
}

/// A file outside the package to be copied in, and the path it gets inside the package.
pub struct IngestItem {
    pub source_path: String,
    pub internal_path: String,
}

/// The internal paths of queued files, in order.
pub open spec fn queued_paths(queue: Seq<IngestItem>) -> Seq<Seq<char>> {
    queue.map_values(|item: IngestItem| item.internal_path@)
}

/// `src` was ingested into `dir`: `new_src` is the fresh place inside the package that the
/// file named by `src` gets, given the paths in `used`.
pub open spec fn ingested_into(
    src: Seq<char>,
    dir: Seq<char>,
    used: Seq<Seq<char>>,
    new_src: Seq<char>,
) -> bool {
    &&& std_path_is_absolute(src)
    &&& std_path_file_name(src) is Some
    &&& {
        let name = sanitized(std_path_file_name(src)->0);
        is_deduplicated_path(used, dir, name, stem_of(name), extension_of(name), new_src)
    }
}

/// A deduplicated path is free and lies in its directory.
proof fn lemma_deduplicated_path_fresh(
    used: Seq<Seq<char>>,
    dir: Seq<char>,
    name: Seq<char>,
    stem: Seq<char>,
    ext: Seq<char>,
    p: Seq<char>,
)
    requires
        is_deduplicated_path(used, dir, name, stem, ext, p),
    ensures
        !used.contains(p),
        starts_with_seq(p, dir + seq!['/']),
{
    let prefix = dir + seq!['/'];
    if !used.contains(package_path(dir, name)) {
        assert(p.subrange(0, prefix.len() as int) =~= prefix);
    } else {
        let k = choose|k: nat|
            #![trigger numbered_path(dir, stem, ext, k)]
            k >= 1 && p == numbered_path(dir, stem, ext, k) && !used.contains(p) && forall|j: nat|
                1 <= j < k ==> used.contains(#[trigger] numbered_path(dir, stem, ext, j));
        assert(p.subrange(0, prefix.len() as int) =~= prefix);
    }
}

/// The deduplicated path is unique.
proof fn lemma_deduplicated_path_unique(
    used: Seq<Seq<char>>,
    dir: Seq<char>,
    name: Seq<char>,
    stem: Seq<char>,
    ext: Seq<char>,
    p: Seq<char>,
    q: Seq<char>,
)
    requires
        is_deduplicated_path(used, dir, name, stem, ext, p),
        is_deduplicated_path(used, dir, name, stem, ext, q),
    ensures
        p == q,
{
    if used.contains(package_path(dir, name)) {
        let a = choose|k: nat|
            #![trigger numbered_path(dir, stem, ext, k)]
            k >= 1 && p == numbered_path(dir, stem, ext, k) && !used.contains(p) && forall|j: nat|
                1 <= j < k ==> used.contains(#[trigger] numbered_path(dir, stem, ext, j));
        let b = choose|k: nat|
            #![trigger numbered_path(dir, stem, ext, k)]
            k >= 1 && q == numbered_path(dir, stem, ext, k) && !used.contains(q) && forall|j: nat|
                1 <= j < k ==> used.contains(#[trigger] numbered_path(dir, stem, ext, j));
        if a < b {
            assert(used.contains(numbered_path(dir, stem, ext, a)));
        }
        if b < a {
            assert(used.contains(numbered_path(dir, stem, ext, b)));
        }
    }
}

/// The fresh path that the file at `src` gets in `dir`, the paths in `used` being taken
/// (see `ingested_into`).
pub open spec fn fresh_path(src: Seq<char>, dir: Seq<char>, used: Seq<Seq<char>>) -> Seq<char> {
    choose|p: Seq<char>| ingested_into(src, dir, used, p)
}

/// A path that `src` is ingested into is the fresh path.
proof fn lemma_ingested_into_fresh(src: Seq<char>, dir: Seq<char>, used: Seq<Seq<char>>, p: Seq<char>)
    requires
        ingested_into(src, dir, used, p),
    ensures
        p == fresh_path(src, dir, used),
{
    let q = fresh_path(src, dir, used);
    assert(ingested_into(src, dir, used, q));
    let name = sanitized(std_path_file_name(src)->0);
    lemma_deduplicated_path_unique(used, dir, name, stem_of(name), extension_of(name), p, q);
}

/// Moves the media file at `src` into the package given whether the file is `present` on
/// disk: it is moved exactly when fewer than `usize::MAX` paths are taken, `src` is an
/// absolute path, the file is present and `src` names a file; it then goes to its fresh path
/// under `target_dir`, which is marked as used and queued.
fn ingest_present(
    src: &mut String,
    ingest_queue: &mut Vec<IngestItem>,
    target_dir: &str,
    used_paths: &mut Vec<String>,
    present: bool,
) -> (ingested: bool)
    ensures
        ingested == (old(used_paths)@.len() < usize::MAX && std_path_is_absolute(old(src)@) && present
            && std_path_file_name(old(src)@) is Some),
        !ingested ==> {
            &&& *final(src) == *old(src)
            &&& final(ingest_queue)@ == old(ingest_queue)@
            &&& final(used_paths)@ == old(used_paths)@
        },
        ingested ==> {
            &&& ingested_into(old(src)@, target_dir@, paths_of(old(used_paths)@), final(src)@)
            &&& final(src)@ == fresh_path(old(src)@, target_dir@, paths_of(old(used_paths)@))
            &&& !paths_of(old(used_paths)@).contains(final(src)@)
            &&& starts_with_seq(final(src)@, target_dir@ + seq!['/'])
            &&& final(used_paths)@ == old(used_paths)@.push(*final(src))
            &&& final(ingest_queue)@ == old(ingest_queue)@.push(
                IngestItem { source_path: *old(src), internal_path: *final(src) },
            )
        },
{
    if used_paths.len() == usize::MAX {
        return false;
    }
    if !path_is_absolute(src.as_str()) {
        return false;
    }
    if !present {
        return false;
    }
    let file_name = match path_file_name(src.as_str()) {
        Some(n) => n,
        None => return false,
    };
    let safe_name = sanitize_file_name(file_name.as_str());
    let stem = or_empty(path_file_stem(safe_name.as_str()));
    let ext = or_empty(path_extension(safe_name.as_str()));
    let internal_path = deduplicated_path(
        used_paths,
        target_dir,
        safe_name.as_str(),
        stem.as_str(),
        ext.as_str(),
    );
    proof {
        lemma_deduplicated_path_fresh(
            paths_of(used_paths@),
            target_dir@,
            safe_name@,
            stem@,
            ext@,
            internal_path@,
        );
        lemma_ingested_into_fresh(src@, target_dir@, paths_of(used_paths@), internal_path@);
    }
    used_paths.push(internal_path.clone());
    let source_path = src.clone();
    ingest_queue.push(IngestItem { source_path, internal_path: internal_path.clone() });
    *src = internal_path;
    true
}

/// Moves the media file at `src` into the package: when `src` is an absolute path to a file
/// that exists, the file is queued to be copied to a fresh path under `target_dir` (see
/// `is_deduplicated_path`), that path is marked as used, and `src` is rewritten to it.
/// Package-relative, remote and missing sources are left alone. Answers whether the file
/// was queued.
pub fn ingest_media_src(
    src: &mut String,
    ingest_queue: &mut Vec<IngestItem>,
    target_dir: &str,
    used_paths: &mut Vec<String>,
) -> (ingested: bool)
    ensures
        !ingested ==> {
            &&& *final(src) == *old(src)
            &&& final(ingest_queue)@ == old(ingest_queue)@
            &&& final(used_paths)@ == old(used_paths)@
        },
        old(used_paths)@.len() == usize::MAX ==> !ingested,
        !std_path_is_absolute(old(src)@) ==> !ingested,
        std_path_file_name(old(src)@) is None ==> !ingested,
        ingested ==> {
            &&& ingested_into(old(src)@, target_dir@, paths_of(old(used_paths)@), final(src)@)
            &&& !paths_of(old(used_paths)@).contains(final(src)@)
            &&& starts_with_seq(final(src)@, target_dir@ + seq!['/'])
            &&& final(used_paths)@ == old(used_paths)@.push(*final(src))
            &&& final(ingest_queue)@ == old(ingest_queue)@.push(
                IngestItem { source_path: *old(src), internal_path: *final(src) },
            )
        },
{
    if used_paths.len() == usize::MAX {
        return false;
    }
    if !path_is_absolute(src.as_str()) {
        return false;
    }
    let present = path_exists(src.as_str());
    ingest_present(src, ingest_queue, target_dir, used_paths, present)
}

/// `a` and `b` are the same media reference but perhaps for its source.
pub open spec fn same_media_but_src(a: MediaInfoModel, b: MediaInfoModel) -> bool {
    &&& a.id == b.id
    &&& a.media_type == b.media_type
    &&& a.role == b.role
    &&& a.alt == b.alt
    &&& a.description == b.description
}

/// `a` and `b` are the same media list but perhaps for the sources.
pub open spec fn same_media_list_but_srcs(a: Seq<MediaInfoModel>, b: Seq<MediaInfoModel>) -> bool {
    &&& a.len() == b.len()
    &&& forall|i: int| 0 <= i < a.len() ==> same_media_but_src(#[trigger] a[i], b[i])
}

/// `queue` holds the files queued before (with internal paths `base`) followed by one file
/// for each path in `used`, in order; no path is used twice.
pub open spec fn ingest_consistent(
    queue: Seq<IngestItem>,
    used: Seq<String>,
    base: Seq<Seq<char>>,
) -> bool {
    &&& queued_paths(queue) == base + paths_of(used)
    &&& paths_of(used).no_duplicates()
}

/// `after` extends `before`.
pub open spec fn queue_extends(before: Seq<IngestItem>, after: Seq<IngestItem>) -> bool {
    &&& before.len() <= after.len()
    &&& after.subrange(0, before.len() as int) == before
}

/// A queued file as (its path on disk, its path inside the package).
pub open spec fn item_model(item: IngestItem) -> (Seq<char>, Seq<char>) {
    (item.source_path@, item.internal_path@)
}

/// The files queued from position `from` on, as (path on disk, path inside the package).
pub open spec fn items_from(queue: Seq<IngestItem>, from: int) -> Seq<(Seq<char>, Seq<char>)> {
    queue.subrange(from, queue.len() as int).map_values(|item: IngestItem| item_model(item))
}

/// The paths inside the package of queued files.
pub open spec fn internal_paths(items: Seq<(Seq<char>, Seq<char>)>) -> Seq<Seq<char>> {
    items.map_values(|x: (Seq<char>, Seq<char>)| x.1)
}

/// Whether the media source `src` is moved into the package when the files on disk are
/// those in `existing`: it is an absolute path to one of them, naming a file.
pub open spec fn moves_in(src: Seq<char>, existing: Seq<Seq<char>>) -> bool {
    &&& std_path_is_absolute(src)
    &&& existing.contains(src)
    &&& std_path_file_name(src) is Some
}

/// A media source through the ingestion into `dir`, after the files `items` were queued: its
/// new source and the files queued then. A source that moves gets its fresh path, the paths
/// already queued being taken, and is queued.
pub open spec fn src_ingested(
    src: Seq<char>,
    dir: Seq<char>,
    items: Seq<(Seq<char>, Seq<char>)>,
    existing: Seq<Seq<char>>,
) -> (Seq<char>, Seq<(Seq<char>, Seq<char>)>) {
    if moves_in(src, existing) && items.len() < usize::MAX {
        let p = fresh_path(src, dir, internal_paths(items));
        (p, items.push((src, p)))
    } else {
        (src, items)
    }
}

/// A media reference through the ingestion (see `src_ingested`).
pub open spec fn media_ingested(
    m: MediaInfoModel,
    dir: Seq<char>,
    items: Seq<(Seq<char>, Seq<char>)>,
    existing: Seq<Seq<char>>,
) -> (MediaInfoModel, Seq<(Seq<char>, Seq<char>)>) {
    let (src, out) = src_ingested(m.src, dir, items, existing);
    (MediaInfoModel { src: src, ..m }, out)
}

/// A media list through the ingestion, in order (see `media_ingested`).
pub open spec fn media_list_ingested(
    list: Seq<MediaInfoModel>,
    dir: Seq<char>,
    items: Seq<(Seq<char>, Seq<char>)>,
    existing: Seq<Seq<char>>,
) -> (Seq<MediaInfoModel>, Seq<(Seq<char>, Seq<char>)>)
    decreases list.len(),
{
    if list.len() == 0 {
        (list, items)
    } else {
        let front = media_list_ingested(list.drop_last(), dir, items, existing);
        let last = media_ingested(list.last(), dir, front.1, existing);
        (front.0.push(last.0), last.1)
    }
}

/// An example through the ingestion: the media of a detailed example are ingested.
pub open spec fn example_ingested(
    e: ExampleModel,
    dir: Seq<char>,
    items: Seq<(Seq<char>, Seq<char>)>,
    existing: Seq<Seq<char>>,
) -> (ExampleModel, Seq<(Seq<char>, Seq<char>)>) {
    match e {
        ExampleModel::Text(_) => (e, items),
        ExampleModel::Detailed(x) => {
            let r = media_list_ingested(x.media, dir, items, existing);
            (ExampleModel::Detailed(ExampleInfoModel { media: r.0, ..x }), r.1)
        },
    }
}

/// A list of examples through the ingestion, in order.
pub open spec fn examples_ingested(
    list: Seq<ExampleModel>,
    dir: Seq<char>,
    items: Seq<(Seq<char>, Seq<char>)>,
    existing: Seq<Seq<char>>,
) -> (Seq<ExampleModel>, Seq<(Seq<char>, Seq<char>)>)
    decreases list.len(),
{
    if list.len() == 0 {
        (list, items)
    } else {
        let front = examples_ingested(list.drop_last(), dir, items, existing);
        let last = example_ingested(list.last(), dir, front.1, existing);
        (front.0.push(last.0), last.1)
    }
}

/// An occlusion through the ingestion: its image is ingested.
pub open spec fn occlusion_ingested(
    o: Option<OcclusionModel>,
    dir: Seq<char>,
    items: Seq<(Seq<char>, Seq<char>)>,
    existing: Seq<Seq<char>>,
) -> (Option<OcclusionModel>, Seq<(Seq<char>, Seq<char>)>) {
    match o {
        None => (None, items),
        Some(x) => {
            let r = media_ingested(x.image, dir, items, existing);
            (Some(OcclusionModel { image: r.0, ..x }), r.1)
        },
    }
}

/// A card through the ingestion into its asset directory: its media, then its occlusion
/// image, then its examples' media.
pub open spec fn card_ingested(
    c: CardModel,
    items: Seq<(Seq<char>, Seq<char>)>,
    existing: Seq<Seq<char>>,
) -> (CardModel, Seq<(Seq<char>, Seq<char>)>) {
    let dir = card_asset_dir(c.id);
    let m = media_list_ingested(c.media, dir, items, existing);
    let o = occlusion_ingested(c.occlusion, dir, m.1, existing);
    let e = examples_ingested(c.examples, dir, o.1, existing);
    (CardModel { media: m.0, occlusion: o.0, examples: e.0, ..c }, e.1)
}

/// The cards through the ingestion, in order.
pub open spec fn cards_ingested(
    cards: Seq<CardModel>,
    items: Seq<(Seq<char>, Seq<char>)>,
    existing: Seq<Seq<char>>,
) -> (Seq<CardModel>, Seq<(Seq<char>, Seq<char>)>)
    decreases cards.len(),
{
    if cards.len() == 0 {
        (cards, items)
    } else {
        let front = cards_ingested(cards.drop_last(), items, existing);
        let last = card_ingested(cards.last(), front.1, existing);
        (front.0.push(last.0), last.1)
    }
}

/// The deck through the ingestion, the files on disk being those in `existing`: its cover
/// goes under `assets/deck`, then each card's files under its asset directory. Gives the
/// deck with the new sources and the files queued, as (path on disk, path inside the
/// package), in order.
pub open spec fn deck_ingested(d: DeckModel, existing: Seq<Seq<char>>) -> (
    DeckModel,
    Seq<(Seq<char>, Seq<char>)>,
) {
    let c: (Option<MediaInfoModel>, Seq<(Seq<char>, Seq<char>)>) = match d.cover {
        None => (None, Seq::empty()),
        Some(m) => {
            let r = media_ingested(m, "assets/deck"@, Seq::empty(), existing);
            (Some(r.0), r.1)
        },
    };
    let cs = cards_ingested(d.cards, c.1, existing);
    (DeckModel { cover: c.0, cards: cs.0, ..d }, cs.1)
}

/// While ingesting, the files queued in this run are those of the used paths.
proof fn lemma_items_are_used(queue: Seq<IngestItem>, used: Seq<String>, base: Seq<Seq<char>>)
    requires
        ingest_consistent(queue, used, base),
    ensures
        queue.len() == base.len() + used.len(),
        internal_paths(items_from(queue, base.len() as int)) == paths_of(used),
{
    assert(queued_paths(queue).len() == queue.len());
    let b = base.len() as int;
    assert forall|j: int| 0 <= j < used.len() implies internal_paths(items_from(queue, b))[j]
        == paths_of(used)[j] by {
        assert(queued_paths(queue)[b + j] == (base + paths_of(used))[b + j]);
    }
    assert(internal_paths(items_from(queue, b)) =~= paths_of(used));
}

/// Queueing one more file adds it to the files queued from `from` on.
proof fn lemma_items_push(queue: Seq<IngestItem>, from: int, item: IngestItem)
    requires
        0 <= from <= queue.len(),
    ensures
        items_from(queue.push(item), from) == items_from(queue, from).push(item_model(item)),
{
    assert(items_from(queue.push(item), from) =~= items_from(queue, from).push(item_model(item)));
}

fn ingest_media(
    media: &mut MediaInfo,
    queue: &mut Vec<IngestItem>,
    dir: &str,
    used: &mut Vec<String>,
    Ghost(base): Ghost<Seq<Seq<char>>>,
    existing: &Vec<String>,
)
    requires
        ingest_consistent(old(queue)@, old(used)@, base),
    ensures
        ingest_consistent(final(queue)@, final(used)@, base),
        queue_extends(old(queue)@, final(queue)@),
        same_media_but_src(final(media).deep_view(), old(media).deep_view()),
        ({
            let r = media_ingested(
                old(media).deep_view(),
                dir@,
                items_from(old(queue)@, base.len() as int),
                paths_of(existing@),
            );
            &&& final(media).deep_view() == r.0
            &&& items_from(final(queue)@, base.len() as int) == r.1
        }),
{
    let src_chars = chars_of(media.src.as_str());
    let present = contains_path(existing, &src_chars);
    proof {
        lemma_items_are_used(queue@, used@, base);
    }
    let ingested = ingest_present(&mut media.src, queue, dir, used, present);
    proof {
        if ingested {
            assert(paths_of(used@) =~= paths_of(old(used)@).push(media.src@));
            assert(queued_paths(queue@) =~= queued_paths(old(queue)@).push(media.src@));
            assert(queue@.subrange(0, old(queue)@.len() as int) =~= old(queue)@);
            lemma_items_push(
                old(queue)@,
                base.len() as int,
                IngestItem { source_path: old(media).src, internal_path: media.src },
            );
        } else {
            assert(queue@.subrange(0, old(queue)@.len() as int) =~= old(queue)@);
        }
    }
}

fn ingest_media_list(
    list: &mut Vec<MediaInfo>,
    queue: &mut Vec<IngestItem>,
    dir: &str,
    used: &mut Vec<String>,
    Ghost(base): Ghost<Seq<Seq<char>>>,
    existing: &Vec<String>,
)
    requires
        ingest_consistent(old(queue)@, old(used)@, base),
    ensures
        ingest_consistent(final(queue)@, final(used)@, base),
        queue_extends(old(queue)@, final(queue)@),
        same_media_list_but_srcs(final(list).deep_view(), old(list).deep_view()),
        ({
            let r = media_list_ingested(
                old(list).deep_view(),
                dir@,
                items_from(old(queue)@, base.len() as int),
                paths_of(existing@),
            );
            &&& final(list).deep_view() == r.0
            &&& items_from(final(queue)@, base.len() as int) == r.1
        }),
{
    let ghost b = base.len() as int;
    let ghost items0 = items_from(queue@, b);
    let ghost e = paths_of(existing@);
    let ghost od = list.deep_view();
    let mut i: usize = 0;
    assert(queue@.subrange(0, queue@.len() as int) =~= queue@);
    assert(od.take(0) =~= Seq::<MediaInfoModel>::empty());
    assert(list.deep_view().take(0) =~= Seq::<MediaInfoModel>::empty());
    while i < list.len()
        invariant
            i <= list.len(),
            list.len() == old(list).len(),
            od == old(list).deep_view(),
            b == base.len(),
            items0 == items_from(old(queue)@, b),
            e == paths_of(existing@),
            ingest_consistent(queue@, used@, base),
            queue_extends(old(queue)@, queue@),
            forall|j: int|
                0 <= j < i ==> same_media_but_src(
                    (#[trigger] list@[j]).deep_view(),
                    old(list)@[j].deep_view(),
                ),
            forall|j: int| i <= j < list.len() ==> #[trigger] list@[j] == old(list)@[j],
            list.deep_view().take(i as int) == media_list_ingested(od.take(i as int), dir@, items0, e).0,
            items_from(queue@, b) == media_list_ingested(od.take(i as int), dir@, items0, e).1,
        decreases list.len() - i,
    {
        let ghost q0 = queue@;
        let ghost l0 = list@;
        let ghost ld0 = list.deep_view();
        ingest_media(&mut list[i], queue, dir, used, Ghost(base), existing);
        proof {
            assert forall|j: int| 0 <= j < list.len() && j != i implies list@[j] == l0[j] by {}
            assert(queue@.subrange(0, old(queue)@.len() as int) =~= q0.subrange(
                0,
                old(queue)@.len() as int,
            ));
            assert(od.take(i + 1).drop_last() =~= od.take(i as int));
            assert(od[i as int] == l0[i as int].deep_view());
            assert(list.deep_view().take(i as int) =~= ld0.take(i as int));
            assert(list.deep_view().take(i + 1) =~= list.deep_view().take(i as int).push(
                list.deep_view()[i as int],
            ));
        }
        i = i + 1;
    }
    assert forall|j: int| 0 <= j < list.len() implies same_media_but_src(
        #[trigger] list.deep_view()[j],
        old(list).deep_view()[j],
    ) by {
        assert(same_media_but_src(list@[j].deep_view(), old(list)@[j].deep_view()));
    }
    assert(od.take(list.len() as int) =~= od);
    assert(list.deep_view().take(list.len() as int) =~= list.deep_view());
}

/// `a` and `b` are the same example but perhaps for the sources of its media.
pub open spec fn same_example_but_srcs(a: ExampleModel, b: ExampleModel) -> bool {
    match a {
        ExampleModel::Text(t) => b == ExampleModel::Text(t),
        ExampleModel::Detailed(x) => match b {
            ExampleModel::Detailed(y) => {
                &&& x.text == y.text
                &&& x.translation == y.translation
                &&& x.lang == y.lang
                &&& x.translation_lang == y.translation_lang
                &&& same_media_list_but_srcs(x.media, y.media)
            },
            ExampleModel::Text(_) => false,
        },
    }
}

/// `a` and `b` are the same card but perhaps for the sources of its media, of its occlusion
/// image and of its examples' media.
pub open spec fn same_card_but_srcs(a: CardModel, b: CardModel) -> bool {
    &&& a.id == b.id
    &&& a.kind == b.kind
    &&& a.term == b.term
    &&& a.definition == b.definition
    &&& a.prompt == b.prompt
    &&& a.answer == b.answer
    &&& a.term_lang == b.term_lang
    &&& a.def_lang == b.def_lang
    &&& a.notes == b.notes
    &&& a.tags == b.tags
    &&& a.lexical == b.lexical
    &&& same_media_list_but_srcs(a.media, b.media)
    &&& a.examples.len() == b.examples.len()
    &&& forall|i: int|
        0 <= i < a.examples.len() ==> same_example_but_srcs(#[trigger] a.examples[i], b.examples[i])
    &&& match a.occlusion {
        Some(x) => b.occlusion matches Some(y) && x.masks == y.masks && same_media_but_src(
            x.image,
            y.image,
        ),
        None => b.occlusion is None,
    }
}

/// `a` and `b` are the same deck but perhaps for media sources.
pub open spec fn same_deck_but_srcs(a: DeckModel, b: DeckModel) -> bool {
    &&& a.format == b.format
    &&& a.version == b.version
    &&& a.id == b.id
    &&& a.title == b.title
    &&& a.description == b.description
    &&& a.snippet == b.snippet
    &&& a.default_term_lang == b.default_term_lang
    &&& a.default_def_lang == b.default_def_lang
    &&& a.deck_tags == b.deck_tags
    &&& match a.cover {
        Some(x) => b.cover matches Some(y) && same_media_but_src(x, y),
        None => b.cover is None,
    }
    &&& a.cards.len() == b.cards.len()
    &&& forall|i: int| 0 <= i < a.cards.len() ==> same_card_but_srcs(#[trigger] a.cards[i], b.cards[i])
}

fn ingest_example(
    example: &mut Example,
    queue: &mut Vec<IngestItem>,
    dir: &str,
    used: &mut Vec<String>,
    Ghost(base): Ghost<Seq<Seq<char>>>,
    existing: &Vec<String>,
)
    requires
        ingest_consistent(old(queue)@, old(used)@, base),
    ensures
        ingest_consistent(final(queue)@, final(used)@, base),
        queue_extends(old(queue)@, final(queue)@),
        same_example_but_srcs(final(example).deep_view(), old(example).deep_view()),
        ({
            let r = example_ingested(
                old(example).deep_view(),
                dir@,
                items_from(old(queue)@, base.len() as int),
                paths_of(existing@),
            );
            &&& final(example).deep_view() == r.0
            &&& items_from(final(queue)@, base.len() as int) == r.1
        }),
{
    match example {
        Example::Detailed(info) => {
            ingest_media_list(&mut info.media, queue, dir, used, Ghost(base), existing);
        },
        Example::Text(_) => {
            assert(queue@.subrange(0, queue@.len() as int) =~= queue@);
        },
    }
}

fn ingest_examples(
    list: &mut Vec<Example>,
    queue: &mut Vec<IngestItem>,
    dir: &str,
    used: &mut Vec<String>,
    Ghost(base): Ghost<Seq<Seq<char>>>,
    existing: &Vec<String>,
)
    requires
        ingest_consistent(old(queue)@, old(used)@, base),
    ensures
        ingest_consistent(final(queue)@, final(used)@, base),
        queue_extends(old(queue)@, final(queue)@),
        final(list)@.len() == old(list)@.len(),
        forall|j: int|
            0 <= j < final(list)@.len() ==> same_example_but_srcs(
                (#[trigger] final(list)@[j]).deep_view(),
                old(list)@[j].deep_view(),
            ),
        ({
            let r = examples_ingested(
                old(list).deep_view(),
                dir@,
                items_from(old(queue)@, base.len() as int),
                paths_of(existing@),
            );
            &&& final(list).deep_view() == r.0
            &&& items_from(final(queue)@, base.len() as int) == r.1
        }),
{
    let ghost b = base.len() as int;
    let ghost items0 = items_from(queue@, b);
    let ghost e = paths_of(existing@);
    let ghost od = list.deep_view();
    let mut i: usize = 0;
    assert(queue@.subrange(0, queue@.len() as int) =~= queue@);
    assert(od.take(0) =~= Seq::<ExampleModel>::empty());
    assert(list.deep_view().take(0) =~= Seq::<ExampleModel>::empty());
    while i < list.len()
        invariant
            i <= list.len(),
            list.len() == old(list).len(),
            od == old(list).deep_view(),
            b == base.len(),
            items0 == items_from(old(queue)@, b),
            e == paths_of(existing@),
            ingest_consistent(queue@, used@, base),
            queue_extends(old(queue)@, queue@),
            forall|j: int|
                0 <= j < i ==> same_example_but_srcs(
                    (#[trigger] list@[j]).deep_view(),
                    old(list)@[j].deep_view(),
                ),
            forall|j: int| i <= j < list.len() ==> #[trigger] list@[j] == old(list)@[j],
            list.deep_view().take(i as int) == examples_ingested(od.take(i as int), dir@, items0, e).0,
            items_from(queue@, b) == examples_ingested(od.take(i as int), dir@, items0, e).1,
        decreases list.len() - i,
    {
        let ghost q0 = queue@;
        let ghost l0 = list@;
        let ghost ld0 = list.deep_view();
        ingest_example(&mut list[i], queue, dir, used, Ghost(base), existing);
        proof {
            assert forall|j: int| 0 <= j < list.len() && j != i implies list@[j] == l0[j] by {}
            assert(queue@.subrange(0, old(queue)@.len() as int) =~= q0.subrange(
                0,
                old(queue)@.len() as int,
            ));
            assert(od.take(i + 1).drop_last() =~= od.take(i as int));
            assert(od[i as int] == l0[i as int].deep_view());
            assert(list.deep_view().take(i as int) =~= ld0.take(i as int));
            assert(list.deep_view().take(i + 1) =~= list.deep_view().take(i as int).push(
                list.deep_view()[i as int],
            ));
        }
        i = i + 1;
    }
    assert(od.take(list.len() as int) =~= od);
    assert(list.deep_view().take(list.len() as int) =~= list.deep_view());
}

fn ingest_occlusion(
    occlusion: &mut Option<crate::models::Occlusion>,
    queue: &mut Vec<IngestItem>,
    dir: &str,
    used: &mut Vec<String>,
    Ghost(base): Ghost<Seq<Seq<char>>>,
    existing: &Vec<String>,
)
    requires
        ingest_consistent(old(queue)@, old(used)@, base),
    ensures
        ingest_consistent(final(queue)@, final(used)@, base),
        queue_extends(old(queue)@, final(queue)@),
        match old(occlusion).deep_view() {
            Some(x) => final(occlusion).deep_view() matches Some(y) && x.masks == y.masks
                && same_media_but_src(y.image, x.image),
            None => final(occlusion).deep_view() is None,
        },
        ({
            let r = occlusion_ingested(
                old(occlusion).deep_view(),
                dir@,
                items_from(old(queue)@, base.len() as int),
                paths_of(existing@),
            );
            &&& final(occlusion).deep_view() == r.0
            &&& items_from(final(queue)@, base.len() as int) == r.1
        }),
{
    match occlusion {
        Some(occ) => {
            ingest_media(&mut occ.image, queue, dir, used, Ghost(base), existing);
        },
        None => {
            assert(queue@.subrange(0, queue@.len() as int) =~= queue@);
        },
    }
}

/// The directory inside a package for the media of the card with id `id`.
pub open spec fn card_asset_dir(id: Seq<char>) -> Seq<char> {
    "assets/cards/"@ + sanitized(id)
}

fn ingest_card(
    card: &mut Card,
    queue: &mut Vec<IngestItem>,
    used: &mut Vec<String>,
    Ghost(base): Ghost<Seq<Seq<char>>>,
    existing: &Vec<String>,
)
    requires
        ingest_consistent(old(queue)@, old(used)@, base),
    ensures
        ingest_consistent(final(queue)@, final(used)@, base),
        queue_extends(old(queue)@, final(queue)@),
        same_card_but_srcs(final(card).deep_view(), old(card).deep_view()),
        ({
            let r = card_ingested(
                old(card).deep_view(),
                items_from(old(queue)@, base.len() as int),
                paths_of(existing@),
            );
            &&& final(card).deep_view() == r.0
            &&& items_from(final(queue)@, base.len() as int) == r.1
        }),
{
    let safe_id = sanitize_file_name(card.id.as_str());
    let mut dir = String::from_str("assets/cards/");
    dir.append(safe_id.as_str());
    assert(dir@ == card_asset_dir(card.id@));
    let ghost q0 = queue@;
    ingest_media_list(&mut card.media, queue, dir.as_str(), used, Ghost(base), existing);
    let ghost q1 = queue@;
    ingest_occlusion(&mut card.occlusion, queue, dir.as_str(), used, Ghost(base), existing);
    let ghost q2 = queue@;
    ingest_examples(&mut card.examples, queue, dir.as_str(), used, Ghost(base), existing);
    proof {
        assert(queue@.subrange(0, q1.len() as int) =~= q1);
        assert(queue@.subrange(0, q0.len() as int) =~= q0);
        let a = card.deep_view();
        let b = old(card).deep_view();
        assert forall|i: int| 0 <= i < a.examples.len() implies same_example_but_srcs(
            #[trigger] a.examples[i],
            b.examples[i],
        ) by {
            assert(a.examples[i] == card.examples@[i].deep_view());
        }
        assert(same_media_list_but_srcs(a.media, b.media));
    }
}

/// Moves every media file that the deck references by an absolute path into the package,
/// the files on disk being those named in `existing`: the cover goes under `assets/deck`, a
/// card's media, occlusion image and example media under `assets/cards/<card id made safe>`,
/// in that order (see `deck_ingested`). Each such file is queued with the fresh path it gets,
/// and its reference is rewritten to that path. Nothing but media sources changes in the deck,
/// and no two files queued here get the same path.
pub fn collect_present_assets(
    deck: &mut MFlashDeck,
    ingest_queue: &mut Vec<IngestItem>,
    existing: &Vec<String>,
)
    ensures
        ({
            let r = deck_ingested(old(deck).deep_view(), paths_of(existing@));
            &&& final(deck).deep_view() == r.0
            &&& items_from(final(ingest_queue)@, old(ingest_queue)@.len() as int) == r.1
        }),
        queue_extends(old(ingest_queue)@, final(ingest_queue)@),
        queued_paths(final(ingest_queue)@).subrange(
            old(ingest_queue)@.len() as int,
            final(ingest_queue)@.len() as int,
        ).no_duplicates(),
        same_deck_but_srcs(final(deck).deep_view(), old(deck).deep_view()),
{
    let mut used: Vec<String> = Vec::new();
    let ghost base = queued_paths(ingest_queue@);
    let ghost e = paths_of(existing@);
    let ghost n0 = ingest_queue@.len() as int;
    proof {
        assert(paths_of(used@) =~= Seq::<Seq<char>>::empty());
        assert(queued_paths(ingest_queue@) =~= base + paths_of(used@));
        assert(items_from(ingest_queue@, n0) =~= Seq::<(Seq<char>, Seq<char>)>::empty());
    }
    let ghost cover_r: (Option<MediaInfoModel>, Seq<(Seq<char>, Seq<char>)>) = match old(
        deck,
    ).cover.deep_view() {
        None => (None, Seq::empty()),
        Some(m) => {
            let r = media_ingested(m, "assets/deck"@, Seq::empty(), e);
            (Some(r.0), r.1)
        },
    };
    match &mut deck.cover {
        Some(cover) => {
            ingest_media(cover, ingest_queue, "assets/deck", &mut used, Ghost(base), existing);
        },
        None => {
            assert(ingest_queue@.subrange(0, ingest_queue@.len() as int) =~= ingest_queue@);
        },
    }
    let ghost items0 = items_from(ingest_queue@, n0);
    let ghost od = old(deck).cards.deep_view();
    assert(items0 == cover_r.1);
    assert(deck.cover.deep_view() == cover_r.0);
    assert(od.take(0) =~= Seq::<CardModel>::empty());
    assert(deck.cards.deep_view().take(0) =~= Seq::<CardModel>::empty());
    let mut i: usize = 0;
    while i < deck.cards.len()
        invariant
            i <= deck.cards.len(),
            deck.cards.len() == old(deck).cards.len(),
            ingest_consistent(ingest_queue@, used@, base),
            base == queued_paths(old(ingest_queue)@),
            n0 == old(ingest_queue)@.len(),
            e == paths_of(existing@),
            od == old(deck).cards.deep_view(),
            queue_extends(old(ingest_queue)@, ingest_queue@),
            forall|j: int|
                0 <= j < i ==> same_card_but_srcs(
                    (#[trigger] deck.cards@[j]).deep_view(),
                    old(deck).cards@[j].deep_view(),
                ),
            forall|j: int| i <= j < deck.cards.len() ==> #[trigger] deck.cards@[j] == old(
                deck,
            ).cards@[j],
            deck.cards.deep_view().take(i as int) == cards_ingested(od.take(i as int), items0, e).0,
            items_from(ingest_queue@, n0) == cards_ingested(od.take(i as int), items0, e).1,
            deck.format == old(deck).format,
            deck.version == old(deck).version,
            deck.id == old(deck).id,
            deck.title == old(deck).title,
            deck.description == old(deck).description,
            deck.snippet == old(deck).snippet,
            deck.default_term_lang == old(deck).default_term_lang,
            deck.default_def_lang == old(deck).default_def_lang,
            deck.deck_tags == old(deck).deck_tags,
            deck.cover.deep_view() == cover_r.0,
            match old(deck).cover.deep_view() {
                Some(x) => deck.cover.deep_view() matches Some(y) && same_media_but_src(y, x),
                None => deck.cover.deep_view() is None,
            },
        decreases deck.cards.len() - i,
    {
        let ghost q0 = ingest_queue@;
        let ghost l0 = deck.cards@;
        let ghost ld0 = deck.cards.deep_view();
        ingest_card(&mut deck.cards[i], ingest_queue, &mut used, Ghost(base), existing);
        proof {
            assert forall|j: int| 0 <= j < deck.cards.len() && j != i implies deck.cards@[j]
                == l0[j] by {}
            assert(ingest_queue@.subrange(0, old(ingest_queue)@.len() as int) =~= q0.subrange(
                0,
                old(ingest_queue)@.len() as int,
            ));
            assert(base.len() == n0);
            assert(od.take(i + 1).drop_last() =~= od.take(i as int));
            assert(od[i as int] == l0[i as int].deep_view());
            assert(deck.cards.deep_view().take(i as int) =~= ld0.take(i as int));
            assert(deck.cards.deep_view().take(i + 1) =~= deck.cards.deep_view().take(
                i as int,
            ).push(deck.cards.deep_view()[i as int]));
        }
        i = i + 1;
    }
    proof {
        let a = deck.deep_view();
        let b = old(deck).deep_view();
        assert forall|j: int| 0 <= j < a.cards.len() implies same_card_but_srcs(
            #[trigger] a.cards[j],
            b.cards[j],
        ) by {
            assert(a.cards[j] == deck.cards@[j].deep_view());
        }
        assert(base.len() == n0);
        assert(queued_paths(ingest_queue@) == base + paths_of(used@));
        assert(queued_paths(ingest_queue@).subrange(n0, ingest_queue@.len() as int) =~= paths_of(
            used@,
        ));
        assert(od.take(deck.cards.len() as int) =~= od);
        assert(deck.cards.deep_view().take(deck.cards.len() as int) =~= deck.cards.deep_view());
    }
}

/// `added` is made of some of the sources in `srcs` that are absolute paths, each taken at
/// most once and in the order of `srcs`.
pub open spec fn absolute_subsequence(srcs: Seq<Seq<char>>, added: Seq<Seq<char>>) -> bool
    decreases srcs.len(),
{
    if srcs.len() == 0 {
        added.len() == 0
    } else {
        ||| {
            &&& std_path_is_absolute(srcs.last())
            &&& added.len() > 0
            &&& added.last() == srcs.last()
            &&& absolute_subsequence(srcs.drop_last(), added.drop_last())
        }
        ||| absolute_subsequence(srcs.drop_last(), added)
    }
}

/// The sources of the media in `list`, in order.
pub open spec fn media_srcs(list: Seq<MediaInfoModel>) -> Seq<Seq<char>> {
    list.map_values(|m: MediaInfoModel| m.src)
}

/// The media sources of an example: those of a detailed example's media.
pub open spec fn example_srcs(e: ExampleModel) -> Seq<Seq<char>> {
    match e {
        ExampleModel::Text(_) => Seq::empty(),
        ExampleModel::Detailed(info) => media_srcs(info.media),
    }
}

/// The media sources of the examples in `list`, in order.
pub open spec fn examples_srcs(list: Seq<ExampleModel>) -> Seq<Seq<char>>
    decreases list.len(),
{
    if list.len() == 0 {
        Seq::empty()
    } else {
        examples_srcs(list.drop_last()) + example_srcs(list.last())
    }
}

/// The source of an occlusion's image, if there is an occlusion.
pub open spec fn occlusion_srcs(o: Option<OcclusionModel>) -> Seq<Seq<char>> {
    match o {
        None => Seq::empty(),
        Some(occ) => seq![occ.image.src],
    }
}

/// The media sources of a card: its media, its occlusion image, then its examples' media.
pub open spec fn card_srcs(c: CardModel) -> Seq<Seq<char>> {
    media_srcs(c.media) + occlusion_srcs(c.occlusion) + examples_srcs(c.examples)
}

/// The media sources of the cards in `cards`, in order.
pub open spec fn cards_srcs(cards: Seq<CardModel>) -> Seq<Seq<char>>
    decreases cards.len(),
{
    if cards.len() == 0 {
        Seq::empty()
    } else {
        cards_srcs(cards.drop_last()) + card_srcs(cards.last())
    }
}

/// The media sources of a deck: its cover's, then those of its cards.
pub open spec fn deck_media_srcs(d: DeckModel) -> Seq<Seq<char>> {
    let cover: Seq<Seq<char>> = match d.cover {
        None => Seq::empty(),
        Some(m) => seq![m.src],
    };
    cover + cards_srcs(d.cards)
}

/// Picking from two runs of sources in turn picks from the two together.
proof fn lemma_absolute_subsequence_concat(
    a: Seq<Seq<char>>,
    x: Seq<Seq<char>>,
    b: Seq<Seq<char>>,
    y: Seq<Seq<char>>,
)
    requires
        absolute_subsequence(a, x),
        absolute_subsequence(b, y),
    ensures
        absolute_subsequence(a + b, x + y),
    decreases b.len(),
{
    if b.len() == 0 {
        assert(a + b =~= a);
        assert(x + y =~= x);
    } else {
        assert((a + b).drop_last() =~= a + b.drop_last());
        assert((a + b).last() == b.last());
        if std_path_is_absolute(b.last()) && y.len() > 0 && y.last() == b.last()
            && absolute_subsequence(b.drop_last(), y.drop_last()) {
            lemma_absolute_subsequence_concat(a, x, b.drop_last(), y.drop_last());
            assert((x + y).drop_last() =~= x + y.drop_last());
            assert((x + y).last() == y.last());
        } else {
            lemma_absolute_subsequence_concat(a, x, b.drop_last(), y);
        }
    }
}

/// One source may be left out, and one that is an absolute path may be taken.
proof fn lemma_absolute_subsequence_one(s: Seq<char>)
    ensures
        absolute_subsequence(seq![s], Seq::empty()),
        std_path_is_absolute(s) ==> absolute_subsequence(seq![s], seq![s]),
{
    assert(seq![s].drop_last() =~= Seq::<Seq<char>>::empty());
    assert(seq![s].drop_last().len() == 0);
    assert(absolute_subsequence(Seq::<Seq<char>>::empty(), Seq::<Seq<char>>::empty()));
}

/// Adds to `found` the sources in `list` that are absolute paths to files on disk, in order.
/// Which of the absolute paths are files on disk is not known here: what is added is some
/// of them, in the order of `list`.
fn push_existing_media(list: &Vec<MediaInfo>, found: &mut Vec<String>)
    ensures
        final(found)@.len() >= old(found)@.len(),
        final(found)@.subrange(0, old(found)@.len() as int) == old(found)@,
        absolute_subsequence(
            media_srcs(list.deep_view()),
            paths_of(final(found)@).subrange(old(found)@.len() as int, final(found)@.len() as int),
        ),
{
    let ghost n0 = old(found)@.len() as int;
    let ghost srcs = media_srcs(list.deep_view());
    proof {
        assert(srcs.take(0) =~= Seq::<Seq<char>>::empty());
        assert(paths_of(found@).subrange(n0, n0) =~= Seq::<Seq<char>>::empty());
    }
    let mut i: usize = 0;
    while i < list.len()
        invariant
            0 <= i <= list.len(),
            0 <= n0 <= found@.len(),
            n0 == old(found)@.len(),
            found@.subrange(0, n0) == old(found)@,
            srcs == media_srcs(list.deep_view()),
            srcs.len() == list.len(),
            absolute_subsequence(srcs.take(i as int), paths_of(found@).subrange(n0, found@.len() as int)),
        decreases list.len() - i,
    {
        let ghost f0 = found@;
        let ghost added = paths_of(f0).subrange(n0, f0.len() as int);
        let src = list[i].src.as_str();
        proof {
            assert(srcs[i as int] == list.deep_view()[i as int].src);
            assert(list.deep_view()[i as int] == list@[i as int].deep_view());
            assert(srcs.take(i + 1) =~= srcs.take(i as int) + seq![srcs[i as int]]);
            lemma_absolute_subsequence_one(srcs[i as int]);
        }
        if path_is_absolute(src) && path_exists(src) {
            let s = list[i].src.clone();
            found.push(s);
            proof {
                assert(found@ == f0.push(s));
                assert(s@ == srcs[i as int]);
                assert(paths_of(found@) =~= paths_of(f0).push(srcs[i as int]));
                lemma_absolute_subsequence_concat(srcs.take(i as int), added, seq![srcs[i as int]], seq![srcs[i as int]]);
                assert(paths_of(found@).subrange(n0, found@.len() as int) =~= added + seq![srcs[i as int]]);
                assert(found@.subrange(0, n0) =~= f0.subrange(0, n0));
            }
        } else {
            proof {
                lemma_absolute_subsequence_concat(srcs.take(i as int), added, seq![srcs[i as int]], Seq::empty());
                assert(added + Seq::<Seq<char>>::empty() =~= added);
            }
        }
        i = i + 1;
    }
    proof {
        assert(srcs.take(list.len() as int) =~= srcs);
    }
}

/// The media sources of `deck` that are absolute paths to files on disk at this moment, in
/// the order of `deck_media_srcs`. Which of the absolute paths are files on disk is not
/// known here: the result is some of them, in that order.
fn existing_media_files(deck: &MFlashDeck) -> (found: Vec<String>)
    ensures
        absolute_subsequence(deck_media_srcs(deck.deep_view()), paths_of(found@)),
{
    let mut found: Vec<String> = Vec::new();
    let ghost cover_srcs: Seq<Seq<char>> = match deck.deep_view().cover {
        None => Seq::empty(),
        Some(m) => seq![m.src],
    };
    proof {
        assert(paths_of(found@) =~= Seq::<Seq<char>>::empty());
    }
    match &deck.cover {
        Some(cover) => {
            let src = cover.src.as_str();
            proof {
                lemma_absolute_subsequence_one(cover.src@);
            }
            if path_is_absolute(src) && path_exists(src) {
                found.push(cover.src.clone());
                proof {
                    assert(paths_of(found@) =~= seq![cover.src@]);
                }
            }
        },
        None => {},
    }
    let ghost cards = deck.cards.deep_view();
    proof {
        assert(cards.take(0) =~= Seq::<CardModel>::empty());
        assert(cover_srcs + cards_srcs(cards.take(0)) =~= cover_srcs);
    }
    let mut i: usize = 0;
    while i < deck.cards.len()
        invariant
            0 <= i <= deck.cards.len(),
            cards == deck.cards.deep_view(),
            cards.len() == deck.cards.len(),
            absolute_subsequence(cover_srcs + cards_srcs(cards.take(i as int)), paths_of(found@)),
        decreases deck.cards.len() - i,
    {
        let card = &deck.cards[i];
        let ghost c = cards[i as int];
        let ghost pre = cover_srcs + cards_srcs(cards.take(i as int));
        proof {
            assert(c == card.deep_view());
        }
        let ghost f0 = found@;
        push_existing_media(&card.media, &mut found);
        proof {
            let added = paths_of(found@).subrange(f0.len() as int, found@.len() as int);
            assert(paths_of(found@) =~= paths_of(f0) + added);
            lemma_absolute_subsequence_concat(pre, paths_of(f0), media_srcs(c.media), added);
        }
        let ghost f1 = found@;
        match &card.occlusion {
            Some(occ) => {
                let src = occ.image.src.as_str();
                proof {
                    assert(occlusion_srcs(c.occlusion) == seq![occ.image.src@]);
                    lemma_absolute_subsequence_one(occ.image.src@);
                }
                if path_is_absolute(src) && path_exists(src) {
                    found.push(occ.image.src.clone());
                    proof {
                        assert(paths_of(found@) =~= paths_of(f1) + seq![occ.image.src@]);
                        lemma_absolute_subsequence_concat(
                            pre + media_srcs(c.media),
                            paths_of(f1),
                            occlusion_srcs(c.occlusion),
                            seq![occ.image.src@],
                        );
                    }
                } else {
                    proof {
                        lemma_absolute_subsequence_concat(
                            pre + media_srcs(c.media),
                            paths_of(f1),
                            occlusion_srcs(c.occlusion),
                            Seq::empty(),
                        );
                        assert(paths_of(f1) + Seq::<Seq<char>>::empty() =~= paths_of(f1));
                    }
                }
            },
            None => {
                proof {
                    assert(occlusion_srcs(c.occlusion) =~= Seq::<Seq<char>>::empty());
                    assert(pre + media_srcs(c.media) + occlusion_srcs(c.occlusion) =~= pre
                        + media_srcs(c.media));
                }
            },
        }
        let ghost mid = pre + media_srcs(c.media) + occlusion_srcs(c.occlusion);
        let ghost exs = c.examples;
        proof {
            assert(exs.take(0) =~= Seq::<ExampleModel>::empty());
            assert(mid + examples_srcs(exs.take(0)) =~= mid);
        }
        let mut e: usize = 0;
        while e < card.examples.len()
            invariant
                0 <= e <= card.examples.len(),
                exs == card.examples.deep_view(),
                exs.len() == card.examples.len(),
                absolute_subsequence(mid + examples_srcs(exs.take(e as int)), paths_of(found@)),
            decreases card.examples.len() - e,
        {
            let ghost f2 = found@;
            let ghost before = mid + examples_srcs(exs.take(e as int));
            proof {
                assert(exs.take(e + 1).drop_last() =~= exs.take(e as int));
                assert(exs[e as int] == card.examples@[e as int].deep_view());
                assert(before + example_srcs(exs[e as int]) =~= mid + examples_srcs(
                    exs.take(e + 1),
                ));
            }
            match &card.examples[e] {
                Example::Detailed(info) => {
                    push_existing_media(&info.media, &mut found);
                    proof {
                        let added = paths_of(found@).subrange(f2.len() as int, found@.len() as int);
                        assert(paths_of(found@) =~= paths_of(f2) + added);
                        lemma_absolute_subsequence_concat(
                            before,
                            paths_of(f2),
                            media_srcs(info.media.deep_view()),
                            added,
                        );
                    }
                },
                Example::Text(_) => {
                    proof {
                        assert(before + example_srcs(exs[e as int]) =~= before);
                    }
                },
            }
            e = e + 1;
        }
        proof {
            assert(exs.take(exs.len() as int) =~= exs);
            assert(cards.take(i + 1).drop_last() =~= cards.take(i as int));
            assert(mid + examples_srcs(exs) =~= cover_srcs + cards_srcs(cards.take(i + 1)));
        }
        i = i + 1;
    }
    proof {
        assert(cards.take(cards.len() as int) =~= cards);
    }
    found
}

/// Moves every media file that the deck references by an absolute path to a file on disk
/// into the package, as `collect_present_assets` does with the files found on disk at this
/// moment (which files exist is not known here). Nothing but media sources changes in the
/// deck, and no two files queued here get the same path.
pub fn collect_external_assets(deck: &mut MFlashDeck, ingest_queue: &mut Vec<IngestItem>)
    ensures
        exists|existing: Seq<Seq<char>>|
            {
                &&& final(deck).deep_view() == (#[trigger] deck_ingested(
                    old(deck).deep_view(),
                    existing,
                )).0
                &&& items_from(final(ingest_queue)@, old(ingest_queue)@.len() as int)
                    == deck_ingested(old(deck).deep_view(), existing).1
            },
        queue_extends(old(ingest_queue)@, final(ingest_queue)@),
        queued_paths(final(ingest_queue)@).subrange(
            old(ingest_queue)@.len() as int,
            final(ingest_queue)@.len() as int,
        ).no_duplicates(),
        same_deck_but_srcs(final(deck).deep_view(), old(deck).deep_view()),
{
    let existing = existing_media_files(deck);
    collect_present_assets(deck, ingest_queue, &existing);
    proof {
        let e = paths_of(existing@);
        assert(deck.deep_view() == deck_ingested(old(deck).deep_view(), e).0);
    }
}

/// The message given for a deck whose format version is not 3.
pub open spec fn unsupported_version_message() -> Seq<char> {
    "Unsupported deck version. Please use a v3 deck."@
}

/// Accepts only version 3 decks, the version this studio edits; any other version is
/// refused with `unsupported_version_message`.
pub fn check_deck_version(deck: &MFlashDeck) -> (r: Result<(), String>)
    ensures
        r is Ok <==> deck.version == 3,
        r matches Err(e) ==> e@ == unsupported_version_message(),
{
    if deck.version != 3 {
        return Err(String::from_str("Unsupported deck version. Please use a v3 deck."));
    }
    Ok(())
}

/// Whether a save from `source_path` to `dest_path` writes a raw JSON file rather than a
/// package: it does when either path names a raw JSON deck.
pub fn saves_as_raw_json(source_path: &str, dest_path: &str) -> (r: bool)
    ensures
        r == (raw_json_path(dest_path@) || raw_json_path(source_path@)),
{
    is_raw_json_path(dest_path) || is_raw_json_path(source_path)
}

/// The temporary file a package is written to before it replaces `dest_path`.
pub fn temp_package_path(dest_path: &str) -> (r: String)
    ensures
        r@ == dest_path@ + ".tmp"@,
{
    let mut r = String::from_str(dest_path);
    r.append(".tmp");
    r
}

/// Whether `name` is among the entries already written to the new package.
pub fn already_added(added: &Vec<String>, name: &str) -> (r: bool)
    ensures
        r == paths_of(added@).contains(name@),
{
    let n = chars_of(name);
    contains_path(added, &n)
}

/// Whether an entry of the old package is carried into the new one: not the deck file
/// itself (written afresh), not a name that could escape the package, and not a name
/// already written.
pub open spec fn keeps_package_entry(name: Seq<char>, added: Seq<Seq<char>>) -> bool {
    &&& name != "deck.json"@
    &&& !unsafe_package_path(name)
    &&& !added.contains(name)
}

/// Whether the entry `name` of the old package is carried into the new one, given the
/// entries already written.
pub fn keep_package_entry(name: &str, added: &Vec<String>) -> (r: bool)
    ensures
        r == keeps_package_entry(name@, paths_of(added@)),
{
    if str_eq(name, "deck.json") {
        return false;
    }
    if is_unsafe_package_path(name) {
        return false;
    }
    !already_added(added, name)
}

} // verus!
