//! The target path resolver: derive the optional destination of an upload
//! from its file name and the configuration — subdirectory classification by
//! a named capture group, and collision-free naming by a strictly sequential
//! numeric suffix on the file name's stem.

use vstd::prelude::*;
use vstd::seq_lib::seq_to_set_is_finite;
use vstd::set_lib::lemma_len_subset;

use crate::conf::Config;
use crate::digits::{dec_digits, lemma_dec_injective, u64_to_dec};

verus! {

/// Position of the last `.` in a name, `-1` where there is none.
pub open spec fn last_dot(name: Seq<char>) -> int
    decreases name.len(),
{
    if name.len() == 0 {
        -1
    } else if name.last() == '.' {
        name.len() - 1
    } else {
        last_dot(name.drop_last())
    }
}

/// A name has an extension when a `.` stands after its first character; a
/// leading `.` alone marks a hidden file, not an extension.
pub open spec fn has_extension(name: Seq<char>) -> bool {
    last_dot(name) >= 1
}

/// The name without its extension (the whole name where there is none).
pub open spec fn stem_of(name: Seq<char>) -> Seq<char> {
    if has_extension(name) {
        name.take(last_dot(name))
    } else {
        name
    }
}

/// The extension, without its dot (empty where there is none).
pub open spec fn ext_of(name: Seq<char>) -> Seq<char> {
    if has_extension(name) {
        name.skip(last_dot(name) + 1)
    } else {
        Seq::empty()
    }
}

proof fn lemma_last_dot_at(name: Seq<char>, p: int)
    requires
        0 <= p < name.len(),
        name[p] == '.',
        forall|j: int| p < j < name.len() ==> name[j] != '.',
    ensures
        last_dot(name) == p,
    decreases name.len(),
{
    if p < name.len() - 1 {
        lemma_last_dot_at(name.drop_last(), p);
    }
}

proof fn lemma_last_dot_none(name: Seq<char>)
    requires
        forall|j: int| 0 <= j < name.len() ==> name[j] != '.',
    ensures
        last_dot(name) == -1,
    decreases name.len(),
{
    if name.len() > 0 {
        lemma_last_dot_none(name.drop_last());
    }
}

/// Position of the last `.` in a name, or `None` where there is none.
fn find_last_dot(name: &str) -> (r: Option<usize>)
    ensures
        match r {
            Some(p) => p as int == last_dot(name@) && p < name@.len(),
            None => last_dot(name@) == -1,
        },
{
    let len = name.unicode_len();
    let mut i = len;
    while i > 0
        invariant
            i <= name@.len(),
            len == name@.len(),
            forall|j: int| i <= j < name@.len() ==> name@[j] != '.',
        decreases i,
    {
        let c = name.get_char(i - 1);
        if c == '.' {
            proof {
                lemma_last_dot_at(name@, i - 1);
            }
            return Some(i - 1);
        }
        i = i - 1;
    }
    proof {
        lemma_last_dot_none(name@);
    }
    None
}

/// The `n`-th collision-avoidance candidate for a base name: `_n` appended
/// to the stem, the extension preserved.
pub open spec fn candidate_v(base: Seq<char>, n: nat) -> Seq<char> {
    if has_extension(base) {
        stem_of(base) + "_"@ + dec_digits(n) + "."@ + ext_of(base)
    } else {
        base + "_"@ + dec_digits(n)
    }
}

/// Distinct counters give distinct candidate names.
pub proof fn lemma_candidate_injective(base: Seq<char>, a: nat, b: nat)
    requires
        candidate_v(base, a) == candidate_v(base, b),
    ensures
        a == b,
{
    let ca = candidate_v(base, a);
    let cb = candidate_v(base, b);
    let pre: Seq<char> = if has_extension(base) {
        stem_of(base) + "_"@
    } else {
        base + "_"@
    };
    let da = dec_digits(a);
    let db = dec_digits(b);
    if has_extension(base) {
        let dot = "."@;
        let ex = ext_of(base);
        assert(ca == ((pre + da) + dot) + ex);
        assert(cb == ((pre + db) + dot) + ex);
        assert(ca.len() == pre.len() + da.len() + dot.len() + ex.len());
        assert(cb.len() == pre.len() + db.len() + dot.len() + ex.len());
        assert forall|i: int| 0 <= i < da.len() implies da[i] == db[i] by {
            assert((pre + da)[pre.len() + i] == da[i]);
            assert(((pre + da) + dot)[pre.len() + i] == (pre + da)[pre.len() + i]);
            assert((((pre + da) + dot) + ex)[pre.len() + i] == ((pre + da) + dot)[pre.len() + i]);
            assert((pre + db)[pre.len() + i] == db[i]);
            assert(((pre + db) + dot)[pre.len() + i] == (pre + db)[pre.len() + i]);
            assert((((pre + db) + dot) + ex)[pre.len() + i] == ((pre + db) + dot)[pre.len() + i]);
        }
    } else {
        assert(ca == pre + da);
        assert(cb == pre + db);
        assert(ca.len() == pre.len() + da.len());
        assert(cb.len() == pre.len() + db.len());
        assert forall|i: int| 0 <= i < da.len() implies da[i] == db[i] by {
            assert((pre + da)[pre.len() + i] == da[i]);
            assert((pre + db)[pre.len() + i] == db[i]);
        }
    }
    assert(da =~= db);
    lemma_dec_injective(a, b);
}

/// Build the `n`-th collision-avoidance candidate for a base name.
pub fn candidate_name(base: &String, n: u64) -> (r: String)
    ensures
        r@ == candidate_v(base@, n as nat),
{
    let s = base.as_str();
    let len = s.unicode_len();
    let p_opt = find_last_dot(s);
    let ext_at = match p_opt {
        Some(p) => if p >= 1 {
            Some(p)
        } else {
            None
        },
        None => None,
    };
    match ext_at {
        Some(p) => {
            let mut r = s.substring_char(0, p).to_owned();
            r.append("_");
            let num = u64_to_dec(n);
            r.append(num.as_str());
            r.append(".");
            r.append(s.substring_char(p + 1, len));
            proof {
                assert(base@.take(p as int) =~= base@.subrange(0, p as int));
                assert(base@.skip(p + 1) =~= base@.subrange(p + 1, len as int));
                assert(r@ =~= candidate_v(base@, n as nat));
            }
            r
        },
        None => {
            let mut r = base.clone();
            r.append("_");
            let num = u64_to_dec(n);
            r.append(num.as_str());
            proof {
                assert(r@ =~= candidate_v(base@, n as nat));
            }
            r
        },
    }
}

/// A name is taken when it stands in the set of pre-existing names.
pub open spec fn name_taken(existing: Seq<Seq<char>>, name: Seq<char>) -> bool {
    exists|i: int| 0 <= i < existing.len() && existing[i] == name
}

/// True iff `name` stands in `existing`.
pub fn contains_name(existing: &Vec<String>, name: &String) -> (r: bool)
    ensures
        r == name_taken(existing.deep_view(), name@),
{
    let ghost ex = existing.deep_view();
    let mut i: usize = 0;
    while i < existing.len()
        invariant
            i <= existing@.len(),
            ex == existing.deep_view(),
            forall|j: int| 0 <= j < i ==> ex[j] != name@,
        decreases existing@.len() - i,
    {
        if existing[i] == *name {
            proof {
                assert(ex[i as int] == existing@[i as int]@);
            }
            return true;
        }
        i += 1;
    }
    false
}

/// `n` is the counter the collision loop stops at: its candidate is free
/// and every earlier one is taken.
pub open spec fn is_first_free(existing: Seq<Seq<char>>, base: Seq<char>, n: nat) -> bool {
    &&& !name_taken(existing, candidate_v(base, n))
    &&& forall|m: nat| m < n ==> name_taken(existing, #[trigger] candidate_v(base, m))
}

/// The name the resolver settles on: the base name itself where it is free,
/// else the first free candidate.
pub open spec fn resolved_v(existing: Seq<Seq<char>>, base: Seq<char>) -> Seq<char> {
    if !name_taken(existing, base) {
        base
    } else {
        candidate_v(base, choose|n: nat| is_first_free(existing, base, n))
    }
}

/// The set of the first `n` candidate names.
spec fn cand_set(base: Seq<char>, n: nat) -> Set<Seq<char>>
    decreases n,
{
    if n == 0 {
        Set::empty()
    } else {
        cand_set(base, (n - 1) as nat).insert(candidate_v(base, (n - 1) as nat))
    }
}

proof fn lemma_cand_set_props(base: Seq<char>, n: nat)
    ensures
        cand_set(base, n).finite(),
        cand_set(base, n).len() == n,
        forall|c: Seq<char>|
            #[trigger] cand_set(base, n).contains(c) <==> (exists|m: nat|
                m < n && c == #[trigger] candidate_v(base, m)),
    decreases n,
{
    broadcast use vstd::set::group_set_axioms;

    if n > 0 {
        let prev = (n - 1) as nat;
        lemma_cand_set_props(base, prev);
        if cand_set(base, prev).contains(candidate_v(base, prev)) {
            let m = choose|m: nat| m < prev && candidate_v(base, prev) == #[trigger] candidate_v(base, m);
            lemma_candidate_injective(base, prev, m);
            assert(false);
        }
    }
}

/// If the first `n` candidates are all taken, there are at least `n`
/// pre-existing names: the collision counter is bounded.
proof fn lemma_candidates_bound(existing: Seq<Seq<char>>, base: Seq<char>, n: nat)
    requires
        forall|m: nat| m < n ==> name_taken(existing, #[trigger] candidate_v(base, m)),
    ensures
        n <= existing.len(),
{
    broadcast use vstd::set::group_set_axioms;

    lemma_cand_set_props(base, n);
    seq_to_set_is_finite(existing);
    existing.lemma_cardinality_of_set();
    assert forall|c: Seq<char>| cand_set(base, n).contains(c) implies existing.to_set().contains(
        c,
    ) by {
        let m = choose|m: nat| m < n && c == #[trigger] candidate_v(base, m);
        assert(name_taken(existing, c));
        let i = choose|i: int| 0 <= i < existing.len() && existing[i] == c;
        assert(existing.contains(c));
    }
    lemma_len_subset(cand_set(base, n), existing.to_set());
}

/// The least free counter at or below a known free one.
proof fn lemma_least_free(existing: Seq<Seq<char>>, base: Seq<char>, w: nat) -> (n: nat)
    requires
        !name_taken(existing, candidate_v(base, w)),
    ensures
        n <= w,
        is_first_free(existing, base, n),
    decreases w,
{
    if exists|m: nat| m < w && !name_taken(existing, #[trigger] candidate_v(base, m)) {
        let m = choose|m: nat| m < w && !name_taken(existing, #[trigger] candidate_v(base, m));
        lemma_least_free(existing, base, m)
    } else {
        w
    }
}

/// Some counter is always the first free one, and it is never larger than
/// the number of pre-existing names.
pub proof fn lemma_first_free_exists(existing: Seq<Seq<char>>, base: Seq<char>) -> (n: nat)
    ensures
        is_first_free(existing, base, n),
        n <= existing.len(),
{
    let bound = (existing.len() + 1) as nat;
    if forall|m: nat| m < bound ==> name_taken(existing, #[trigger] candidate_v(base, m)) {
        lemma_candidates_bound(existing, base, bound);
        assert(false);
    }
    let w = choose|m: nat| m < bound && !name_taken(existing, #[trigger] candidate_v(base, m));
    let n = lemma_least_free(existing, base, w);
    lemma_candidates_bound(existing, base, n);
    n
}

/// Only one counter is the first free one: collision resolution is
/// deterministic.
pub proof fn lemma_first_free_unique(existing: Seq<Seq<char>>, base: Seq<char>, n1: nat, n2: nat)
    requires
        is_first_free(existing, base, n1),
        is_first_free(existing, base, n2),
    ensures
        n1 == n2,
{
    if n1 < n2 {
        assert(name_taken(existing, candidate_v(base, n1)));
    }
    if n2 < n1 {
        assert(name_taken(existing, candidate_v(base, n2)));
    }
}

/// Collision resolution is deterministic and idempotent under a fixed set
/// of pre-existing names: the settled name is a function of the two
/// arguments alone — resolving again over an unchanged set settles on the
/// same name — and it never collides with a pre-existing name.
pub proof fn lemma_resolved_free(existing: Seq<Seq<char>>, base: Seq<char>)
    ensures
        !name_taken(existing, resolved_v(existing, base)),
{
    if name_taken(existing, base) {
        let n0 = lemma_first_free_exists(existing, base);
        let picked = choose|n: nat| is_first_free(existing, base, n);
        assert(is_first_free(existing, base, picked));
    }
}

/// Resolve a collision-free file name against a fixed set of pre-existing
/// names: the base name where it is free, else the first candidate
/// `stem_n.ext` whose counter `n = 0, 1, 2, …` is free.  Strictly
/// sequential and deterministic: the result is a function of the two
/// arguments.
pub fn resolve_filename(existing: &Vec<String>, base: &String) -> (r: String)
    ensures
        r@ == resolved_v(existing.deep_view(), base@),
        !name_taken(existing.deep_view(), r@),
{
    let ghost ex = existing.deep_view();
    if !contains_name(existing, base) {
        return base.clone();
    }
    let cap: usize = existing.len();
    let ghost n0 = lemma_first_free_exists(ex, base@);
    let mut n: u64 = 0;
    loop
        invariant
            n <= n0,
            n0 <= cap,
            is_first_free(ex, base@, n0),
            ex == existing.deep_view(),
            name_taken(ex, base@),
            forall|m: nat| m < n ==> name_taken(ex, #[trigger] candidate_v(base@, m)),
        decreases n0 - n,
    {
        let cand = candidate_name(base, n);
        if !contains_name(existing, &cand) {
            proof {
                assert(is_first_free(ex, base@, n as nat));
                lemma_first_free_unique(ex, base@, n as nat, n0);
                let picked = choose|m: nat| is_first_free(ex, base@, m);
                lemma_first_free_unique(ex, base@, picked, n0);
            }
            return cand;
        }
        proof {
            if n == n0 {
                assert(name_taken(ex, candidate_v(base@, n0)));
                assert(false);
            }
        }
        n += 1;
    }
}

/// `suffix` is the tail of `s`.
pub open spec fn ends_with(s: Seq<char>, suffix: Seq<char>) -> bool {
    suffix.len() <= s.len() && s.skip(s.len() - suffix.len()) == suffix
}

/// A name with the verdict's extension appended, unless the verdict has no
/// extension or the name carries it already.
pub open spec fn with_extension_v(name: Seq<char>, ext: Seq<char>) -> Seq<char> {
    if ext.len() > 0 && !ends_with(name, "."@ + ext) {
        name + "."@ + ext
    } else {
        name
    }
}

/// Append the verdict's extension to a file name that does not already end
/// in it, so that the stored file's name reflects its sniffed type.
pub fn ensure_extension(name: &String, ext: &String) -> (r: String)
    ensures
        r@ == with_extension_v(name@, ext@),
{
    let ghost target = "."@ + ext@;
    if ext.as_str().unicode_len() == 0 {
        return name.clone();
    }
    let mut suf = ".".to_owned();
    suf.append(ext.as_str());
    let mut appended = name.clone();
    appended.append(suf.as_str());
    proof {
        assert(appended@ =~= name@ + "."@ + ext@);
    }
    let n_len = name.as_str().unicode_len();
    let s_len = suf.as_str().unicode_len();
    if s_len > n_len {
        return appended;
    }
    let start = n_len - s_len;
    let mut i: usize = 0;
    while i < s_len
        invariant
            i <= s_len,
            s_len == suf@.len(),
            n_len == name@.len(),
            s_len <= n_len,
            start == n_len - s_len,
            suf@ == target,
            target == "."@ + ext@,
            ext@.len() > 0,
            appended@ == name@ + "."@ + ext@,
            forall|j: int| 0 <= j < i ==> name@[start + j] == suf@[j],
        decreases s_len - i,
    {
        if name.as_str().get_char(start + i) != suf.as_str().get_char(i) {
            proof {
                assert(name@.skip(name@.len() - target.len())[i as int] == name@[start + i]);
                assert(name@.skip(name@.len() - target.len())[i as int] != target[i as int]);
                assert(!ends_with(name@, target));
            }
            return appended;
        }
        i += 1;
    }
    proof {
        assert(name@.skip(name@.len() - target.len()) =~= target);
    }
    name.clone()
}

/// What `regex::Regex::new` and `regex::Captures::name` answer together:
/// the text a named capture group of the pattern matched within the text,
/// `None` where the pattern does not compile, does not match, or the group
/// did not participate.  The answer is a function of the three strings
/// alone.
pub uninterp spec fn named_capture(pattern: Seq<char>, text: Seq<char>, group: Seq<char>) -> Option<
    Seq<char>,
>;

/// Relies on `regex::Regex::new`, `regex::Regex::captures` and
/// `regex::Captures::name`: compiling a pattern and matching it are
/// deterministic in the pattern, the text and the group name; a pattern
/// that does not compile is treated like one that does not match.
#[verifier::external_body]
fn capture_named(pattern: &str, text: &str, group: &str) -> (r: Option<String>)
    ensures
        r is Some <==> named_capture(pattern@, text@, group@) is Some,
        r matches Some(s) ==> named_capture(pattern@, text@, group@) == Some(s@),
{
    regex::Regex::new(pattern).ok().and_then(
        |re| re.captures(text).and_then(|c| c.name(group).map(|m| m.as_str().to_owned())),
    )
}

/// The subdirectory an upload is classified into: what the configured
/// pattern's `subdir` group captures in the file name, when classification
/// is enabled.
pub open spec fn subdir_of(enabled: bool, pattern: Seq<char>, filename: Seq<char>) -> Option<
    Seq<char>,
> {
    if enabled {
        named_capture(pattern, filename, "subdir"@)
    } else {
        None
    }
}

/// Classify an upload into a subdirectory by the configured regex.  A
/// pattern that does not compile or does not match degrades to "no
/// subdirectory"; it never fails the request.
pub fn choose_subdirectory(config: &Config, filename: &String) -> (r: Option<String>)
    ensures
        r is Some <==> subdir_of(
            config.enable_subdirectories,
            config.subdirectory_regex@,
            filename@,
        ) is Some,
        r matches Some(s) ==> subdir_of(
            config.enable_subdirectories,
            config.subdirectory_regex@,
            filename@,
        ) == Some(s@),
{
    if config.enable_subdirectories {
        capture_named(config.subdirectory_regex.as_str(), filename.as_str(), "subdir")
    } else {
        None
    }
}

/// The directory an upload with this file name is stored under: the
/// configured target directory, extended by the classified subdirectory
/// where there is one; `None` where persistence is not configured.
pub open spec fn target_dir_v(c: &Config, filename: Seq<char>) -> Option<Seq<char>> {
    match c.target_dir {
        Some(d) => Some(
            match subdir_of(c.enable_subdirectories, c.subdirectory_regex@, filename) {
                Some(s) => d@ + "/"@ + s,
                None => d@,
            },
        ),
        None => None,
    }
}

/// Derive the directory an upload with this file name is stored under.
pub fn target_directory(config: &Config, filename: &String) -> (r: Option<String>)
    ensures
        r is Some <==> target_dir_v(config, filename@) is Some,
        r matches Some(t) ==> target_dir_v(config, filename@) == Some(t@),
{
    match &config.target_dir {
        None => None,
        Some(d) => {
            let mut t = d.clone();
            match choose_subdirectory(config, filename) {
                Some(s) => {
                    t.append("/");
                    t.append(s.as_str());
                },
                None => {},
            }
            Some(t)
        },
    }
}

/// The full resolved destination: `None` where persistence is off or the
/// directory could not be created, else the directory joined with the
/// collision-free file name.
pub open spec fn placed_path_v(
    c: &Config,
    name: Seq<char>,
    existing: Seq<Seq<char>>,
    dir_create_ok: bool,
) -> Option<Seq<char>> {
    match target_dir_v(c, name) {
        None => None,
        Some(dir) => if dir_create_ok {
            Some(dir + "/"@ + resolved_v(existing, name))
        } else {
            None
        },
    }
}

/// Choose the destination path for an upload: the classified directory and
/// the collision-free name within it.  `existing` is the set of names
/// already present in that directory, and `dir_create_ok` reports whether
/// the caller could ensure the directory exists — failure to create it
/// degrades to "do not persist", it never fails the request.
pub fn choose_filename(
    config: &Config,
    name: &String,
    existing: &Vec<String>,
    dir_create_ok: bool,
) -> (r: Option<String>)
    ensures
        r is Some <==> placed_path_v(config, name@, existing.deep_view(), dir_create_ok) is Some,
        r matches Some(p) ==> placed_path_v(config, name@, existing.deep_view(), dir_create_ok)
            == Some(p@),
{
    match target_directory(config, name) {
        None => None,
        Some(dir) => {
            if dir_create_ok {
                let mut p = dir;
                p.append("/");
                let resolved = resolve_filename(existing, name);
                p.append(resolved.as_str());
                Some(p)
            } else {
                None
            }
        },
    }
}

} // verus!
