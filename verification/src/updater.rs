//! Android updater helpers: manifest URLs, version comparison, and the
//! manifest error message shown in tooltips.
use vstd::prelude::*;

use crate::text::{
    chars_eq, decimal, parse_u32, parse_u32_spec, push_decimal, push_str_chars, to_chars,
};

verus! {

/// Release mirror base URL.
pub const MIRROR_BASE: &'static str = "https://fastgit.cc/https://github.com/appergb/openless";

/// Direct release base URL.
pub const DIRECT_BASE: &'static str = "https://github.com/appergb/openless";

/// Target architecture for an Android ABI name; unknown ABIs map to `aarch64`.
pub open spec fn spec_abi_arch(abi: Seq<char>) -> Seq<char> {
    if abi == "arm64-v8a"@ {
        "aarch64"@
    } else if abi == "armeabi-v7a"@ {
        "armv7"@
    } else if abi == "x86"@ {
        "i686"@
    } else if abi == "x86_64"@ {
        "x86_64"@
    } else {
        "aarch64"@
    }
}

fn str_is(s: &Vec<char>, lit: &str) -> (r: bool)
    ensures
        r == (s@ == lit@),
{
    chars_eq(s, &to_chars(lit))
}

/// Maps an Android ABI to the release architecture name.
pub fn map_abi_to_arch(abi: &str) -> (r: &'static str)
    ensures
        r@ == spec_abi_arch(abi@),
{
    let v = to_chars(abi);
    if str_is(&v, "arm64-v8a") {
        "aarch64"
    } else if str_is(&v, "armeabi-v7a") {
        "armv7"
    } else if str_is(&v, "x86") {
        "i686"
    } else if str_is(&v, "x86_64") {
        "x86_64"
    } else {
        "aarch64"
    }
}

pub open spec fn is_version_sep(c: char) -> bool {
    c == '.' || c == '-'
}

/// `s` split at every `.` and `-` (always at least one piece).
pub open spec fn version_pieces(s: Seq<char>) -> Seq<Seq<char>>
    decreases s.len(),
{
    if s.len() == 0 {
        seq![Seq::<char>::empty()]
    } else {
        let p = version_pieces(s.drop_last());
        if is_version_sep(s.last()) {
            p.push(Seq::<char>::empty())
        } else {
            p.update(p.len() - 1, p.last().push(s.last()))
        }
    }
}

/// The numbers of the pieces that parse as `u32`, in order; the others are
/// skipped.
pub open spec fn parsed_pieces(ps: Seq<Seq<char>>) -> Seq<u32>
    decreases ps.len(),
{
    if ps.len() == 0 {
        Seq::<u32>::empty()
    } else {
        parsed_pieces(ps.drop_last()) + match parse_u32_spec(ps.last()) {
            Some(n) => seq![n],
            None => Seq::<u32>::empty(),
        }
    }
}

/// Numeric parts of a version string.
pub open spec fn version_parts(s: Seq<char>) -> Seq<u32> {
    parsed_pieces(version_pieces(s))
}

/// Part `i` of a version, `0` past its end.
pub open spec fn part_at(p: Seq<u32>, i: int) -> u32 {
    if 0 <= i < p.len() {
        p[i]
    } else {
        0
    }
}

/// `r` compares greater than `c` from part `i` on (zero-padded,
/// lexicographic).
pub open spec fn newer_from(r: Seq<u32>, c: Seq<u32>, i: int) -> bool
    decreases r.len() + c.len() - i,
{
    if i < 0 || (i >= r.len() && i >= c.len()) {
        false
    } else if part_at(r, i) > part_at(c, i) {
        true
    } else if part_at(r, i) < part_at(c, i) {
        false
    } else {
        newer_from(r, c, i + 1)
    }
}

/// What [`version_is_newer`] returns.
pub open spec fn spec_version_is_newer(remote: Seq<char>, current: Seq<char>) -> bool {
    newer_from(version_parts(remote), version_parts(current), 0)
}

proof fn lemma_version_pieces_nonempty(s: Seq<char>)
    ensures
        version_pieces(s).len() >= 1,
    decreases s.len(),
{
    if s.len() > 0 {
        lemma_version_pieces_nonempty(s.drop_last());
    }
}

/// Numeric parts of `v` (see [`version_parts`]).
fn version_numbers(v: &str) -> (r: Vec<u32>)
    ensures
        r@ == version_parts(v@),
{
    let s = to_chars(v);
    let mut parts: Vec<u32> = Vec::new();
    let mut cur: usize = 0;
    let mut i: usize = 0;
    proof {
        assert(s@.take(0) =~= Seq::<char>::empty());
    }
    while i < s.len()
        invariant
            s@ == v@,
            cur <= i <= s.len(),
            version_pieces(s@.take(i as int)).len() >= 1,
            version_pieces(s@.take(i as int)).last() == s@.subrange(cur as int, i as int),
            parts@ == parsed_pieces(version_pieces(s@.take(i as int)).drop_last()),
        decreases s.len() - i,
    {
        let ghost t = s@.take(i as int);
        let ghost t1 = s@.take(i as int + 1);
        assert(t1.drop_last() =~= t);
        assert(t1.last() == s@[i as int]);
        let ghost p = version_pieces(t);
        if s[i] == '.' || s[i] == '-' {
            let n = parse_u32(&s, cur, i);
            match n {
                Some(x) => parts.push(x),
                None => {},
            }
            proof {
                assert(version_pieces(t1) == p.push(Seq::<char>::empty()));
                assert(version_pieces(t1).drop_last() =~= p);
                assert(p.drop_last().push(p.last()) =~= p);
            }
            i = i + 1;
            cur = i;
            proof {
                assert(s@.subrange(cur as int, i as int) =~= Seq::<char>::empty());
            }
        } else {
            proof {
                assert(version_pieces(t1) == p.update(p.len() - 1, p.last().push(s@[i as int])));
                assert(version_pieces(t1).drop_last() =~= p.drop_last());
                assert(s@.subrange(cur as int, i + 1) =~= s@.subrange(cur as int, i as int).push(
                    s@[i as int],
                ));
            }
            i = i + 1;
        }
    }
    let last = parse_u32(&s, cur, s.len());
    match last {
        Some(x) => parts.push(x),
        None => {},
    }
    proof {
        let p = version_pieces(s@.take(s@.len() as int));
        assert(s@.take(s@.len() as int) =~= s@);
        assert(p.drop_last().push(p.last()) =~= p);
    }
    parts
}

/// Whether `remote` is a strictly newer version than `current`: their
/// numeric parts (split at `.` and `-`) compared in order, missing parts
/// counting as zero.
pub fn version_is_newer(remote: &str, current: &str) -> (r: bool)
    ensures
        r == spec_version_is_newer(remote@, current@),
{
    let remote_parts = version_numbers(remote);
    let current_parts = version_numbers(current);
    let max = if remote_parts.len() >= current_parts.len() {
        remote_parts.len()
    } else {
        current_parts.len()
    };
    let mut i: usize = 0;
    while i < max
        invariant
            remote_parts@ == version_parts(remote@),
            current_parts@ == version_parts(current@),
            i <= max,
            max == remote_parts.len() || max == current_parts.len(),
            max >= remote_parts.len(),
            max >= current_parts.len(),
            newer_from(remote_parts@, current_parts@, i as int) == newer_from(
                remote_parts@,
                current_parts@,
                0,
            ),
        decreases max - i,
    {
        let r = if i < remote_parts.len() {
            remote_parts[i]
        } else {
            0
        };
        let c = if i < current_parts.len() {
            current_parts[i]
        } else {
            0
        };
        assert(r == part_at(remote_parts@, i as int));
        assert(c == part_at(current_parts@, i as int));
        if r > c {
            return true;
        }
        if r < c {
            return false;
        }
        i = i + 1;
    }
    false
}

/// **Version order law.** No version is newer than itself, and of two
/// versions at most one is newer than the other.
pub proof fn lemma_version_order(a: Seq<char>, b: Seq<char>)
    ensures
        !spec_version_is_newer(a, a),
        spec_version_is_newer(a, b) ==> !spec_version_is_newer(b, a),
{
    lemma_newer_irreflexive(version_parts(a), 0);
    lemma_newer_asymmetric(version_parts(a), version_parts(b), 0);
}

/// "Newer" is transitive: a version newer than one that is newer than a
/// third is newer than the third.
pub proof fn lemma_version_order_transitive(a: Seq<char>, b: Seq<char>, c: Seq<char>)
    requires
        spec_version_is_newer(a, b),
        spec_version_is_newer(b, c),
    ensures
        spec_version_is_newer(a, c),
{
    lemma_newer_transitive(version_parts(a), version_parts(b), version_parts(c), 0);
}

/// **First-part law.** Of two versions that each begin with a number
/// followed by `.`, the one whose first number is larger is newer, whatever
/// follows.
pub proof fn lemma_first_part_decides(x: Seq<char>, y: Seq<char>, s: Seq<char>, t: Seq<char>)
    requires
        forall|i: int| 0 <= i < x.len() ==> !is_version_sep(#[trigger] x[i]),
        forall|i: int| 0 <= i < y.len() ==> !is_version_sep(#[trigger] y[i]),
        parse_u32_spec(x) is Some,
        parse_u32_spec(y) is Some,
        parse_u32_spec(x)->0 > parse_u32_spec(y)->0,
    ensures
        spec_version_is_newer(x + seq!['.'] + s, y + seq!['.'] + t),
        !spec_version_is_newer(y + seq!['.'] + t, x + seq!['.'] + s),
{
    lemma_parts_after_first(x, s);
    lemma_parts_after_first(y, t);
    lemma_version_order(x + seq!['.'] + s, y + seq!['.'] + t);
}

/// **Rest law.** Of two versions that begin with the same number
/// followed by `.`, one is newer exactly when what follows is newer.
pub proof fn lemma_equal_first_part_rest_decides(x: Seq<char>, y: Seq<char>, s: Seq<char>, t: Seq<char>)
    requires
        forall|i: int| 0 <= i < x.len() ==> !is_version_sep(#[trigger] x[i]),
        forall|i: int| 0 <= i < y.len() ==> !is_version_sep(#[trigger] y[i]),
        parse_u32_spec(x) is Some,
        parse_u32_spec(x) == parse_u32_spec(y),
    ensures
        spec_version_is_newer(x + seq!['.'] + s, y + seq!['.'] + t) == spec_version_is_newer(s, t),
{
    lemma_parts_after_first(x, s);
    lemma_parts_after_first(y, t);
    let m = parse_u32_spec(x)->0;
    let a = seq![m] + version_parts(s);
    let b = seq![m] + version_parts(t);
    lemma_newer_shift(m, version_parts(s), version_parts(t), 0);
    assert(part_at(a, 0) == m && part_at(b, 0) == m);
    assert(newer_from(a, b, 0) == newer_from(a, b, 1));
}

proof fn lemma_newer_shift(m: u32, p: Seq<u32>, q: Seq<u32>, i: int)
    requires
        0 <= i,
    ensures
        newer_from(seq![m] + p, seq![m] + q, i + 1) == newer_from(p, q, i),
    decreases p.len() + q.len() - i,
{
    let a = seq![m] + p;
    let b = seq![m] + q;
    assert(part_at(a, i + 1) == part_at(p, i));
    assert(part_at(b, i + 1) == part_at(q, i));
    if !(i >= p.len() && i >= q.len()) {
        lemma_newer_shift(m, p, q, i + 1);
    }
}

/// The numbers of `x + "." + s`, for a number `x` without separators: that
/// number, then the numbers of `s`.
proof fn lemma_parts_after_first(x: Seq<char>, s: Seq<char>)
    requires
        forall|i: int| 0 <= i < x.len() ==> !is_version_sep(#[trigger] x[i]),
        parse_u32_spec(x) is Some,
    ensures
        version_parts(x + seq!['.'] + s) == seq![parse_u32_spec(x)->0] + version_parts(s),
{
    lemma_pieces_after_sep(x, s);
    lemma_parsed_concat(seq![x], version_pieces(s));
    assert(seq![x].drop_last() =~= Seq::<Seq<char>>::empty());
    assert(seq![x].last() == x);
    assert(parsed_pieces(Seq::<Seq<char>>::empty()) =~= Seq::<u32>::empty());
    assert(parsed_pieces(seq![x]) =~= seq![parse_u32_spec(x)->0]);
}

proof fn lemma_pieces_no_sep(x: Seq<char>)
    requires
        forall|i: int| 0 <= i < x.len() ==> !is_version_sep(#[trigger] x[i]),
    ensures
        version_pieces(x) == seq![x],
    decreases x.len(),
{
    if x.len() == 0 {
        assert(x =~= Seq::<char>::empty());
    } else {
        let d = x.drop_last();
        assert forall|i: int| 0 <= i < d.len() implies !is_version_sep(#[trigger] d[i]) by {
            assert(d[i] == x[i]);
        }
        lemma_pieces_no_sep(d);
        assert(!is_version_sep(x[x.len() - 1]));
        assert(d.push(x.last()) =~= x);
        assert(version_pieces(x) =~= seq![x]);
    }
}

proof fn lemma_pieces_after_sep(x: Seq<char>, s: Seq<char>)
    requires
        forall|i: int| 0 <= i < x.len() ==> !is_version_sep(#[trigger] x[i]),
    ensures
        version_pieces(x + seq!['.'] + s) == seq![x] + version_pieces(s),
    decreases s.len(),
{
    let w = x + seq!['.'] + s;
    if s.len() == 0 {
        assert(w.drop_last() =~= x);
        assert(w.last() == '.');
        lemma_pieces_no_sep(x);
        assert(version_pieces(w) =~= seq![x] + version_pieces(s));
    } else {
        assert(w.drop_last() =~= x + seq!['.'] + s.drop_last());
        assert(w.last() == s.last());
        lemma_pieces_after_sep(x, s.drop_last());
        lemma_version_pieces_nonempty(s.drop_last());
        let p = version_pieces(s.drop_last());
        if is_version_sep(s.last()) {
            assert(version_pieces(w) =~= seq![x] + p.push(Seq::<char>::empty()));
        } else {
            assert(version_pieces(w) =~= seq![x] + p.update(p.len() - 1, p.last().push(s.last())));
        }
    }
}

proof fn lemma_parsed_concat(a: Seq<Seq<char>>, b: Seq<Seq<char>>)
    ensures
        parsed_pieces(a + b) == parsed_pieces(a) + parsed_pieces(b),
    decreases b.len(),
{
    if b.len() == 0 {
        assert(a + b =~= a);
        assert(parsed_pieces(a) + parsed_pieces(b) =~= parsed_pieces(a));
    } else {
        assert((a + b).drop_last() =~= a + b.drop_last());
        assert((a + b).last() == b.last());
        lemma_parsed_concat(a, b.drop_last());
        assert(parsed_pieces(a + b) =~= parsed_pieces(a) + parsed_pieces(b));
    }
}

proof fn lemma_newer_transitive(a: Seq<u32>, b: Seq<u32>, c: Seq<u32>, i: int)
    requires
        newer_from(a, b, i),
        newer_from(b, c, i),
    ensures
        newer_from(a, c, i),
    decreases a.len() + b.len() + c.len() - i,
{
    if part_at(a, i) == part_at(b, i) && part_at(b, i) == part_at(c, i) {
        lemma_newer_transitive(a, b, c, i + 1);
    }
}

proof fn lemma_newer_irreflexive(p: Seq<u32>, i: int)
    ensures
        !newer_from(p, p, i),
    decreases p.len() + p.len() - i,
{
    if !(i < 0 || i >= p.len()) {
        lemma_newer_irreflexive(p, i + 1);
    }
}

proof fn lemma_newer_asymmetric(r: Seq<u32>, c: Seq<u32>, i: int)
    ensures
        newer_from(r, c, i) ==> !newer_from(c, r, i),
    decreases r.len() + c.len() - i,
{
    if !(i < 0 || (i >= r.len() && i >= c.len())) {
        lemma_newer_asymmetric(r, c, i + 1);
    }
}

/// The two stable manifest URLs for `arch`: mirror first, then direct.
pub open spec fn spec_stable_manifest_urls(arch: Seq<char>) -> Seq<Seq<char>> {
    seq![
        MIRROR_BASE@ + "/releases/latest/download/latest-android-"@ + arch + "-mirror.json"@,
        DIRECT_BASE@ + "/releases/latest/download/latest-android-"@ + arch + ".json"@,
    ]
}

/// The two beta manifest URLs for `arch` and release `tag`.
pub open spec fn spec_beta_manifest_urls(arch: Seq<char>, tag: Seq<char>) -> Seq<Seq<char>> {
    seq![
        MIRROR_BASE@ + "/releases/download/"@ + tag + "/latest-android-"@ + arch
            + "-beta-mirror.json"@,
        DIRECT_BASE@ + "/releases/download/"@ + tag + "/latest-android-"@ + arch + "-beta.json"@,
    ]
}

fn concat3(a: &str, b: &str, c: &str) -> (r: String)
    ensures
        r@ == a@ + b@ + c@,
{
    let mut s = String::new();
    push_str_chars(&mut s, a);
    push_str_chars(&mut s, b);
    push_str_chars(&mut s, c);
    s
}

/// Stable manifest URLs for `arch` (see [`spec_stable_manifest_urls`]).
pub fn stable_manifest_urls(arch: &str) -> (r: Vec<String>)
    ensures
        r@.len() == 2,
        r@[0]@ == spec_stable_manifest_urls(arch@)[0],
        r@[1]@ == spec_stable_manifest_urls(arch@)[1],
{
    let mut first = concat3(MIRROR_BASE, "/releases/latest/download/latest-android-", arch);
    push_str_chars(&mut first, "-mirror.json");
    let mut second = concat3(DIRECT_BASE, "/releases/latest/download/latest-android-", arch);
    push_str_chars(&mut second, ".json");
    let mut v: Vec<String> = Vec::new();
    v.push(first);
    v.push(second);
    v
}

/// Beta manifest URLs for `arch` and `tag` (see [`spec_beta_manifest_urls`]).
pub fn beta_manifest_urls(arch: &str, tag: &str) -> (r: Vec<String>)
    ensures
        r@.len() == 2,
        r@[0]@ == spec_beta_manifest_urls(arch@, tag@)[0],
        r@[1]@ == spec_beta_manifest_urls(arch@, tag@)[1],
{
    let mut first = concat3(MIRROR_BASE, "/releases/download/", tag);
    push_str_chars(&mut first, "/latest-android-");
    push_str_chars(&mut first, arch);
    push_str_chars(&mut first, "-beta-mirror.json");
    let mut second = concat3(DIRECT_BASE, "/releases/download/", tag);
    push_str_chars(&mut second, "/latest-android-");
    push_str_chars(&mut second, arch);
    push_str_chars(&mut second, "-beta.json");
    let mut v: Vec<String> = Vec::new();
    v.push(first);
    v.push(second);
    v
}

/// The tooltip text for a failed manifest fetch.
pub open spec fn spec_manifest_error(status: u16, url: Seq<char>) -> Seq<char> {
    if status == 404 {
        "更新清单不存在 (404): "@ + url
    } else {
        "无法获取更新清单 (HTTP "@ + decimal(status as nat) + "): "@ + url
    }
}

/// Human-readable manifest fetch failure (see [`spec_manifest_error`]).
pub fn format_manifest_error(status: u16, url: &str) -> (r: String)
    ensures
        r@ == spec_manifest_error(status, url@),
{
    let mut s = String::new();
    if status == 404 {
        push_str_chars(&mut s, "更新清单不存在 (404): ");
        push_str_chars(&mut s, url);
    } else {
        push_str_chars(&mut s, "无法获取更新清单 (HTTP ");
        push_decimal(&mut s, status as u64);
        push_str_chars(&mut s, "): ");
        push_str_chars(&mut s, url);
    }
    s
}

} // verus!
