//! Loose semantic-version parsing and the descending version order used by
//! every catalog.

use vstd::prelude::*;
use crate::text::{chars_of, trim_start_chars, split_chars, parse_u32, views, split_on, trim_start_char, parse_u32_spec};

verus! {

/// The characters at which a version text is cut into numeric parts.
pub open spec fn version_separators() -> Seq<char> {
    seq!['.', '-', '+']
}

/// The parts of `parts` that parse as `u32`, in order (a `filter_map` of `str::parse`).
pub open spec fn parsed_parts(parts: Seq<Seq<char>>) -> Seq<u32>
    decreases parts.len(),
{
    if parts.len() == 0 {
        Seq::<u32>::empty()
    } else {
        let prev = parsed_parts(parts.drop_last());
        match parse_u32_spec(parts.last()) {
            Some(n) => prev.push(n),
            None => prev,
        }
    }
}

/// The numeric parts of a version text: leading `v`s dropped, cut at `.`, `-`
/// and `+`, and only the parts that are numbers kept. "v20.19.0" gives [20, 19, 0];
/// "4.0.0-rc-1" gives [4, 0, 0, 1].
pub open spec fn semver_parts(s: Seq<char>) -> Seq<u32> {
    parsed_parts(split_on(trim_start_char(s, 'v'), version_separators()))
}

/// Part `i` of `v`, or 0 past its end.
pub open spec fn part_or_zero(v: Seq<u32>, i: int) -> int {
    if 0 <= i < v.len() { v[i] as int } else { 0 }
}

/// Comparison of the parts of `a` and `b` from index `i` on, missing parts read as 0:
/// -1 when `a` is the newer version (it sorts first), 1 when `b` is newer, 0 when equal.
pub open spec fn semver_sign_from(a: Seq<u32>, b: Seq<u32>, i: nat) -> int
    decreases a.len() + b.len() - i,
{
    if i >= a.len() && i >= b.len() {
        0
    } else if part_or_zero(b, i as int) > part_or_zero(a, i as int) {
        1
    } else if part_or_zero(b, i as int) < part_or_zero(a, i as int) {
        -1
    } else {
        semver_sign_from(a, b, i + 1)
    }
}

/// The descending version order of two version texts: -1 when `a` comes first
/// (is newer), 1 when `b` comes first, 0 when they are equal as versions.
pub open spec fn semver_sign(a: Seq<char>, b: Seq<char>) -> int {
    semver_sign_from(semver_parts(a), semver_parts(b), 0)
}

/// The numeric parts of a version text, as `parse_semver` in the catalog computes them.
pub fn parse_semver(value: &str) -> (r: Vec<u32>)
    ensures
        r@ == semver_parts(value@),
{
    let cs = chars_of(value);
    let trimmed = trim_start_chars(cs.as_slice(), 'v');
    let seps: Vec<char> = vec!['.', '-', '+'];
    proof {
        assert(seps@ =~= version_separators());
    }
    let parts = split_chars(trimmed.as_slice(), seps.as_slice());
    let mut r: Vec<u32> = Vec::new();
    let mut i: usize = 0;
    while i < parts.len()
        invariant
            0 <= i <= parts@.len(),
            r@ == parsed_parts(views(parts@).take(i as int)),
        decreases parts@.len() - i,
    {
        proof {
            assert(views(parts@).take(i + 1).drop_last() =~= views(parts@).take(i as int));
            assert(views(parts@).take(i + 1).last() == parts@[i as int]@);
        }
        match parse_u32(parts[i].as_slice()) {
            Some(n) => r.push(n),
            None => {},
        }
        i += 1;
    }
    proof {
        assert(views(parts@).take(parts@.len() as int) =~= views(parts@));
    }
    r
}

/// The descending comparison of two parsed versions (-1, 0 or 1, as `semver_sign_from` from 0).
pub fn semver_sign_parts(a: &Vec<u32>, b: &Vec<u32>) -> (r: i8)
    ensures
        r as int == semver_sign_from(a@, b@, 0),
{
    let n = if a.len() > b.len() { a.len() } else { b.len() };
    let mut i: usize = 0;
    while i < n
        invariant
            n == if a@.len() > b@.len() { a@.len() } else { b@.len() },
            0 <= i <= n,
            semver_sign_from(a@, b@, 0) == semver_sign_from(a@, b@, i as nat),
        decreases n - i,
    {
        let left: u32 = if i < a.len() { a[i] } else { 0 };
        let right: u32 = if i < b.len() { b[i] } else { 0 };
        if right > left {
            return 1;
        }
        if right < left {
            return -1;
        }
        i += 1;
    }
    0
}

} // verus!

verus! {

/// The `Ordering` that a descending comparison sign stands for.
pub open spec fn sign_ordering(s: int) -> std::cmp::Ordering {
    if s < 0 {
        std::cmp::Ordering::Less
    } else if s > 0 {
        std::cmp::Ordering::Greater
    } else {
        std::cmp::Ordering::Equal
    }
}

/// Orders two version texts newest first: `Less` when `a` is the newer version,
/// `Greater` when `b` is, `Equal` when their numeric parts agree (missing parts read as 0).
pub fn compare_semver_desc(a: &str, b: &str) -> (r: std::cmp::Ordering)
    ensures
        r == sign_ordering(semver_sign(a@, b@)),
{
    let pa = parse_semver(a);
    let pb = parse_semver(b);
    let s = semver_sign_parts(&pa, &pb);
    if s < 0 {
        std::cmp::Ordering::Less
    } else if s > 0 {
        std::cmp::Ordering::Greater
    } else {
        std::cmp::Ordering::Equal
    }
}

} // verus!

verus! {

/// One step of the comparison, also past the end of both versions.
pub proof fn lemma_sign_unfold(a: Seq<u32>, b: Seq<u32>, i: nat)
    ensures
        semver_sign_from(a, b, i) == (if part_or_zero(b, i as int) > part_or_zero(a, i as int) {
            1
        } else if part_or_zero(b, i as int) < part_or_zero(a, i as int) {
            -1
        } else {
            semver_sign_from(a, b, i + 1)
        }),
{
}

/// The comparison yields -1, 0 or 1.
pub proof fn lemma_sign_range(a: Seq<u32>, b: Seq<u32>, i: nat)
    ensures
        -1 <= semver_sign_from(a, b, i) <= 1,
    decreases a.len() + b.len() - i,
{
    if !(i >= a.len() && i >= b.len()) && part_or_zero(b, i as int) == part_or_zero(a, i as int) {
        lemma_sign_range(a, b, i + 1);
    }
}

/// Swapping the versions negates the comparison.
pub proof fn lemma_sign_antisymmetric(a: Seq<u32>, b: Seq<u32>, i: nat)
    ensures
        semver_sign_from(a, b, i) == -semver_sign_from(b, a, i),
    decreases a.len() + b.len() - i,
{
    if !(i >= a.len() && i >= b.len()) && part_or_zero(b, i as int) == part_or_zero(a, i as int) {
        lemma_sign_antisymmetric(a, b, i + 1);
    }
}

/// "Not older than" is transitive, and strictly newer followed by not older is strictly newer.
pub proof fn lemma_sign_transitive(a: Seq<u32>, b: Seq<u32>, c: Seq<u32>, i: nat)
    ensures
        semver_sign_from(a, b, i) <= 0 && semver_sign_from(b, c, i) <= 0 ==> semver_sign_from(a, c, i) <= 0,
        semver_sign_from(a, b, i) == -1 && semver_sign_from(b, c, i) <= 0 ==> semver_sign_from(a, c, i) == -1,
        semver_sign_from(a, b, i) <= 0 && semver_sign_from(b, c, i) == -1 ==> semver_sign_from(a, c, i) == -1,
    decreases a.len() + b.len() + c.len() - i,
{
    if i >= a.len() && i >= b.len() && i >= c.len() {
    } else {
        lemma_sign_unfold(a, b, i);
        lemma_sign_unfold(b, c, i);
        lemma_sign_unfold(a, c, i);
        let pa = part_or_zero(a, i as int);
        let pb = part_or_zero(b, i as int);
        let pc = part_or_zero(c, i as int);
        if pa == pb && pb == pc {
            lemma_sign_transitive(a, b, c, i + 1);
        } else if pa == pb {
            lemma_sign_range(a, b, i + 1);
        } else if pb == pc {
            lemma_sign_range(b, c, i + 1);
        }
    }
}

} // verus!

verus! {

/// Whether every `.`-separated part of `v` parses as a `u32`
/// (as `v.split('.').all(|p| p.parse::<u32>().is_ok())`).
pub open spec fn dotted_numeric(v: Seq<char>) -> bool {
    forall|i: int|
        0 <= i < split_on(v, seq!['.']).len() ==> #[trigger] parse_u32_spec(
            split_on(v, seq!['.'])[i],
        ) is Some
}

/// Whether every `.`-separated part of `v` parses as a `u32`.
pub fn is_dotted_numeric(v: &[char]) -> (r: bool)
    ensures
        r == dotted_numeric(v@),
{
    let seps: Vec<char> = vec!['.'];
    proof {
        assert(seps@ =~= seq!['.']);
    }
    let parts = split_chars(v, seps.as_slice());
    let mut i: usize = 0;
    while i < parts.len()
        invariant
            0 <= i <= parts@.len(),
            views(parts@) == split_on(v@, seq!['.']),
            forall|j: int| 0 <= j < i ==> #[trigger] parse_u32_spec(split_on(v@, seq!['.'])[j]) is Some,
        decreases parts@.len() - i,
    {
        assert(views(parts@)[i as int] == parts@[i as int]@);
        if parse_u32(parts[i].as_slice()).is_none() {
            return false;
        }
        i += 1;
    }
    true
}

} // verus!
