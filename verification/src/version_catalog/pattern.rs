//! Version extraction from listing pages with regular expressions (regex_lite).

use vstd::prelude::*;

verus! {

/// Name for what regex_lite finds: for each successive non-overlapping match of
/// `pattern` in `text`, the text of capture group 1 (`None` where that group took
/// no part in the match); `None` as a whole where `pattern` does not compile.
pub uninterp spec fn group1_captures(pattern: Seq<char>, text: Seq<char>) -> Option<Seq<Option<Seq<char>>>>;

/// The model of the wrapper's result.
pub open spec fn captures_view(r: Option<Vec<Option<String>>>) -> Option<Seq<Option<Seq<char>>>> {
    match r {
        Some(v) => Some(v@.map_values(|o: Option<String>| match o {
            Some(s) => Some(s@),
            None => None,
        })),
        None => None,
    }
}

/// Calls `regex_lite::Regex::new(pattern)` and, when it compiles, collects
/// `captures_iter(text)` with `Captures::get(1)` of each match as owned text.
/// The contract only says that the result is what `group1_captures` names for
/// these two arguments; nothing about regular-expression semantics is stated.
#[verifier::external_body]
fn regex_group1(pattern: &str, text: &str) -> (r: Option<Vec<Option<String>>>)
    ensures
        captures_view(r) == group1_captures(pattern@, text@),
{
    match regex_lite::Regex::new(pattern) {
        Ok(re) => Some(
            re.captures_iter(text).map(|cap| cap.get(1).map(|m| m.as_str().to_string())).collect(),
        ),
        Err(_) => None,
    }
}

/// The captured texts that are present, in order.
pub open spec fn present_texts(caps: Seq<Option<Seq<char>>>) -> Seq<Seq<char>>
    decreases caps.len(),
{
    if caps.len() == 0 {
        Seq::<Seq<char>>::empty()
    } else {
        let prev = present_texts(caps.drop_last());
        match caps.last() {
            Some(t) => prev.push(t),
            None => prev,
        }
    }
}

/// The texts that capture group 1 of `pattern` captured in `text`, in order;
/// nothing when the pattern does not compile.
pub open spec fn captured_texts(pattern: Seq<char>, text: Seq<char>) -> Seq<Seq<char>> {
    match group1_captures(pattern, text) {
        Some(caps) => present_texts(caps),
        None => Seq::<Seq<char>>::empty(),
    }
}

/// The views of a list of strings.
pub open spec fn string_views(v: Seq<String>) -> Seq<Seq<char>> {
    v.map_values(|s: String| s@)
}

/// The texts captured by group 1 of `pattern` in `text` (the `filter_map` of
/// `cap.get(1)` over `captures_iter`); empty when the pattern does not compile.
pub fn capture_group1(pattern: &str, text: &str) -> (r: Vec<String>)
    ensures
        string_views(r@) == captured_texts(pattern@, text@),
{
    let found = regex_group1(pattern, text);
    let mut r: Vec<String> = Vec::new();
    match found {
        None => {
            assert(string_views(r@) =~= Seq::<Seq<char>>::empty());
        },
        Some(caps) => {
            let ghost cv = caps@.map_values(|o: Option<String>| match o {
                Some(s) => Some(s@),
                None => None,
            });
            let mut i: usize = 0;
            while i < caps.len()
                invariant
                    0 <= i <= caps@.len(),
                    cv == caps@.map_values(|o: Option<String>| match o {
                        Some(s) => Some(s@),
                        None => None,
                    }),
                    string_views(r@) == present_texts(cv.take(i as int)),
                decreases caps@.len() - i,
            {
                proof {
                    assert(cv.take(i + 1).drop_last() =~= cv.take(i as int));
                }
                match &caps[i] {
                    Some(s) => {
                        let ghost before = r@;
                        r.push(s.clone());
                        proof {
                            assert(string_views(r@) =~= string_views(before).push(s@));
                        }
                    },
                    None => {},
                }
                i += 1;
            }
            proof {
                assert(cv.take(caps@.len() as int) =~= cv);
            }
        },
    }
    r
}

} // verus!
