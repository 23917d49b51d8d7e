use vstd::prelude::*;
use crate::row::HighlightType;

verus! {

/// `keyword` appears in `text` starting at index `i`.
pub open spec fn occurs_at(text: Seq<char>, keyword: Seq<char>, i: int) -> bool {
    &&& 0 <= i
    &&& i + keyword.len() <= text.len()
    &&& text.subrange(i, i + keyword.len()) == keyword
}

/// The first index at or after `from` where `keyword` appears in `text`.
pub open spec fn first_match(text: Seq<char>, keyword: Seq<char>, from: int) -> Option<nat>
    decreases text.len() + 1 - from,
{
    if from < 0 || from > text.len() {
        None
    } else if occurs_at(text, keyword, from) {
        Some(from as nat)
    } else {
        first_match(text, keyword, from + 1)
    }
}

/// The last index at or before `i` where `keyword` appears in `text`.
pub open spec fn last_match_from(text: Seq<char>, keyword: Seq<char>, i: int) -> Option<nat>
    decreases i + 1,
{
    if i < 0 {
        None
    } else if occurs_at(text, keyword, i) {
        Some(i as nat)
    } else {
        last_match_from(text, keyword, i - 1)
    }
}

/// The last place where `keyword` appears in `text` and ends by index `end`.
pub open spec fn last_match(text: Seq<char>, keyword: Seq<char>, end: int) -> Option<nat> {
    last_match_from(text, keyword, end - keyword.len())
}

/// `r` reports the place `found`, or no place when `found` is none.
pub open spec fn reports(r: Option<usize>, found: Option<nat>) -> bool {
    match r {
        Some(i) => found == Some(i as nat),
        None => found.is_none(),
    }
}

/// `highlight` with the `len` classifications from index `from` set to `SearchMatch`.
pub open spec fn marked(highlight: Seq<HighlightType>, from: int, len: int) -> Seq<HighlightType> {
    Seq::new(
        highlight.len(),
        |j: int|
            if from <= j < from + len {
                HighlightType::SearchMatch
            } else {
                highlight[j]
            },
    )
}

/// Whether `keyword` appears in `text` starting at index `i`.
pub fn matches_at(text: &Vec<char>, keyword: &Vec<char>, i: usize) -> (r: bool)
    ensures
        r == occurs_at(text@, keyword@, i as int),
{
    if i > text.len() || keyword.len() > text.len() - i {
        return false;
    }
    let n = text.len();
    let mut k: usize = 0;
    while k < keyword.len()
        invariant
            n == text@.len(),
            i + keyword@.len() <= text@.len(),
            k <= keyword@.len(),
            forall|j: int| 0 <= j < k ==> text@[i + j] == keyword@[j],
        decreases keyword@.len() - k,
    {
        if text[i + k] != keyword[k] {
            return false;
        }
        k = k + 1;
    }
    proof {
        assert(text@.subrange(i as int, i + keyword@.len()) =~= keyword@);
    }
    true
}

/// The first index at or after `from` where `keyword` appears in `text`.
pub fn find_from(text: &Vec<char>, keyword: &Vec<char>, from: usize) -> (r: Option<usize>)
    ensures
        reports(r, first_match(text@, keyword@, from as int)),
{
    if from > text.len() {
        return None;
    }
    let mut i: usize = from;
    while i < text.len()
        invariant
            from <= i <= text@.len(),
            first_match(text@, keyword@, from as int) == first_match(text@, keyword@, i as int),
        decreases text@.len() - i,
    {
        if matches_at(text, keyword, i) {
            return Some(i);
        }
        i = i + 1;
    }
    if matches_at(text, keyword, i) {
        Some(i)
    } else {
        proof {
            assert(first_match(text@, keyword@, i + 1) == None::<nat>);
        }
        None
    }
}

/// The last place where `keyword` appears in `text` and ends by index `end`.
pub fn rfind_before(text: &Vec<char>, keyword: &Vec<char>, end: usize) -> (r: Option<usize>)
    ensures
        reports(r, last_match(text@, keyword@, end as int)),
{
    if keyword.len() > end {
        return None;
    }
    let mut i: usize = end - keyword.len();
    loop
        invariant
            i + keyword@.len() <= end,
            last_match(text@, keyword@, end as int) == last_match_from(text@, keyword@, i as int),
        decreases i,
    {
        if matches_at(text, keyword, i) {
            return Some(i);
        }
        if i == 0 {
            proof {
                assert(last_match_from(text@, keyword@, -1) == None::<nat>);
            }
            return None;
        }
        i = i - 1;
    }
}

/// Sets the `len` classifications from index `from` to `SearchMatch`.
pub fn mark_match(highlight: &mut Vec<HighlightType>, from: usize, len: usize)
    requires
        from + len <= old(highlight)@.len(),
    ensures
        final(highlight)@ == marked(old(highlight)@, from as int, len as int),
{
    assert(from + len <= highlight.len());
    let end = from + len;
    let mut i: usize = from;
    while i < end
        invariant
            end == from + len,
            from <= i <= from + len <= highlight@.len(),
            highlight@.len() == old(highlight)@.len(),
            forall|j: int|
                0 <= j < highlight@.len() ==> #[trigger] highlight@[j] == if from <= j < i {
                    HighlightType::SearchMatch
                } else {
                    old(highlight)@[j]
                },
        decreases from + len - i,
    {
        highlight.set(i, HighlightType::SearchMatch);
        i = i + 1;
    }
    proof {
        assert(highlight@ =~= marked(old(highlight)@, from as int, len as int));
    }
}

} // verus!
