//! A 1-indexed selection of notebook pages.

use vstd::prelude::*;

verus! {

/// Inclusive page ranges `(first, last)`; a page is selected when some
/// range holds it.
#[derive(Debug, Clone)]
pub struct PageSelection {
    pub ranges: Vec<(u32, u32)>,
}

pub open spec fn spec_selects(ranges: Seq<(u32, u32)>, page: u32) -> bool {
    exists|i: int| 0 <= i < ranges.len() && (#[trigger] ranges[i]).0 <= page <= ranges[i].1
}

impl PageSelection {
    pub fn contains(&self, page: u32) -> (b: bool)
        ensures
            b == spec_selects(self.ranges@, page),
    {
        let mut i: usize = 0;
        while i < self.ranges.len()
            invariant
                i <= self.ranges@.len(),
                forall|j: int| 0 <= j < i ==> !((#[trigger] self.ranges@[j]).0 <= page <= self.ranges@[j].1),
            decreases self.ranges@.len() - i,
        {
            let (lo, hi) = self.ranges[i];
            if lo <= page && page <= hi {
                return true;
            }
            i = i + 1;
        }
        false
    }
}

/// Why a page selection did not parse.
#[derive(Debug, Clone, Copy, PartialEq, Eq, Structural)]
pub enum PageSelectionError {
    /// The selection is empty.
    Empty,
    /// A part is not a decimal page number that fits in 32 bits.
    InvalidNumber,
    /// Page numbers start at 1.
    ZeroPage,
    /// A range ends before it starts.
    DescendingRange,
}

/// The description that `message` gives for each kind.
pub open spec fn spec_page_selection_message(e: PageSelectionError) -> Seq<char> {
    match e {
        PageSelectionError::Empty => "empty page selection"@,
        PageSelectionError::InvalidNumber => "page numbers must be decimal integers"@,
        PageSelectionError::ZeroPage => "page numbers start at 1"@,
        PageSelectionError::DescendingRange => "a page range must not end before it starts"@,
    }
}

impl PageSelectionError {
    pub fn message(&self) -> (s: &'static str)
        ensures
            s@ == spec_page_selection_message(*self),
    {
        match self {
            PageSelectionError::Empty => "empty page selection",
            PageSelectionError::InvalidNumber => "page numbers must be decimal integers",
            PageSelectionError::ZeroPage => "page numbers start at 1",
            PageSelectionError::DescendingRange => "a page range must not end before it starts",
        }
    }
}

pub open spec fn is_digit(c: char) -> bool {
    '0' <= c && c <= '9'
}

pub open spec fn all_digits(s: Seq<char>) -> bool {
    forall|i: int| 0 <= i < s.len() ==> is_digit(#[trigger] s[i])
}

/// The value of a string of decimal digits.
pub open spec fn digits_value(s: Seq<char>) -> nat
    decreases s.len(),
{
    if s.len() == 0 {
        0
    } else {
        digits_value(s.drop_last()) * 10 + ((s.last() as nat) - ('0' as nat)) as nat
    }
}

/// A page number: non-empty decimal digits, at least 1, within `u32`.
pub open spec fn spec_page_number_text(s: Seq<char>) -> Result<u32, PageSelectionError> {
    if s.len() == 0 || !all_digits(s) || digits_value(s) > u32::MAX {
        Err(PageSelectionError::InvalidNumber)
    } else if digits_value(s) == 0 {
        Err(PageSelectionError::ZeroPage)
    } else {
        Ok(digits_value(s) as u32)
    }
}

/// Index of the first `-` at or after `i`, or the length.
pub open spec fn find_dash(s: Seq<char>, i: int) -> int
    decreases s.len() - i,
{
    if i >= s.len() {
        s.len() as int
    } else if s[i] == '-' {
        i
    } else {
        find_dash(s, i + 1)
    }
}

/// One part of a selection: `n` or `a-b`.
pub open spec fn spec_range_text(s: Seq<char>) -> Result<(u32, u32), PageSelectionError> {
    let k = find_dash(s, 0);
    if k >= s.len() {
        match spec_page_number_text(s) {
            Ok(n) => Ok((n, n)),
            Err(e) => Err(e),
        }
    } else {
        match spec_page_number_text(s.take(k)) {
            Err(e) => Err(e),
            Ok(a) => match spec_page_number_text(s.skip(k + 1)) {
                Err(e) => Err(e),
                Ok(b) => if a <= b {
                    Ok((a, b))
                } else {
                    Err(PageSelectionError::DescendingRange)
                },
            },
        }
    }
}

/// The comma-separated parts of `s` (empty parts kept).
pub open spec fn comma_state(s: Seq<char>) -> (Seq<Seq<char>>, Seq<char>)
    decreases s.len(),
{
    if s.len() == 0 {
        (Seq::empty(), Seq::empty())
    } else {
        let st = comma_state(s.drop_last());
        if s.last() == ',' {
            (st.0.push(st.1), Seq::empty())
        } else {
            (st.0, st.1.push(s.last()))
        }
    }
}

pub open spec fn comma_parts(s: Seq<char>) -> Seq<Seq<char>> {
    comma_state(s).0.push(comma_state(s).1)
}

/// The ranges of parts `i..`, or the first part's error.
pub open spec fn ranges_from(parts: Seq<Seq<char>>, i: nat) -> Result<Seq<(u32, u32)>, PageSelectionError>
    decreases parts.len() - i,
{
    if i >= parts.len() {
        Ok(Seq::empty())
    } else {
        match spec_range_text(parts[i as int]) {
            Err(e) => Err(e),
            Ok(r) => match ranges_from(parts, i + 1) {
                Err(e) => Err(e),
                Ok(rest) => Ok(seq![r] + rest),
            },
        }
    }
}

/// A selection such as `1-5` or `1,3,7`: comma-separated page numbers and
/// inclusive ranges, 1-indexed.
pub open spec fn spec_parse_selection(s: Seq<char>) -> Result<Seq<(u32, u32)>, PageSelectionError> {
    if s.len() == 0 {
        Err(PageSelectionError::Empty)
    } else {
        ranges_from(comma_parts(s), 0)
    }
}

proof fn lemma_digits_grow(s: Seq<char>, t: Seq<char>)
    requires
        all_digits(t),
    ensures
        digits_value(s + t) >= digits_value(s),
    decreases t.len(),
{
    if t.len() > 0 {
        lemma_digits_grow(s, t.drop_last());
        assert((s + t).drop_last() =~= s + t.drop_last());
        assert((s + t).last() == t.last());
        assert(is_digit(t[t.len() - 1]));
    }
}

fn page_number_text(v: &Vec<char>, lo: usize, hi: usize) -> (r: Result<u32, PageSelectionError>)
    requires
        lo <= hi <= v@.len(),
    ensures
        r == spec_page_number_text(v@.subrange(lo as int, hi as int)),
{
    let ghost s = v@.subrange(lo as int, hi as int);
    if lo == hi {
        return Err(PageSelectionError::InvalidNumber);
    }
    let mut value: u64 = 0;
    let mut big = false;
    let mut i = lo;
    while i < hi
        invariant
            lo <= i <= hi <= v@.len(),
            s == v@.subrange(lo as int, hi as int),
            all_digits(v@.subrange(lo as int, i as int)),
            !big ==> value == digits_value(v@.subrange(lo as int, i as int)),
            !big ==> value <= u32::MAX,
            big ==> digits_value(v@.subrange(lo as int, i as int)) > u32::MAX,
        decreases hi - i,
    {
        let c = v[i];
        let ghost pre = v@.subrange(lo as int, i as int);
        let ghost next = v@.subrange(lo as int, i + 1);
        proof {
            assert(next.drop_last() =~= pre);
            assert(next.last() == c);
        }
        if !('0' <= c && c <= '9') {
            proof {
                assert(s[i - lo] == c);
            }
            return Err(PageSelectionError::InvalidNumber);
        }
        proof {
            assert forall|j: int| 0 <= j < next.len() implies is_digit(#[trigger] next[j]) by {
                if j < pre.len() {
                    assert(next[j] == pre[j]);
                }
            }
        }
        if !big {
            let d = (c as u32 - '0' as u32) as u64;
            value = value * 10 + d;
            if value > 0xFFFF_FFFF {
                big = true;
            }
        } else {
            proof {
                lemma_digits_grow(pre, seq![c]);
                assert(pre + seq![c] =~= next);
            }
        }
        i = i + 1;
    }
    if big {
        return Err(PageSelectionError::InvalidNumber);
    }
    if value == 0 {
        return Err(PageSelectionError::ZeroPage);
    }
    Ok(value as u32)
}

fn range_text(v: &Vec<char>, lo: usize, hi: usize) -> (r: Result<(u32, u32), PageSelectionError>)
    requires
        lo <= hi <= v@.len(),
    ensures
        r == spec_range_text(v@.subrange(lo as int, hi as int)),
{
    let ghost s = v@.subrange(lo as int, hi as int);
    let mut k = lo;
    while k < hi && v[k] != '-'
        invariant
            lo <= k <= hi <= v@.len(),
            s == v@.subrange(lo as int, hi as int),
            find_dash(s, 0) == find_dash(s, k - lo),
        decreases hi - k,
    {
        proof {
            assert(s[k - lo] == v@[k as int]);
        }
        k = k + 1;
    }
    proof {
        if k < hi {
            assert(s[k - lo] == v@[k as int]);
        }
        assert(find_dash(s, k - lo) == k - lo);
    }
    if k == hi {
        match page_number_text(v, lo, hi) {
            Ok(n) => Ok((n, n)),
            Err(e) => Err(e),
        }
    } else {
        proof {
            assert(s.take(k - lo) =~= v@.subrange(lo as int, k as int));
            assert(s.skip(k - lo + 1) =~= v@.subrange(k + 1, hi as int));
        }
        match page_number_text(v, lo, k) {
            Err(e) => Err(e),
            Ok(a) => match page_number_text(v, k + 1, hi) {
                Err(e) => Err(e),
                Ok(b) => if a <= b {
                    Ok((a, b))
                } else {
                    Err(PageSelectionError::DescendingRange)
                },
            },
        }
    }
}

impl PageSelection {
    /// Parse a selection such as `1-5` or `1,3,7`.
    pub fn parse(text: &str) -> (r: Result<PageSelection, PageSelectionError>)
        ensures
            match (r, spec_parse_selection(text@)) {
                (Ok(p), Ok(q)) => p.ranges@ == q,
                (Err(e), Err(f)) => e == f,
                _ => false,
            },
    {
        let v = crate::text::chars_of(text);
        if v.len() == 0 {
            return Err(PageSelectionError::Empty);
        }
        let ghost s = v@;
        let mut bounds: Vec<(usize, usize)> = Vec::new();
        let mut start: usize = 0;
        let mut i: usize = 0;
        while i < v.len()
            invariant
                s == v@,
                start <= i <= s.len(),
                bounds@.len() == comma_state(s.take(i as int)).0.len(),
                forall|j: int|
                    0 <= j < bounds@.len() ==> {
                        &&& (#[trigger] bounds@[j]).0 <= bounds@[j].1 <= s.len()
                        &&& s.subrange(bounds@[j].0 as int, bounds@[j].1 as int) == comma_state(
                            s.take(i as int),
                        ).0[j]
                    },
                s.subrange(start as int, i as int) == comma_state(s.take(i as int)).1,
            decreases s.len() - i,
        {
            proof {
                assert(s.take(i + 1).drop_last() =~= s.take(i as int));
                assert(s.take(i + 1).last() == s[i as int]);
            }
            if v[i] == ',' {
                bounds.push((start, i));
                start = i + 1;
                proof {
                    assert(s.subrange(start as int, i + 1) =~= Seq::<char>::empty());
                }
            } else {
                proof {
                    assert(s.subrange(start as int, i + 1) =~= s.subrange(start as int, i as int).push(
                        s[i as int],
                    ));
                }
            }
            i = i + 1;
        }
        bounds.push((start, v.len()));
        proof {
            assert(s.take(s.len() as int) =~= s);
        }
        let ghost parts = comma_parts(s);
        let mut ranges: Vec<(u32, u32)> = Vec::new();
        let mut k: usize = 0;
        while k < bounds.len()
            invariant
                s == v@,
                v@ == text@,
                s.len() > 0,
                parts == comma_parts(s),
                bounds@.len() == parts.len(),
                forall|j: int|
                    0 <= j < bounds@.len() ==> {
                        &&& (#[trigger] bounds@[j]).0 <= bounds@[j].1 <= s.len()
                        &&& s.subrange(bounds@[j].0 as int, bounds@[j].1 as int) == parts[j]
                    },
                k <= parts.len(),
                ranges_from(parts, 0) == (match ranges_from(parts, k as nat) {
                    Err(e) => Err(e),
                    Ok(rest) => Ok(ranges@ + rest),
                }),
            decreases parts.len() - k,
        {
            let (lo, hi) = bounds[k];
            proof {
                assert(bounds@[k as int] == (lo, hi));
                assert(s.subrange(lo as int, hi as int) == parts[k as int]);
            }
            match range_text(&v, lo, hi) {
                Err(e) => {
                    proof {
                        assert(spec_range_text(parts[k as int]) == Err::<(u32, u32), PageSelectionError>(e));
                        assert(ranges_from(parts, k as nat) == Err::<Seq<(u32, u32)>, PageSelectionError>(e));
                    }
                    return Err(e);
                },
                Ok(r) => {
                    proof {
                        match ranges_from(parts, (k + 1) as nat) {
                            Err(_) => {},
                            Ok(rest) => {
                                assert(ranges@ + (seq![r] + rest) =~= ranges@.push(r) + rest);
                            },
                        }
                    }
                    ranges.push(r);
                },
            }
            k = k + 1;
        }
        proof {
            assert(ranges@ + Seq::<(u32, u32)>::empty() =~= ranges@);
        }
        Ok(PageSelection { ranges })
    }
}

} // verus!
