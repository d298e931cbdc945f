//! Name matching used by path resolution: recognised document extensions
//! and "did you mean" suggestions among siblings.

use vstd::prelude::*;

use crate::metadata::tree::{
    children_of, spec_extension, DocumentEntry, DocumentTree, EntryView, FileType, ItemKind,
    Parent,
};
use crate::text::{
    append_char, chars_of, contains_chars, contains_seq, spec_to_lowercase, string_from_chars,
    to_lowercase,
};

verus! {

/// The character views of a list of strings.
pub open spec fn views(v: Seq<String>) -> Seq<Seq<char>> {
    v.map_values(|s: String| s@)
}

pub open spec fn ends_with(s: Seq<char>, suffix: Seq<char>) -> bool {
    suffix.len() <= s.len() && s.subrange(s.len() - suffix.len(), s.len() as int) == suffix
}

/// `.pdf`, `.epub` or `.rm`.
pub open spec fn dotted(ft: FileType) -> Seq<char> {
    seq!['.'] + spec_extension(ft)
}

/// `s` is a non-empty stem followed by the extension of `ft`.
pub open spec fn has_extension(s: Seq<char>, ft: FileType) -> bool {
    s.len() > dotted(ft).len() && ends_with(s, dotted(ft))
}

pub open spec fn stem_of(s: Seq<char>, ft: FileType) -> Seq<char> {
    s.take(s.len() - dotted(ft).len())
}

/// Split a recognised document extension off a name, trying PDF, then ePub,
/// then notebook; the stem must be non-empty.
pub open spec fn spec_strip_extension(s: Seq<char>) -> Option<(Seq<char>, FileType)> {
    if has_extension(s, FileType::Pdf) {
        Some((stem_of(s, FileType::Pdf), FileType::Pdf))
    } else if has_extension(s, FileType::Epub) {
        Some((stem_of(s, FileType::Epub), FileType::Epub))
    } else if has_extension(s, FileType::Notebook) {
        Some((stem_of(s, FileType::Notebook), FileType::Notebook))
    } else {
        None
    }
}

fn dotted_chars(ft: FileType) -> (v: Vec<char>)
    ensures
        v@ == dotted(ft),
{
    let v = match ft {
        FileType::Pdf => vec!['.', 'p', 'd', 'f'],
        FileType::Epub => vec!['.', 'e', 'p', 'u', 'b'],
        FileType::Notebook => vec!['.', 'r', 'm'],
    };
    assert(v@ =~= dotted(ft));
    v
}

fn has_suffix(s: &Vec<char>, suffix: &Vec<char>) -> (r: bool)
    ensures
        r == ends_with(s@, suffix@),
{
    if suffix.len() > s.len() {
        return false;
    }
    let sl = s.len();
    let base = sl - suffix.len();
    let mut j: usize = 0;
    while j < suffix.len()
        invariant
            sl == s@.len(),
            base + suffix@.len() == sl,
            j <= suffix@.len(),
            forall|k: int| 0 <= k < j ==> s@[base + k] == suffix@[k],
        decreases suffix@.len() - j,
    {
        if s[base + j] != suffix[j] {
            assert(s@.subrange(base as int, s@.len() as int)[j as int] != suffix@[j as int]);
            return false;
        }
        j = j + 1;
    }
    assert(s@.subrange(base as int, s@.len() as int) =~= suffix@);
    true
}

fn extension_matches(s: &Vec<char>, ft: FileType) -> (r: bool)
    ensures
        r == has_extension(s@, ft),
{
    let d = dotted_chars(ft);
    s.len() > d.len() && has_suffix(s, &d)
}

/// The stem length and type of a recognised extension at the end of `s`.
pub fn strip_known_extension(s: &Vec<char>) -> (r: Option<(usize, FileType)>)
    ensures
        match r {
            None => spec_strip_extension(s@) is None,
            Some((k, ft)) => k <= s@.len() && spec_strip_extension(s@) == Some(
                (s@.take(k as int), ft),
            ),
        },
{
    if extension_matches(s, FileType::Pdf) {
        Some((s.len() - 4, FileType::Pdf))
    } else if extension_matches(s, FileType::Epub) {
        Some((s.len() - 5, FileType::Epub))
    } else if extension_matches(s, FileType::Notebook) {
        Some((s.len() - 3, FileType::Notebook))
    } else {
        None
    }
}

pub open spec fn min3(x: nat, y: nat, z: nat) -> nat {
    if x <= y && x <= z {
        x
    } else if y <= z {
        y
    } else {
        z
    }
}

/// Levenshtein distance: the fewest single-character insertions, deletions
/// and substitutions turning `a` into `b`.
pub open spec fn edit_distance(a: Seq<char>, b: Seq<char>) -> nat
    decreases a.len() + b.len(),
{
    if a.len() == 0 {
        b.len()
    } else if b.len() == 0 {
        a.len()
    } else {
        min3(
            edit_distance(a.drop_last(), b) + 1,
            edit_distance(a, b.drop_last()) + 1,
            edit_distance(a.drop_last(), b.drop_last()) + (if a.last() == b.last() {
                0nat
            } else {
                1nat
            }),
        )
    }
}

proof fn lemma_edit_distance_bound(a: Seq<char>, b: Seq<char>)
    ensures
        edit_distance(a, b) <= a.len() || edit_distance(a, b) <= b.len(),
        edit_distance(a, b) <= (if a.len() <= b.len() {
            b.len()
        } else {
            a.len()
        }),
    decreases a.len() + b.len(),
{
    if a.len() > 0 && b.len() > 0 {
        lemma_edit_distance_bound(a.drop_last(), b.drop_last());
    }
}

fn add_sat(x: usize, y: usize) -> (r: usize)
    ensures
        r == (if x + y > usize::MAX {
            usize::MAX as int
        } else {
            x + y
        }),
{
    x.saturating_add(y)
}

/// Edit distance computed with two rolling rows.
pub fn levenshtein(a: &Vec<char>, b: &Vec<char>) -> (d: usize)
    ensures
        d == edit_distance(a@, b@),
{
    if a.len() == 0 {
        return b.len();
    }
    if b.len() == 0 {
        return a.len();
    }
    let n = a.len();
    let m = b.len();
    let mut prev: Vec<usize> = Vec::new();
    let mut curr: Vec<usize> = Vec::new();
    let mut k: usize = 0;
    while k < m
        invariant
            m == b@.len(),
            k <= m,
            prev@.len() == k,
            curr@.len() == k,
            forall|t: int| 0 <= t < k ==> prev@[t] == t,
        decreases m - k,
    {
        prev.push(k);
        curr.push(0);
        k = k + 1;
    }
    prev.push(m);
    curr.push(0);
    proof {
        assert(prev.len() == m + 1);
        assert(a@.take(0) =~= Seq::<char>::empty());
        assert forall|t: int| 0 <= t <= m implies prev@[t] == edit_distance(
            a@.take(0),
            b@.take(t),
        ) by {
            assert(a@.take(0) =~= Seq::<char>::empty());
        }
    }
    let mut i: usize = 0;
    while i < n
        invariant
            n == a@.len(),
            m == b@.len(),
            m > 0,
            m < usize::MAX,
            i <= n,
            prev@.len() == m + 1,
            curr@.len() == m + 1,
            forall|t: int| 0 <= t <= m ==> #[trigger] prev@[t] == edit_distance(
                a@.take(i as int),
                b@.take(t),
            ),
        decreases n - i,
    {
        proof {
            assert(b@.take(0) =~= Seq::<char>::empty());
        }
        curr.set(0, i + 1);
        let mut j: usize = 1;
        while j <= m
            invariant
                n == a@.len(),
                m == b@.len(),
                m < usize::MAX,
                i < n,
                1 <= j <= m + 1,
                prev@.len() == m + 1,
                curr@.len() == m + 1,
                forall|t: int| 0 <= t <= m ==> #[trigger] prev@[t] == edit_distance(
                    a@.take(i as int),
                    b@.take(t),
                ),
                forall|t: int| 0 <= t < j ==> #[trigger] curr@[t] == edit_distance(
                    a@.take(i + 1),
                    b@.take(t),
                ),
            decreases m + 1 - j,
        {
            let cost: usize = if a[i] != b[j - 1] {
                1
            } else {
                0
            };
            let x = add_sat(curr[j - 1], 1);
            let y = add_sat(prev[j], 1);
            let z = add_sat(prev[j - 1], cost);
            let mut v = x;
            if y < v {
                v = y;
            }
            if z < v {
                v = z;
            }
            proof {
                let aa = a@.take(i + 1);
                let bb = b@.take(j as int);
                assert(aa.drop_last() =~= a@.take(i as int));
                assert(bb.drop_last() =~= b@.take(j - 1));
                assert(aa.last() == a@[i as int]);
                assert(bb.last() == b@[j - 1]);
                lemma_edit_distance_bound(aa, bb);
            }
            curr.set(j, v);
            j = j + 1;
        }
        std::mem::swap(&mut prev, &mut curr);
        i = i + 1;
    }
    proof {
        assert(a@.take(n as int) =~= a@);
        assert(b@.take(m as int) =~= b@);
    }
    prev[m]
}

/// The name an entry is suggested under: documents with their extension,
/// folders with a trailing slash.
pub open spec fn spec_format_suggestion(e: EntryView) -> Seq<char> {
    match e.kind {
        ItemKind::Document { file_type, .. } => e.name + seq!['.'] + spec_extension(file_type),
        ItemKind::Folder => e.name + seq!['/'],
        ItemKind::Template => e.name,
    }
}

pub fn format_suggestion(e: &DocumentEntry) -> (s: String)
    ensures
        s@ == spec_format_suggestion(e@),
{
    let mut s = e.visible_name.clone();
    match e.kind {
        ItemKind::Document { file_type, .. } => {
            append_char(&mut s, '.');
            s.append(file_type.extension());
        },
        ItemKind::Folder => {
            append_char(&mut s, '/');
        },
        ItemKind::Template => {},
    }
    s
}

/// The lower-cased query with any recognised extension removed.
pub open spec fn needle_of_lowered(lower: Seq<char>) -> Seq<char> {
    match spec_strip_extension(lower) {
        Some((stem, _)) => stem,
        None => lower,
    }
}

/// How close a lower-cased sibling name is to the needle: 0 when one
/// contains the other, else the edit distance when it is at most 2.
pub open spec fn suggestion_score(lowered: Seq<char>, needle: Seq<char>) -> Option<nat> {
    if contains_seq(lowered, needle) || contains_seq(needle, lowered) {
        Some(0)
    } else if edit_distance(lowered, needle) <= 2 {
        Some(edit_distance(lowered, needle))
    } else {
        None
    }
}

/// The candidates of score `k` among `cs`, each a lower-cased name and the
/// text it is suggested as, in order.
pub open spec fn scored_with(cs: Seq<(Seq<char>, Seq<char>)>, needle: Seq<char>, k: nat) -> Seq<
    Seq<char>,
>
    decreases cs.len(),
{
    if cs.len() == 0 {
        Seq::empty()
    } else {
        let prev = scored_with(cs.drop_last(), needle, k);
        if suggestion_score(cs.last().0, needle) == Some(k) {
            prev.push(cs.last().1)
        } else {
            prev
        }
    }
}

/// All suggestions, best score first, candidates of equal score in order.
pub open spec fn ranked_suggestions(cs: Seq<(Seq<char>, Seq<char>)>, needle: Seq<char>) -> Seq<
    Seq<char>,
> {
    scored_with(cs, needle, 0) + scored_with(cs, needle, 1) + scored_with(cs, needle, 2)
}

/// At most `n` of the ranked suggestions for the lower-cased query.
pub open spec fn spec_rank(cs: Seq<(Seq<char>, Seq<char>)>, lowered_query: Seq<char>, n: nat) -> Seq<
    Seq<char>,
> {
    let all = ranked_suggestions(cs, needle_of_lowered(lowered_query));
    if all.len() <= n {
        all
    } else {
        all.take(n as int)
    }
}

/// Each sibling as a candidate: its lower-cased name and its suggestion.
pub open spec fn suggestion_candidates(cs: Seq<EntryView>) -> Seq<(Seq<char>, Seq<char>)> {
    cs.map_values(|e: EntryView| (spec_to_lowercase(e.name), spec_format_suggestion(e)))
}

/// At most `n` suggestions for `name` among the children of `parent`.
pub open spec fn spec_suggestions(es: Seq<EntryView>, parent: Parent, name: Seq<char>, n: nat) -> Seq<
    Seq<char>,
> {
    spec_rank(suggestion_candidates(children_of(es, parent)), spec_to_lowercase(name), n)
}

pub open spec fn candidate_views(v: Seq<(String, String)>) -> Seq<(Seq<char>, Seq<char>)> {
    v.map_values(|p: (String, String)| (p.0@, p.1@))
}

fn score_of(lowered: &Vec<char>, needle: &Vec<char>) -> (r: Option<usize>)
    ensures
        match suggestion_score(lowered@, needle@) {
            Some(k) => r == Some(k as usize),
            None => r is None,
        },
{
    if contains_chars(lowered, needle) || contains_chars(needle, lowered) {
        Some(0)
    } else {
        let d = levenshtein(lowered, needle);
        if d <= 2 {
            Some(d)
        } else {
            None
        }
    }
}

proof fn lemma_scored_step(cs: Seq<(Seq<char>, Seq<char>)>, needle: Seq<char>, k: nat, i: int)
    requires
        0 <= i < cs.len(),
    ensures
        scored_with(cs.take(i + 1), needle, k) == (if suggestion_score(cs[i].0, needle) == Some(k) {
            scored_with(cs.take(i), needle, k).push(cs[i].1)
        } else {
            scored_with(cs.take(i), needle, k)
        }),
{
    assert(cs.take(i + 1).drop_last() =~= cs.take(i));
}

/// Rank candidate suggestions against a lower-cased query: each candidate is
/// a lower-cased name and the text suggested for it. Names containing the
/// query (or contained in it) come first, then those one edit away, then two;
/// at most `n` are kept.
pub fn rank_suggestions(candidates: &Vec<(String, String)>, lowered_query: &str, n: usize) -> (r:
    Vec<String>)
    ensures
        views(r@) == spec_rank(candidate_views(candidates@), lowered_query@, n as nat),
{
    let lc = chars_of(lowered_query);
    let needle = match strip_known_extension(&lc) {
        Some((k, _)) => chars_of(string_from_chars(&lc, 0, k).as_str()),
        None => lc,
    };
    proof {
        assert(lc@.subrange(0, lc@.len() as int) =~= lc@);
    }
    let ghost cs = candidate_views(candidates@);
    let mut b0: Vec<String> = Vec::new();
    let mut b1: Vec<String> = Vec::new();
    let mut b2: Vec<String> = Vec::new();
    let mut i: usize = 0;
    while i < candidates.len()
        invariant
            cs == candidate_views(candidates@),
            needle@ == needle_of_lowered(lowered_query@),
            i <= cs.len(),
            views(b0@) == scored_with(cs.take(i as int), needle@, 0),
            views(b1@) == scored_with(cs.take(i as int), needle@, 1),
            views(b2@) == scored_with(cs.take(i as int), needle@, 2),
        decreases cs.len() - i,
    {
        proof {
            lemma_scored_step(cs, needle@, 0, i as int);
            lemma_scored_step(cs, needle@, 1, i as int);
            lemma_scored_step(cs, needle@, 2, i as int);
        }
        let lowered = chars_of(candidates[i].0.as_str());
        let score = score_of(&lowered, &needle);
        match score {
            Some(k) => {
                let s = candidates[i].1.clone();
                if k == 0 {
                    let ghost before = b0@;
                    b0.push(s);
                    assert(views(b0@) =~= views(before).push(s@));
                } else if k == 1 {
                    let ghost before = b1@;
                    b1.push(s);
                    assert(views(b1@) =~= views(before).push(s@));
                } else {
                    let ghost before = b2@;
                    b2.push(s);
                    assert(views(b2@) =~= views(before).push(s@));
                }
            },
            None => {},
        }
        i = i + 1;
    }
    proof {
        assert(cs.take(cs.len() as int) =~= cs);
    }
    let ghost v0 = b0@;
    let ghost v1 = b1@;
    let ghost v2 = b2@;
    let mut all = b0;
    all.append(&mut b1);
    all.append(&mut b2);
    proof {
        assert(all@ == v0 + v1 + v2);
        assert(views(all@) =~= views(v0) + views(v1) + views(v2));
    }
    let ghost full = all@;
    all.truncate(n);
    proof {
        if n <= full.len() {
            assert(views(all@) =~= views(full).take(n as int));
        }
    }
    all
}

/// Up to `n` sibling names close to `name`, formatted so they can be pasted
/// into a path; containment matches come before edit-distance matches. The
/// names are compared lower-cased.
pub fn suggest_siblings(tree: &DocumentTree, parent: &Parent, name: &str, n: usize) -> (r: Vec<
    String,
>)
    ensures
        views(r@) == spec_suggestions(tree@, *parent, name@, n as nat),
{
    let lower = to_lowercase(name);
    let kids = tree.child_entries(parent);
    let ghost cs = children_of(tree@, *parent);
    let mut candidates: Vec<(String, String)> = Vec::new();
    let mut i: usize = 0;
    while i < kids.len()
        invariant
            kids@.map_values(|e: &DocumentEntry| e@) == cs,
            i <= cs.len(),
            candidate_views(candidates@) == suggestion_candidates(cs.take(i as int)),
        decreases cs.len() - i,
    {
        let e = kids[i];
        proof {
            assert(cs[i as int] == e@);
        }
        let lowered = to_lowercase(e.visible_name.as_str());
        let shown = format_suggestion(e);
        let ghost before = candidates@;
        candidates.push((lowered, shown));
        proof {
            assert(candidate_views(candidates@) =~= candidate_views(before).push(
                (lowered@, shown@),
            ));
            assert(suggestion_candidates(cs.take(i + 1)) =~= suggestion_candidates(
                cs.take(i as int),
            ).push((lowered@, shown@)));
        }
        i = i + 1;
    }
    proof {
        assert(cs.take(cs.len() as int) =~= cs);
    }
    rank_suggestions(&candidates, lower.as_str(), n)
}

} // verus!
