//! Counting that answer metrics rest on.

use crate::stats::saturated;
use crate::text::{
    lowercase, same_text, text_views, to_lowercase, trim, trimmed, whitespace_words, words_of,
};
use vstd::seq_lib::seq_to_set_is_finite;
use vstd::prelude::*;

verus! {

/// The greater of two numbers.
pub open spec fn greater(x: nat, y: nat) -> nat {
    if x >= y {
        x
    } else {
        y
    }
}

/// The length of the longest run of tokens that the first `i` tokens of `a`
/// and the first `j` tokens of `b` have in common, in order and with gaps
/// allowed, by the usual recurrence: a common last token extends the run of
/// the two shorter prefixes, otherwise the better of leaving out either last
/// token stands.
pub open spec fn common_run(a: Seq<Seq<char>>, b: Seq<Seq<char>>, i: nat, j: nat) -> nat
    decreases i + j,
{
    if i == 0 || j == 0 || i > a.len() || j > b.len() {
        0
    } else if a[i - 1] == b[j - 1] {
        common_run(a, b, (i - 1) as nat, (j - 1) as nat) + 1
    } else {
        greater(common_run(a, b, (i - 1) as nat, j), common_run(a, b, i, (j - 1) as nat))
    }
}

/// A common run is no longer than either prefix.
pub proof fn lemma_common_run_bounded(a: Seq<Seq<char>>, b: Seq<Seq<char>>, i: nat, j: nat)
    ensures
        common_run(a, b, i, j) <= i,
        common_run(a, b, i, j) <= j,
    decreases i + j,
{
    if !(i == 0 || j == 0 || i > a.len() || j > b.len()) {
        lemma_common_run_bounded(a, b, (i - 1) as nat, (j - 1) as nat);
        lemma_common_run_bounded(a, b, (i - 1) as nat, j);
        lemma_common_run_bounded(a, b, i, (j - 1) as nat);
    }
}

/// The length of the longest common run of two token lists.
pub fn lcs_length(a: &Vec<String>, b: &Vec<String>) -> (length: usize)
    ensures
        length == common_run(text_views(a@), text_views(b@), a@.len(), b@.len()),
{
    let ghost left = text_views(a@);
    let ghost right = text_views(b@);
    let n = b.len();
    if n == 0 {
        return 0;
    }
    let mut above: Vec<usize> = Vec::new();
    let mut k: usize = 0;
    while k < n
        invariant
            k <= n,
            above@.len() == k,
            forall|j: int| 0 <= j < k ==> above@[j] == 0,
        decreases n - k,
    {
        above.push(0);
        k += 1;
    }
    let mut i: usize = 0;
    while i < a.len()
        invariant
            n == b.len(),
            n > 0,
            left == text_views(a@),
            right == text_views(b@),
            i <= a.len(),
            above@.len() == n,
            forall|j: int|
                0 <= j < n ==> above@[j] == common_run(left, right, i as nat, (j + 1) as nat),
        decreases a.len() - i,
    {
        let mut row: Vec<usize> = Vec::new();
        let mut j: usize = 0;
        while j < n
            invariant
                n == b.len(),
                left == text_views(a@),
                right == text_views(b@),
                i < a.len(),
                j <= n,
                above@.len() == n,
                row@.len() == j,
                forall|c: int|
                    0 <= c < n ==> above@[c] == common_run(left, right, i as nat, (c + 1) as nat),
                forall|c: int|
                    0 <= c < j ==> row@[c] == common_run(
                        left,
                        right,
                        (i + 1) as nat,
                        (c + 1) as nat,
                    ),
            decreases n - j,
        {
            let diagonal = if j == 0 {
                0
            } else {
                above[j - 1]
            };
            let beside = if j == 0 {
                0
            } else {
                row[j - 1]
            };
            proof {
                lemma_common_run_bounded(left, right, i as nat, j as nat);
                assert(left[i as int] == a@[i as int]@);
                assert(right[j as int] == b@[j as int]@);
            }
            let cell = if same_text(a[i].as_str(), b[j].as_str()) {
                diagonal + 1
            } else if above[j] >= beside {
                above[j]
            } else {
                beside
            };
            proof {
                let rows = (i + 1) as nat;
                let columns = (j + 1) as nat;
                assert((rows - 1) as nat == i as nat);
                assert((columns - 1) as nat == j as nat);
                assert(common_run(left, right, i as nat, 0) == 0);
                assert(common_run(left, right, rows, 0) == 0);
                assert(left.len() == a@.len() && right.len() == b@.len());
                assert(diagonal == common_run(left, right, i as nat, j as nat));
                assert(beside == common_run(left, right, rows, j as nat));
                assert(above@[j as int] == common_run(left, right, i as nat, columns));
                assert(cell == common_run(left, right, rows, columns));
            }
            row.push(cell);
            j += 1;
        }
        above = row;
        i += 1;
    }
    above[n - 1]
}

/// The tokens of a text: its words between white space.
pub fn tokens(text: &str) -> (words: Vec<String>)
    ensures
        text_views(words@) == whitespace_words(text@),
{
    words_of(text)
}

/// Whether two answers say the same once the white space around them and
/// the case of their letters are set aside.
pub fn is_exact_match(generated: &str, gold: &str) -> (same: bool)
    ensures
        same == (lowercase(trimmed(generated@)) == lowercase(trimmed(gold@))),
{
    let left = to_lowercase(trim(generated));
    let right = to_lowercase(trim(gold));
    same_text(left.as_str(), right.as_str())
}

/// Whether a word occurs among the first `upto` words of a list.
pub fn occurs_among(words: &Vec<String>, upto: usize, word: &str) -> (found: bool)
    requires
        upto <= words.len(),
    ensures
        found == text_views(words@).subrange(0, upto as int).contains(word@),
{
    let ghost front = text_views(words@).subrange(0, upto as int);
    let mut i: usize = 0;
    while i < upto
        invariant
            i <= upto <= words.len(),
            front == text_views(words@).subrange(0, upto as int),
            forall|j: int| 0 <= j < i ==> front[j] != word@,
        decreases upto - i,
    {
        if same_text(words[i].as_str(), word) {
            assert(front[i as int] == word@);
            return true;
        }
        i += 1;
    }
    false
}

/// How many positions of `tokens` hold a token that occurs in `known`.
pub open spec fn hits(tokens: Seq<Seq<char>>, known: Seq<Seq<char>>) -> nat
    decreases tokens.len(),
{
    if tokens.len() == 0 {
        0
    } else {
        hits(tokens.drop_last(), known) + if known.contains(tokens.last()) {
            1nat
        } else {
            0nat
        }
    }
}

/// The positions of `tokens` that hold a token that occurs in `known`, in
/// rising order.
pub open spec fn hit_places(tokens: Seq<Seq<char>>, known: Seq<Seq<char>>) -> Seq<usize>
    decreases tokens.len(),
{
    if tokens.len() == 0 {
        Seq::empty()
    } else if known.contains(tokens.last()) {
        hit_places(tokens.drop_last(), known).push((tokens.len() - 1) as usize)
    } else {
        hit_places(tokens.drop_last(), known)
    }
}

/// Counts the positions of `tokens` whose token occurs in `known`.
pub fn hit_count(tokens: &Vec<String>, known: &Vec<String>) -> (count: usize)
    ensures
        count == hits(text_views(tokens@), text_views(known@)),
{
    let ghost views = text_views(tokens@);
    let ghost pool = text_views(known@);
    let mut count: usize = 0;
    let mut i: usize = 0;
    while i < tokens.len()
        invariant
            i <= tokens.len(),
            views == text_views(tokens@),
            pool == text_views(known@),
            count <= i,
            count == hits(views.subrange(0, i as int), pool),
        decreases tokens.len() - i,
    {
        proof {
            assert(views.subrange(0, i + 1).drop_last() =~= views.subrange(0, i as int));
            assert(views.subrange(0, i + 1).last() == tokens@[i as int]@);
            assert(pool.subrange(0, known.len() as int) =~= pool);
        }
        if occurs_among(known, known.len(), tokens[i].as_str()) {
            count += 1;
        }
        i += 1;
    }
    assert(views.subrange(0, tokens.len() as int) =~= views);
    count
}

/// Lists the positions of `tokens` whose token occurs in `known`.
pub fn hit_positions(tokens: &Vec<String>, known: &Vec<String>) -> (places: Vec<usize>)
    ensures
        places@ == hit_places(text_views(tokens@), text_views(known@)),
{
    let ghost views = text_views(tokens@);
    let ghost pool = text_views(known@);
    let mut places: Vec<usize> = Vec::new();
    let mut i: usize = 0;
    while i < tokens.len()
        invariant
            i <= tokens.len(),
            views == text_views(tokens@),
            pool == text_views(known@),
            places@ == hit_places(views.subrange(0, i as int), pool),
        decreases tokens.len() - i,
    {
        proof {
            assert(views.subrange(0, i + 1).drop_last() =~= views.subrange(0, i as int));
            assert(views.subrange(0, i + 1).last() == tokens@[i as int]@);
            assert(pool.subrange(0, known.len() as int) =~= pool);
        }
        if occurs_among(known, known.len(), tokens[i].as_str()) {
            places.push(i);
        }
        i += 1;
    }
    assert(views.subrange(0, tokens.len() as int) =~= views);
    places
}

/// The first position of `tokens` whose token occurs in `known`.
pub fn first_hit(tokens: &Vec<String>, known: &Vec<String>) -> (place: Option<usize>)
    ensures
        match place {
            Some(at) => at < tokens@.len() && text_views(known@).contains(tokens@[at as int]@)
                && forall|j: int|
                0 <= j < at ==> !text_views(known@).contains(#[trigger] tokens@[j]@),
            None => forall|j: int|
                0 <= j < tokens@.len() ==> !text_views(known@).contains(#[trigger] tokens@[j]@),
        },
{
    let ghost pool = text_views(known@);
    let mut i: usize = 0;
    while i < tokens.len()
        invariant
            i <= tokens.len(),
            pool == text_views(known@),
            forall|j: int| 0 <= j < i ==> !pool.contains(#[trigger] tokens@[j]@),
        decreases tokens.len() - i,
    {
        assert(pool.subrange(0, known.len() as int) =~= pool);
        if occurs_among(known, known.len(), tokens[i].as_str()) {
            return Some(i);
        }
        i += 1;
    }
    None
}

/// Counts the different tokens of a list.
pub fn distinct_count(tokens: &Vec<String>) -> (count: usize)
    ensures
        count == text_views(tokens@).to_set().len(),
{
    let ghost views = text_views(tokens@);
    let mut count: usize = 0;
    let mut i: usize = 0;
    assert(views.subrange(0, 0).to_set() =~= Set::<Seq<char>>::empty());
    while i < tokens.len()
        invariant
            i <= tokens.len(),
            views == text_views(tokens@),
            count <= i,
            count == views.subrange(0, i as int).to_set().len(),
        decreases tokens.len() - i,
    {
        proof {
            let seen = views.subrange(0, i as int);
            seq_to_set_is_finite(seen);
            assert(views.subrange(0, i + 1) =~= seen.push(views[i as int]));
            seen.lemma_push_to_set_commute(views[i as int]);
            assert(seen.to_set().contains(views[i as int]) == seen.contains(views[i as int]));
        }
        if !occurs_among(tokens, i, tokens[i].as_str()) {
            count += 1;
        }
        i += 1;
    }
    assert(views.subrange(0, tokens.len() as int) =~= views);
    count
}

/// Counts the different tokens that two lists have in common.
pub fn shared_count(left: &Vec<String>, right: &Vec<String>) -> (count: usize)
    ensures
        count == text_views(left@).to_set().intersect(text_views(right@).to_set()).len(),
{
    let ghost views = text_views(left@);
    let ghost other = text_views(right@);
    let mut count: usize = 0;
    let mut i: usize = 0;
    assert(views.subrange(0, 0).to_set().intersect(other.to_set()) =~= Set::<Seq<char>>::empty());
    while i < left.len()
        invariant
            i <= left.len(),
            views == text_views(left@),
            other == text_views(right@),
            count <= i,
            count == views.subrange(0, i as int).to_set().intersect(other.to_set()).len(),
        decreases left.len() - i,
    {
        proof {
            let seen = views.subrange(0, i as int);
            let word = views[i as int];
            seq_to_set_is_finite(seen);
            seq_to_set_is_finite(other);
            assert(views.subrange(0, i + 1) =~= seen.push(word));
            seen.lemma_push_to_set_commute(word);
            assert(seen.to_set().contains(word) == seen.contains(word));
            assert(other.to_set().contains(word) == other.contains(word));
            assert(other.subrange(0, right.len() as int) =~= other);
            if other.contains(word) {
                assert(seen.to_set().insert(word).intersect(other.to_set()) =~= seen.to_set().intersect(
                    other.to_set(),
                ).insert(word));
            } else {
                assert(seen.to_set().insert(word).intersect(other.to_set()) =~= seen.to_set().intersect(
                    other.to_set(),
                ));
            }
            vstd::set_lib::lemma_len_intersect(seen.to_set(), other.to_set());
        }
        if !occurs_among(left, i, left[i].as_str()) && occurs_among(
            right,
            right.len(),
            left[i].as_str(),
        ) {
            count += 1;
        }
        i += 1;
    }
    assert(views.subrange(0, left.len() as int) =~= views);
    count
}

/// Counts the different tokens of two lists taken together; a count that
/// does not fit a machine word stays at the largest word.
pub fn union_count(left: &Vec<String>, right: &Vec<String>) -> (count: usize)
    ensures
        count == saturated(text_views(left@).to_set().union(text_views(right@).to_set()).len()),
{
    let ghost views = text_views(left@);
    let ghost other = text_views(right@);
    let own = distinct_count(left);
    let mut extra: usize = 0;
    let mut i: usize = 0;
    proof {
        seq_to_set_is_finite(views);
        assert(views.to_set().union(other.subrange(0, 0).to_set()) =~= views.to_set());
    }
    while i < right.len()
        invariant
            i <= right.len(),
            views == text_views(left@),
            other == text_views(right@),
            own == views.to_set().len(),
            extra <= i,
            own + extra == views.to_set().union(other.subrange(0, i as int).to_set()).len(),
        decreases right.len() - i,
    {
        proof {
            let seen = other.subrange(0, i as int);
            let word = other[i as int];
            seq_to_set_is_finite(seen);
            seq_to_set_is_finite(views);
            assert(other.subrange(0, i + 1) =~= seen.push(word));
            seen.lemma_push_to_set_commute(word);
            assert(seen.to_set().contains(word) == seen.contains(word));
            assert(views.to_set().contains(word) == views.contains(word));
            assert(views.subrange(0, left.len() as int) =~= views);
            assert(views.to_set().union(seen.to_set().insert(word)) =~= views.to_set().union(
                seen.to_set(),
            ).insert(word));
            vstd::set_lib::lemma_set_union_finite_iff(views.to_set(), seen.to_set());
        }
        if !occurs_among(right, i, right[i].as_str()) && !occurs_among(
            left,
            left.len(),
            right[i].as_str(),
        ) {
            extra += 1;
        }
        i += 1;
    }
    assert(other.subrange(0, right.len() as int) =~= other);
    own.saturating_add(extra)
}

} // verus!
