use vstd::prelude::*;

verus! {

/// Classification of one guessed letter against the target word.
#[derive(Clone, Copy, PartialEq, Eq, Structural, Debug)]
pub enum LetterClass {
    /// The letter occupies the same position in the target.
    Correct,
    /// The letter occurs elsewhere in the target and a remaining
    /// occurrence is still available to credit it.
    Present,
    /// The letter does not occur in the target, or all its occurrences
    /// have already been consumed by other matches.
    Absent,
}

/// One scored submission: the normalized guess text together with the
/// classification of each of its letters, in guess order.
#[derive(Debug)]
pub struct ScoredGuess {
    pub text: String,
    pub classes: Vec<LetterClass>,
}

impl ScoredGuess {
    /// The guess was scored against `target`: one class per letter,
    /// exactly as the two-pass evaluation yields them.
    pub open spec fn wf_for(self, target: Seq<char>) -> bool {
        &&& self.text@.len() == target.len()
        &&& self.classes@ == class_seq(target, self.text@)
    }
}

/// Number of occurrences of the letter `c` in `s`.
pub open spec fn count_in(s: Seq<char>, c: char) -> int
    decreases s.len(),
{
    if s.len() == 0 {
        0
    } else {
        count_in(s.drop_last(), c) + if s.last() == c {
            1int
        } else {
            0int
        }
    }
}

/// Among the first `i` positions, how many hold the letter `c` in both
/// the guess and the target (position-exact matches of `c`).
pub open spec fn exact_upto(t: Seq<char>, g: Seq<char>, c: char, i: int) -> int
    decreases i,
{
    if i <= 0 {
        0
    } else {
        exact_upto(t, g, c, i - 1) + if g[i - 1] == c && t[i - 1] == c {
            1int
        } else {
            0int
        }
    }
}

/// Among the first `i` positions, how many hold the letter `c` in the
/// guess but a different letter in the target.
pub open spec fn misplaced_upto(t: Seq<char>, g: Seq<char>, c: char, i: int) -> int
    decreases i,
{
    if i <= 0 {
        0
    } else {
        misplaced_upto(t, g, c, i - 1) + if g[i - 1] == c && t[i - 1] != c {
            1int
        } else {
            0int
        }
    }
}

/// The class of guess position `i` against target `t`.
///
/// Position-exact matches are `Correct`. A displaced occurrence of a
/// letter is `Present` only while target occurrences of that letter
/// remain after the exact matches and the displaced matches at earlier
/// positions have each consumed one; afterwards it is `Absent`.
pub open spec fn spec_class(t: Seq<char>, g: Seq<char>, i: int) -> LetterClass {
    if g[i] == t[i] {
        LetterClass::Correct
    } else if misplaced_upto(t, g, g[i], i) + exact_upto(t, g, g[i], t.len() as int) < count_in(
        t,
        g[i],
    ) {
        LetterClass::Present
    } else {
        LetterClass::Absent
    }
}

/// The full classification of a guess: one class per position, in
/// guess order.
pub open spec fn class_seq(t: Seq<char>, g: Seq<char>) -> Seq<LetterClass> {
    Seq::new(g.len(), |i: int| spec_class(t, g, i))
}

/// Among the first `i` positions, how many hold the letter `c` in the
/// guess and are classified `Correct` or `Present`.
pub open spec fn scored_upto(t: Seq<char>, g: Seq<char>, c: char, i: int) -> int
    decreases i,
{
    if i <= 0 {
        0
    } else {
        scored_upto(t, g, c, i - 1) + if g[i - 1] == c && spec_class(t, g, i - 1)
            != LetterClass::Absent {
            1int
        } else {
            0int
        }
    }
}

proof fn lemma_count_in_nonneg(s: Seq<char>, c: char)
    ensures
        count_in(s, c) >= 0,
    decreases s.len(),
{
    if s.len() > 0 {
        lemma_count_in_nonneg(s.drop_last(), c);
    }
}

proof fn lemma_upto_nonneg(t: Seq<char>, g: Seq<char>, c: char, i: int)
    ensures
        exact_upto(t, g, c, i) >= 0,
        misplaced_upto(t, g, c, i) >= 0,
        scored_upto(t, g, c, i) >= 0,
    decreases i,
{
    if i > 0 {
        lemma_upto_nonneg(t, g, c, i - 1);
    }
}

proof fn lemma_count_push(s: Seq<char>, x: char, c: char)
    ensures
        count_in(s.push(x), c) == count_in(s, c) + if x == c {
            1int
        } else {
            0int
        },
{
    assert(s.push(x).drop_last() =~= s);
}

proof fn lemma_count_take_succ(s: Seq<char>, i: int, c: char)
    requires
        0 <= i < s.len(),
    ensures
        count_in(s.take(i + 1), c) == count_in(s.take(i), c) + if s[i] == c {
            1int
        } else {
            0int
        },
{
    assert(s.take(i + 1).drop_last() =~= s.take(i));
    assert(s.take(i + 1).last() == s[i]);
}

proof fn lemma_count_remove(s: Seq<char>, j: int, c: char)
    requires
        0 <= j < s.len(),
    ensures
        count_in(s.remove(j), c) == count_in(s, c) - if s[j] == c {
            1int
        } else {
            0int
        },
    decreases s.len(),
{
    if j == s.len() - 1 {
        assert(s.remove(j) =~= s.drop_last());
    } else {
        assert(s.remove(j).drop_last() =~= s.drop_last().remove(j));
        assert(s.remove(j).last() == s.last());
        lemma_count_remove(s.drop_last(), j, c);
    }
}

proof fn lemma_exact_le_count(t: Seq<char>, g: Seq<char>, c: char, i: int)
    requires
        0 <= i <= t.len(),
    ensures
        exact_upto(t, g, c, i) <= count_in(t.take(i), c),
    decreases i,
{
    if i > 0 {
        lemma_exact_le_count(t, g, c, i - 1);
        lemma_count_take_succ(t, i - 1, c);
    }
}

proof fn lemma_count_index(s: Seq<char>, j: int, c: char)
    requires
        0 <= j < s.len(),
        s[j] == c,
    ensures
        count_in(s, c) >= 1,
{
    lemma_count_remove(s, j, c);
    lemma_count_in_nonneg(s.remove(j), c);
}

proof fn lemma_count_zero(s: Seq<char>, c: char)
    requires
        forall|j: int| 0 <= j < s.len() ==> s[j] != c,
    ensures
        count_in(s, c) == 0,
    decreases s.len(),
{
    if s.len() > 0 {
        assert(forall|j: int| 0 <= j < s.drop_last().len() ==> s.drop_last()[j] == s[j]);
        lemma_count_zero(s.drop_last(), c);
    }
}

proof fn lemma_guess_count_split(t: Seq<char>, g: Seq<char>, c: char, i: int)
    requires
        0 <= i <= g.len(),
    ensures
        exact_upto(t, g, c, i) + misplaced_upto(t, g, c, i) == count_in(g.take(i), c),
    decreases i,
{
    if i > 0 {
        lemma_guess_count_split(t, g, c, i - 1);
        lemma_count_take_succ(g, i - 1, c);
    }
}

proof fn lemma_scored_formula(t: Seq<char>, g: Seq<char>, c: char, i: int)
    requires
        t.len() == g.len(),
        0 <= i <= g.len(),
    ensures
        scored_upto(t, g, c, i) == exact_upto(t, g, c, i) + vstd::math::min(
            misplaced_upto(t, g, c, i),
            vstd::math::max(0, count_in(t, c) - exact_upto(t, g, c, g.len() as int)),
        ),
    decreases i,
{
    if i > 0 {
        lemma_scored_formula(t, g, c, i - 1);
        lemma_upto_nonneg(t, g, c, i - 1);
    }
}

/// Letter accounting: for any letter, the number of guess positions
/// holding it that are classified `Correct` or `Present` is exactly the
/// smaller of its occurrence counts in the target and in the guess.
pub proof fn lemma_letter_accounting(t: Seq<char>, g: Seq<char>, c: char)
    requires
        t.len() == g.len(),
    ensures
        scored_upto(t, g, c, g.len() as int) == vstd::math::min(count_in(t, c), count_in(g, c)),
{
    let n = g.len() as int;
    lemma_scored_formula(t, g, c, n);
    lemma_guess_count_split(t, g, c, n);
    lemma_exact_le_count(t, g, c, n);
    assert(t.take(n) =~= t);
    assert(g.take(n) =~= g);
    lemma_upto_nonneg(t, g, c, n);
    lemma_count_in_nonneg(t, c);
    lemma_count_in_nonneg(g, c);
}

/// For any letter, the classifications credit it no more often than it
/// occurs in the target, and no more often than it occurs in the guess.
pub proof fn lemma_scored_bounded(t: Seq<char>, g: Seq<char>, c: char)
    requires
        t.len() == g.len(),
    ensures
        scored_upto(t, g, c, g.len() as int) <= count_in(t, c),
        scored_upto(t, g, c, g.len() as int) <= count_in(g, c),
{
    lemma_letter_accounting(t, g, c);
    lemma_count_in_nonneg(t, c);
    lemma_count_in_nonneg(g, c);
}

/// Guessing the target itself classifies every position `Correct`.
pub proof fn lemma_exact_match(t: Seq<char>)
    ensures
        class_seq(t, t).len() == t.len(),
        forall|i: int| 0 <= i < t.len() ==> class_seq(t, t)[i] == LetterClass::Correct,
{
}

/// A guess that shares no letter with the target is classified `Absent`
/// at every position.
pub proof fn lemma_disjoint_absent(t: Seq<char>, g: Seq<char>)
    requires
        t.len() == g.len(),
        forall|i: int, j: int| 0 <= i < t.len() && 0 <= j < g.len() ==> t[i] != g[j],
    ensures
        class_seq(t, g).len() == g.len(),
        forall|i: int| 0 <= i < g.len() ==> class_seq(t, g)[i] == LetterClass::Absent,
{
    assert forall|i: int| 0 <= i < g.len() implies class_seq(t, g)[i] == LetterClass::Absent by {
        assert(t[i] != g[i]);
        lemma_count_zero(t, g[i]);
        lemma_upto_nonneg(t, g, g[i], i);
        lemma_upto_nonneg(t, g, g[i], t.len() as int);
    }
}

/// Find the index of the first occurrence of `c` in `v`, if any.
fn find_char(v: &Vec<char>, c: char) -> (r: Option<usize>)
    ensures
        match r {
            Some(j) => j < v@.len() && v@[j as int] == c,
            None => count_in(v@, c) == 0,
        },
{
    let n = v.len();
    let mut i: usize = 0;
    while i < n
        invariant
            n == v@.len(),
            i <= n,
            count_in(v@.take(i as int), c) == 0,
        decreases n - i,
    {
        if v[i] == c {
            return Some(i);
        }
        proof {
            lemma_count_take_succ(v@, i as int, c);
        }
        i += 1;
    }
    proof {
        assert(v@.take(n as int) =~= v@);
    }
    None
}

/// Score a guess against the target word, letter by letter.
///
/// Two passes: the first credits position-exact matches and keeps the
/// unmatched target letters as the remaining pool; the second walks the
/// guess in order and credits a displaced letter as `Present` only while
/// the pool still holds an occurrence of it, consuming one per credit.
pub fn guessing_status(word: &str, guess: &str) -> (r: Vec<LetterClass>)
    requires
        word@.len() == guess@.len(),
    ensures
        r@ == class_seq(word@, guess@),
{
    let ghost t = word@;
    let ghost g = guess@;
    let n = guess.unicode_len();
    let mut classes: Vec<LetterClass> = Vec::new();
    let mut remaining: Vec<char> = Vec::new();

    let mut i: usize = 0;
    while i < n
        invariant
            n == g.len(),
            t.len() == g.len(),
            i <= n,
            classes@.len() == i,
            word@ == t,
            guess@ == g,
            forall|j: int|
                0 <= j < i ==> classes@[j] == (if g[j] == t[j] {
                    LetterClass::Correct
                } else {
                    LetterClass::Absent
                }),
            forall|c: char| #[trigger]
                count_in(remaining@, c) == count_in(t.take(i as int), c) - exact_upto(
                    t,
                    g,
                    c,
                    i as int,
                ),
        decreases n - i,
    {
        let tc = word.get_char(i);
        let gc = guess.get_char(i);
        let ghost rem0 = remaining@;
        if gc == tc {
            classes.push(LetterClass::Correct);
        } else {
            classes.push(LetterClass::Absent);
            remaining.push(tc);
        }
        proof {
            assert forall|c: char| #[trigger]
                count_in(remaining@, c) == count_in(t.take(i + 1 as int), c) - exact_upto(
                    t,
                    g,
                    c,
                    i + 1 as int,
                ) by {
                lemma_count_take_succ(t, i as int, c);
                if gc != tc {
                    lemma_count_push(rem0, tc, c);
                }
            }
        }
        i += 1;
    }

    proof {
        assert(t.take(n as int) =~= t);
        assert forall|c: char| #[trigger]
            count_in(remaining@, c) == vstd::math::max(
                0,
                count_in(t, c) - exact_upto(t, g, c, n as int) - misplaced_upto(t, g, c, 0),
            ) by {
            lemma_exact_le_count(t, g, c, n as int);
        }
    }

    let mut i: usize = 0;
    while i < n
        invariant
            n == g.len(),
            t.len() == g.len(),
            i <= n,
            classes@.len() == n,
            word@ == t,
            guess@ == g,
            forall|j: int|
                i <= j < n ==> classes@[j] == (if g[j] == t[j] {
                    LetterClass::Correct
                } else {
                    LetterClass::Absent
                }),
            forall|j: int| 0 <= j < i ==> classes@[j] == spec_class(t, g, j),
            forall|c: char| #[trigger]
                count_in(remaining@, c) == vstd::math::max(
                    0,
                    count_in(t, c) - exact_upto(t, g, c, n as int) - misplaced_upto(
                        t,
                        g,
                        c,
                        i as int,
                    ),
                ),
        decreases n - i,
    {
        let tc = word.get_char(i);
        let gc = guess.get_char(i);
        let ghost rem0 = remaining@;
        if gc != tc {
            match find_char(&remaining, gc) {
                Some(j) => {
                    proof {
                        lemma_count_index(rem0, j as int, gc);
                    }
                    classes[i] = LetterClass::Present;
                    remaining.remove(j);
                    proof {
                        assert forall|c: char| #[trigger]
                            count_in(remaining@, c) == vstd::math::max(
                                0,
                                count_in(t, c) - exact_upto(t, g, c, n as int) - misplaced_upto(
                                    t,
                                    g,
                                    c,
                                    i + 1 as int,
                                ),
                            ) by {
                            lemma_count_remove(rem0, j as int, c);
                        }
                    }
                }
                None => {
                    proof {
                        assert forall|c: char| #[trigger]
                            count_in(remaining@, c) == vstd::math::max(
                                0,
                                count_in(t, c) - exact_upto(t, g, c, n as int) - misplaced_upto(
                                    t,
                                    g,
                                    c,
                                    i + 1 as int,
                                ),
                            ) by {
                            assert(count_in(rem0, c) == vstd::math::max(
                                0,
                                count_in(t, c) - exact_upto(t, g, c, n as int) - misplaced_upto(
                                    t,
                                    g,
                                    c,
                                    i as int,
                                ),
                            ));
                        }
                    }
                },
            }
        } else {
            proof {
                assert forall|c: char| #[trigger]
                    count_in(remaining@, c) == vstd::math::max(
                        0,
                        count_in(t, c) - exact_upto(t, g, c, n as int) - misplaced_upto(
                            t,
                            g,
                            c,
                            i + 1 as int,
                        ),
                    ) by {
                    assert(count_in(remaining@, c) == vstd::math::max(
                        0,
                        count_in(t, c) - exact_upto(t, g, c, n as int) - misplaced_upto(
                            t,
                            g,
                            c,
                            i as int,
                        ),
                    ));
                }
            }
        }
        i += 1;
    }

    proof {
        assert(classes@ =~= class_seq(t, g));
    }
    classes
}

/// Score a guess against the target word, letter by letter.
///
/// Same evaluation as `guessing_status`.
pub fn guess_status(word: &str, guess: &str) -> (r: Vec<LetterClass>)
    requires
        word@.len() == guess@.len(),
    ensures
        r@ == class_seq(word@, guess@),
{
    guessing_status(word, guess)
}

/// Score a guess against the target word and keep the guess text with
/// the result.
pub fn evaluate(target: &str, guess: &str) -> (r: ScoredGuess)
    requires
        target@.len() == guess@.len(),
    ensures
        r.text@ == guess@,
        r.classes@ == class_seq(target@, guess@),
        r.wf_for(target@),
{
    let classes = guessing_status(target, guess);
    ScoredGuess { text: guess.to_owned(), classes }
}

} // verus!
