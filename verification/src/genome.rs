//! Genomes and the mutation engine.

use vstd::prelude::*;
use rand::rngs::StdRng;
use crate::config::{DELETION_RATE, DUPLICATION_RATE, MUTATION_RATE};
use crate::random::roll_below;
use crate::word::Word;

verus! {

/// An agent's program: an ordered sequence of words.
#[derive(Debug, Clone)]
pub struct Genome {
    pub words: Vec<Word>,
}

/// What mutation does to one word of the parent.
#[derive(Debug, Clone, Copy, PartialEq, Eq, Structural)]
pub enum Edit {
    /// The word is left out.
    Delete,
    /// The word stays, once or twice.
    Keep { duplicate: bool },
    /// Another word takes its place, once or twice.
    Replace { word: Word, duplicate: bool },
}

/// The edit that three percent rolls and a fresh word decide: deletion
/// first, which ends the matter; else replacement by the fresh word or not;
/// and duplication of whichever word stands.
pub open spec fn edit_of_rolls(
    delete_roll: u32,
    mutate_roll: u32,
    duplicate_roll: u32,
    fresh: Word,
) -> Edit {
    if delete_roll < DELETION_RATE {
        Edit::Delete
    } else if mutate_roll < MUTATION_RATE {
        Edit::Replace { word: fresh, duplicate: duplicate_roll < DUPLICATION_RATE }
    } else {
        Edit::Keep { duplicate: duplicate_roll < DUPLICATION_RATE }
    }
}

/// Whether the mutation engine can draw this edit: a replacement brings a
/// word of the random generator.
pub open spec fn edit_drawable(edit: Edit) -> bool {
    match edit {
        Edit::Replace { word, duplicate } => word.drawable(),
        _ => true,
    }
}

/// What one word of the parent contributes under an edit.
pub open spec fn edited(word: Word, edit: Edit) -> Seq<Word> {
    match edit {
        Edit::Delete => Seq::empty(),
        Edit::Keep { duplicate } => if duplicate {
            seq![word, word]
        } else {
            seq![word]
        },
        Edit::Replace { word: fresh, duplicate } => if duplicate {
            seq![fresh, fresh]
        } else {
            seq![fresh]
        },
    }
}

/// The edit of the word at position `i`; a word without one is kept.
pub open spec fn edit_at(edits: Seq<Edit>, i: int) -> Edit {
    if 0 <= i < edits.len() {
        edits[i]
    } else {
        Edit::Keep { duplicate: false }
    }
}

/// What the first `n` words contribute under their edits, in order.
pub open spec fn edited_prefix(words: Seq<Word>, edits: Seq<Edit>, n: nat) -> Seq<Word>
    decreases n,
{
    if n == 0 {
        Seq::empty()
    } else {
        edited_prefix(words, edits, (n - 1) as nat) + edited(words[n - 1], edit_at(edits, n - 1))
    }
}

/// How often `w` occurs in `words`.
pub open spec fn count_of(words: Seq<Word>, w: Word) -> nat
    decreases words.len(),
{
    if words.len() == 0 {
        0
    } else {
        count_of(words.drop_last(), w) + if words.last() == w {
            1nat
        } else {
            0nat
        }
    }
}

/// The last position of `w` in `words`, or -1 where it does not occur.
pub open spec fn last_index_of(words: Seq<Word>, w: Word) -> int
    decreases words.len(),
{
    if words.len() == 0 {
        -1
    } else if words.last() == w {
        words.len() - 1
    } else {
        last_index_of(words.drop_last(), w)
    }
}

/// `words` without its last `Then`, if it has one.
pub open spec fn without_last_then(words: Seq<Word>) -> Seq<Word> {
    let p = last_index_of(words, Word::Then);
    if p < 0 {
        words
    } else {
        words.remove(p)
    }
}

/// `words` without its last `k` `Then`s.
pub open spec fn without_last_thens(words: Seq<Word>, k: nat) -> Seq<Word>
    decreases k,
{
    if k == 0 {
        words
    } else {
        without_last_thens(without_last_then(words), (k - 1) as nat)
    }
}

/// `words` followed by `k` `Then`s.
pub open spec fn with_thens(words: Seq<Word>, k: nat) -> Seq<Word>
    decreases k,
{
    if k == 0 {
        words
    } else {
        with_thens(words, (k - 1) as nat).push(Word::Then)
    }
}

/// `words` with as many `Then`s as `If`s: missing ones are appended, and
/// those in excess leave from the end.
pub open spec fn balanced(words: Seq<Word>) -> Seq<Word> {
    let ifs = count_of(words, Word::If);
    let thens = count_of(words, Word::Then);
    if thens < ifs {
        with_thens(words, (ifs - thens) as nat)
    } else {
        without_last_thens(words, (thens - ifs) as nat)
    }
}

/// `words`, or the fallback alone where `words` is empty.
pub open spec fn or_fallback(words: Seq<Word>, fallback: Word) -> Seq<Word> {
    if words.len() == 0 {
        seq![fallback]
    } else {
        words
    }
}

/// The child of `words` under the given edits: every word edited, the
/// fallback where nothing is left, and the conditionals balanced.
pub open spec fn mutated(words: Seq<Word>, edits: Seq<Edit>, fallback: Word) -> Seq<Word> {
    balanced(or_fallback(edited_prefix(words, edits, words.len()), fallback))
}

/// Pushing a word adds one to its count and leaves the other counts.
pub proof fn lemma_count_push(words: Seq<Word>, x: Word, w: Word)
    ensures
        count_of(words.push(x), w) == count_of(words, w) + if x == w {
            1nat
        } else {
            0nat
        },
{
    assert(words.push(x).drop_last() =~= words);
}

/// Removing a word takes one from its count and leaves the other counts.
pub proof fn lemma_count_remove(words: Seq<Word>, p: int, w: Word)
    requires
        0 <= p < words.len(),
    ensures
        count_of(words.remove(p), w) + (if words[p] == w {
            1nat
        } else {
            0nat
        }) == count_of(words, w),
    decreases words.len(),
{
    if p == words.len() - 1 {
        assert(words.remove(p) =~= words.drop_last());
    } else {
        lemma_count_remove(words.drop_last(), p, w);
        assert(words.remove(p).drop_last() =~= words.drop_last().remove(p));
        assert(words.remove(p).last() == words.last());
    }
}

/// The last index of a word is a position that holds it, after which it
/// does not occur; it is -1 exactly where the word's count is zero.
pub proof fn lemma_last_index(words: Seq<Word>, w: Word)
    ensures
        -1 <= last_index_of(words, w) < words.len(),
        last_index_of(words, w) >= 0 ==> words[last_index_of(words, w)] == w,
        forall|j: int| last_index_of(words, w) < j < words.len() ==> words[j] != w,
        last_index_of(words, w) < 0 <==> count_of(words, w) == 0,
    decreases words.len(),
{
    if words.len() > 0 {
        lemma_last_index(words.drop_last(), w);
        assert forall|j: int| last_index_of(words, w) < j < words.len() implies words[j] != w by {
            if j < words.len() - 1 {
                assert(words.drop_last()[j] == words[j]);
            }
        }
    }
}

/// A position that holds the word and after which it does not occur, or -1
/// where it occurs nowhere, is its last index.
pub proof fn lemma_last_index_is(words: Seq<Word>, w: Word, p: int)
    requires
        -1 <= p < words.len(),
        p >= 0 ==> words[p] == w,
        forall|j: int| p < j < words.len() ==> words[j] != w,
    ensures
        last_index_of(words, w) == p,
{
    lemma_last_index(words, w);
}

/// Removing the last `k` `Then`s takes `k` from their count, as far as
/// there are any, and leaves the count of every other word.
pub proof fn lemma_without_last_thens_counts(words: Seq<Word>, k: nat, w: Word)
    requires
        k <= count_of(words, Word::Then),
    ensures
        count_of(without_last_thens(words, k), w) == count_of(words, w) - if w == Word::Then {
            k
        } else {
            0nat
        },
    decreases k,
{
    if k > 0 {
        lemma_last_index(words, Word::Then);
        let p = last_index_of(words, Word::Then);
        lemma_count_remove(words, p, w);
        lemma_count_remove(words, p, Word::Then);
        lemma_without_last_thens_counts(without_last_then(words), (k - 1) as nat, w);
    }
}

/// Appending `k` `Then`s adds `k` to their count and leaves the count of
/// every other word.
pub proof fn lemma_with_thens_counts(words: Seq<Word>, k: nat, w: Word)
    ensures
        count_of(with_thens(words, k), w) == count_of(words, w) + if w == Word::Then {
            k
        } else {
            0nat
        },
        with_thens(words, k).len() == words.len() + k,
    decreases k,
{
    if k > 0 {
        lemma_with_thens_counts(words, (k - 1) as nat, w);
        lemma_count_push(with_thens(words, (k - 1) as nat), Word::Then, w);
    }
}

/// A balanced sequence holds as many `Then`s as `If`s, and balancing changes
/// the count of no word but `Then`.
pub proof fn lemma_balanced_counts(words: Seq<Word>, w: Word)
    ensures
        count_of(balanced(words), Word::If) == count_of(balanced(words), Word::Then),
        w != Word::Then ==> count_of(balanced(words), w) == count_of(words, w),
{
    let ifs = count_of(words, Word::If);
    let thens = count_of(words, Word::Then);
    if thens < ifs {
        lemma_with_thens_counts(words, (ifs - thens) as nat, Word::If);
        lemma_with_thens_counts(words, (ifs - thens) as nat, Word::Then);
        lemma_with_thens_counts(words, (ifs - thens) as nat, w);
    } else {
        lemma_without_last_thens_counts(words, (thens - ifs) as nat, Word::If);
        lemma_without_last_thens_counts(words, (thens - ifs) as nat, Word::Then);
        lemma_without_last_thens_counts(words, (thens - ifs) as nat, w);
    }
}

/// Every child of the mutation engine holds as many `Then`s as `If`s.
pub proof fn lemma_mutated_balanced(words: Seq<Word>, edits: Seq<Edit>, fallback: Word)
    ensures
        count_of(mutated(words, edits, fallback), Word::If) == count_of(
            mutated(words, edits, fallback),
            Word::Then,
        ),
{
    lemma_balanced_counts(
        or_fallback(edited_prefix(words, edits, words.len()), fallback),
        Word::If,
    );
}

/// A word that occurs has a positive count, and a sequence in which some
/// word has a positive count is not empty.
pub proof fn lemma_count_positive(words: Seq<Word>, i: int)
    requires
        0 <= i < words.len(),
    ensures
        count_of(words, words[i]) > 0,
    decreases words.len(),
{
    if i < words.len() - 1 {
        lemma_count_positive(words.drop_last(), i);
    }
}

/// A child is not empty where, before balancing, some word is no `Then`.
/// (A sequence of nothing but `Then`s balances to the empty one.)
pub proof fn lemma_mutated_nonempty(words: Seq<Word>, edits: Seq<Edit>, fallback: Word, i: int)
    requires
        0 <= i < or_fallback(edited_prefix(words, edits, words.len()), fallback).len(),
        or_fallback(edited_prefix(words, edits, words.len()), fallback)[i] != Word::Then,
    ensures
        mutated(words, edits, fallback).len() > 0,
{
    let before = or_fallback(edited_prefix(words, edits, words.len()), fallback);
    lemma_count_positive(before, i);
    lemma_balanced_counts(before, before[i]);
}

impl Edit {
    /// Decides the edit of one word from three rolls out of 100 and a fresh
    /// word.
    pub fn from_rolls(delete_roll: u32, mutate_roll: u32, duplicate_roll: u32, fresh: Word) -> (e:
        Edit)
        ensures
            e == edit_of_rolls(delete_roll, mutate_roll, duplicate_roll, fresh),
    {
        if delete_roll < DELETION_RATE {
            Edit::Delete
        } else if mutate_roll < MUTATION_RATE {
            Edit::Replace { word: fresh, duplicate: duplicate_roll < DUPLICATION_RATE }
        } else {
            Edit::Keep { duplicate: duplicate_roll < DUPLICATION_RATE }
        }
    }

    /// Draws the edit of one word: three independent rolls and a fresh word.
    pub fn random(rng: &mut StdRng) -> (e: Edit)
        ensures
            edit_drawable(e),
    {
        let delete_roll: u32 = roll_below(rng, 100);
        let mutate_roll: u32 = roll_below(rng, 100);
        let fresh = Word::random(rng);
        let duplicate_roll: u32 = roll_below(rng, 100);
        Self::from_rolls(delete_roll, mutate_roll, duplicate_roll, fresh)
    }
}

impl Genome {
    /// A genome of `length` random words.
    pub fn random(length: usize, rng: &mut StdRng) -> (g: Genome)
        ensures
            g.words@.len() == length,
            forall|i: int| 0 <= i < length ==> (#[trigger] g.words@[i]).drawable(),
    {
        let mut words: Vec<Word> = Vec::new();
        let mut i: usize = 0;
        while i < length
            invariant
                i <= length,
                words@.len() == i,
                forall|j: int| 0 <= j < i ==> (#[trigger] words@[j]).drawable(),
            decreases length - i,
        {
            words.push(Word::random(rng));
            i += 1;
        }
        Genome { words }
    }

    /// The display tokens of the words, in order.
    pub fn tokens(&self) -> (out: Vec<String>)
        ensures
            out@.len() == self.words@.len(),
            forall|i: int|
                0 <= i < out@.len() ==> (#[trigger] out@[i])@ == self.words@[i].spec_token(),
    {
        let mut out: Vec<String> = Vec::new();
        let n: usize = self.words.len();
        let mut i: usize = 0;
        while i < n
            invariant
                i <= n,
                n == self.words@.len(),
                out@.len() == i,
                forall|j: int| 0 <= j < i ==> (#[trigger] out@[j])@ == self.words@[j].spec_token(),
            decreases n - i,
        {
            out.push(self.words[i].to_text());
            i += 1;
        }
        out
    }

    /// Applies to each word its edit, in order. A word without an edit is
    /// kept; edits beyond the last word are not used.
    pub fn apply_edits(&self, edits: &Vec<Edit>) -> (out: Vec<Word>)
        ensures
            out@ == edited_prefix(self.words@, edits@, self.words@.len()),
    {
        let mut out: Vec<Word> = Vec::new();
        let n: usize = self.words.len();
        let mut i: usize = 0;
        while i < n
            invariant
                i <= n,
                n == self.words@.len(),
                out@ == edited_prefix(self.words@, edits@, i as nat),
            decreases n - i,
        {
            let word = self.words[i];
            let edit = if i < edits.len() {
                edits[i]
            } else {
                Edit::Keep { duplicate: false }
            };
            let ghost before = out@;
            match edit {
                Edit::Delete => {},
                Edit::Keep { duplicate } => {
                    out.push(word);
                    if duplicate {
                        out.push(word);
                    }
                },
                Edit::Replace { word: fresh, duplicate } => {
                    out.push(fresh);
                    if duplicate {
                        out.push(fresh);
                    }
                },
            }
            assert(out@ =~= before + edited(word, edit));
            i += 1;
        }
        out
    }

    /// Balances the conditionals: appends the `Then`s that are missing, or
    /// removes those in excess, last first.
    pub fn balance_control_flow(words: &mut Vec<Word>)
        ensures
            final(words)@ == balanced(old(words)@),
            count_of(final(words)@, Word::If) == count_of(final(words)@, Word::Then),
    {
        let n: usize = words.len();
        let mut if_count: usize = 0;
        let mut then_count: usize = 0;
        let mut i: usize = 0;
        while i < n
            invariant
                i <= n,
                n == words@.len(),
                words@ == old(words)@,
                if_count == count_of(words@.take(i as int), Word::If),
                then_count == count_of(words@.take(i as int), Word::Then),
                if_count <= i,
                then_count <= i,
            decreases n - i,
        {
            assert(words@.take(i + 1).drop_last() =~= words@.take(i as int));
            if words[i] == Word::If {
                if_count += 1;
            } else if words[i] == Word::Then {
                then_count += 1;
            }
            i += 1;
        }
        assert(words@.take(n as int) =~= words@);
        if then_count < if_count {
            let missing: usize = if_count - then_count;
            let mut added: usize = 0;
            while added < missing
                invariant
                    added <= missing,
                    words@ == with_thens(old(words)@, added as nat),
                decreases missing - added,
            {
                words.push(Word::Then);
                added += 1;
            }
        } else {
            let mut excess: usize = then_count - if_count;
            while excess > 0
                invariant
                    without_last_thens(words@, excess as nat) == balanced(old(words)@),
                decreases excess,
            {
                let ghost before = words@;
                let mut p: usize = words.len();
                while p > 0 && words[p - 1] != Word::Then
                    invariant
                        p <= words@.len(),
                        words@ == before,
                        forall|j: int| p <= j < words@.len() ==> words@[j] != Word::Then,
                    decreases p,
                {
                    p -= 1;
                }
                proof {
                    lemma_last_index_is(words@, Word::Then, p - 1);
                }
                if p > 0 {
                    words.remove(p - 1);
                }
                assert(words@ == without_last_then(before));
                excess -= 1;
            }
        }
        proof {
            lemma_balanced_counts(old(words)@, Word::If);
        }
    }

    /// The child under the given edits; `fallback` is the one word of a child
    /// that would else be empty.
    pub fn mutate_with(&self, edits: &Vec<Edit>, fallback: Word) -> (child: Genome)
        ensures
            child.words@ == mutated(self.words@, edits@, fallback),
            count_of(child.words@, Word::If) == count_of(child.words@, Word::Then),
    {
        let mut words = self.apply_edits(edits);
        if words.len() == 0 {
            words.push(fallback);
        }
        assert(words@ =~= or_fallback(
            edited_prefix(self.words@, edits@, self.words@.len()),
            fallback,
        ));
        Self::balance_control_flow(&mut words);
        Genome { words }
    }

    /// A mutated copy: every word draws its own edit, and a random word
    /// stands in where nothing is left. The parent stays as it is.
    pub fn mutate(&self, rng: &mut StdRng) -> (child: Genome)
        ensures
            exists|edits: Seq<Edit>, fallback: Word|
                {
                    &&& edits.len() == self.words@.len()
                    &&& forall|i: int| 0 <= i < edits.len() ==> edit_drawable(#[trigger] edits[i])
                    &&& fallback.drawable()
                    &&& child.words@ == mutated(self.words@, edits, fallback)
                },
            count_of(child.words@, Word::If) == count_of(child.words@, Word::Then),
    {
        let mut edits: Vec<Edit> = Vec::new();
        let n: usize = self.words.len();
        let mut i: usize = 0;
        while i < n
            invariant
                i <= n,
                edits@.len() == i,
                forall|j: int| 0 <= j < i ==> edit_drawable(#[trigger] edits@[j]),
            decreases n - i,
        {
            edits.push(Edit::random(rng));
            i += 1;
        }
        let mut words = self.apply_edits(&edits);
        let mut fallback = Word::Nop;
        assert(fallback == Word::spec_from_rolls(99, 7));
        if words.len() == 0 {
            fallback = Word::random(rng);
            words.push(fallback);
        }
        assert(words@ =~= or_fallback(
            edited_prefix(self.words@, edits@, self.words@.len()),
            fallback,
        ));
        Self::balance_control_flow(&mut words);
        assert(words@ == mutated(self.words@, edits@, fallback));
        Genome { words }
    }
}

} // verus!
