//! Per-agent execution state: pointer, operand stack, budget and the
//! control-flow tables.

use vstd::prelude::*;
use crate::config::{MAX_INSTRUCTIONS_PER_FRAME, STACK_CAPACITY};
use vstd::string::StringExecFns;
use crate::genome::Genome;
use crate::numeric::{two_place_string, two_place_text};
use crate::word::Word;

verus! {

/// A value on the operand stack.
#[derive(Debug, Clone, Copy, PartialEq, Eq, Structural)]
pub enum StackValue {
    /// A numeric, in millionths.
    Float(i64),
    /// A boolean.
    Bool(bool),
}

impl StackValue {
    /// The numeric held, or nothing for a boolean.
    pub fn as_float(&self) -> (r: Option<i64>)
        ensures
            r == (match *self {
                StackValue::Float(f) => Some(f),
                StackValue::Bool(_) => None,
            }),
    {
        match self {
            StackValue::Float(f) => Some(*f),
            _ => None,
        }
    }

    /// The boolean held, or nothing for a numeric.
    pub fn as_bool(&self) -> (r: Option<bool>)
        ensures
            r == (match *self {
                StackValue::Bool(b) => Some(b),
                StackValue::Float(_) => None,
            }),
    {
        match self {
            StackValue::Bool(b) => Some(*b),
            _ => None,
        }
    }

    /// The display form of each value: a numeric with two places after the
    /// point, a boolean by its name.
    pub open spec fn spec_text(self) -> Seq<char> {
        match self {
            StackValue::Float(f) => two_place_text(f as int),
            StackValue::Bool(b) => if b {
                "true"@
            } else {
                "false"@
            },
        }
    }

    /// Returns the display form of this value.
    pub fn to_text(&self) -> (s: String)
        ensures
            s@ == self.spec_text(),
    {
        match self {
            StackValue::Float(f) => two_place_string(*f),
            StackValue::Bool(b) => if *b {
                String::from_str("true")
            } else {
                String::from_str("false")
            },
        }
    }
}

/// Bookkeeping record of one conditional that is being executed.
#[derive(Debug, Clone)]
pub struct IfContext {
    pub if_position: usize,
    pub else_position: Option<usize>,
    pub then_position: Option<usize>,
    pub condition_result: bool,
    pub in_else_branch: bool,
}

/// One resolved conditional: the position of its `If`, of its `Else` where it
/// has one, and of its `Then`.
pub type JumpEntry = (usize, Option<usize>, usize);

/// State of the left-to-right scan that resolves conditionals.
pub struct ScanState {
    /// The `If`s not yet closed, outermost first, each with the last `Else`
    /// seen while it was the innermost.
    pub open: Seq<(usize, Option<usize>)>,
    /// The conditionals closed so far, in the order of their `Then`s.
    pub table: Seq<JumpEntry>,
}

/// The scan state after one more word, found at position `i`.
pub open spec fn scan_word(s: ScanState, word: Word, i: usize) -> ScanState {
    match word {
        Word::If => ScanState { open: s.open.push((i, None)), table: s.table },
        Word::Else => if s.open.len() > 0 {
            ScanState { open: s.open.drop_last().push((s.open.last().0, Some(i))), table: s.table }
        } else {
            s
        },
        Word::Then => if s.open.len() > 0 {
            ScanState {
                open: s.open.drop_last(),
                table: s.table.push((s.open.last().0, s.open.last().1, i)),
            }
        } else {
            s
        },
        _ => s,
    }
}

/// The scan state after the first `n` words.
pub open spec fn scan_prefix(words: Seq<Word>, n: nat) -> ScanState
    decreases n,
{
    if n == 0 {
        ScanState { open: Seq::empty(), table: Seq::empty() }
    } else {
        scan_word(scan_prefix(words, (n - 1) as nat), words[n - 1], (n - 1) as usize)
    }
}

/// The jump table of a word sequence: every `If` that a later `Then` closes,
/// innermost first where they nest; an `If` left open has no entry.
pub open spec fn jump_table_of(words: Seq<Word>) -> Seq<JumpEntry> {
    scan_prefix(words, words.len()).table
}

/// The first position among the first `n` words that holds `w`.
pub open spec fn first_in_prefix(words: Seq<Word>, w: Word, n: nat) -> Option<usize>
    decreases n,
{
    if n == 0 {
        None
    } else {
        match first_in_prefix(words, w, (n - 1) as nat) {
            Some(p) => Some(p),
            None => if words[n - 1] == w {
                Some((n - 1) as usize)
            } else {
                None
            },
        }
    }
}

/// The label word of each of the four slots.
pub open spec fn label_word(slot: int) -> Word {
    if slot == 0 {
        Word::Label0
    } else if slot == 1 {
        Word::Label1
    } else if slot == 2 {
        Word::Label2
    } else {
        Word::Label3
    }
}

/// The label table of a word sequence: for each slot the first position that
/// bears its label.
pub open spec fn label_table_of(words: Seq<Word>) -> Seq<Option<usize>> {
    Seq::new(4, |slot: int| first_in_prefix(words, label_word(slot), words.len()))
}

/// The budget of a tick that starts at the given energy.
pub open spec fn budget_for(energy: u32) -> u32 {
    if energy < MAX_INSTRUCTIONS_PER_FRAME {
        energy
    } else {
        MAX_INSTRUCTIONS_PER_FRAME
    }
}

/// The pointer after one step forward in a genome of the given length.
pub open spec fn next_pointer(pointer: usize, genome_len: usize) -> usize {
    if pointer + 1 >= genome_len {
        0
    } else {
        (pointer + 1) as usize
    }
}

/// The stack after a push that is dropped at capacity.
pub open spec fn push_capped(stack: Seq<StackValue>, value: StackValue) -> Seq<StackValue> {
    if stack.len() < STACK_CAPACITY {
        stack.push(value)
    } else {
        stack
    }
}

/// The stack without its top; the empty stack stays empty.
pub open spec fn without_top(stack: Seq<StackValue>) -> Seq<StackValue> {
    if stack.len() > 0 {
        stack.drop_last()
    } else {
        stack
    }
}

/// Every entry of a scan state lies within the first `n` words, on words of
/// the right kind and in the right order.
pub open spec fn scan_sound(words: Seq<Word>, s: ScanState, n: nat) -> bool {
    &&& forall|k: int|
        0 <= k < s.table.len() ==> entry_sound(words, #[trigger] s.table[k], n)
    &&& forall|k: int|
        0 <= k < s.open.len() ==> {
            let o = #[trigger] s.open[k];
            &&& o.0 < n
            &&& words[o.0 as int] == Word::If
            &&& o.1 is Some ==> o.0 < o.1->0 < n && words[o.1->0 as int] == Word::Else
        }
}

/// A jump entry names an `If`, then its `Else` where it has one, then a
/// `Then`, all within the first `n` words.
pub open spec fn entry_sound(words: Seq<Word>, e: JumpEntry, n: nat) -> bool {
    &&& e.0 < e.2 < n
    &&& words[e.0 as int] == Word::If
    &&& words[e.2 as int] == Word::Then
    &&& e.1 is Some ==> e.0 < e.1->0 < e.2 && words[e.1->0 as int] == Word::Else
}

/// The scan keeps its entries sound.
pub proof fn lemma_scan_sound(words: Seq<Word>, n: nat)
    requires
        n <= words.len(),
        words.len() <= usize::MAX,
    ensures
        scan_sound(words, scan_prefix(words, n), n),
    decreases n,
{
    if n > 0 {
        lemma_scan_sound(words, (n - 1) as nat);
        let prev = scan_prefix(words, (n - 1) as nat);
        let next = scan_prefix(words, n);
        assert forall|k: int| 0 <= k < next.table.len() implies entry_sound(
            words,
            #[trigger] next.table[k],
            n,
        ) by {
            if k < prev.table.len() {
                assert(entry_sound(words, prev.table[k], (n - 1) as nat));
            } else {
                let o = prev.open[prev.open.len() - 1];
                assert(o.0 < n - 1);
            }
        }
        assert forall|k: int| 0 <= k < next.open.len() implies {
            let o = #[trigger] next.open[k];
            &&& o.0 < n
            &&& words[o.0 as int] == Word::If
            &&& o.1 is Some ==> o.0 < o.1->0 < n && words[o.1->0 as int] == Word::Else
        } by {
            if k < prev.open.len() {
                let o = prev.open[k];
                assert(o.0 < n - 1);
            }
        }
    }
}

/// Two conditionals lie apart or one inside the other: the first ends before
/// the second begins, or begins after it.
pub open spec fn apart_or_inside(a: JumpEntry, b: JumpEntry) -> bool {
    a.2 < b.0 || b.0 < a.0
}

/// The conditionals of a scan state nest: the closed ones come in the order
/// of their `Then`s and never cross each other, the open ones come in the
/// order of their `If`s, and no open one begins inside a closed one.
pub open spec fn scan_nested(s: ScanState) -> bool {
    &&& forall|j: int, k: int|
        0 <= j < k < s.table.len() ==> (#[trigger] s.table[j]).2 < (#[trigger] s.table[k]).2
            && apart_or_inside(s.table[j], s.table[k])
    &&& forall|j: int, k: int|
        0 <= j < k < s.open.len() ==> (#[trigger] s.open[j]).0 < (#[trigger] s.open[k]).0
    &&& forall|j: int, k: int|
        0 <= j < s.table.len() && 0 <= k < s.open.len() ==> (#[trigger] s.open[k]).0 < (
        #[trigger] s.table[j]).0 || s.table[j].2 < s.open[k].0
}

/// The scan keeps its conditionals nested.
pub proof fn lemma_scan_nested(words: Seq<Word>, n: nat)
    requires
        n <= words.len(),
        words.len() <= usize::MAX,
    ensures
        scan_nested(scan_prefix(words, n)),
    decreases n,
{
    if n > 0 {
        lemma_scan_nested(words, (n - 1) as nat);
        lemma_scan_sound(words, (n - 1) as nat);
        let prev = scan_prefix(words, (n - 1) as nat);
        let next = scan_prefix(words, n);
        assert forall|j: int| 0 <= j < prev.table.len() implies (#[trigger] prev.table[j]).2 < n
            - 1 by {
            assert(entry_sound(words, prev.table[j], (n - 1) as nat));
        }
        assert forall|k: int| 0 <= k < prev.open.len() implies (#[trigger] prev.open[k]).0 < n
            - 1 by {}
        assert forall|j: int, k: int| 0 <= j < k < next.table.len() implies (
        #[trigger] next.table[j]).2 < (#[trigger] next.table[k]).2 && apart_or_inside(
            next.table[j],
            next.table[k],
        ) by {
            if k >= prev.table.len() {
                let top = prev.open[prev.open.len() - 1];
                assert(prev.table[j].2 < n - 1);
                assert(top.0 < prev.table[j].0 || prev.table[j].2 < top.0);
            }
        }
        assert forall|j: int, k: int| 0 <= j < k < next.open.len() implies (
        #[trigger] next.open[j]).0 < (#[trigger] next.open[k]).0 by {
            if k < prev.open.len() {
                assert(prev.open[j].0 < prev.open[k].0);
            } else {
                assert(prev.open[j].0 < n - 1);
            }
        }
        assert forall|j: int, k: int|
            0 <= j < next.table.len() && 0 <= k < next.open.len() implies (
        #[trigger] next.open[k]).0 < (#[trigger] next.table[j]).0 || next.table[j].2
            < next.open[k].0 by {
            if j < prev.table.len() {
                if k < prev.open.len() {
                    assert(prev.open[k].0 < prev.table[j].0 || prev.table[j].2 < prev.open[k].0);
                } else {
                    assert(prev.table[j].2 < n - 1);
                }
            } else {
                assert(prev.open[k].0 < prev.open[prev.open.len() - 1].0);
            }
        }
    }
}

/// Conditionals nest: of two entries of a jump table the earlier one ends
/// first, and it lies wholly before the later one or wholly inside it, so an
/// inner conditional resolves by itself whatever encloses it.
pub proof fn lemma_jump_table_nested(words: Seq<Word>, j: int, k: int)
    requires
        words.len() <= usize::MAX,
        0 <= j < k < jump_table_of(words).len(),
    ensures
        jump_table_of(words)[j].2 < jump_table_of(words)[k].2,
        jump_table_of(words)[j].2 < jump_table_of(words)[k].0 || (jump_table_of(words)[k].0
            < jump_table_of(words)[j].0 && jump_table_of(words)[j].2 < jump_table_of(words)[k].2),
{
    lemma_scan_nested(words, words.len());
    let t = scan_prefix(words, words.len()).table;
    assert(t[j].2 < t[k].2 && apart_or_inside(t[j], t[k]));
}

/// Whether the table holds a conditional whose `If` stands at `p`.
pub open spec fn resolves_if(table: Seq<JumpEntry>, p: int) -> bool {
    exists|j: int| 0 <= j < table.len() && (#[trigger] table[j]).0 == p
}

/// Whether the table holds a conditional whose `Then` stands at `q`.
pub open spec fn resolves_then(table: Seq<JumpEntry>, q: int) -> bool {
    exists|j: int| 0 <= j < table.len() && (#[trigger] table[j]).2 == q
}

/// Whether the `If` at `p` is among the open ones.
pub open spec fn holds_open(open: Seq<(usize, Option<usize>)>, p: int) -> bool {
    exists|k: int| 0 <= k < open.len() && (#[trigger] open[k]).0 == p
}

/// What lies inside the conditional `e` is matched: every `If` and every
/// `Then` strictly between its `If` and its `Then` belongs to a conditional
/// of the table.
pub open spec fn inside_matched(words: Seq<Word>, table: Seq<JumpEntry>, e: JumpEntry) -> bool {
    forall|p: int|
        e.0 < p < e.2 ==> {
            &&& (#[trigger] words[p]) == Word::If ==> resolves_if(table, p)
            &&& words[p] == Word::Then ==> resolves_then(table, p)
        }
}

/// The scan loses nothing: every `If` among the first `n` words is open or
/// closed, every `Then` after an open `If` closed a conditional, and what
/// lies inside a closed conditional is matched.
pub open spec fn scan_complete(words: Seq<Word>, s: ScanState, n: nat) -> bool {
    &&& forall|p: int|
        0 <= p < n && (#[trigger] words[p]) == Word::If ==> holds_open(s.open, p) || resolves_if(
            s.table,
            p,
        )
    &&& forall|k: int, q: int|
        0 <= k < s.open.len() && (#[trigger] s.open[k]).0 < q < n && (#[trigger] words[q])
            == Word::Then ==> resolves_then(s.table, q)
    &&& forall|j: int|
        0 <= j < s.table.len() ==> inside_matched(words, s.table, #[trigger] s.table[j])
}

proof fn lemma_resolved_stays(table: Seq<JumpEntry>, e: JumpEntry, p: int)
    ensures
        resolves_if(table, p) ==> resolves_if(table.push(e), p),
        resolves_then(table, p) ==> resolves_then(table.push(e), p),
        resolves_if(table.push(e), e.0 as int),
        resolves_then(table.push(e), e.2 as int),
{
    if resolves_if(table, p) {
        let j = choose|j: int| 0 <= j < table.len() && (#[trigger] table[j]).0 == p;
        assert(table.push(e)[j].0 == p);
    }
    if resolves_then(table, p) {
        let j = choose|j: int| 0 <= j < table.len() && (#[trigger] table[j]).2 == p;
        assert(table.push(e)[j].2 == p);
    }
    assert(table.push(e)[table.len() as int] == e);
}

/// The scan loses nothing.
pub proof fn lemma_scan_complete(words: Seq<Word>, n: nat)
    requires
        n <= words.len(),
        words.len() <= usize::MAX,
    ensures
        scan_complete(words, scan_prefix(words, n), n),
    decreases n,
{
    if n > 0 {
        lemma_scan_complete(words, (n - 1) as nat);
        lemma_scan_nested(words, (n - 1) as nat);
        lemma_scan_sound(words, (n - 1) as nat);
        let prev = scan_prefix(words, (n - 1) as nat);
        let next = scan_prefix(words, n);
        let w = words[n - 1];
        let closes = w == Word::Then && prev.open.len() > 0;
        let top = prev.open[prev.open.len() - 1];
        let entry: JumpEntry = (top.0, top.1, (n - 1) as usize);
        assert(closes ==> next.table == prev.table.push(entry));
        assert(!closes ==> next.table == prev.table);
        assert forall|p: int| resolves_if(prev.table, p) implies resolves_if(next.table, p) by {
            lemma_resolved_stays(prev.table, entry, p);
        }
        assert forall|p: int| resolves_then(prev.table, p) implies resolves_then(
            next.table,
            p,
        ) by {
            lemma_resolved_stays(prev.table, entry, p);
        }
        if closes {
            lemma_resolved_stays(prev.table, entry, 0);
        }
        assert forall|p: int| 0 <= p < n && (#[trigger] words[p]) == Word::If implies holds_open(
            next.open,
            p,
        ) || resolves_if(next.table, p) by {
            if p == n - 1 {
                assert(next.open[next.open.len() - 1].0 == p);
            } else if !resolves_if(prev.table, p) {
                assert(holds_open(prev.open, p));
                let k = choose|k: int| 0 <= k < prev.open.len() && (#[trigger] prev.open[k]).0 == p;
                if w == Word::If {
                    assert(next.open[k].0 == p);
                } else if w == Word::Else {
                    assert(next.open[k].0 == p);
                } else if w == Word::Then {
                    if k < prev.open.len() - 1 {
                        assert(next.open[k].0 == p);
                    }
                }
            }
        }
        assert forall|k: int, q: int|
            0 <= k < next.open.len() && (#[trigger] next.open[k]).0 < q < n && (#[trigger] words[q])
                == Word::Then implies resolves_then(next.table, q) by {
            if q < n - 1 {
                assert(k < prev.open.len());
                assert(prev.open[k].0 == next.open[k].0);
                assert(resolves_then(prev.table, q));
            }
        }
        assert forall|j: int| 0 <= j < next.table.len() implies inside_matched(
            words,
            next.table,
            #[trigger] next.table[j],
        ) by {
            let e = next.table[j];
            assert forall|p: int| e.0 < p < e.2 implies {
                &&& (#[trigger] words[p]) == Word::If ==> resolves_if(next.table, p)
                &&& words[p] == Word::Then ==> resolves_then(next.table, p)
            } by {
                if j < prev.table.len() {
                    assert(inside_matched(words, prev.table, prev.table[j]));
                } else {
                    if words[p] == Word::If && !resolves_if(prev.table, p) {
                        let k = choose|k: int|
                            0 <= k < prev.open.len() && (#[trigger] prev.open[k]).0 == p;
                        if k < prev.open.len() - 1 {
                            assert(prev.open[k].0 < prev.open[prev.open.len() - 1].0);
                        }
                    }
                    if words[p] == Word::Then {
                        assert(prev.open[prev.open.len() - 1].0 < p < n - 1);
                        assert(resolves_then(prev.table, p));
                    }
                }
            }
        }
    }
}

/// What lies inside a conditional of a jump table is matched: every `If`
/// and every `Then` strictly between the two ends of an entry has an entry of
/// its own. With the nesting of entries, each entry therefore pairs an `If`
/// with the `Then` that closes it.
pub proof fn lemma_jump_table_matched(words: Seq<Word>, j: int)
    requires
        words.len() <= usize::MAX,
        0 <= j < jump_table_of(words).len(),
    ensures
        inside_matched(words, jump_table_of(words), jump_table_of(words)[j]),
{
    lemma_scan_complete(words, words.len());
}

/// An `If` without an entry in the jump table is one that no `Then` closes:
/// every `Then` after it closes another conditional.
pub proof fn lemma_unresolved_if_stays_open(words: Seq<Word>, p: int, q: int)
    requires
        words.len() <= usize::MAX,
        0 <= p < q < words.len(),
        words[p] == Word::If,
        words[q] == Word::Then,
        !resolves_if(jump_table_of(words), p),
    ensures
        resolves_then(jump_table_of(words), q),
        forall|j: int|
            0 <= j < jump_table_of(words).len() && (#[trigger] jump_table_of(words)[j]).2 == q
                ==> p < jump_table_of(words)[j].0,
{
    lemma_scan_complete(words, words.len());
    lemma_scan_nested(words, words.len());
    let s = scan_prefix(words, words.len());
    assert(holds_open(s.open, p));
    let k = choose|k: int| 0 <= k < s.open.len() && (#[trigger] s.open[k]).0 == p;
    assert(s.open[k].0 < q < words.len() && words[q] == Word::Then);
    assert forall|j: int| 0 <= j < s.table.len() && (#[trigger] s.table[j]).2 == q implies p
        < s.table[j].0 by {
        assert(s.open[k].0 < s.table[j].0 || s.table[j].2 < s.open[k].0);
    }
}

/// Whether `x` lies inside a conditional of the table that begins after
/// `from`.
pub open spec fn enclosed(table: Seq<JumpEntry>, from: int, x: int) -> bool {
    exists|j: int| 0 <= j < table.len() && from < (#[trigger] table[j]).0 < x < table[j].2
}

/// The `Else` recorded for a conditional that begins at `begin` is the last
/// one that lies directly inside it, as far as `end`: it belongs to no inner
/// conditional, and every later `Else` before `end` does.
pub open spec fn else_is_last_direct(
    words: Seq<Word>,
    table: Seq<JumpEntry>,
    begin: usize,
    recorded: Option<usize>,
    end: int,
) -> bool {
    &&& recorded is Some ==> recorded->0 < end && !enclosed(table, begin as int, recorded->0 as int)
    &&& forall|x: int|
        begin < x < end && (#[trigger] words[x]) == Word::Else && (recorded is Some ==> recorded->0
            < x) ==> enclosed(table, begin as int, x)
}

/// Where the span of the `k`th open conditional ends so far: at the next
/// open one, or at the end of the scan.
pub open spec fn open_span_end(open: Seq<(usize, Option<usize>)>, k: int, n: nat) -> int {
    if k + 1 < open.len() {
        open[k + 1].0 as int
    } else {
        n as int
    }
}

/// The scan records for every conditional, open or closed, the last `Else`
/// directly inside it.
pub open spec fn scan_else_sound(words: Seq<Word>, s: ScanState, n: nat) -> bool {
    &&& forall|k: int|
        0 <= k < s.open.len() ==> else_is_last_direct(
            words,
            s.table,
            (#[trigger] s.open[k]).0,
            s.open[k].1,
            open_span_end(s.open, k, n),
        )
    &&& forall|j: int|
        0 <= j < s.table.len() ==> else_is_last_direct(
            words,
            s.table,
            (#[trigger] s.table[j]).0,
            s.table[j].1,
            s.table[j].2 as int,
        )
}

proof fn lemma_enclosed_stays(table: Seq<JumpEntry>, e: JumpEntry, from: int, x: int)
    ensures
        enclosed(table, from, x) ==> enclosed(table.push(e), from, x),
        from < e.0 < x < e.2 ==> enclosed(table.push(e), from, x),
        !enclosed(table, from, x) && !(from < e.0 < x < e.2) ==> !enclosed(table.push(e), from, x),
{
    let grown = table.push(e);
    if enclosed(table, from, x) {
        let j = choose|j: int| 0 <= j < table.len() && from < (#[trigger] table[j]).0 < x < table[j].2;
        assert(from < grown[j].0 < x < grown[j].2);
    }
    if from < e.0 < x < e.2 {
        assert(from < grown[table.len() as int].0 < x < grown[table.len() as int].2);
    }
    if enclosed(grown, from, x) {
        let j = choose|j: int| 0 <= j < grown.len() && from < (#[trigger] grown[j]).0 < x < grown[j].2;
        if j < table.len() {
            assert(from < table[j].0 < x < table[j].2);
        }
    }
}

/// The scan records the last `Else` directly inside every conditional.
pub proof fn lemma_scan_else_sound(words: Seq<Word>, n: nat)
    requires
        n <= words.len(),
        words.len() <= usize::MAX,
    ensures
        scan_else_sound(words, scan_prefix(words, n), n),
    decreases n,
{
    if n > 0 {
        lemma_scan_else_sound(words, (n - 1) as nat);
        lemma_scan_nested(words, (n - 1) as nat);
        lemma_scan_sound(words, (n - 1) as nat);
        let prev = scan_prefix(words, (n - 1) as nat);
        let next = scan_prefix(words, n);
        let w = words[n - 1];
        let closes = w == Word::Then && prev.open.len() > 0;
        let top = prev.open[prev.open.len() - 1];
        let entry: JumpEntry = (top.0, top.1, (n - 1) as usize);
        assert(closes ==> next.table == prev.table.push(entry));
        assert(!closes ==> next.table == prev.table);
        assert forall|from: int, x: int| enclosed(prev.table, from, x) implies enclosed(
            next.table,
            from,
            x,
        ) by {
            lemma_enclosed_stays(prev.table, entry, from, x);
        }
        assert forall|j: int| 0 <= j < prev.table.len() implies (#[trigger] prev.table[j]).2 < n
            - 1 by {
            assert(entry_sound(words, prev.table[j], (n - 1) as nat));
        }
        assert forall|k: int| 0 <= k < next.open.len() implies else_is_last_direct(
            words,
            next.table,
            (#[trigger] next.open[k]).0,
            next.open[k].1,
            open_span_end(next.open, k, n),
        ) by {
            let o = next.open[k];
            let end = open_span_end(next.open, k, n);
            if k < prev.open.len() {
                let before = prev.open[k];
                let before_end = open_span_end(prev.open, k, (n - 1) as nat);
                assert(else_is_last_direct(words, prev.table, before.0, before.1, before_end));
                assert(o.0 == before.0);
                if k + 1 < prev.open.len() {
                    assert(prev.open[k].0 < prev.open[k + 1].0);
                    assert(prev.open[k + 1].0 <= top.0) by {
                        if k + 1 < prev.open.len() - 1 {
                            assert(prev.open[k + 1].0 < prev.open[prev.open.len() - 1].0);
                        }
                    }
                }
                if o.1 is Some {
                    if o.1 == before.1 {
                        lemma_enclosed_stays(prev.table, entry, o.0 as int, o.1->0 as int);
                    } else {
                        assert(o.1->0 == n - 1);
                        if enclosed(next.table, o.0 as int, o.1->0 as int) {
                            let j = choose|j: int|
                                0 <= j < next.table.len() && o.0 < (#[trigger] next.table[j]).0
                                    < o.1->0 < next.table[j].2;
                            assert(prev.table[j].2 < n - 1);
                        }
                    }
                }
                assert forall|x: int|
                    o.0 < x < end && (#[trigger] words[x]) == Word::Else && (o.1 is Some ==> o.1->0
                        < x) implies enclosed(next.table, o.0 as int, x) by {
                    if x < before_end {
                        if o.1 != before.1 {
                            assert(o.1->0 == n - 1);
                        } else {
                            assert(enclosed(prev.table, o.0 as int, x));
                        }
                    } else if closes {
                        assert(k == prev.open.len() - 2);
                        assert(before_end == top.0);
                        assert(top.0 < x < n - 1);
                        lemma_enclosed_stays(prev.table, entry, o.0 as int, x);
                    }
                }
            }
        }
        assert forall|j: int| 0 <= j < next.table.len() implies else_is_last_direct(
            words,
            next.table,
            (#[trigger] next.table[j]).0,
            next.table[j].1,
            next.table[j].2 as int,
        ) by {
            let e = next.table[j];
            if j < prev.table.len() {
                assert(else_is_last_direct(words, prev.table, e.0, e.1, e.2 as int));
                if closes && e.1 is Some {
                    assert(top.0 < e.0 || e.2 < top.0);
                    assert(entry_sound(words, e, (n - 1) as nat));
                    lemma_enclosed_stays(prev.table, entry, e.0 as int, e.1->0 as int);
                }
            } else {
                assert(else_is_last_direct(
                    words,
                    prev.table,
                    top.0,
                    top.1,
                    open_span_end(prev.open, prev.open.len() - 1, (n - 1) as nat),
                ));
                if top.1 is Some {
                    lemma_enclosed_stays(prev.table, entry, top.0 as int, top.1->0 as int);
                }
            }
        }
    }
}

/// The `Else` of an entry of a jump table is the last `Else` directly inside
/// its conditional: it belongs to no inner conditional, and every `Else`
/// after it, up to the `Then`, does. An entry without an `Else` has none
/// directly inside.
pub proof fn lemma_jump_table_else(words: Seq<Word>, j: int)
    requires
        words.len() <= usize::MAX,
        0 <= j < jump_table_of(words).len(),
    ensures
        else_is_last_direct(
            words,
            jump_table_of(words),
            jump_table_of(words)[j].0,
            jump_table_of(words)[j].1,
            jump_table_of(words)[j].2 as int,
        ),
{
    lemma_scan_else_sound(words, words.len());
}

/// Every entry of a jump table names an `If`, its `Else` where it has one,
/// and a `Then`, in this order and inside the sequence.
pub proof fn lemma_jump_table_sound(words: Seq<Word>)
    requires
        words.len() <= usize::MAX,
    ensures
        forall|k: int|
            0 <= k < jump_table_of(words).len() ==> entry_sound(
                words,
                #[trigger] jump_table_of(words)[k],
                words.len(),
            ),
{
    lemma_scan_sound(words, words.len());
}

/// What `first_in_prefix` finds is the first occurrence: it holds the word,
/// no earlier position does, and nothing is found only where the word does
/// not occur.
pub proof fn lemma_first_in_prefix(words: Seq<Word>, w: Word, n: nat)
    requires
        n <= words.len(),
        words.len() <= usize::MAX,
    ensures
        match first_in_prefix(words, w, n) {
            Some(p) => p < n && words[p as int] == w && forall|j: int|
                0 <= j < p ==> words[j] != w,
            None => forall|j: int| 0 <= j < n ==> words[j] != w,
        },
    decreases n,
{
    if n > 0 {
        lemma_first_in_prefix(words, w, (n - 1) as nat);
    }
}

/// Each slot of a label table holds the first position that bears its label,
/// and nothing where the label does not occur.
pub proof fn lemma_label_table(words: Seq<Word>, slot: int)
    requires
        0 <= slot < 4,
        words.len() <= usize::MAX,
    ensures
        match label_table_of(words)[slot] {
            Some(p) => p < words.len() && words[p as int] == label_word(slot) && forall|j: int|
                0 <= j < p ==> words[j] != label_word(slot),
            None => forall|j: int| 0 <= j < words.len() ==> words[j] != label_word(slot),
        },
{
    lemma_first_in_prefix(words, label_word(slot), words.len());
}

/// Execution state of one agent. It persists from tick to tick.
pub struct GenomeExecutor {
    /// Index of the next word to execute.
    pub instruction_pointer: usize,
    /// The operand stack.
    pub stack: Vec<StackValue>,
    /// Instructions executed in the current tick.
    pub instructions_executed_this_frame: u32,
    /// Instructions allowed in the current tick.
    pub max_instructions_per_frame: u32,
    /// Conditionals in progress; cleared at the start of each tick.
    pub if_stack: Vec<IfContext>,
    /// Resolved conditionals of the genome.
    pub jump_table: Vec<JumpEntry>,
    /// Position of each of the four labels.
    pub label_table: [Option<usize>; 4],
}

impl GenomeExecutor {
    /// Whether no jump of the tables can leave the range of `usize`.
    pub open spec fn targets_fit(&self) -> bool {
        forall|k: int|
            0 <= k < self.jump_table@.len() ==> {
                let e = #[trigger] self.jump_table@[k];
                e.2 < usize::MAX && (e.1 is Some ==> e.1->0 < usize::MAX)
            }
    }

    /// Whether the executor keeps its bounds: the stack within its capacity
    /// and the budget within the most a tick allows.
    pub open spec fn wf(&self) -> bool {
        &&& self.stack@.len() <= STACK_CAPACITY
        &&& self.max_instructions_per_frame <= MAX_INSTRUCTIONS_PER_FRAME
    }

    /// A fresh executor for an agent of the given energy.
    pub fn new(energy: u32) -> (r: GenomeExecutor)
        ensures
            r.instruction_pointer == 0,
            r.stack@.len() == 0,
            r.instructions_executed_this_frame == 0,
            r.max_instructions_per_frame == budget_for(energy),
            r.if_stack@.len() == 0,
            r.jump_table@.len() == 0,
            r.label_table@ == Seq::new(4, |slot: int| None::<usize>),
            r.wf(),
    {
        let r = GenomeExecutor {
            instruction_pointer: 0,
            stack: Vec::with_capacity(256),
            instructions_executed_this_frame: 0,
            max_instructions_per_frame: if energy < MAX_INSTRUCTIONS_PER_FRAME {
                energy
            } else {
                MAX_INSTRUCTIONS_PER_FRAME
            },
            if_stack: Vec::new(),
            jump_table: Vec::new(),
            label_table: [None, None, None, None],
        };
        assert(r.label_table@ =~= Seq::new(4, |slot: int| None::<usize>));
        r
    }

    /// Starts a tick: resets the counters and keeps pointer and stack.
    pub fn reset_for_frame(&mut self, energy: u32)
        ensures
            old(self).stack@.len() <= STACK_CAPACITY ==> final(self).wf(),
            final(self).instruction_pointer == old(self).instruction_pointer,
            final(self).stack == old(self).stack,
            final(self).instructions_executed_this_frame == 0,
            final(self).max_instructions_per_frame == budget_for(energy),
            final(self).if_stack@.len() == 0,
            final(self).jump_table == old(self).jump_table,
            final(self).label_table == old(self).label_table,
    {
        self.if_stack.clear();
        self.instructions_executed_this_frame = 0;
        self.max_instructions_per_frame = if energy < MAX_INSTRUCTIONS_PER_FRAME {
            energy
        } else {
            MAX_INSTRUCTIONS_PER_FRAME
        };
    }

    /// Whether the budget of this tick allows another instruction.
    pub fn can_execute(&self) -> (r: bool)
        ensures
            r == (self.instructions_executed_this_frame < self.max_instructions_per_frame),
    {
        self.instructions_executed_this_frame < self.max_instructions_per_frame
    }

    /// Moves the pointer one word on, back to the start past the end, and
    /// counts one instruction.
    pub fn advance(&mut self, genome_len: usize)
        requires
            old(self).instructions_executed_this_frame < u32::MAX,
        ensures
            old(self).wf() ==> final(self).wf(),
            final(self).instruction_pointer == next_pointer(
                old(self).instruction_pointer,
                genome_len,
            ),
            final(self).instructions_executed_this_frame
                == old(self).instructions_executed_this_frame + 1,
            final(self).stack == old(self).stack,
            final(self).max_instructions_per_frame == old(self).max_instructions_per_frame,
            final(self).if_stack == old(self).if_stack,
            final(self).jump_table == old(self).jump_table,
            final(self).label_table == old(self).label_table,
    {
        if self.instruction_pointer >= genome_len || self.instruction_pointer + 1 >= genome_len {
            self.instruction_pointer = 0;
        } else {
            self.instruction_pointer += 1;
        }
        self.instructions_executed_this_frame += 1;
    }

    /// Rebuilds the jump table from the genome in one scan.
    pub fn build_jump_table(&mut self, genome: &Genome)
        ensures
            old(self).wf() ==> final(self).wf(),
            final(self).jump_table@ == jump_table_of(genome.words@),
            final(self).targets_fit(),
            final(self).instruction_pointer == old(self).instruction_pointer,
            final(self).stack == old(self).stack,
            final(self).instructions_executed_this_frame
                == old(self).instructions_executed_this_frame,
            final(self).max_instructions_per_frame == old(self).max_instructions_per_frame,
            final(self).if_stack == old(self).if_stack,
            final(self).label_table == old(self).label_table,
    {
        self.jump_table.clear();
        let mut open: Vec<(usize, Option<usize>)> = Vec::new();
        let n: usize = genome.words.len();
        let mut i: usize = 0;
        while i < n
            invariant
                i <= n,
                n == genome.words@.len(),
                open@ == scan_prefix(genome.words@, i as nat).open,
                self.jump_table@ == scan_prefix(genome.words@, i as nat).table,
                self.instruction_pointer == old(self).instruction_pointer,
                self.stack == old(self).stack,
                self.instructions_executed_this_frame
                    == old(self).instructions_executed_this_frame,
                self.max_instructions_per_frame == old(self).max_instructions_per_frame,
                self.if_stack == old(self).if_stack,
                self.label_table == old(self).label_table,
            decreases n - i,
        {
            match genome.words[i] {
                Word::If => {
                    open.push((i, None));
                },
                Word::Else => {
                    if open.len() > 0 {
                        let top = open.pop().unwrap();
                        open.push((top.0, Some(i)));
                    }
                },
                Word::Then => {
                    if open.len() > 0 {
                        let top = open.pop().unwrap();
                        self.jump_table.push((top.0, top.1, i));
                    }
                },
                _ => {},
            }
            i += 1;
        }
        proof {
            lemma_jump_table_sound(genome.words@);
            assert forall|k: int| 0 <= k < self.jump_table@.len() implies {
                let e = #[trigger] self.jump_table@[k];
                e.2 < usize::MAX && (e.1 is Some ==> e.1->0 < usize::MAX)
            } by {
                assert(entry_sound(
                    genome.words@,
                    jump_table_of(genome.words@)[k],
                    genome.words@.len(),
                ));
            }
        }
    }

    /// Rebuilds the label table: each slot gets the first position of its
    /// label, or nothing where the genome lacks the label.
    pub fn build_label_table(&mut self, genome: &Genome)
        ensures
            old(self).wf() ==> final(self).wf(),
            final(self).label_table@ == label_table_of(genome.words@),
            final(self).instruction_pointer == old(self).instruction_pointer,
            final(self).stack == old(self).stack,
            final(self).instructions_executed_this_frame
                == old(self).instructions_executed_this_frame,
            final(self).max_instructions_per_frame == old(self).max_instructions_per_frame,
            final(self).if_stack == old(self).if_stack,
            final(self).jump_table == old(self).jump_table,
    {
        let mut l0: Option<usize> = None;
        let mut l1: Option<usize> = None;
        let mut l2: Option<usize> = None;
        let mut l3: Option<usize> = None;
        let n: usize = genome.words.len();
        let mut i: usize = 0;
        while i < n
            invariant
                i <= n,
                n == genome.words@.len(),
                l0 == first_in_prefix(genome.words@, Word::Label0, i as nat),
                l1 == first_in_prefix(genome.words@, Word::Label1, i as nat),
                l2 == first_in_prefix(genome.words@, Word::Label2, i as nat),
                l3 == first_in_prefix(genome.words@, Word::Label3, i as nat),
            decreases n - i,
        {
            match genome.words[i] {
                Word::Label0 => {
                    if l0.is_none() {
                        l0 = Some(i);
                    }
                },
                Word::Label1 => {
                    if l1.is_none() {
                        l1 = Some(i);
                    }
                },
                Word::Label2 => {
                    if l2.is_none() {
                        l2 = Some(i);
                    }
                },
                Word::Label3 => {
                    if l3.is_none() {
                        l3 = Some(i);
                    }
                },
                _ => {},
            }
            i += 1;
        }
        self.label_table = [l0, l1, l2, l3];
        assert(self.label_table@ =~= label_table_of(genome.words@));
    }

    /// Pushes a value; at capacity the push is dropped.
    pub fn push(&mut self, value: StackValue)
        ensures
            old(self).wf() ==> final(self).wf(),
            final(self).stack@ == push_capped(old(self).stack@, value),
            final(self).instruction_pointer == old(self).instruction_pointer,
            final(self).instructions_executed_this_frame
                == old(self).instructions_executed_this_frame,
            final(self).max_instructions_per_frame == old(self).max_instructions_per_frame,
            final(self).if_stack == old(self).if_stack,
            final(self).jump_table == old(self).jump_table,
            final(self).label_table == old(self).label_table,
    {
        if self.stack.len() < STACK_CAPACITY {
            self.stack.push(value);
        }
    }

    /// Pushes a numeric; at capacity the push is dropped.
    pub fn push_float(&mut self, value: i64)
        ensures
            old(self).wf() ==> final(self).wf(),
            final(self).stack@ == push_capped(old(self).stack@, StackValue::Float(value)),
            final(self).instruction_pointer == old(self).instruction_pointer,
            final(self).instructions_executed_this_frame
                == old(self).instructions_executed_this_frame,
            final(self).max_instructions_per_frame == old(self).max_instructions_per_frame,
            final(self).if_stack == old(self).if_stack,
            final(self).jump_table == old(self).jump_table,
            final(self).label_table == old(self).label_table,
    {
        if self.stack.len() < STACK_CAPACITY {
            self.stack.push(StackValue::Float(value));
        }
    }

    /// Pushes a boolean; at capacity the push is dropped.
    pub fn push_bool(&mut self, value: bool)
        ensures
            old(self).wf() ==> final(self).wf(),
            final(self).stack@ == push_capped(old(self).stack@, StackValue::Bool(value)),
            final(self).instruction_pointer == old(self).instruction_pointer,
            final(self).instructions_executed_this_frame
                == old(self).instructions_executed_this_frame,
            final(self).max_instructions_per_frame == old(self).max_instructions_per_frame,
            final(self).if_stack == old(self).if_stack,
            final(self).jump_table == old(self).jump_table,
            final(self).label_table == old(self).label_table,
    {
        if self.stack.len() < STACK_CAPACITY {
            self.stack.push(StackValue::Bool(value));
        }
    }

    /// Removes the top of the stack and returns it where it is a numeric.
    pub fn pop_float(&mut self) -> (r: Option<i64>)
        ensures
            old(self).wf() ==> final(self).wf(),
            final(self).stack@ == without_top(old(self).stack@),
            r == (if old(self).stack@.len() > 0 {
                match old(self).stack@.last() {
                    StackValue::Float(f) => Some(f),
                    StackValue::Bool(_) => None,
                }
            } else {
                None
            }),
            final(self).instruction_pointer == old(self).instruction_pointer,
            final(self).instructions_executed_this_frame
                == old(self).instructions_executed_this_frame,
            final(self).max_instructions_per_frame == old(self).max_instructions_per_frame,
            final(self).if_stack == old(self).if_stack,
            final(self).jump_table == old(self).jump_table,
            final(self).label_table == old(self).label_table,
    {
        match self.stack.pop() {
            Some(v) => v.as_float(),
            None => None,
        }
    }

    /// Removes the top of the stack and returns it where it is a boolean.
    pub fn pop_bool(&mut self) -> (r: Option<bool>)
        ensures
            old(self).wf() ==> final(self).wf(),
            final(self).stack@ == without_top(old(self).stack@),
            r == (if old(self).stack@.len() > 0 {
                match old(self).stack@.last() {
                    StackValue::Bool(b) => Some(b),
                    StackValue::Float(_) => None,
                }
            } else {
                None
            }),
            final(self).instruction_pointer == old(self).instruction_pointer,
            final(self).instructions_executed_this_frame
                == old(self).instructions_executed_this_frame,
            final(self).max_instructions_per_frame == old(self).max_instructions_per_frame,
            final(self).if_stack == old(self).if_stack,
            final(self).jump_table == old(self).jump_table,
            final(self).label_table == old(self).label_table,
    {
        match self.stack.pop() {
            Some(v) => v.as_bool(),
            None => None,
        }
    }

    /// Removes the top of the stack and returns it.
    pub fn pop(&mut self) -> (r: Option<StackValue>)
        ensures
            old(self).wf() ==> final(self).wf(),
            final(self).stack@ == without_top(old(self).stack@),
            r == (if old(self).stack@.len() > 0 {
                Some(old(self).stack@.last())
            } else {
                None
            }),
            final(self).instruction_pointer == old(self).instruction_pointer,
            final(self).instructions_executed_this_frame
                == old(self).instructions_executed_this_frame,
            final(self).max_instructions_per_frame == old(self).max_instructions_per_frame,
            final(self).if_stack == old(self).if_stack,
            final(self).jump_table == old(self).jump_table,
            final(self).label_table == old(self).label_table,
    {
        self.stack.pop()
    }

    /// The top of the stack, left in place.
    pub fn peek(&self) -> (r: Option<&StackValue>)
        ensures
            r == (if self.stack@.len() > 0 {
                Some(&self.stack@.last())
            } else {
                None
            }),
    {
        if self.stack.len() > 0 {
            Some(&self.stack[self.stack.len() - 1])
        } else {
            None
        }
    }
}

} // verus!
