use vstd::prelude::*;
use crate::char_type::{char_type_of_point, char_type_of_code_point, CharType};
use crate::unicode::NEWLINE;

verus! {

/// The class of a code unit when deleting a word at a time.
#[derive(PartialEq, Eq, Structural, Debug, Clone, Copy)]
pub enum WordClass {
    Whitespace,
    Zwsp,
    Newline,
    Punctuation,
    Other,
}

/// The direction in which a word deletion walks.
#[derive(PartialEq, Eq, Structural, Debug, Clone, Copy)]
pub enum Direction {
    Forwards,
    Backwards,
}

impl Direction {
    /// One step in this direction.
    pub fn increment(&self, index: usize) -> (r: usize)
        requires
            *self is Backwards ==> index > 0,
            *self is Forwards ==> index < usize::MAX,
        ensures
            *self is Backwards ==> r == index - 1,
            *self is Forwards ==> r == index + 1,
    {
        match self {
            Direction::Backwards => index - 1,
            Direction::Forwards => index + 1,
        }
    }

    /// One step against this direction.
    pub fn decrement(&self, index: usize) -> (r: usize)
        requires
            *self is Backwards ==> index < usize::MAX,
            *self is Forwards ==> index > 0,
        ensures
            *self is Backwards ==> r == index + 1,
            *self is Forwards ==> r == index - 1,
    {
        match self {
            Direction::Backwards => index + 1,
            Direction::Forwards => index - 1,
        }
    }
}

/// The class of a code unit: a line break, then the classes of characters;
/// a surrogate belongs to a character outside the basic plane, which is
/// neither space nor punctuation.
pub open spec fn class_of_unit(u: u16) -> WordClass {
    if u == NEWLINE {
        WordClass::Newline
    } else if 0xD800 <= u && u <= 0xDFFF {
        WordClass::Other
    } else {
        match char_type_of_point(u as u32) {
            CharType::Whitespace => WordClass::Whitespace,
            CharType::ZWSP => WordClass::Zwsp,
            CharType::Punctuation => WordClass::Punctuation,
            CharType::Other => WordClass::Other,
        }
    }
}

pub fn word_class_of(u: u16) -> (r: WordClass)
    ensures
        r == class_of_unit(u),
{
    if u == NEWLINE {
        WordClass::Newline
    } else if 0xD800 <= u && u <= 0xDFFF {
        WordClass::Other
    } else {
        match char_type_of_code_point(u as u32) {
            CharType::Whitespace => WordClass::Whitespace,
            CharType::ZWSP => WordClass::Zwsp,
            CharType::Punctuation => WordClass::Punctuation,
            CharType::Other => WordClass::Other,
        }
    }
}

/// Where the run of units of class `cls` that ends at `end` starts.
pub open spec fn run_start(t: Seq<u16>, end: int, cls: WordClass) -> int
    decreases end,
{
    if 0 < end <= t.len() && class_of_unit(t[end - 1]) == cls {
        run_start(t, end - 1, cls)
    } else {
        end
    }
}

/// Where the run of units of class `cls` that starts at `start` ends.
pub open spec fn run_end(t: Seq<u16>, start: int, cls: WordClass) -> int
    decreases t.len() - start,
{
    if 0 <= start < t.len() && class_of_unit(t[start]) == cls {
        run_end(t, start + 1, cls)
    } else {
        start
    }
}

/// The run that starts next to the cursor `c`, walking in `dir`: where it
/// ends, and whether a line break stands just beyond it.
pub open spec fn run_from(t: Seq<u16>, c: int, dir: Direction) -> (int, bool) {
    match dir {
        Direction::Backwards => {
            let i = run_start(t, c, class_of_unit(t[c - 1]));
            (i, i > 0 && class_of_unit(t[i - 1]) == WordClass::Newline)
        },
        Direction::Forwards => {
            let i = run_end(t, c, class_of_unit(t[c]));
            (i, i < t.len() && class_of_unit(t[i]) == WordClass::Newline)
        },
    }
}

/// The range that deleting a word backwards from the cursor `c` removes. A
/// line break goes alone. White space goes with the line break that ends its
/// run, or else with the run beyond it. Punctuation or other characters go
/// as one run.
pub open spec fn word_range_backwards(t: Seq<u16>, c: int) -> (int, int) {
    if c <= 0 || c > t.len() {
        (c, c)
    } else {
        let cls = class_of_unit(t[c - 1]);
        if cls == WordClass::Newline {
            (c - 1, c)
        } else if cls == WordClass::Whitespace {
            let i = run_start(t, c, cls);
            if i == 0 {
                (0, c)
            } else if class_of_unit(t[i - 1]) == WordClass::Newline {
                (i - 1, c)
            } else {
                (run_start(t, i, class_of_unit(t[i - 1])), c)
            }
        } else {
            (run_start(t, c, cls), c)
        }
    }
}

/// The range that deleting a word forwards from the cursor `c` removes, by
/// the same rules as backwards.
pub open spec fn word_range_forwards(t: Seq<u16>, c: int) -> (int, int) {
    if c < 0 || c >= t.len() {
        (c, c)
    } else {
        let cls = class_of_unit(t[c]);
        if cls == WordClass::Newline {
            (c, c + 1)
        } else if cls == WordClass::Whitespace {
            let i = run_end(t, c, cls);
            if i == t.len() {
                (c, i)
            } else if class_of_unit(t[i]) == WordClass::Newline {
                (c, i + 1)
            } else {
                (c, run_end(t, i, class_of_unit(t[i])))
            }
        } else {
            (c, run_end(t, c, cls))
        }
    }
}

pub open spec fn word_range(t: Seq<u16>, c: int, dir: Direction) -> (int, int) {
    match dir {
        Direction::Backwards => word_range_backwards(t, c),
        Direction::Forwards => word_range_forwards(t, c),
    }
}

proof fn lemma_run_start_bounds(t: Seq<u16>, end: int, cls: WordClass)
    requires
        0 <= end <= t.len(),
    ensures
        0 <= run_start(t, end, cls) <= end,
    decreases end,
{
    if 0 < end && class_of_unit(t[end - 1]) == cls {
        lemma_run_start_bounds(t, end - 1, cls);
    }
}

proof fn lemma_run_end_bounds(t: Seq<u16>, start: int, cls: WordClass)
    requires
        0 <= start <= t.len(),
    ensures
        start <= run_end(t, start, cls) <= t.len(),
    decreases t.len() - start,
{
    if start < t.len() && class_of_unit(t[start]) == cls {
        lemma_run_end_bounds(t, start + 1, cls);
    }
}

proof fn lemma_run_start_class(t: Seq<u16>, end: int, cls: WordClass)
    requires
        0 <= end <= t.len(),
    ensures
        forall|k: int| run_start(t, end, cls) <= k < end ==> class_of_unit(#[trigger] t[k]) == cls,
    decreases end,
{
    if 0 < end && class_of_unit(t[end - 1]) == cls {
        lemma_run_start_class(t, end - 1, cls);
    }
}

proof fn lemma_run_end_class(t: Seq<u16>, start: int, cls: WordClass)
    requires
        0 <= start <= t.len(),
    ensures
        forall|k: int| start <= k < run_end(t, start, cls) ==> class_of_unit(#[trigger] t[k]) == cls,
    decreases t.len() - start,
{
    if start < t.len() && class_of_unit(t[start]) == cls {
        lemma_run_end_class(t, start + 1, cls);
    }
}

/// Deleting a word backwards stops at a line break: the deleted range holds
/// no line break but, perhaps, its first unit.
pub proof fn lemma_word_backwards_stops_at_line_break(t: Seq<u16>, c: int)
    requires
        0 <= c <= t.len(),
    ensures
        word_range_backwards(t, c).0 <= word_range_backwards(t, c).1,
        forall|k: int|
            word_range_backwards(t, c).0 < k < word_range_backwards(t, c).1 ==> #[trigger] t[k]
                != NEWLINE,
{
    if c > 0 {
        let cls = class_of_unit(t[c - 1]);
        lemma_run_start_bounds(t, c, cls);
        lemma_run_start_class(t, c, cls);
        let i = run_start(t, c, cls);
        if cls == WordClass::Whitespace && i > 0 && class_of_unit(t[i - 1]) != WordClass::Newline {
            let cls2 = class_of_unit(t[i - 1]);
            lemma_run_start_bounds(t, i, cls2);
            lemma_run_start_class(t, i, cls2);
        }
    }
}

/// Deleting a word forwards stops at a line break: the deleted range holds
/// no line break but, perhaps, its last unit.
pub proof fn lemma_word_forwards_stops_at_line_break(t: Seq<u16>, c: int)
    requires
        0 <= c <= t.len(),
    ensures
        word_range_forwards(t, c).0 <= word_range_forwards(t, c).1,
        forall|k: int|
            word_range_forwards(t, c).0 <= k < word_range_forwards(t, c).1 - 1 ==> #[trigger] t[k]
                != NEWLINE,
{
    if c < t.len() {
        let cls = class_of_unit(t[c]);
        lemma_run_end_bounds(t, c, cls);
        lemma_run_end_class(t, c, cls);
        let i = run_end(t, c, cls);
        if cls == WordClass::Whitespace && i < t.len() && class_of_unit(t[i]) != WordClass::Newline {
            let cls2 = class_of_unit(t[i]);
            lemma_run_end_bounds(t, i, cls2);
            lemma_run_end_class(t, i, cls2);
        }
    }
}

/// Walks back from `end` over the units of class `cls`.
fn find_run_start(t: &Vec<u16>, end: usize, cls: WordClass) -> (r: usize)
    requires
        end <= t@.len(),
    ensures
        r == run_start(t@, end as int, cls),
        r <= end,
{
    let mut i: usize = end;
    while i > 0 && word_class_of(t[i - 1]) == cls
        invariant
            i <= end <= t@.len(),
            run_start(t@, i as int, cls) == run_start(t@, end as int, cls),
        decreases i,
    {
        i = i - 1;
    }
    proof {
        lemma_run_start_bounds(t@, end as int, cls);
    }
    i
}

/// Walks forward from `start` over the units of class `cls`.
fn find_run_end(t: &Vec<u16>, start: usize, cls: WordClass) -> (r: usize)
    requires
        start <= t@.len(),
    ensures
        r == run_end(t@, start as int, cls),
        start <= r <= t@.len(),
{
    let mut i: usize = start;
    while i < t.len() && word_class_of(t[i]) == cls
        invariant
            start <= i <= t@.len(),
            run_end(t@, i as int, cls) == run_end(t@, start as int, cls),
        decreases t@.len() - i,
    {
        i = i + 1;
    }
    i
}

/// From the cursor `c`, finds where the run of units next to it in
/// direction `dir` ends, and whether it stopped at a line break.
pub fn get_end_index_of_run(t: &Vec<u16>, c: usize, dir: &Direction) -> (r: (usize, bool))
    requires
        *dir is Backwards ==> 0 < c <= t@.len(),
        *dir is Forwards ==> c < t@.len(),
    ensures
        (r.0 as int, r.1) == run_from(t@, c as int, *dir),
        *dir is Backwards ==> r.0 <= c,
        *dir is Forwards ==> c <= r.0 <= t@.len(),
{
    match dir {
        Direction::Backwards => {
            let i = find_run_start(t, c, word_class_of(t[c - 1]));
            (i, i > 0 && word_class_of(t[i - 1]) == WordClass::Newline)
        },
        Direction::Forwards => {
            let i = find_run_end(t, c, word_class_of(t[c]));
            (i, i < t.len() && word_class_of(t[i]) == WordClass::Newline)
        },
    }
}

/// The range that deleting a word from the cursor `c` in direction `dir`
/// removes; an empty range at the start (backwards) or end (forwards).
pub fn word_deletion_range(t: &Vec<u16>, c: usize, dir: &Direction) -> (r: (usize, usize))
    requires
        c <= t@.len(),
    ensures
        (r.0 as int, r.1 as int) == word_range(t@, c as int, *dir),
        r.0 <= r.1 <= t@.len(),
{
    match dir {
        Direction::Backwards => {
            if c == 0 {
                return (c, c);
            }
            let cls = word_class_of(t[c - 1]);
            if cls == WordClass::Newline {
                (c - 1, c)
            } else if cls == WordClass::Whitespace {
                let (i, stopped_at_newline) = get_end_index_of_run(t, c, dir);
                if i == 0 {
                    (0, c)
                } else if stopped_at_newline {
                    (i - 1, c)
                } else {
                    let j = find_run_start(t, i, word_class_of(t[i - 1]));
                    (j, c)
                }
            } else {
                let (i, _) = get_end_index_of_run(t, c, dir);
                (i, c)
            }
        },
        Direction::Forwards => {
            if c == t.len() {
                return (c, c);
            }
            let cls = word_class_of(t[c]);
            if cls == WordClass::Newline {
                (c, c + 1)
            } else if cls == WordClass::Whitespace {
                let (i, stopped_at_newline) = get_end_index_of_run(t, c, dir);
                if i == t.len() {
                    (c, i)
                } else if stopped_at_newline {
                    (c, i + 1)
                } else {
                    let j = find_run_end(t, i, word_class_of(t[i]));
                    (c, j)
                }
            } else {
                let (i, _) = get_end_index_of_run(t, c, dir);
                (c, i)
            }
        },
    }
}

} // verus!
