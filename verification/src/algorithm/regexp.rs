use vstd::prelude::*;

use crate::text::chars_of;

verus! {

/// One element of a pattern: a character to match, which `.` makes any
/// character, and whether a star follows it.
#[derive(Debug, Copy, Clone, PartialEq, Eq, Structural)]
pub struct Element {
    pub ch: char,
    pub starred: bool,
}

impl Element {
    /// Whether the element's character accepts `c`.
    pub open spec fn accepts(self, c: char) -> bool {
        self.ch == c || self.ch == '.'
    }
}

/// The elements of the first `upto` characters of a pattern. Every
/// character but `*` starts an element, which is starred if a `*` comes
/// right after it. A `*` that follows no element stands for nothing.
pub open spec fn elements_upto(pattern: Seq<char>, upto: int) -> Seq<Element>
    decreases upto,
{
    if upto <= 0 {
        Seq::empty()
    } else if pattern[upto - 1] == '*' {
        elements_upto(pattern, upto - 1)
    } else {
        elements_upto(pattern, upto - 1).push(
            Element { ch: pattern[upto - 1], starred: upto < pattern.len() && pattern[upto] == '*' },
        )
    }
}

/// The elements of a pattern.
pub open spec fn elements(pattern: Seq<char>) -> Seq<Element> {
    elements_upto(pattern, pattern.len() as int)
}

/// Whether the elements match the whole text. An element without a star
/// takes exactly one character that it accepts; a starred element takes
/// any number of them, none included.
pub open spec fn spelled_by(text: Seq<char>, elements: Seq<Element>) -> bool
    decreases elements.len(), text.len(),
{
    if elements.len() == 0 {
        text.len() == 0
    } else if elements.last().starred {
        ||| spelled_by(text, elements.drop_last())
        ||| (text.len() > 0 && elements.last().accepts(text.last()) && spelled_by(
            text.drop_last(),
            elements,
        ))
    } else {
        text.len() > 0 && elements.last().accepts(text.last()) && spelled_by(
            text.drop_last(),
            elements.drop_last(),
        )
    }
}

/// Reads the elements of a pattern.
pub fn parse_pattern(pattern: &[char]) -> (parsed: Vec<Element>)
    ensures
        parsed@ == elements(pattern@),
{
    let mut parsed: Vec<Element> = Vec::new();
    let mut i: usize = 0;
    while i < pattern.len()
        invariant
            i <= pattern.len(),
            parsed@ == elements_upto(pattern@, i as int),
        decreases pattern.len() - i,
    {
        let current = pattern[i];
        if current != '*' {
            let starred = i + 1 < pattern.len() && pattern[i + 1] == '*';
            parsed.push(Element { ch: current, starred });
        }
        i = i + 1;
    }
    parsed
}

/// For every prefix of the elements, whether it matches the text with one
/// more character, given the same for the text as it is.
fn advance(elements: &Vec<Element>, reached: &Vec<bool>, text: Ghost<Seq<char>>, c: char) -> (next:
    Vec<bool>)
    requires
        reached@.len() == elements@.len() + 1,
        forall|p: int| 0 <= p <= elements@.len() ==> reached@[p] == spelled_by(text@, elements@.take(p)),
    ensures
        next@.len() == elements@.len() + 1,
        forall|p: int|
            0 <= p <= elements@.len() ==> next@[p] == spelled_by(text@.push(c), elements@.take(p)),
{
    let ghost longer = text@.push(c);
    let mut next: Vec<bool> = Vec::new();
    next.push(false);
    assert(elements@.take(0).len() == 0);
    let mut p: usize = 0;
    while p < elements.len()
        invariant
            p <= elements@.len(),
            longer == text@.push(c),
            next@.len() == p + 1,
            reached@.len() == elements@.len() + 1,
            forall|q: int| 0 <= q <= elements@.len() ==> reached@[q] == spelled_by(text@, elements@.take(q)),
            forall|q: int| 0 <= q <= p ==> next@[q] == spelled_by(longer, elements@.take(q)),
        decreases elements@.len() - p,
    {
        let element = elements[p];
        let fits = element.ch == c || element.ch == '.';
        proof {
            let upto = elements@.take(p + 1);
            assert(upto.last() == element);
            assert(upto.drop_last() =~= elements@.take(p as int));
            assert(longer.drop_last() =~= text@);
            assert(longer.last() == c);
        }
        let here = if element.starred {
            next[p] || (fits && reached[p + 1])
        } else {
            fits && reached[p]
        };
        next.push(here);
        p = p + 1;
    }
    next
}

/// For every prefix of the elements, whether it matches the empty text.
fn before_text(elements: &Vec<Element>) -> (reached: Vec<bool>)
    ensures
        reached@.len() == elements@.len() + 1,
        forall|p: int|
            0 <= p <= elements@.len() ==> reached@[p] == spelled_by(
                Seq::<char>::empty(),
                elements@.take(p),
            ),
{
    let mut reached: Vec<bool> = Vec::new();
    reached.push(true);
    assert(elements@.take(0).len() == 0);
    let mut p: usize = 0;
    while p < elements.len()
        invariant
            p <= elements@.len(),
            reached@.len() == p + 1,
            forall|q: int|
                0 <= q <= p ==> reached@[q] == spelled_by(Seq::<char>::empty(), elements@.take(q)),
        decreases elements@.len() - p,
    {
        let element = elements[p];
        proof {
            let upto = elements@.take(p + 1);
            assert(upto.last() == element);
            assert(upto.drop_last() =~= elements@.take(p as int));
        }
        let here = element.starred && reached[p];
        reached.push(here);
        p = p + 1;
    }
    reached
}

/// Whether the elements match the whole text.
pub fn match_elements(text: &[char], elements: &Vec<Element>) -> (matched: bool)
    ensures
        matched == spelled_by(text@, elements@),
{
    let mut reached = before_text(elements);
    assert(text@.take(0) =~= Seq::<char>::empty());
    let mut k: usize = 0;
    while k < text.len()
        invariant
            k <= text.len(),
            reached@.len() == elements@.len() + 1,
            forall|p: int|
                0 <= p <= elements@.len() ==> reached@[p] == spelled_by(
                    text@.take(k as int),
                    elements@.take(p),
                ),
        decreases text.len() - k,
    {
        assert(text@.take(k as int).push(text@[k as int]) =~= text@.take(k + 1));
        reached = advance(elements, &reached, Ghost(text@.take(k as int)), text[k]);
        k = k + 1;
    }
    assert(text@.take(text.len() as int) =~= text@);
    assert(elements@.take(elements@.len() as int) =~= elements@);
    reached[elements.len()]
}

/// Whether the pattern matches the whole input. In a pattern `.` stands
/// for any one character and `*` lets the character before it occur any
/// number of times, or not at all.
pub fn is_match(input: String, pattern: String) -> (matched: bool)
    ensures
        matched == spelled_by(input@, elements(pattern@)),
{
    let text = chars_of(input.as_str());
    let pattern_chars = chars_of(pattern.as_str());
    let parsed = parse_pattern(pattern_chars.as_slice());
    match_elements(text.as_slice(), &parsed)
}


/// Whether the element accounts for the piece `from..to` of the text: a
/// starred element for any number of characters that it accepts, another
/// element for exactly one.
pub open spec fn piece_fits(text: Seq<char>, element: Element, from: int, to: int) -> bool {
    &&& 0 <= from <= to <= text.len()
    &&& element.starred || to == from + 1
    &&& forall|i: int| from <= i < to ==> element.accepts(#[trigger] text[i])
}

/// Whether the cuts divide the text into one piece for each element, in
/// order and without a gap, such that each element accounts for its
/// piece.
pub open spec fn is_split(text: Seq<char>, elements: Seq<Element>, cuts: Seq<int>) -> bool {
    &&& cuts.len() == elements.len() + 1
    &&& cuts[0] == 0
    &&& cuts[cuts.len() - 1] == text.len()
    &&& forall|k: int|
        0 <= k < elements.len() ==> piece_fits(text, #[trigger] elements[k], cuts[k], cuts[k + 1])
}

proof fn lemma_split_of_longer_text(
    text: Seq<char>,
    elements: Seq<Element>,
    cuts: Seq<int>,
    upto: int,
)
    requires
        text.len() > 0,
        0 <= upto <= elements.len(),
        cuts.len() > upto,
        forall|k: int|
            0 <= k < upto ==> piece_fits(
                text.drop_last(),
                #[trigger] elements[k],
                cuts[k],
                cuts[k + 1],
            ),
    ensures
        forall|k: int| 0 <= k < upto ==> piece_fits(text, #[trigger] elements[k], cuts[k], cuts[k + 1]),
{
    assert forall|k: int| 0 <= k < upto implies piece_fits(
        text,
        #[trigger] elements[k],
        cuts[k],
        cuts[k + 1],
    ) by {
        assert(piece_fits(text.drop_last(), elements[k], cuts[k], cuts[k + 1]));
        assert forall|i: int| cuts[k] <= i < cuts[k + 1] implies elements[k].accepts(
            #[trigger] text[i],
        ) by {
            assert(text.drop_last()[i] == text[i]);
        }
    }
}

proof fn lemma_split_of_shorter_text(
    text: Seq<char>,
    elements: Seq<Element>,
    cuts: Seq<int>,
    upto: int,
)
    requires
        text.len() > 0,
        0 <= upto <= elements.len(),
        cuts.len() > upto,
        forall|k: int| 0 <= k < upto ==> piece_fits(text, #[trigger] elements[k], cuts[k], cuts[k + 1]),
        forall|k: int| 0 <= k <= upto ==> #[trigger] cuts[k] <= text.len() - 1,
    ensures
        forall|k: int|
            0 <= k < upto ==> piece_fits(
                text.drop_last(),
                #[trigger] elements[k],
                cuts[k],
                cuts[k + 1],
            ),
{
    assert forall|k: int| 0 <= k < upto implies piece_fits(
        text.drop_last(),
        #[trigger] elements[k],
        cuts[k],
        cuts[k + 1],
    ) by {
        assert(piece_fits(text, elements[k], cuts[k], cuts[k + 1]));
        assert(cuts[k + 1] <= text.len() - 1);
        assert forall|i: int| cuts[k] <= i < cuts[k + 1] implies elements[k].accepts(
            #[trigger] text.drop_last()[i],
        ) by {
            assert(text.drop_last()[i] == text[i]);
        }
    }
}

proof fn lemma_spelled_text_splits(text: Seq<char>, elements: Seq<Element>) -> (cuts: Seq<int>)
    requires
        spelled_by(text, elements),
    ensures
        is_split(text, elements, cuts),
    decreases elements.len(), text.len(),
{
    if elements.len() == 0 {
        seq![0int]
    } else {
        let last = elements.last();
        let front = elements.drop_last();
        let n = elements.len() as int;
        if last.starred && spelled_by(text, front) {
            let before = lemma_spelled_text_splits(text, front);
            let cuts = before.push(text.len() as int);
            assert forall|k: int| 0 <= k < n implies piece_fits(
                text,
                #[trigger] elements[k],
                cuts[k],
                cuts[k + 1],
            ) by {
                if k < n - 1 {
                    assert(front[k] == elements[k]);
                    assert(piece_fits(text, front[k], before[k], before[k + 1]));
                }
            }
            cuts
        } else if last.starred {
            let shorter = text.drop_last();
            let before = lemma_spelled_text_splits(shorter, elements);
            let cuts = before.update(n, text.len() as int);
            lemma_split_of_longer_text(text, elements, before, n - 1);
            assert forall|k: int| 0 <= k < n implies piece_fits(
                text,
                #[trigger] elements[k],
                cuts[k],
                cuts[k + 1],
            ) by {
                if k < n - 1 {
                    assert(piece_fits(text, elements[k], before[k], before[k + 1]));
                } else {
                    assert(piece_fits(shorter, elements[k], before[k], before[k + 1]));
                    assert forall|i: int| cuts[k] <= i < cuts[k + 1] implies elements[k].accepts(
                        #[trigger] text[i],
                    ) by {
                        if i < shorter.len() {
                            assert(shorter[i] == text[i]);
                        }
                    }
                }
            }
            cuts
        } else {
            let shorter = text.drop_last();
            let before = lemma_spelled_text_splits(shorter, front);
            let cuts = before.push(text.len() as int);
            assert forall|k: int| 0 <= k < n - 1 implies piece_fits(
                shorter,
                #[trigger] elements[k],
                before[k],
                before[k + 1],
            ) by {
                assert(front[k] == elements[k]);
                assert(piece_fits(shorter, front[k], before[k], before[k + 1]));
            }
            lemma_split_of_longer_text(text, elements, before, n - 1);
            assert forall|k: int| 0 <= k < n implies piece_fits(
                text,
                #[trigger] elements[k],
                cuts[k],
                cuts[k + 1],
            ) by {
                if k < n - 1 {
                    assert(piece_fits(text, elements[k], before[k], before[k + 1]));
                }
            }
            cuts
        }
    }
}

proof fn lemma_cuts_ascend(text: Seq<char>, elements: Seq<Element>, cuts: Seq<int>, k: int, n: int)
    requires
        is_split(text, elements, cuts),
        0 <= k <= n <= elements.len(),
    ensures
        0 <= cuts[k] <= cuts[n],
    decreases n - k,
{
    if k < n {
        assert(piece_fits(text, elements[k], cuts[k], cuts[k + 1]));
        lemma_cuts_ascend(text, elements, cuts, k + 1, n);
    } else if k > 0 {
        assert(piece_fits(text, elements[k - 1], cuts[k - 1], cuts[k]));
    }
}

proof fn lemma_split_text_is_spelled(text: Seq<char>, elements: Seq<Element>, cuts: Seq<int>)
    requires
        is_split(text, elements, cuts),
    ensures
        spelled_by(text, elements),
    decreases elements.len(), text.len(),
{
    if elements.len() > 0 {
        let n = elements.len() as int;
        let last = elements.last();
        let front = elements.drop_last();
        let from = cuts[n - 1];
        assert(piece_fits(text, elements[n - 1], cuts[n - 1], cuts[n]));
        if from == text.len() {
            let before = cuts.drop_last();
            assert forall|k: int| 0 <= k < front.len() implies piece_fits(
                text,
                #[trigger] front[k],
                before[k],
                before[k + 1],
            ) by {
                assert(piece_fits(text, elements[k], cuts[k], cuts[k + 1]));
            }
            lemma_split_text_is_spelled(text, front, before);
        } else {
            let shorter = text.drop_last();
            assert(last.accepts(text[text.len() - 1]));
            if last.starred {
                let before = cuts.update(n, text.len() - 1);
                assert forall|k: int| 0 <= k <= n - 1 implies #[trigger] cuts[k] <= text.len()
                    - 1 by {
                    lemma_cuts_ascend(text, elements, cuts, k, n - 1);
                }
                lemma_split_of_shorter_text(text, elements, cuts, n - 1);
                assert forall|k: int| 0 <= k < n implies piece_fits(
                    shorter,
                    #[trigger] elements[k],
                    before[k],
                    before[k + 1],
                ) by {
                    if k < n - 1 {
                        assert(piece_fits(shorter, elements[k], cuts[k], cuts[k + 1]));
                    } else {
                        assert forall|i: int| before[k] <= i < before[k + 1] implies elements[k].accepts(
                            #[trigger] shorter[i],
                        ) by {
                            assert(shorter[i] == text[i]);
                        }
                    }
                }
                lemma_split_text_is_spelled(shorter, elements, before);
            } else {
                let before = cuts.drop_last();
                assert forall|k: int| 0 <= k <= n - 1 implies #[trigger] cuts[k] <= text.len()
                    - 1 by {
                    lemma_cuts_ascend(text, elements, cuts, k, n - 1);
                }
                lemma_split_of_shorter_text(text, elements, cuts, n - 1);
                assert forall|k: int| 0 <= k < front.len() implies piece_fits(
                    shorter,
                    #[trigger] front[k],
                    before[k],
                    before[k + 1],
                ) by {
                    assert(piece_fits(shorter, elements[k], cuts[k], cuts[k + 1]));
                }
                lemma_split_text_is_spelled(shorter, front, before);
            }
        }
    }
}

/// Elements match a text exactly if the text can be cut into pieces, one
/// for each element in order, such that each element accounts for its
/// piece.
pub proof fn law_match_is_a_split(text: Seq<char>, elements: Seq<Element>)
    ensures
        spelled_by(text, elements) <==> exists|cuts: Seq<int>| is_split(text, elements, cuts),
{
    if spelled_by(text, elements) {
        let cuts = lemma_spelled_text_splits(text, elements);
        assert(is_split(text, elements, cuts));
    }
    if exists|cuts: Seq<int>| is_split(text, elements, cuts) {
        let cuts = choose|cuts: Seq<int>| is_split(text, elements, cuts);
        lemma_split_text_is_spelled(text, elements, cuts);
    }
}

} // verus!
