//! The five kinds of card, and what the choice-based ones share.

pub mod fill_in_the_blanks;
pub mod flashcard;
pub mod multiple_answer;
pub mod multiple_choice;
pub mod order;

use vstd::prelude::*;
use crate::choice::Choice;
use crate::text::{string_of, texts, trim, trim_chars, views};
use crate::user_answer::UserAnswer;

verus! {

/// A line after its first `skip` characters; empty where it is shorter.
pub open spec fn after(l: Seq<char>, skip: int) -> Seq<char> {
    if l.len() <= skip {
        Seq::empty()
    } else {
        l.subrange(skip, l.len() as int)
    }
}

/// The line carries `m1` or `m2` at position `pos`.
pub open spec fn is_marked(l: Seq<char>, pos: int, m1: char, m2: char) -> bool {
    0 <= pos < l.len() && (l[pos] == m1 || l[pos] == m2)
}

/// Of the marked lines, in order, the text after the first `skip`
/// characters, trimmed.
pub open spec fn marked_items(ls: Seq<Seq<char>>, pos: int, m1: char, m2: char, skip: int) -> Seq<
    Seq<char>,
>
    decreases ls.len(),
{
    if ls.len() == 0 {
        Seq::empty()
    } else {
        let rest = marked_items(ls.drop_last(), pos, m1, m2, skip);
        if is_marked(ls.last(), pos, m1, m2) {
            rest.push(trim(after(ls.last(), skip)))
        } else {
            rest
        }
    }
}

/// The texts of the choices.
pub open spec fn contents(cs: Seq<Choice>) -> Seq<Seq<char>> {
    cs.map_values(|c: Choice| c.content@)
}

/// No choice is selected.
pub open spec fn none_selected(cs: Seq<Choice>) -> bool {
    forall|i: int| 0 <= i < cs.len() ==> !(#[trigger] cs[i]).selected
}

/// The texts of the selected choices, in list order.
pub open spec fn selected_contents(cs: Seq<Choice>) -> Seq<Seq<char>>
    decreases cs.len(),
{
    if cs.len() == 0 {
        Seq::empty()
    } else if cs.last().selected {
        selected_contents(cs.drop_last()).push(cs.last().content@)
    } else {
        selected_contents(cs.drop_last())
    }
}

/// The grade of a selection against the expected texts: nothing selected
/// leaves it open; otherwise it is right exactly when it equals them, in order.
pub open spec fn grade_selection(selection: Seq<Seq<char>>, answers: Seq<Seq<char>>) -> UserAnswer {
    if selection.len() == 0 {
        UserAnswer::Undecided
    } else if selection == answers {
        UserAnswer::Correct
    } else {
        UserAnswer::Incorrect
    }
}

/// The selected texts of choices of which only the one at `k` is selected.
pub proof fn lemma_only_selected(cs: Seq<Choice>, k: int)
    requires
        0 <= k < cs.len(),
        forall|j: int| 0 <= j < cs.len() ==> (#[trigger] cs[j]).selected == (j == k),
    ensures
        selected_contents(cs) == seq![cs[k].content@],
    decreases cs.len(),
{
    let d = cs.drop_last();
    if k == cs.len() - 1 {
        lemma_none_selected(d);
        assert(selected_contents(d).push(cs[k].content@) =~= seq![cs[k].content@]);
    } else {
        assert forall|j: int| 0 <= j < d.len() implies (#[trigger] d[j]).selected == (j == k) by {
            assert(d[j] == cs[j]);
        }
        lemma_only_selected(d, k);
    }
}

/// Nothing selected, nothing collected.
pub proof fn lemma_none_selected(cs: Seq<Choice>)
    requires
        none_selected(cs),
    ensures
        selected_contents(cs).len() == 0,
    decreases cs.len(),
{
    if cs.len() > 0 {
        assert(!cs[cs.len() - 1].selected);
        lemma_none_selected(cs.drop_last());
    }
}

/// With a single right answer: selecting only the choice that holds it
/// grades right, selecting only another grades wrong, and selecting nothing
/// leaves the card open.
pub proof fn lemma_single_choice_grade(cs: Seq<Choice>, answers: Seq<Seq<char>>, k: int)
    requires
        answers.len() == 1,
    ensures
        0 <= k < cs.len() && (forall|j: int| 0 <= j < cs.len() ==> (#[trigger] cs[j]).selected == (j == k))
            ==> grade_selection(selected_contents(cs), answers) == (if cs[k].content@ == answers[0] {
            UserAnswer::Correct
        } else {
            UserAnswer::Incorrect
        }),
        none_selected(cs) ==> grade_selection(selected_contents(cs), answers) == UserAnswer::Undecided,
{
    if 0 <= k < cs.len() && (forall|j: int| 0 <= j < cs.len() ==> (#[trigger] cs[j]).selected == (j == k)) {
        lemma_only_selected(cs, k);
        if cs[k].content@ != answers[0] {
            assert(selected_contents(cs)[0] != answers[0]);
        } else {
            assert(selected_contents(cs) =~= answers);
        }
    }
    if none_selected(cs) {
        lemma_none_selected(cs);
    }
}

/// Selecting exactly the right choices, in their order, grades right; a
/// non-empty selection with fewer or more choices than the right ones grades
/// wrong.
pub proof fn lemma_marked_set_grade(cs: Seq<Choice>, answers: Seq<Seq<char>>)
    ensures
        selected_contents(cs) == answers && answers.len() > 0 ==> grade_selection(
            selected_contents(cs),
            answers,
        ) == UserAnswer::Correct,
        selected_contents(cs).len() > 0 && selected_contents(cs).len() != answers.len()
            ==> grade_selection(selected_contents(cs), answers) == UserAnswer::Incorrect,
{
}

/// Of the marked lines, in order, the text after the first `skip`
/// characters, trimmed.
pub fn marked_lines(ls: &Vec<Vec<char>>, pos: usize, m1: char, m2: char, skip: usize) -> (r: Vec<String>)
    ensures
        texts(r@) == marked_items(views(ls@), pos as int, m1, m2, skip as int),
{
    let mut r: Vec<String> = Vec::new();
    let mut i: usize = 0;
    while i < ls.len()
        invariant
            i <= ls@.len(),
            texts(r@) == marked_items(views(ls@).take(i as int), pos as int, m1, m2, skip as int),
        decreases ls@.len() - i,
    {
        let ghost t = views(ls@).take(i + 1);
        assert(t.drop_last() =~= views(ls@).take(i as int));
        assert(t.last() == ls@[i as int]@);
        let l = &ls[i];
        if pos < l.len() && (l[pos] == m1 || l[pos] == m2) {
            let start = if l.len() <= skip { l.len() } else { skip };
            let item = trim_chars(l, start, l.len());
            assert(l@.subrange(start as int, l@.len() as int) =~= after(l@, skip as int));
            let text = string_of(&item, 0, item.len());
            assert(text@ =~= item@);
            let ghost before = r@;
            r.push(text);
            assert(texts(r@) =~= texts(before).push(text@));
        }
        i = i + 1;
    }
    assert(views(ls@).take(i as int) =~= views(ls@));
    r
}

/// Unselected choices holding the given texts.
pub fn choices_of(items: &Vec<String>) -> (r: Vec<Choice>)
    ensures
        contents(r@) == texts(items@),
        none_selected(r@),
{
    let mut r: Vec<Choice> = Vec::new();
    let mut i: usize = 0;
    while i < items.len()
        invariant
            i <= items@.len(),
            contents(r@) == texts(items@).take(i as int),
            none_selected(r@),
        decreases items@.len() - i,
    {
        let ghost before = r@;
        let content = items[i].clone();
        assert(content@ == texts(items@)[i as int]);
        r.push(Choice { content, selected: false });
        assert(contents(r@) =~= contents(before).push(content@));
        assert(contents(r@) =~= texts(items@).take(i + 1));
        i = i + 1;
    }
    assert(texts(items@).take(i as int) =~= texts(items@));
    r
}

/// The texts of the selected choices, in list order.
pub fn selected_texts(cs: &Vec<Choice>) -> (r: Vec<String>)
    ensures
        texts(r@) == selected_contents(cs@),
{
    let mut r: Vec<String> = Vec::new();
    let mut i: usize = 0;
    while i < cs.len()
        invariant
            i <= cs@.len(),
            texts(r@) == selected_contents(cs@.take(i as int)),
        decreases cs@.len() - i,
    {
        let ghost t = cs@.take(i + 1);
        assert(t.drop_last() =~= cs@.take(i as int));
        if cs[i].selected {
            let ghost before = r@;
            r.push(cs[i].content.clone());
            assert(texts(r@) =~= texts(before).push(cs@[i as int].content@));
        }
        i = i + 1;
    }
    assert(cs@.take(i as int) =~= cs@);
    r
}

/// Whether two lists of texts are equal.
pub fn same_texts(a: &Vec<String>, b: &Vec<String>) -> (r: bool)
    ensures
        r == (texts(a@) == texts(b@)),
{
    if a.len() != b.len() {
        assert(texts(a@).len() != texts(b@).len());
        return false;
    }
    let mut i: usize = 0;
    while i < a.len()
        invariant
            a@.len() == b@.len(),
            i <= a@.len(),
            forall|j: int| 0 <= j < i ==> a@[j]@ == b@[j]@,
        decreases a@.len() - i,
    {
        if a[i] != b[i] {
            assert(texts(a@)[i as int] != texts(b@)[i as int]);
            return false;
        }
        i = i + 1;
    }
    assert(texts(a@) =~= texts(b@));
    true
}

} // verus!
