use vstd::prelude::*;
use vstd::string::StringExecFns;
use rand::seq::SliceRandom;
use crate::card_types::{after, choices_of, contents, none_selected, same_texts};
use crate::choice::Choice;
use crate::document::{split_title, title_of};
use crate::errors::ParsingError;
use crate::stateful_list::StatefulList;
use crate::text::{chars_of, lines, lines_of, string_of, texts, views};
use crate::user_answer::UserAnswer;

verus! {

/// `a` is `b` rearranged: `a[i]` is `b[p[i]]`, where `p` is a permutation
/// of the positions and `q` its inverse.
pub open spec fn arranged_by<A>(a: Seq<A>, b: Seq<A>, p: Seq<int>, q: Seq<int>) -> bool {
    &&& a.len() == b.len()
    &&& p.len() == b.len()
    &&& q.len() == b.len()
    &&& forall|i: int|
        0 <= i < b.len() ==> 0 <= #[trigger] p[i] < b.len() && q[p[i]] == i && a[i] == b[p[i]]
    &&& forall|i: int| 0 <= i < b.len() ==> 0 <= #[trigger] q[i] < b.len() && p[q[i]] == i
}

/// `a` holds the items of `b`, each once, in some order.
pub open spec fn is_arrangement<A>(a: Seq<A>, b: Seq<A>) -> bool {
    exists|p: Seq<int>, q: Seq<int>| #[trigger] arranged_by(a, b, p, q)
}

/// Two arrangements of the same items are arrangements of each other.
pub proof fn lemma_arrangements_agree<A>(a1: Seq<A>, a2: Seq<A>, b: Seq<A>)
    requires
        is_arrangement(a1, b),
        is_arrangement(a2, b),
    ensures
        is_arrangement(a2, a1),
{
    let (p1, q1) = choose|p: Seq<int>, q: Seq<int>| #[trigger] arranged_by(a1, b, p, q);
    let (p2, q2) = choose|p: Seq<int>, q: Seq<int>| #[trigger] arranged_by(a2, b, p, q);
    let n = b.len() as int;
    let p = Seq::new(n as nat, |i: int| q1[p2[i]]);
    let q = Seq::new(n as nat, |i: int| q2[p1[i]]);
    assert forall|i: int| 0 <= i < n implies 0 <= #[trigger] p[i] < n && q[p[i]] == i && a2[i]
        == a1[p[i]] by {
        assert(0 <= p2[i] < n);
        assert(p1[q1[p2[i]]] == p2[i]);
    }
    assert forall|i: int| 0 <= i < n implies 0 <= #[trigger] q[i] < n && p[q[i]] == i by {
        assert(0 <= p1[i] < n);
        assert(p2[q2[p1[i]]] == p1[i]);
    }
    assert(arranged_by(a2, a1, p, q));
}

/// Each item read through the same rearrangement keeps it an arrangement.
pub proof fn lemma_arrangement_contents(a: Seq<Choice>, b: Seq<Choice>)
    requires
        is_arrangement(a, b),
    ensures
        is_arrangement(contents(a), contents(b)),
        none_selected(b) ==> none_selected(a),
{
    let (p, q) = choose|p: Seq<int>, q: Seq<int>| #[trigger] arranged_by(a, b, p, q);
    assert forall|i: int| 0 <= i < b.len() implies 0 <= #[trigger] p[i] < b.len() && q[p[i]] == i
        && contents(a)[i] == contents(b)[p[i]] by {
        assert(a[i] == b[p[i]]);
    }
    assert(arranged_by(contents(a), contents(b), p, q));
    if none_selected(b) {
        assert forall|i: int| 0 <= i < a.len() implies !(#[trigger] a[i]).selected by {
            assert(a[i] == b[p[i]]);
        }
    }
}

/// Relies on rand's `SliceRandom::shuffle`, with the thread-local generator:
/// it only swaps items of the slice, so the result is a permutation.
#[verifier::external_body]
fn shuffle_items<T>(items: &mut Vec<T>)
    ensures
        is_arrangement(final(items)@, old(items)@),
{
    items.shuffle(&mut rand::thread_rng());
}

/// The items of a body in their right order: each line after its first
/// three characters (an ordinal such as `1. `).
pub open spec fn ordered_items(body: Seq<char>) -> Seq<Seq<char>> {
    ordered_from(lines(body))
}

/// Each line after its first three characters.
pub open spec fn ordered_from(ls: Seq<Seq<char>>) -> Seq<Seq<char>> {
    ls.map_values(|l: Seq<char>| after(l, 3))
}

/// The positions of the selected choices, in increasing order.
pub open spec fn selected_positions(cs: Seq<Choice>) -> Seq<int>
    decreases cs.len(),
{
    if cs.len() == 0 {
        Seq::empty()
    } else if cs.last().selected {
        selected_positions(cs.drop_last()).push(cs.len() - 1)
    } else {
        selected_positions(cs.drop_last())
    }
}

/// The selected positions lie in the list and increase.
pub proof fn lemma_selected_positions(cs: Seq<Choice>)
    ensures
        forall|k: int|
            0 <= k < selected_positions(cs).len() ==> 0 <= #[trigger] selected_positions(cs)[k]
                < cs.len() && cs[selected_positions(cs)[k]].selected,
        forall|k: int, l: int|
            0 <= k < l < selected_positions(cs).len() ==> selected_positions(cs)[k]
                < selected_positions(cs)[l],
    decreases cs.len(),
{
    if cs.len() > 0 {
        let d = cs.drop_last();
        lemma_selected_positions(d);
        let sp = selected_positions(cs);
        let spd = selected_positions(d);
        assert forall|k: int| 0 <= k < sp.len() implies 0 <= #[trigger] sp[k] < cs.len()
            && cs[sp[k]].selected by {
            if k < spd.len() {
                assert(sp[k] == spd[k]);
                assert(d[spd[k]] == cs[spd[k]]);
            }
        }
        assert forall|k: int, l: int| 0 <= k < l < sp.len() implies sp[k] < sp[l] by {
            if l < spd.len() {
                assert(sp[k] == spd[k] && sp[l] == spd[l]);
            } else {
                assert(sp[k] == spd[k]);
                assert(spd[k] < d.len());
            }
        }
    }
}

/// The items with the mark of the one at `c` flipped.
pub open spec fn toggled(items: Seq<Choice>, c: int) -> Seq<Choice> {
    items.update(c, Choice { content: items[c].content, selected: !items[c].selected })
}

/// Where exactly two of `before` are selected, `after` holds their texts
/// swapped and nothing selected; otherwise `after` is `before`.
pub open spec fn swapped_if_two(before: Seq<Choice>, after: Seq<Choice>) -> bool {
    let sp = selected_positions(before);
    let ct = contents(before);
    if sp.len() == 2 {
        &&& contents(after) == ct.update(sp[0], ct[sp[1]]).update(sp[1], ct[sp[0]])
        &&& none_selected(after)
    } else {
        after == before
    }
}

/// A card whose items must be put back in their right order.
pub struct Order {
    pub question: String,
    pub shuffled: StatefulList<Choice>,
    pub answer: Vec<String>,
    pub user_answer: UserAnswer,
}

/// Two cards parsed from the same text agree on the question and the right
/// order; their shuffled items are arrangements of each other, unselected
/// and ungraded.
pub proof fn lemma_order_reparse(o1: Order, o2: Order, question: Seq<char>, body: Seq<char>)
    requires
        o1.parsed_from(question, body),
        o2.parsed_from(question, body),
    ensures
        o1.question@ == o2.question@,
        texts(o1.answer@) == texts(o2.answer@),
        is_arrangement(contents(o2.shuffled.items@), contents(o1.shuffled.items@)),
        none_selected(o1.shuffled.items@) && none_selected(o2.shuffled.items@),
        o1.user_answer == UserAnswer::Undecided && o2.user_answer == UserAnswer::Undecided,
{
    lemma_arrangements_agree(
        contents(o1.shuffled.items@),
        contents(o2.shuffled.items@),
        ordered_items(body),
    );
}

impl Order {
    /// The card holds `question`, the items of `body` in their right order,
    /// and the same items in some order, none selected, the first under the
    /// cursor; it is ungraded.
    pub open spec fn parsed_from(&self, question: Seq<char>, body: Seq<char>) -> bool {
        &&& self.question@ == question
        &&& texts(self.answer@) == ordered_items(body)
        &&& is_arrangement(contents(self.shuffled.items@), ordered_items(body))
        &&& none_selected(self.shuffled.items@)
        &&& self.shuffled.cursor == (if ordered_items(body).len() == 0 {
            None
        } else {
            Some(0usize)
        })
        &&& self.user_answer == UserAnswer::Undecided
    }

    pub fn instructions(&self) -> (r: String)
        ensures
            r@ == "<SPACE>: Select item, use <Space> again on another item to swap them"@,
    {
        String::from_str("<SPACE>: Select item, use <Space> again on another item to swap them")
    }

    /// Right exactly when the items stand in their right order.
    pub fn validate_answer(&mut self) -> (r: UserAnswer)
        ensures
            r == (if contents(old(self).shuffled.items@) == texts(old(self).answer@) {
                UserAnswer::Correct
            } else {
                UserAnswer::Incorrect
            }),
            final(self).user_answer == r,
            final(self).question == old(self).question,
            final(self).shuffled == old(self).shuffled,
            final(self).answer == old(self).answer,
    {
        let mut current: Vec<String> = Vec::new();
        let mut i: usize = 0;
        while i < self.shuffled.items.len()
            invariant
                i <= self.shuffled.items@.len(),
                texts(current@) == contents(self.shuffled.items@).take(i as int),
            decreases self.shuffled.items@.len() - i,
        {
            let ghost before = current@;
            let text = self.shuffled.items[i].content.clone();
            assert(text@ == contents(self.shuffled.items@)[i as int]);
            current.push(text);
            assert(texts(current@) =~= texts(before).push(text@));
            assert(texts(current@) =~= contents(self.shuffled.items@).take(i + 1));
            i = i + 1;
        }
        assert(contents(self.shuffled.items@).take(i as int) =~= contents(self.shuffled.items@));
        self.user_answer = if same_texts(&current, &self.answer) {
            UserAnswer::Correct
        } else {
            UserAnswer::Incorrect
        };
        self.user_answer
    }

    /// The card written in `content`: a question line, then the items in
    /// their right order, one per line; the items are then shuffled.
    pub fn parse_raw(content: String) -> (r: Result<Self, ParsingError>)
        ensures
            match title_of(content@) {
                Ok((q, b)) => r matches Ok(c) && c.parsed_from(q, b),
                Err(e) => r matches Err(re) && re == e,
            },
    {
        let chars = chars_of(content.as_str());
        match split_title(&chars) {
            Err(e) => Err(e),
            Ok((question, body)) => {
                let ls = lines_of(&body);
                let mut answer: Vec<String> = Vec::new();
                let mut i: usize = 0;
                while i < ls.len()
                    invariant
                        i <= ls@.len(),
                        texts(answer@) == ordered_from(views(ls@).take(i as int)),
                    decreases ls@.len() - i,
                {
                    let l = &ls[i];
                    let start = if l.len() <= 3 { l.len() } else { 3 };
                    let text = string_of(l, start, l.len());
                    assert(text@ =~= after(l@, 3));
                    let ghost before = answer@;
                    answer.push(text);
                    assert(texts(answer@) =~= texts(before).push(text@));
                    assert(ordered_from(views(ls@).take(i + 1)) =~= ordered_from(
                        views(ls@).take(i as int),
                    ).push(after(l@, 3)));
                    i = i + 1;
                }
                assert(views(ls@).take(i as int) =~= views(ls@));
                let mut items = choices_of(&answer);
                let ghost unshuffled = items@;
                shuffle_items(&mut items);
                proof {
                    lemma_arrangement_contents(items@, unshuffled);
                }
                Ok(Order {
                    question,
                    shuffled: StatefulList::with_items(items),
                    answer,
                    user_answer: UserAnswer::Undecided,
                })
            },
        }
    }

    /// The two selected positions, where exactly two items are selected.
    pub fn multiple_selected(&self) -> (r: Option<(usize, usize)>)
        ensures
            ({
                let sp = selected_positions(self.shuffled.items@);
                if sp.len() == 2 {
                    r matches Some((a, b)) && a == sp[0] && b == sp[1]
                } else {
                    r is None
                }
            }),
            r matches Some((a, b)) ==> a < b < self.shuffled.items@.len(),
    {
        let items = &self.shuffled.items;
        let mut picked: Vec<usize> = Vec::new();
        let mut i: usize = 0;
        while i < items.len()
            invariant
                i <= items@.len(),
                picked@.map_values(|k: usize| k as int) == selected_positions(items@.take(i as int)),
            decreases items@.len() - i,
        {
            let ghost t = items@.take(i + 1);
            assert(t.drop_last() =~= items@.take(i as int));
            if items[i].selected {
                let ghost before = picked@;
                picked.push(i);
                assert(picked@.map_values(|k: usize| k as int) =~= before.map_values(
                    |k: usize| k as int,
                ).push(i as int));
            }
            i = i + 1;
        }
        assert(items@.take(i as int) =~= items@);
        proof {
            lemma_selected_positions(items@);
        }
        if picked.len() != 2 {
            assert(selected_positions(items@).len() == picked@.len());
            None
        } else {
            assert(selected_positions(items@)[0] == picked@[0] as int);
            assert(selected_positions(items@)[1] == picked@[1] as int);
            Some((picked[0], picked[1]))
        }
    }

    /// Unselect all items.
    pub fn unselect_all(&mut self)
        ensures
            final(self).shuffled.items@.len() == old(self).shuffled.items@.len(),
            contents(final(self).shuffled.items@) == contents(old(self).shuffled.items@),
            none_selected(final(self).shuffled.items@),
            final(self).shuffled.cursor == old(self).shuffled.cursor,
            final(self).question == old(self).question,
            final(self).answer == old(self).answer,
            final(self).user_answer == old(self).user_answer,
    {
        let mut i: usize = 0;
        while i < self.shuffled.items.len()
            invariant
                i <= self.shuffled.items@.len() == old(self).shuffled.items@.len(),
                forall|j: int|
                    0 <= j < self.shuffled.items@.len() ==> (#[trigger] self.shuffled.items@[j]).content
                        == old(self).shuffled.items@[j].content,
                forall|j: int| 0 <= j < i ==> !(#[trigger] self.shuffled.items@[j]).selected,
                self.shuffled.cursor == old(self).shuffled.cursor,
                self.question == old(self).question,
                self.answer == old(self).answer,
                self.user_answer == old(self).user_answer,
            decreases self.shuffled.items@.len() - i,
        {
            self.shuffled.items[i].unselect();
            i = i + 1;
        }
        assert(contents(self.shuffled.items@) =~= contents(old(self).shuffled.items@));
    }

    /// Where exactly two items are selected, swap them and clear both marks;
    /// otherwise leave the card as it is.
    pub fn swap_selected(&mut self)
        ensures
            final(self).shuffled.cursor == old(self).shuffled.cursor,
            final(self).question == old(self).question,
            final(self).answer == old(self).answer,
            final(self).user_answer == old(self).user_answer,
            swapped_if_two(old(self).shuffled.items@, final(self).shuffled.items@),
    {
        match self.multiple_selected() {
            Some((a, b)) => {
                let ghost before = self.shuffled.items@;
                self.shuffled.swap(a, b);
                assert(contents(self.shuffled.items@) =~= contents(before).update(
                    a as int,
                    contents(before)[b as int],
                ).update(b as int, contents(before)[a as int]));
                self.unselect_all();
            },
            None => {},
        }
    }

    /// While the card is ungraded, toggle the item under the cursor; once two
    /// items are selected, swap them and clear both marks.
    pub fn pick_current(&mut self)
        ensures
            final(self).shuffled.cursor == old(self).shuffled.cursor,
            final(self).question == old(self).question,
            final(self).answer == old(self).answer,
            final(self).user_answer == old(self).user_answer,
            old(self).user_answer != UserAnswer::Undecided ==> final(self).shuffled.items@
                == old(self).shuffled.items@,
            old(self).user_answer == UserAnswer::Undecided && old(self).shuffled.current() is Some
                ==> swapped_if_two(
                toggled(old(self).shuffled.items@, old(self).shuffled.current()->0 as int),
                final(self).shuffled.items@,
            ),
            old(self).user_answer == UserAnswer::Undecided && old(self).shuffled.current() is None
                ==> swapped_if_two(old(self).shuffled.items@, final(self).shuffled.items@),
    {
        if self.user_answer == UserAnswer::Undecided {
            match self.shuffled.selected() {
                Some(index) => {
                    if index < self.shuffled.items.len() {
                        self.shuffled.items[index].select();
                    }
                },
                None => {},
            }
            self.swap_selected();
        }
    }
}

} // verus!
