use vstd::prelude::*;
use vstd::arithmetic::div_mod::lemma_add_mod_noop_right;
use vstd::string::StringExecFns;
use crate::document::{split_title, title_of};
use crate::errors::ParsingError;
use crate::text::{chars_of, push_all, slice_of, split_chars, split_on, string_of, texts, views};
use crate::user_answer::UserAnswer;

verus! {

/// Relies on String::pop: the last character is removed and returned, and
/// an empty string stays empty.
pub assume_specification[ String::pop ](s: &mut String) -> (r: Option<char>)
    ensures
        old(s)@.len() == 0 ==> r is None && final(s)@ == old(s)@,
        old(s)@.len() > 0 ==> r == Some(old(s)@.last()) && final(s)@ == old(s)@.drop_last(),
;

/// The first position from `j` on that holds `_` or a line break, or the
/// length of `s`.
pub open spec fn stop_at(s: Seq<char>, j: int) -> int
    decreases s.len() - j,
{
    if j < 0 || j >= s.len() {
        s.len() as int
    } else if s[j] == '_' || s[j] == '\n' {
        j
    } else {
        stop_at(s, j + 1)
    }
}

/// Where the blank opened at `p` would close.
pub open spec fn closing(s: Seq<char>, p: int) -> int {
    stop_at(s, p + 1)
}

/// A blank marker starts at `p`: a `_`, then, on the same line, the next `_`.
pub open spec fn opens_blank(s: Seq<char>, p: int) -> bool {
    &&& 0 <= p < s.len()
    &&& s[p] == '_'
    &&& p < closing(s, p) < s.len()
    &&& s[closing(s, p)] == '_'
}

/// The texts inside the blank markers from position `p` on, markers taken
/// leftmost first.
pub open spec fn blanks_from(s: Seq<char>, p: int) -> Seq<Seq<char>>
    decreases s.len() - p,
{
    if p < 0 || p >= s.len() {
        Seq::empty()
    } else if opens_blank(s, p) {
        seq![s.subrange(p + 1, closing(s, p))] + blanks_from(s, closing(s, p) + 1)
    } else {
        blanks_from(s, p + 1)
    }
}

/// The text from position `p` on with each blank marker replaced by `gap`.
pub open spec fn filled_from(s: Seq<char>, p: int, gap: Seq<char>) -> Seq<char>
    decreases s.len() - p,
{
    if p < 0 || p >= s.len() {
        Seq::empty()
    } else if opens_blank(s, p) {
        gap + filled_from(s, closing(s, p) + 1, gap)
    } else {
        seq![s[p]] + filled_from(s, p + 1, gap)
    }
}

/// The placeholder that stands for a blank in the template.
pub open spec fn placeholder() -> Seq<char> {
    seq!['_', '_']
}

/// The texts of the blank markers of a body, such as `blue|azure` in `_blue|azure_`.
pub open spec fn blanks(body: Seq<char>) -> Seq<Seq<char>> {
    blanks_from(body, 0)
}

/// The body with each blank marker replaced by the placeholder.
pub open spec fn template(body: Seq<char>) -> Seq<char> {
    filled_from(body, 0, placeholder())
}

/// The body with each blank marker removed.
pub open spec fn stripped(body: Seq<char>) -> Seq<char> {
    filled_from(body, 0, Seq::empty())
}

/// The accepted values of a blank: its text split at `|`.
pub open spec fn alternatives(blank: Seq<char>) -> Seq<Seq<char>> {
    split_on(blank, seq!['|'])
}

/// What the user typed into slot `k`, or nothing where there is no such slot.
pub open spec fn input_at(inputs: Seq<String>, k: int) -> Seq<char> {
    if 0 <= k < inputs.len() {
        inputs[k]@
    } else {
        Seq::empty()
    }
}

/// The pieces of a template with each gap between two of them filled by the
/// matching input.
pub open spec fn spliced(pieces: Seq<Seq<char>>, inputs: Seq<String>) -> Seq<char>
    decreases pieces.len(),
{
    if pieces.len() == 0 {
        Seq::empty()
    } else if pieces.len() == 1 {
        pieces[0]
    } else {
        spliced(pieces.drop_last(), inputs) + input_at(inputs, pieces.len() - 2) + pieces.last()
    }
}

/// Slot `i` holds nothing, or one of its accepted values.
pub open spec fn slot_accepts(answers: Seq<Vec<String>>, i: int, input: Seq<char>) -> bool {
    input.len() == 0 || (i < answers.len() && texts(answers[i]@).contains(input))
}

/// Nothing has been typed in any slot.
pub open spec fn all_empty(inputs: Seq<String>) -> bool {
    forall|i: int| 0 <= i < inputs.len() ==> (#[trigger] inputs[i])@.len() == 0
}

/// The grade of the typed inputs: open while all are empty; otherwise right
/// unless some non-empty input is not accepted in its slot.
pub open spec fn grade_blanks(inputs: Seq<String>, answers: Seq<Vec<String>>) -> UserAnswer {
    if all_empty(inputs) {
        UserAnswer::Undecided
    } else if forall|i: int|
        0 <= i < inputs.len() ==> slot_accepts(answers, i, (#[trigger] inputs[i])@) {
        UserAnswer::Correct
    } else {
        UserAnswer::Incorrect
    }
}

/// Empty slots everywhere leave the card open; otherwise it is right when
/// every filled slot holds one of its accepted values, and wrong when some
/// filled slot holds anything else.
pub proof fn lemma_blank_grading(inputs: Seq<String>, answers: Seq<Vec<String>>)
    ensures
        all_empty(inputs) ==> grade_blanks(inputs, answers) == UserAnswer::Undecided,
        !all_empty(inputs) && (forall|i: int|
            0 <= i < inputs.len() && (#[trigger] inputs[i])@.len() > 0 ==> i < answers.len() && texts(
                answers[i]@,
            ).contains(inputs[i]@)) ==> grade_blanks(inputs, answers) == UserAnswer::Correct,
        (exists|i: int|
            0 <= i < inputs.len() && (#[trigger] inputs[i])@.len() > 0 && !(i < answers.len()
                && texts(answers[i]@).contains(inputs[i]@))) ==> grade_blanks(inputs, answers)
            == UserAnswer::Incorrect,
{
    if exists|i: int|
        0 <= i < inputs.len() && (#[trigger] inputs[i])@.len() > 0 && !(i < answers.len() && texts(
            answers[i]@,
        ).contains(inputs[i]@)) {
        let i = choose|i: int|
            0 <= i < inputs.len() && (#[trigger] inputs[i])@.len() > 0 && !(i < answers.len()
                && texts(answers[i]@).contains(inputs[i]@));
        assert(!slot_accepts(answers, i, inputs[i]@));
    }
}

/// A blank's accepted values together with the text around it.
#[derive(Debug)]
pub struct Answer {
    pub answers: Vec<String>,
    pub content: String,
}

/// A text with blanks that the user fills in.
pub struct FillInTheBlanks {
    pub question: String,
    /// The body with a placeholder for each blank.
    pub content: String,
    /// The body as shown, with what the user typed in the blanks.
    pub output: String,
    pub user_input: Vec<String>,
    /// The accepted values of each blank, by position.
    pub answers: Vec<Vec<String>>,
    /// The blank being edited.
    pub blank_index: usize,
    pub user_answer: UserAnswer,
}

/// The blanks, the template and the stripped text of a body.
fn scan_blanks(s: &Vec<char>) -> (r: (Vec<Vec<char>>, Vec<char>, Vec<char>))
    ensures
        views(r.0@) == blanks(s@),
        r.1@ == template(s@),
        r.2@ == stripped(s@),
{
    let mut caps: Vec<Vec<char>> = Vec::new();
    let mut tpl: Vec<char> = Vec::new();
    let mut bare: Vec<char> = Vec::new();
    let ghost gap = placeholder();
    let ghost none = Seq::<char>::empty();
    let mut p: usize = 0;
    while p < s.len()
        invariant
            p <= s@.len(),
            gap == placeholder(),
            none == Seq::<char>::empty(),
            views(caps@) + blanks_from(s@, p as int) == blanks_from(s@, 0),
            tpl@ + filled_from(s@, p as int, gap) == filled_from(s@, 0, gap),
            bare@ + filled_from(s@, p as int, none) == filled_from(s@, 0, none),
        decreases s@.len() - p,
    {
        let ghost (c0, t0, b0) = (views(caps@), tpl@, bare@);
        let mut k: usize = p + 1;
        if s[p] == '_' {
            while k < s.len() && s[k] != '_' && s[k] != '\n'
                invariant
                    p < k <= s@.len(),
                    s@[p as int] == '_',
                    stop_at(s@, k as int) == stop_at(s@, p + 1),
                decreases s@.len() - k,
            {
                k = k + 1;
            }
            assert(stop_at(s@, k as int) == k);
        }
        if s[p] == '_' && k < s.len() && s[k] == '_' {
            assert(opens_blank(s@, p as int));
            let cap = slice_of(s, p + 1, k);
            let ghost cr = blanks_from(s@, k + 1);
            let ghost tr = filled_from(s@, k + 1, gap);
            let ghost br = filled_from(s@, k + 1, none);
            caps.push(cap);
            tpl.push('_');
            tpl.push('_');
            assert(views(caps@) =~= c0.push(cap@));
            assert(views(caps@) + cr =~= c0 + (seq![cap@] + cr));
            assert(tpl@ + tr =~= t0 + (gap + tr));
            assert(bare@ + br =~= b0 + (none + br));
            p = k + 1;
        } else {
            assert(!opens_blank(s@, p as int));
            let ghost tr = filled_from(s@, p + 1, gap);
            let ghost br = filled_from(s@, p + 1, none);
            tpl.push(s[p]);
            bare.push(s[p]);
            assert(tpl@ + tr =~= t0 + (seq![s@[p as int]] + tr));
            assert(bare@ + br =~= b0 + (seq![s@[p as int]] + br));
            p = p + 1;
        }
    }
    assert(views(caps@) + Seq::<Seq<char>>::empty() =~= views(caps@));
    assert(tpl@ + none =~= tpl@);
    assert(bare@ + none =~= bare@);
    (caps, tpl, bare)
}

/// The texts of character vectors.
fn strings_of(ps: &Vec<Vec<char>>) -> (r: Vec<String>)
    ensures
        texts(r@) == views(ps@),
{
    let mut r: Vec<String> = Vec::new();
    let mut i: usize = 0;
    while i < ps.len()
        invariant
            i <= ps@.len(),
            texts(r@) == views(ps@).take(i as int),
        decreases ps@.len() - i,
    {
        let text = string_of(&ps[i], 0, ps[i].len());
        assert(text@ =~= ps@[i as int]@);
        let ghost before = r@;
        r.push(text);
        assert(texts(r@) =~= texts(before).push(text@));
        assert(views(ps@).take(i + 1) =~= views(ps@).take(i as int).push(ps@[i as int]@));
        i = i + 1;
    }
    assert(views(ps@).take(i as int) =~= views(ps@));
    r
}

impl FillInTheBlanks {
    /// The card holds `question` and the blanks of `body`, all of them
    /// empty, the first one being edited; it is ungraded.
    pub open spec fn parsed_from(&self, question: Seq<char>, body: Seq<char>) -> bool {
        &&& self.question@ == question
        &&& self.content@ == template(body)
        &&& self.output@ == stripped(body)
        &&& self.answers@.len() == blanks(body).len()
        &&& forall|i: int|
            0 <= i < self.answers@.len() ==> texts((#[trigger] self.answers@[i])@) == alternatives(
                blanks(body)[i],
            )
        &&& self.user_input@.len() == blanks(body).len()
        &&& all_empty(self.user_input@)
        &&& self.blank_index == 0
        &&& self.user_answer == UserAnswer::Undecided
    }

    /// The card has been graded.
    pub fn check_answered(&self) -> (r: bool)
        ensures
            r == (self.user_answer != UserAnswer::Undecided),
    {
        self.user_answer != UserAnswer::Undecided
    }

    /// The card written in `content`: a question line, then a text with
    /// blank markers such as `_blue|azure_`.
    pub fn parse_raw(content: String) -> (r: Result<Self, ParsingError>)
        ensures
            match title_of(content@) {
                Ok((q, b)) => r matches Ok(c) && c.parsed_from(q, b),
                Err(e) => r matches Err(re) && re == e,
            },
    {
        let chars = chars_of(content.as_str());
        match split_title(&chars) {
            Err(e) => Err(e),
            Ok((question, body)) => {
                let (caps, tpl, bare) = scan_blanks(&body);
                let bar = vec!['|'];
                assert(bar@ =~= seq!['|']);
                let mut answers: Vec<Vec<String>> = Vec::new();
                let mut user_input: Vec<String> = Vec::new();
                let mut i: usize = 0;
                while i < caps.len()
                    invariant
                        i <= caps@.len(),
                        bar@ == seq!['|'],
                        answers@.len() == i,
                        user_input@.len() == i,
                        all_empty(user_input@),
                        forall|j: int|
                            0 <= j < i ==> texts((#[trigger] answers@[j])@) == alternatives(
                                caps@[j]@,
                            ),
                    decreases caps@.len() - i,
                {
                    let pieces = split_chars(&caps[i], &bar);
                    answers.push(strings_of(&pieces));
                    user_input.push(String::new());
                    i = i + 1;
                }
                let content = string_of(&tpl, 0, tpl.len());
                let output = string_of(&bare, 0, bare.len());
                assert(content@ =~= tpl@);
                assert(output@ =~= bare@);
                assert forall|j: int| 0 <= j < answers@.len() implies texts(
                    (#[trigger] answers@[j])@,
                ) == alternatives(blanks(body@)[j]) by {
                    assert(views(caps@)[j] == caps@[j]@);
                }
                Ok(FillInTheBlanks {
                    question,
                    content,
                    output,
                    user_input,
                    answers,
                    blank_index: 0,
                    user_answer: UserAnswer::Undecided,
                })
            },
        }
    }

    /// Move to the next blank, from the last back to the first.
    pub fn next(&mut self)
        ensures
            old(self).answers@.len() > 0 ==> final(self).blank_index as int == (
            old(self).blank_index as int + 1) % (old(self).answers@.len() as int),
            old(self).answers@.len() == 0 ==> final(self).blank_index == old(self).blank_index,
            final(self).question == old(self).question,
            final(self).content == old(self).content,
            final(self).output == old(self).output,
            final(self).user_input == old(self).user_input,
            final(self).answers == old(self).answers,
            final(self).user_answer == old(self).user_answer,
    {
        let n = self.answers.len();
        if n > 0 {
            let m = self.blank_index % n;
            proof {
                lemma_add_mod_noop_right(1, self.blank_index as int, n as int);
            }
            self.blank_index = (m + 1) % n;
        }
    }

    pub fn instructions(&self) -> (r: String)
        ensures
            r@
                == "<ESC>: Quit application, <TAB>: Cycle selection, <Char>: Add character pressed to blank space"@,
    {
        String::from_str(
            "<ESC>: Quit application, <TAB>: Cycle selection, <Char>: Add character pressed to blank space",
        )
    }

    /// Grade what was typed in the blanks.
    pub fn validate_answer(&mut self) -> (r: UserAnswer)
        ensures
            r == grade_blanks(old(self).user_input@, old(self).answers@),
            final(self).user_answer == r,
            final(self).question == old(self).question,
            final(self).content == old(self).content,
            final(self).output == old(self).output,
            final(self).user_input == old(self).user_input,
            final(self).answers == old(self).answers,
            final(self).blank_index == old(self).blank_index,
    {
        let n = self.user_input.len();
        let mut any = false;
        let mut all_ok = true;
        let mut i: usize = 0;
        while i < n
            invariant
                n == self.user_input@.len(),
                i <= n,
                any == exists|j: int| 0 <= j < i && (#[trigger] self.user_input@[j])@.len() != 0,
                all_ok == forall|j: int|
                    0 <= j < i ==> slot_accepts(self.answers@, j, (#[trigger] self.user_input@[j])@),
            decreases n - i,
        {
            let item = &self.user_input[i];
            if !item.as_str().is_empty() {
                any = true;
                let mut found = false;
                if i < self.answers.len() {
                    let accepted = &self.answers[i];
                    let mut k: usize = 0;
                    while k < accepted.len()
                        invariant
                            k <= accepted@.len(),
                            found == exists|m: int| 0 <= m < k && (#[trigger] accepted@[m])@ == item@,
                        decreases accepted@.len() - k,
                    {
                        if accepted[k] == *item {
                            found = true;
                        }
                        k = k + 1;
                    }
                    assert(found == texts(accepted@).contains(item@)) by {
                        if found {
                            let m = choose|m: int| 0 <= m < k && (#[trigger] accepted@[m])@ == item@;
                            assert(texts(accepted@)[m] == item@);
                        }
                        if texts(accepted@).contains(item@) {
                            let m = choose|m: int|
                                0 <= m < texts(accepted@).len() && texts(accepted@)[m] == item@;
                            assert(accepted@[m]@ == item@);
                        }
                    }
                }
                if !found {
                    all_ok = false;
                }
            }
            i = i + 1;
        }
        self.user_answer = if !any {
            UserAnswer::Undecided
        } else if all_ok {
            UserAnswer::Correct
        } else {
            UserAnswer::Incorrect
        };
        self.user_answer
    }

    /// Rebuild the shown text: the template with each blank holding what
    /// was typed in it.
    pub fn update_output(&mut self)
        ensures
            final(self).output@ == spliced(split_on(old(self).content@, placeholder()), old(self).user_input@),
            final(self).question == old(self).question,
            final(self).content == old(self).content,
            final(self).user_input == old(self).user_input,
            final(self).answers == old(self).answers,
            final(self).blank_index == old(self).blank_index,
            final(self).user_answer == old(self).user_answer,
    {
        let chars = chars_of(self.content.as_str());
        let gap = vec!['_', '_'];
        assert(gap@ =~= placeholder());
        let pieces = split_chars(&chars, &gap);
        let ghost ps = views(pieces@);
        let mut out: Vec<char> = Vec::new();
        let mut i: usize = 0;
        while i < pieces.len()
            invariant
                i <= pieces@.len(),
                ps == views(pieces@),
                out@ == spliced(ps.take(i as int), self.user_input@),
            decreases pieces@.len() - i,
        {
            let ghost t = ps.take(i + 1);
            assert(t.drop_last() =~= ps.take(i as int));
            assert(t.last() == pieces@[i as int]@);
            if i > 0 {
                if i - 1 < self.user_input.len() {
                    let typed = chars_of(self.user_input[i - 1].as_str());
                    push_all(&mut out, &typed);
                }
            }
            push_all(&mut out, &pieces[i]);
            if i == 0 {
                assert(out@ =~= t[0]);
            }
            i = i + 1;
        }
        assert(ps.take(i as int) =~= ps);
        self.output = string_of(&out, 0, out.len());
        assert(self.output@ =~= out@);
    }

    /// The slot being edited holds `typed` and the shown text follows it;
    /// the other slots and fields stay as they were.
    pub open spec fn edited(&self, old_card: FillInTheBlanks, typed: Seq<char>) -> bool {
        let i = old_card.blank_index as int;
        &&& self.user_input@.len() == old_card.user_input@.len()
        &&& forall|j: int|
            0 <= j < self.user_input@.len() && j != i ==> (#[trigger] self.user_input@[j])
                == old_card.user_input@[j]
        &&& self.user_input@[i]@ == typed
        &&& self.output@ == spliced(split_on(old_card.content@, placeholder()), self.user_input@)
    }

    /// Add a character to the blank being edited.
    pub fn type_char(&mut self, c: char)
        ensures
            old(self).blank_index < old(self).user_input@.len() ==> final(self).edited(
                *old(self),
                old(self).user_input@[old(self).blank_index as int]@.push(c),
            ),
            old(self).blank_index >= old(self).user_input@.len() ==> final(self).user_input
                == old(self).user_input && final(self).output == old(self).output,
            final(self).question == old(self).question,
            final(self).content == old(self).content,
            final(self).answers == old(self).answers,
            final(self).blank_index == old(self).blank_index,
            final(self).user_answer == old(self).user_answer,
    {
        let i = self.blank_index;
        if i < self.user_input.len() {
            self.user_input[i].push(c);
            self.update_output();
        }
    }

    /// Remove the last character of the blank being edited, if any.
    pub fn erase_char(&mut self)
        ensures
            old(self).blank_index < old(self).user_input@.len() ==> final(self).edited(
                *old(self),
                ({
                    let t = old(self).user_input@[old(self).blank_index as int]@;
                    if t.len() == 0 {
                        t
                    } else {
                        t.drop_last()
                    }
                }),
            ),
            old(self).blank_index >= old(self).user_input@.len() ==> final(self).user_input
                == old(self).user_input && final(self).output == old(self).output,
            final(self).question == old(self).question,
            final(self).content == old(self).content,
            final(self).answers == old(self).answers,
            final(self).blank_index == old(self).blank_index,
            final(self).user_answer == old(self).user_answer,
    {
        let i = self.blank_index;
        if i < self.user_input.len() {
            let _ = self.user_input[i].pop();
            self.update_output();
        }
    }
}

} // verus!
