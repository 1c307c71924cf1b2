//! Dialogues, as functions of the lines that were typed in.
//!
//! A dialogue asks and tells, and takes one line for each prompt. Where the
//! lines run out it waits: from then on it neither asks nor tells, and what it
//! comes to is to be dropped. Run again on one more line, it comes one prompt
//! further.
use crate::builder::{self, CliQuestionType};
use crate::catalog::{self, t, tf1, CatalogView, I18n};
use crate::text::{self, blank, cat3, cat5, parse_usize, same, split, to_lower, trim};
use crate::typed::{self, parse_double, ReadDouble};
use vstd::prelude::*;

verus! {

/// Something that a dialogue says: a prompt, after which a line is typed, or a
/// line of its own.
#[derive(Debug, PartialEq)]
pub enum Said {
    Ask(String),
    Tell(String),
}

#[verifier::ext_equal]
pub enum SaidView {
    Ask(Seq<char>),
    Tell(Seq<char>),
}

impl View for Said {
    type V = SaidView;

    open spec fn view(&self) -> SaidView {
        match *self {
            Said::Ask(text) => SaidView::Ask(text@),
            Said::Tell(text) => SaidView::Tell(text@),
        }
    }
}

/// The lines that were typed in and not taken yet, what was said, and whether the
/// dialogue waits for a line.
#[derive(Debug, PartialEq)]
pub struct Console {
    pub rest: Vec<String>,
    pub said: Vec<Said>,
    pub waiting: bool,
}

#[verifier::ext_equal]
pub struct ConsoleView {
    pub rest: Seq<Seq<char>>,
    pub said: Seq<SaidView>,
    pub waiting: bool,
}

/// What was said, viewed.
pub open spec fn said_view(said: Seq<Said>) -> Seq<SaidView> {
    Seq::new(said.len(), |i: int| said[i]@)
}

impl View for Console {
    type V = ConsoleView;

    open spec fn view(&self) -> ConsoleView {
        ConsoleView {
            rest: text::texts(self.rest@),
            said: said_view(self.said@),
            waiting: self.waiting,
        }
    }
}

/// After a line was told.
pub open spec fn told(d: ConsoleView, line: Seq<char>) -> ConsoleView {
    if d.waiting {
        d
    } else {
        ConsoleView { said: d.said.push(SaidView::Tell(line)), ..d }
    }
}

/// A prompt with its default.
pub open spec fn prompt_text(prompt: Seq<char>, default: Option<Seq<char>>) -> Seq<char> {
    match default {
        Some(default) => prompt + " ["@ + default + "]: "@,
        None => prompt + ": "@,
    }
}

/// The value of a line: its text without white space around it, or else the
/// default.
pub open spec fn line_value(line: Seq<char>, default: Option<Seq<char>>) -> Seq<char> {
    if text::is_blank(line) {
        match default {
            Some(default) => default,
            None => Seq::empty(),
        }
    } else {
        text::trimmed(line)
    }
}

/// A line that is asked for.
pub open spec fn asked_line(d: ConsoleView, prompt: Seq<char>, default: Option<Seq<char>>) -> (
    Seq<char>,
    ConsoleView,
) {
    let said = d.said.push(SaidView::Ask(prompt_text(prompt, default)));
    if d.waiting {
        (Seq::empty(), d)
    } else if d.rest.len() == 0 {
        (Seq::empty(), ConsoleView { said, waiting: true, ..d })
    } else {
        (
            line_value(d.rest[0], default),
            ConsoleView { rest: d.rest.skip(1), said, waiting: false },
        )
    }
}

/// Whether a dialogue took a line or waits.
pub open spec fn shorter(before: ConsoleView, after: ConsoleView) -> bool {
    after.rest.len() <= before.rest.len() && (after.waiting || after.rest.len()
        < before.rest.len())
}

/// Whether one list of what was said starts with another.
#[verifier::opaque]
pub open spec fn starts_as(longer: Seq<SaidView>, start: Seq<SaidView>) -> bool {
    start.len() <= longer.len() && forall|i: int|
        0 <= i < start.len() ==> #[trigger] start[i] == longer[i]
}

/// Whether a dialogue has no line left for the prompt that it said last.
pub open spec fn at_prompt(d: ConsoleView) -> bool {
    d.rest.len() == 0 && d.said.len() > 0 && d.said.last() is Ask
}

/// Whether a dialogue took no line back and took back nothing that it said,
/// stayed as it was where it waited, and came to wait only at a prompt.
pub open spec fn went_on(before: ConsoleView, after: ConsoleView) -> bool {
    &&& after.rest.len() <= before.rest.len()
    &&& starts_as(after.said, before.said)
    &&& before.waiting ==> after == before
    &&& after.waiting && !before.waiting ==> at_prompt(after)
}

pub broadcast proof fn lemma_starts_as_itself(said: Seq<SaidView>)
    ensures
        #[trigger] starts_as(said, said),
{
    reveal(starts_as);
}

pub broadcast proof fn lemma_starts_as_before(
    longer: Seq<SaidView>,
    middle: Seq<SaidView>,
    start: Seq<SaidView>,
)
    requires
        #[trigger] starts_as(longer, middle),
        #[trigger] starts_as(middle, start),
    ensures
        starts_as(longer, start),
{
    reveal(starts_as);
    assert forall|i: int| 0 <= i < start.len() implies #[trigger] start[i] == longer[i] by {
        assert(start[i] == middle[i]);
    }
}

pub broadcast proof fn lemma_told(d: ConsoleView, line: Seq<char>)
    ensures
        went_on(d, #[trigger] told(d, line)),
{
    reveal(starts_as);
}

pub broadcast proof fn lemma_line(d: ConsoleView, prompt: Seq<char>, default: Option<Seq<char>>)
    ensures
        shorter(d, (#[trigger] asked_line(d, prompt, default)).1),
        went_on(d, asked_line(d, prompt, default).1),
{
    reveal(starts_as);
}

/// What a line that is asked for and a line that is told do to a dialogue.
pub broadcast group group_lines {
    lemma_starts_as_itself,
    lemma_starts_as_before,
    lemma_told,
    lemma_line,
}

/// A text that may be left out.
pub open spec fn asked_optional(d: ConsoleView, prompt: Seq<char>) -> (
    Option<Seq<char>>,
    ConsoleView,
) {
    let (value, after) = asked_line(d, prompt, None);
    (
        if text::is_blank(value) {
            None
        } else {
            Some(value)
        },
        after,
    )
}

/// A text that may not be left out.
pub open spec fn asked_text(
    d: ConsoleView,
    prompt: Seq<char>,
    default: Option<Seq<char>>,
    catalog: CatalogView,
) -> (Seq<char>, ConsoleView)
    decreases d.rest.len(),
{
    let (value, after) = asked_line(d, prompt, default);
    if after.waiting || !text::is_blank(value) {
        (value, after)
    } else {
        asked_text(
            told(after, catalog::message(catalog, "cli.prompt.value_empty"@)),
            prompt,
            default,
            catalog,
        )
    }
}

pub proof fn lemma_text(
    d: ConsoleView,
    prompt: Seq<char>,
    default: Option<Seq<char>>,
    catalog: CatalogView,
)
    ensures
        shorter(d, asked_text(d, prompt, default, catalog).1),
        went_on(d, asked_text(d, prompt, default, catalog).1),
    decreases d.rest.len(),
{
    broadcast use group_lines;

    let (value, after) = asked_line(d, prompt, default);
    if !(after.waiting || !text::is_blank(value)) {
        lemma_text(
            told(after, catalog::message(catalog, "cli.prompt.value_empty"@)),
            prompt,
            default,
            catalog,
        );
    }
}

/// The prompt of a question of yes or no.
pub open spec fn yes_no_prompt(prompt: Seq<char>, catalog: CatalogView) -> Seq<char> {
    catalog::message_with(
        catalog,
        "cli.prompt.yes_no"@,
        seq![("prompt"@, text::trimmed(prompt))],
    )
}

/// The default of a question of yes or no, as it is shown.
pub open spec fn yes_no_default(default: bool) -> Seq<char> {
    if default {
        "Y"@
    } else {
        "N"@
    }
}

/// A yes or a no.
pub open spec fn asked_bool(
    d: ConsoleView,
    prompt: Seq<char>,
    default: bool,
    catalog: CatalogView,
) -> (bool, ConsoleView)
    decreases d.rest.len(),
{
    let (line, after) = asked_line(
        d,
        yes_no_prompt(prompt, catalog),
        Some(yes_no_default(default)),
    );
    let word = text::lowercase(text::trimmed(line));
    if after.waiting {
        (false, after)
    } else if word.len() == 0 {
        (default, after)
    } else if word == "y"@ || word == "yes"@ {
        (true, after)
    } else if word == "n"@ || word == "no"@ {
        (false, after)
    } else {
        asked_bool(
            told(
                after,
                catalog::message_with(
                    catalog,
                    "cli.prompt.invalid_yes_no"@,
                    seq![("answer"@, word)],
                ),
            ),
            prompt,
            default,
            catalog,
        )
    }
}

pub proof fn lemma_bool(d: ConsoleView, prompt: Seq<char>, default: bool, catalog: CatalogView)
    ensures
        shorter(d, asked_bool(d, prompt, default, catalog).1),
        went_on(d, asked_bool(d, prompt, default, catalog).1),
    decreases d.rest.len(),
{
    broadcast use group_lines;

    let (line, after) = asked_line(
        d,
        yes_no_prompt(prompt, catalog),
        Some(yes_no_default(default)),
    );
    let word = text::lowercase(text::trimmed(line));
    if !after.waiting && word.len() != 0 && word != "y"@ && word != "yes"@ && word != "n"@ && word
        != "no"@ {
        lemma_bool(
            told(
                after,
                catalog::message_with(
                    catalog,
                    "cli.prompt.invalid_yes_no"@,
                    seq![("answer"@, word)],
                ),
            ),
            prompt,
            default,
            catalog,
        );
    }
}

/// A kind of question.
pub open spec fn asked_kind(d: ConsoleView, catalog: CatalogView) -> (CliQuestionType, ConsoleView)
    decreases d.rest.len(),
{
    let (value, after) = asked_line(
        d,
        catalog::message(catalog, "cli.prompt.question_type"@),
        Some("string"@),
    );
    if after.waiting {
        (CliQuestionType::String, after)
    } else {
        match builder::kind_typed(value, catalog) {
            Ok(kind) => (kind, after),
            Err(complaint) => asked_kind(told(after, complaint), catalog),
        }
    }
}

pub proof fn lemma_kind(d: ConsoleView, catalog: CatalogView)
    ensures
        shorter(d, asked_kind(d, catalog).1),
        went_on(d, asked_kind(d, catalog).1),
    decreases d.rest.len(),
{
    broadcast use group_lines;

    let (value, after) = asked_line(
        d,
        catalog::message(catalog, "cli.prompt.question_type"@),
        Some("string"@),
    );
    if !after.waiting {
        match builder::kind_typed(value, catalog) {
            Ok(_) => {},
            Err(complaint) => lemma_kind(told(after, complaint), catalog),
        }
    }
}

/// Those of several pieces that are not blank, without white space around them.
pub open spec fn words_in(pieces: Seq<Seq<char>>) -> Seq<Seq<char>>
    decreases pieces.len(),
{
    if pieces.len() == 0 {
        Seq::empty()
    } else {
        let before = words_in(pieces.drop_last());
        if text::is_blank(pieces.last()) {
            before
        } else {
            before.push(text::trimmed(pieces.last()))
        }
    }
}

/// The words of a list with commas between them.
pub open spec fn comma_list(raw: Seq<char>) -> Seq<Seq<char>> {
    words_in(text::pieces(raw, ','))
}

/// Reads a list with commas between its words.
pub fn split_commas(raw: &str) -> (r: Vec<String>)
    ensures
        text::texts(r@) == comma_list(raw@),
{
    let pieces = split(raw, ',');
    let ghost views = text::texts(pieces@);
    let mut out: Vec<String> = Vec::new();
    let mut i: usize = 0;
    assert(views.take(0) =~= Seq::empty());
    assert(text::texts(out@) =~= Seq::empty());
    while i < pieces.len()
        invariant
            i <= pieces@.len(),
            views == text::texts(pieces@),
            text::texts(out@) == words_in(views.take(i as int)),
        decreases pieces.len() - i,
    {
        assert(views.take(i + 1).drop_last() =~= views.take(i as int));
        assert(views.take(i + 1).last() == pieces@[i as int]@);
        if !blank(pieces[i].as_str()) {
            let ghost before = text::texts(out@);
            let word = trim(pieces[i].as_str());
            out.push(word);
            assert(text::texts(out@) =~= before.push(word@));
        }
        i += 1;
    }
    assert(views.take(i as int) =~= views);
    out
}

/// The choices of a question.
pub open spec fn asked_choices(d: ConsoleView, catalog: CatalogView) -> (
    Seq<Seq<char>>,
    ConsoleView,
)
    decreases d.rest.len(),
{
    let (raw, after) = asked_line(
        d,
        catalog::message(catalog, "cli.prompt.enum_choices"@),
        None,
    );
    let choices = comma_list(raw);
    if after.waiting {
        (Seq::empty(), after)
    } else if choices.len() > 0 {
        (choices, after)
    } else {
        asked_choices(
            told(after, catalog::message(catalog, "cli.prompt.enum_choices_required"@)),
            catalog,
        )
    }
}

pub proof fn lemma_choices(d: ConsoleView, catalog: CatalogView)
    ensures
        shorter(d, asked_choices(d, catalog).1),
        went_on(d, asked_choices(d, catalog).1),
    decreases d.rest.len(),
{
    broadcast use group_lines;

    let (raw, after) = asked_line(
        d,
        catalog::message(catalog, "cli.prompt.enum_choices"@),
        None,
    );
    if !after.waiting && comma_list(raw).len() == 0 {
        lemma_choices(
            told(after, catalog::message(catalog, "cli.prompt.enum_choices_required"@)),
            catalog,
        );
    }
}

/// A whole number that may be left out.
pub open spec fn asked_usize(d: ConsoleView, prompt: Seq<char>, catalog: CatalogView) -> (
    Option<usize>,
    ConsoleView,
)
    decreases d.rest.len(),
{
    let (raw, after) = asked_line(d, prompt, None);
    let word = text::trimmed(raw);
    if after.waiting || word.len() == 0 {
        (None, after)
    } else {
        match text::usize_value(word) {
            Some(value) => (Some(value as usize), after),
            None => asked_usize(
                told(
                    after,
                    catalog::message(catalog, "cli.prompt.enter_whole_number_or_blank"@),
                ),
                prompt,
                catalog,
            ),
        }
    }
}

pub proof fn lemma_usize(d: ConsoleView, prompt: Seq<char>, catalog: CatalogView)
    ensures
        shorter(d, asked_usize(d, prompt, catalog).1),
        went_on(d, asked_usize(d, prompt, catalog).1),
    decreases d.rest.len(),
{
    broadcast use group_lines;

    let (raw, after) = asked_line(d, prompt, None);
    let word = text::trimmed(raw);
    if !after.waiting && word.len() != 0 && text::usize_value(word) is None {
        lemma_usize(
            told(after, catalog::message(catalog, "cli.prompt.enter_whole_number_or_blank"@)),
            prompt,
            catalog,
        );
    }
}

/// A number that may be left out: its bit pattern and the text that shows it.
pub open spec fn asked_double(d: ConsoleView, prompt: Seq<char>, catalog: CatalogView) -> (
    Option<(u64, Seq<char>)>,
    ConsoleView,
)
    decreases d.rest.len(),
{
    let (raw, after) = asked_line(d, prompt, None);
    let word = text::trimmed(raw);
    if after.waiting || word.len() == 0 {
        (None, after)
    } else {
        match typed::double_typed(word) {
            Some(read) => (Some(read), after),
            None => asked_double(
                told(after, catalog::message(catalog, "cli.prompt.enter_number_or_blank"@)),
                prompt,
                catalog,
            ),
        }
    }
}

pub proof fn lemma_double(d: ConsoleView, prompt: Seq<char>, catalog: CatalogView)
    ensures
        shorter(d, asked_double(d, prompt, catalog).1),
        went_on(d, asked_double(d, prompt, catalog).1),
    decreases d.rest.len(),
{
    broadcast use group_lines;

    let (raw, after) = asked_line(d, prompt, None);
    let word = text::trimmed(raw);
    if !after.waiting && word.len() != 0 && typed::double_typed(word) is None {
        lemma_double(
            told(after, catalog::message(catalog, "cli.prompt.enter_number_or_blank"@)),
            prompt,
            catalog,
        );
    }
}

/// A default, viewed.
pub open spec fn opt_str(text: Option<&str>) -> Option<Seq<char>> {
    match text {
        Some(text) => Some(text@),
        None => None,
    }
}

/// A double, viewed.
pub open spec fn opt_double(read: Option<ReadDouble>) -> Option<(u64, Seq<char>)> {
    match read {
        Some(read) => Some((read.bits, read.text@)),
        None => None,
    }
}

impl Console {
    /// A dialogue on some lines.
    pub fn new(lines: Vec<String>) -> (r: Console)
        ensures
            r@ == (ConsoleView {
                rest: text::texts(lines@),
                said: Seq::empty(),
                waiting: false,
            }),
    {
        let r = Console { rest: lines, said: Vec::new(), waiting: false };
        assert(r@.said =~= Seq::empty());
        r
    }

    /// Tells a line.
    pub fn tell(&mut self, line: String)
        ensures
            final(self)@ == told(old(self)@, line@),
    {
        if !self.waiting {
            let ghost before = said_view(self.said@);
            let ghost shown = line@;
            self.said.push(Said::Tell(line));
            assert(said_view(self.said@) =~= before.push(SaidView::Tell(shown)));
        }
    }

    /// Asks for a line.
    pub fn prompt_line(&mut self, prompt: &str, default: Option<&str>) -> (r: String)
        ensures
            (r@, final(self)@) == asked_line(old(self)@, prompt@, opt_str(default)),
    {
        if self.waiting {
            return String::new();
        }
        let shown = match default {
            Some(default) => cat5(prompt, " [", default, "]", ": "),
            None => cat3(prompt, ": ", ""),
        };
        assert(shown@ =~= prompt_text(prompt@, opt_str(default))) by {
            reveal_strlit("]: ");
            reveal_strlit("]");
            reveal_strlit(": ");
            reveal_strlit("");
            assert("]: "@ =~= "]"@ + ": "@);
            assert(""@ =~= Seq::empty());
        }
        let ghost before = said_view(self.said@);
        self.said.push(Said::Ask(shown));
        assert(said_view(self.said@) =~= before.push(
            SaidView::Ask(prompt_text(prompt@, opt_str(default))),
        ));
        assert(self@.rest.len() == self.rest@.len());
        if self.rest.len() == 0 {
            self.waiting = true;
            return String::new();
        }
        let line = trim(self.rest.remove(0).as_str());
        assert(self@.rest =~= old(self)@.rest.skip(1));
        if text::chars_of(line.as_str()).len() == 0 {
            match default {
                Some(default) => default.to_owned(),
                None => String::new(),
            }
        } else {
            line
        }
    }

    /// Asks for a text that may be left out.
    pub fn prompt_optional(&mut self, prompt: &str) -> (r: Option<String>)
        ensures
            (text::opt_text(r), final(self)@) == asked_optional(old(self)@, prompt@),
    {
        let value = self.prompt_line(prompt, None);
        if blank(value.as_str()) {
            None
        } else {
            Some(value)
        }
    }

    /// Asks for a text that may not be left out.
    pub fn prompt_non_empty(&mut self, prompt: &str, default: Option<&str>, i18n: &I18n) -> (r:
        String)
        ensures
            (r@, final(self)@) == asked_text(old(self)@, prompt@, opt_str(default), i18n@),
    {
        let ghost start = self@;
        loop
            invariant
                asked_text(start, prompt@, opt_str(default), i18n@) == asked_text(
                    self@,
                    prompt@,
                    opt_str(default),
                    i18n@,
                ),
                start == old(self)@,
            decreases self@.rest.len(),
        {
            let value = self.prompt_line(prompt, default);
            if self.waiting || !blank(value.as_str()) {
                return value;
            }
            self.tell(t(i18n, "cli.prompt.value_empty"));
        }
    }

    /// Asks for a yes or a no.
    pub fn prompt_bool(&mut self, prompt: &str, default: bool, i18n: &I18n) -> (r: bool)
        ensures
            (r, final(self)@) == asked_bool(old(self)@, prompt@, default, i18n@),
    {
        let shown = tf1(i18n, "cli.prompt.yes_no", "prompt", trim(prompt).as_str());
        let hint = if default {
            "Y"
        } else {
            "N"
        };
        let ghost start = self@;
        loop
            invariant
                shown@ == yes_no_prompt(prompt@, i18n@),
                hint@ == yes_no_default(default),
                asked_bool(start, prompt@, default, i18n@) == asked_bool(
                    self@,
                    prompt@,
                    default,
                    i18n@,
                ),
                start == old(self)@,
            decreases self@.rest.len(),
        {
            let line = self.prompt_line(shown.as_str(), Some(hint));
            if self.waiting {
                return false;
            }
            let lowered = to_lower(trim(line.as_str()).as_str());
            let word = lowered.as_str();
            if text::chars_of(word).len() == 0 {
                return default;
            }
            if same(word, "y") || same(word, "yes") {
                return true;
            }
            if same(word, "n") || same(word, "no") {
                return false;
            }
            self.tell(tf1(i18n, "cli.prompt.invalid_yes_no", "answer", word));
        }
    }

    /// Asks for a kind of question.
    pub fn prompt_question_type(&mut self, i18n: &I18n) -> (r: CliQuestionType)
        ensures
            (r, final(self)@) == asked_kind(old(self)@, i18n@),
    {
        let prompt = t(i18n, "cli.prompt.question_type");
        let ghost start = self@;
        loop
            invariant
                prompt@ == catalog::message(i18n@, "cli.prompt.question_type"@),
                asked_kind(start, i18n@) == asked_kind(self@, i18n@),
                start == old(self)@,
            decreases self@.rest.len(),
        {
            let value = self.prompt_line(prompt.as_str(), Some("string"));
            if self.waiting {
                return CliQuestionType::String;
            }
            match CliQuestionType::from_str(value.as_str(), i18n) {
                Ok(kind) => {
                    return kind;
                },
                Err(complaint) => {
                    self.tell(complaint);
                },
            }
        }
    }

    /// Asks for the choices of a question.
    pub fn prompt_enum_choices(&mut self, i18n: &I18n) -> (r: Vec<String>)
        ensures
            (text::texts(r@), final(self)@) == asked_choices(old(self)@, i18n@),
    {
        let prompt = t(i18n, "cli.prompt.enum_choices");
        let ghost start = self@;
        loop
            invariant
                prompt@ == catalog::message(i18n@, "cli.prompt.enum_choices"@),
                asked_choices(start, i18n@) == asked_choices(self@, i18n@),
                start == old(self)@,
            decreases self@.rest.len(),
        {
            let raw = self.prompt_line(prompt.as_str(), None);
            let choices = split_commas(raw.as_str());
            assert(text::texts(choices@).len() == choices@.len());
            if self.waiting {
                let none: Vec<String> = Vec::new();
                assert(text::texts(none@) =~= Seq::empty());
                return none;
            }
            if choices.len() > 0 {
                return choices;
            }
            self.tell(t(i18n, "cli.prompt.enum_choices_required"));
        }
    }

    /// Asks for a whole number that may be left out.
    pub fn prompt_optional_usize(&mut self, prompt: &str, i18n: &I18n) -> (r: Option<usize>)
        ensures
            (r, final(self)@) == asked_usize(old(self)@, prompt@, i18n@),
    {
        let ghost start = self@;
        loop
            invariant
                asked_usize(start, prompt@, i18n@) == asked_usize(self@, prompt@, i18n@),
                start == old(self)@,
            decreases self@.rest.len(),
        {
            let raw = self.prompt_line(prompt, None);
            let word = trim(raw.as_str());
            if self.waiting || text::chars_of(word.as_str()).len() == 0 {
                return None;
            }
            if let Some(value) = parse_usize(word.as_str()) {
                return Some(value);
            }
            self.tell(t(i18n, "cli.prompt.enter_whole_number_or_blank"));
        }
    }

    /// Asks for a number that may be left out.
    pub fn prompt_optional_double(&mut self, prompt: &str, i18n: &I18n) -> (r: Option<ReadDouble>)
        ensures
            (opt_double(r), final(self)@) == asked_double(old(self)@, prompt@, i18n@),
    {
        let ghost start = self@;
        loop
            invariant
                asked_double(start, prompt@, i18n@) == asked_double(self@, prompt@, i18n@),
                start == old(self)@,
            decreases self@.rest.len(),
        {
            let raw = self.prompt_line(prompt, None);
            let word = trim(raw.as_str());
            if self.waiting || text::chars_of(word.as_str()).len() == 0 {
                return None;
            }
            if let Some(read) = parse_double(word.as_str()) {
                return Some(read);
            }
            self.tell(t(i18n, "cli.prompt.enter_number_or_blank"));
        }
    }
}

/// A dialogue that waits says nothing more and stays as it is.
pub proof fn law_waiting_dialogue_is_silent(
    d: ConsoleView,
    prompt: Seq<char>,
    default: Option<Seq<char>>,
    line: Seq<char>,
)
    requires
        d.waiting,
    ensures
        asked_line(d, prompt, default).1 == d,
        told(d, line) == d,
{
}

/// A line that is typed at a prompt is taken without the white space around it, and a
/// blank one stands for the default. The prompt is shown with the default, and the
/// lines behind the one that is taken are left.
pub proof fn law_line_is_read(d: ConsoleView, prompt: Seq<char>, default: Option<Seq<char>>)
    requires
        !d.waiting,
        d.rest.len() > 0,
    ensures
        ({
            let (value, after) = asked_line(d, prompt, default);
            &&& !text::is_blank(d.rest[0]) ==> value == text::trimmed(d.rest[0])
            &&& text::is_blank(d.rest[0]) && default is Some ==> value == default->0
            &&& text::is_blank(d.rest[0]) && default is None ==> value.len() == 0
            &&& !after.waiting
            &&& after.rest == d.rest.skip(1)
            &&& after.said.len() == d.said.len() + 1
            &&& forall|i: int| 0 <= i < d.said.len() ==> #[trigger] after.said[i] == d.said[i]
            &&& default is None ==> after.said.last() == SaidView::Ask(prompt + ": "@)
            &&& default is Some ==> after.said.last() == SaidView::Ask(
                prompt + " ["@ + default->0 + "]: "@,
            )
        }),
{
    let (_, after) = asked_line(d, prompt, default);
    assert(after.said =~= d.said.push(SaidView::Ask(prompt_text(prompt, default))));
}

/// A dialogue that has no line to take waits at the prompt that it has shown.
pub proof fn law_line_is_waited_for(
    d: ConsoleView,
    prompt: Seq<char>,
    default: Option<Seq<char>>,
)
    requires
        !d.waiting,
        d.rest.len() == 0,
    ensures
        asked_line(d, prompt, default).1.waiting,
        asked_line(d, prompt, default).1.said == d.said.push(
            SaidView::Ask(prompt_text(prompt, default)),
        ),
{
}

/// What is told is said behind what was said before.
pub proof fn law_told(d: ConsoleView, line: Seq<char>)
    requires
        !d.waiting,
    ensures
        told(d, line).said == d.said.push(SaidView::Tell(line)),
        told(d, line).rest == d.rest,
        !told(d, line).waiting,
{
}

/// A text that may be left out is the line that was typed, or nothing where it is
/// blank.
pub proof fn law_optional_is_read(d: ConsoleView, prompt: Seq<char>)
    requires
        !d.waiting,
        d.rest.len() > 0,
    ensures
        ({
            let (value, after) = asked_optional(d, prompt);
            &&& !text::is_blank(d.rest[0]) ==> value == Some(text::trimmed(d.rest[0]))
            &&& text::is_blank(d.rest[0]) ==> value is None
            &&& !after.waiting
            &&& after.rest == d.rest.skip(1)
        }),
{
    text::law_trimmed_once(d.rest[0]);
    assert(text::trimmed(Seq::<char>::empty()) =~= Seq::empty());
}

/// A text is the first line that is not blank, or the default where a blank line
/// stands for one that is not blank itself.
pub proof fn law_text_is_read(
    d: ConsoleView,
    prompt: Seq<char>,
    default: Option<Seq<char>>,
    catalog: CatalogView,
)
    requires
        !d.waiting,
        d.rest.len() > 0,
    ensures
        ({
            let (value, after) = asked_text(d, prompt, default, catalog);
            let usable = default is Some && !text::is_blank(default->0);
            &&& !text::is_blank(d.rest[0]) ==> value == text::trimmed(d.rest[0]) && !after.waiting
                && after.rest == d.rest.skip(1)
            &&& text::is_blank(d.rest[0]) && usable ==> value == default->0 && !after.waiting
                && after.rest == d.rest.skip(1)
            &&& text::is_blank(d.rest[0]) && !usable ==> (value, after) == asked_text(
                told(
                    asked_line(d, prompt, default).1,
                    catalog::message(catalog, "cli.prompt.value_empty"@),
                ),
                prompt,
                default,
                catalog,
            )
        }),
{
    text::law_trimmed_once(d.rest[0]);
    assert(text::trimmed(Seq::<char>::empty()) =~= Seq::empty());
}

/// A question for yes or no is answered by these words in any case, or by a blank
/// line for the default. Anything else is told to be no answer, and it is asked
/// again.
pub proof fn law_bool_is_read(
    d: ConsoleView,
    prompt: Seq<char>,
    default: bool,
    catalog: CatalogView,
)
    requires
        !d.waiting,
        d.rest.len() > 0,
    ensures
        ({
            let (value, after) = asked_bool(d, prompt, default, catalog);
            let word = text::lowercase(text::trimmed(d.rest[0]));
            let blank = text::is_blank(d.rest[0]);
            let yes = word == "y"@ || word == "yes"@;
            let no = word == "n"@ || word == "no"@;
            &&& blank || yes || no ==> !after.waiting && after.rest == d.rest.skip(1)
            &&& blank ==> value == default
            &&& !blank && yes ==> value
            &&& !blank && no ==> !value
            &&& !blank && !yes && !no && word.len() > 0 ==> (value, after) == asked_bool(
                told(
                    asked_line(
                        d,
                        yes_no_prompt(prompt, catalog),
                        Some(yes_no_default(default)),
                    ).1,
                    catalog::message_with(
                        catalog,
                        "cli.prompt.invalid_yes_no"@,
                        seq![("answer"@, word)],
                    ),
                ),
                prompt,
                default,
                catalog,
            )
        }),
{
    text::law_trimmed_once(d.rest[0]);
    reveal_strlit("y");
    reveal_strlit("yes");
    reveal_strlit("n");
    reveal_strlit("no");
    reveal_strlit("Y");
    reveal_strlit("N");
    assert("y"@[0] == 'y' && "yes"@[0] == 'y' && "n"@[0] == 'n' && "no"@[0] == 'n');
    assert("y"@.len() == 1 && "yes"@.len() == 3 && "n"@.len() == 1 && "no"@.len() == 2);
    assert(text::trim_start("Y"@) == "Y"@ && text::trim_end("Y"@) == "Y"@);
    assert(text::trim_start("N"@) == "N"@ && text::trim_end("N"@) == "N"@);
    assert(text::lowercase("Y"@) =~= "y"@) by {
        assert(text::all_ascii("Y"@));
    }
    assert(text::lowercase("N"@) =~= "n"@) by {
        assert(text::all_ascii("N"@));
    }
}

/// A kind of question is the one that the line names, or a text's where it is blank.
/// A line that names none is told so, and it is asked again.
pub proof fn law_kind_is_read(d: ConsoleView, catalog: CatalogView)
    requires
        !d.waiting,
        d.rest.len() > 0,
        !text::is_blank(d.rest[0]),
    ensures
        ({
            let (kind, after) = asked_kind(d, catalog);
            match builder::kind_typed(text::trimmed(d.rest[0]), catalog) {
                Ok(named) => kind == named && !after.waiting && after.rest == d.rest.skip(1),
                Err(complaint) => (kind, after) == asked_kind(
                    told(
                        asked_line(
                            d,
                            catalog::message(catalog, "cli.prompt.question_type"@),
                            Some("string"@),
                        ).1,
                        complaint,
                    ),
                    catalog,
                ),
            }
        }),
{
}

/// The words of a list are its pieces between commas, in their order, each without
/// the white space around it; blank pieces are left out.
pub proof fn law_words(pieces: Seq<Seq<char>>, piece: Seq<char>)
    ensures
        words_in(seq![]).len() == 0,
        text::is_blank(piece) ==> words_in(pieces.push(piece)) == words_in(pieces),
        !text::is_blank(piece) ==> words_in(pieces.push(piece)) == words_in(pieces).push(
            text::trimmed(piece),
        ),
{
    assert(pieces.push(piece).drop_last() =~= pieces);
}

/// A list that is typed is cut at its commas.
pub proof fn law_comma_list(raw: Seq<char>)
    ensures
        comma_list(raw) == words_in(text::pieces(raw, ',')),
        text::joined(text::pieces(raw, ','), seq![',']) == raw,
        forall|i: int| 0 <= i < comma_list(raw).len() ==> (#[trigger] comma_list(raw)[i]).len() > 0,
{
    text::law_pieces(raw, ',');
    lemma_words_there(text::pieces(raw, ','));
}

proof fn lemma_words_there(pieces: Seq<Seq<char>>)
    ensures
        forall|i: int| 0 <= i < words_in(pieces).len() ==> (#[trigger] words_in(pieces)[i]).len() > 0,
    decreases pieces.len(),
{
    if pieces.len() > 0 {
        let before = words_in(pieces.drop_last());
        lemma_words_there(pieces.drop_last());
        assert forall|i: int| 0 <= i < words_in(pieces).len() implies (
        #[trigger] words_in(pieces)[i]).len() > 0 by {
            if i < before.len() {
                assert(words_in(pieces)[i] == before[i]);
            }
        }
    }
}

/// The choices of a question are those that are typed in a line that has any.
pub proof fn law_choices_are_read(d: ConsoleView, catalog: CatalogView)
    requires
        !d.waiting,
        d.rest.len() > 0,
        comma_list(text::trimmed(d.rest[0])).len() > 0,
        !text::is_blank(d.rest[0]),
    ensures
        asked_choices(d, catalog).0 == comma_list(text::trimmed(d.rest[0])),
        !asked_choices(d, catalog).1.waiting,
        asked_choices(d, catalog).1.rest == d.rest.skip(1),
{
}

/// A dialogue that goes on after choices were asked for has at least one.
pub proof fn law_some_choice_is_read(d: ConsoleView, catalog: CatalogView)
    ensures
        !asked_choices(d, catalog).1.waiting ==> asked_choices(d, catalog).0.len() > 0,
    decreases d.rest.len(),
{
    let (raw, after) = asked_line(
        d,
        catalog::message(catalog, "cli.prompt.enum_choices"@),
        None,
    );
    if !after.waiting && comma_list(raw).len() == 0 {
        law_some_choice_is_read(
            told(after, catalog::message(catalog, "cli.prompt.enum_choices_required"@)),
            catalog,
        );
    }
}

/// A whole number is the one that the line denotes, and a blank line is none.
pub proof fn law_usize_is_read(d: ConsoleView, prompt: Seq<char>, catalog: CatalogView)
    requires
        !d.waiting,
        d.rest.len() > 0,
    ensures
        ({
            let (value, after) = asked_usize(d, prompt, catalog);
            let word = text::trimmed(d.rest[0]);
            let read = text::usize_value(word);
            &&& text::is_blank(d.rest[0]) ==> value is None && !after.waiting && after.rest
                == d.rest.skip(1)
            &&& !text::is_blank(d.rest[0]) && read is Some ==> value == Some(read->0 as usize)
                && !after.waiting && after.rest == d.rest.skip(1)
            &&& !text::is_blank(d.rest[0]) && read is None ==> (value, after) == asked_usize(
                told(
                    asked_line(d, prompt, None).1,
                    catalog::message(catalog, "cli.prompt.enter_whole_number_or_blank"@),
                ),
                prompt,
                catalog,
            )
        }),
{
    text::law_trimmed_once(d.rest[0]);
    assert(text::trimmed(Seq::<char>::empty()) =~= Seq::empty());
}

/// A number is the one that the line is read as, and a blank line is none.
pub proof fn law_double_is_read(d: ConsoleView, prompt: Seq<char>, catalog: CatalogView)
    requires
        !d.waiting,
        d.rest.len() > 0,
    ensures
        ({
            let (value, after) = asked_double(d, prompt, catalog);
            let word = text::trimmed(d.rest[0]);
            let read = typed::double_typed(word);
            &&& text::is_blank(d.rest[0]) ==> value is None && !after.waiting && after.rest
                == d.rest.skip(1)
            &&& !text::is_blank(d.rest[0]) && read is Some ==> value == read && !after.waiting
                && after.rest == d.rest.skip(1)
            &&& !text::is_blank(d.rest[0]) && read is None ==> (value, after) == asked_double(
                told(
                    asked_line(d, prompt, None).1,
                    catalog::message(catalog, "cli.prompt.enter_number_or_blank"@),
                ),
                prompt,
                catalog,
            )
        }),
{
    text::law_trimmed_once(d.rest[0]);
    assert(text::trimmed(Seq::<char>::empty()) =~= Seq::empty());
}

/// A question for yes or no is shown as one, with the letter of the default.
pub proof fn law_bool_is_asked(
    d: ConsoleView,
    prompt: Seq<char>,
    default: bool,
    catalog: CatalogView,
)
    requires
        !d.waiting,
        d.rest.len() == 0,
    ensures
        ({
            let after = asked_bool(d, prompt, default, catalog).1;
            let shown = catalog::message_with(
                catalog,
                "cli.prompt.yes_no"@,
                seq![("prompt"@, text::trimmed(prompt))],
            );
            &&& after.waiting
            &&& default ==> after.said == d.said.push(SaidView::Ask(shown + " ["@ + "Y"@ + "]: "@))
            &&& !default ==> after.said == d.said.push(
                SaidView::Ask(shown + " ["@ + "N"@ + "]: "@),
            )
        }),
{
}

/// A number or a text that may be left out is asked for at the prompt that is given,
/// and it is asked for once where the line answers it.
pub proof fn law_numbers_are_asked(d: ConsoleView, prompt: Seq<char>, catalog: CatalogView)
    requires
        !d.waiting,
        d.rest.len() > 0,
    ensures
        ({
            let asked = d.said.push(SaidView::Ask(prompt + ": "@));
            let word = text::trimmed(d.rest[0]);
            let blank = text::is_blank(d.rest[0]);
            &&& blank || text::usize_value(word) is Some ==> asked_usize(
                d,
                prompt,
                catalog,
            ).1.said == asked
            &&& blank || typed::double_typed(word) is Some ==> asked_double(
                d,
                prompt,
                catalog,
            ).1.said == asked
            &&& asked_optional(d, prompt).1.said == asked
            &&& !blank ==> asked_text(d, prompt, None, catalog).1.said == asked
        }),
{
    text::law_trimmed_once(d.rest[0]);
    assert(text::trimmed(Seq::<char>::empty()) =~= Seq::empty());
}

} // verus!
